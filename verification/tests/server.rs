use sigma_theme::server::{listen_port, parse_port};

#[test]
fn listen_addr_defaults_to_8080() {
    // PORT is not set.
    assert_eq!(listen_port(None), 8080);
}

#[test]
fn listen_port_parses_like_str_parse() {
    for text in ["80", "+80", "0080", "65535", "", "+", "-1", "65536", "8a", " 80", "99999999999"] {
        assert_eq!(parse_port(text), text.parse::<u16>().ok(), "{text}");
    }
    assert_eq!(listen_port(Some("3000")), 3000);
    assert_eq!(listen_port(Some("x")), 8080);
}
