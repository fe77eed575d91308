use sigma_theme::nav::{
    page_header, service_url, site_menu, Breadcrumb, MenuItem, ServiceUrls, SiteHeader,
    SiteMenuSection,
};
use sigma_theme::site_nav::SiteChrome;

#[test]
fn builder_sets_breadcrumbs() {
    let header = SiteHeader::new("Cart").with_breadcrumbs(vec![
        Breadcrumb::link("http://store.example/", "Store"),
        Breadcrumb::current("Cart"),
    ]);
    assert_eq!(header.brand_href, "/");
    assert_eq!(header.breadcrumbs.len(), 2);
    assert_eq!(header.breadcrumbs[0].label, "Store");
    assert!(header.breadcrumbs[1].href.is_empty());
    assert_eq!(header.breadcrumbs[1].label, "Cart");
}

#[test]
fn site_menu_lists_store_orders_updates_and_highlights_active() {
    let menu = site_menu(Some(SiteMenuSection::Orders), &ServiceUrls::defaults());
    let labels: Vec<&str> = menu.iter().map(|item| item.label.as_str()).collect();
    assert_eq!(labels, ["Store", "Orders", "Updates"]);
    let active: Vec<bool> = menu.iter().map(|item| item.active).collect();
    assert_eq!(active, [false, true, false]);
    assert!(menu.iter().all(|item| item.href.ends_with('/')));
}

#[test]
fn page_header_names_the_area_and_highlights_the_section() {
    let header = page_header("Orders", Some(SiteMenuSection::Orders), &ServiceUrls::defaults());
    assert_eq!(header.brand_label, "Orders");
    assert_eq!(header.menu.len(), 3);
    assert!(header.menu[1].active);
}

#[test]
fn service_url_trims_defaults_and_appends_slash() {
    assert_eq!(service_url(None, "http://127.0.0.1:8082/"), "http://127.0.0.1:8082/");
    assert_eq!(service_url(Some("  https://store.example  "), "d/"), "https://store.example/");
    assert_eq!(service_url(Some("https://a.example/"), "d/"), "https://a.example/");
    assert_eq!(service_url(Some(" \t "), "http://d"), "http://d/");
    assert_eq!(service_url(Some(""), ""), "/");
}

#[test]
fn service_urls_from_values_and_menu_targets() {
    let urls = ServiceUrls::from_values(Some("https://shop.example"), None, Some("https://news.example/"));
    let menu = site_menu(None, &urls);
    assert_eq!(menu[0].href, "https://shop.example/");
    assert_eq!(menu[1].href, "http://127.0.0.1:8085/");
    assert_eq!(menu[2].href, "https://news.example/");
    assert!(menu.iter().all(|item| !item.active && item.children.is_empty()));
}

#[test]
fn home_header_and_builders() {
    let urls = ServiceUrls::defaults();
    let header = SiteHeader::home(&urls)
        .with_brand_href("https://sigma.example/")
        .with_breadcrumb(Breadcrumb::current("Home"));
    assert_eq!(header.brand_label, "Sigma Tactical Group");
    assert_eq!(header.brand_href, "https://sigma.example/");
    assert_eq!(header.menu.len(), 3);
    assert!(header.menu.iter().all(|item| !item.active));
    assert_eq!(header.breadcrumbs, vec![Breadcrumb::current("Home")]);
}

#[test]
fn menu_item_dropdown_and_clone() {
    let child = MenuItem::link("https://a.example/", "A");
    let dropdown = MenuItem::dropdown("More", vec![child.clone()]).with_active(true);
    assert!(dropdown.href.is_empty());
    assert!(dropdown.active);
    assert_eq!(dropdown.children, vec![child]);
    assert_eq!(dropdown.clone(), dropdown);
    let d = MenuItem::default();
    assert!(d.label.is_empty() && !d.active);
}

#[test]
fn site_chrome_header_and_widget_inputs() {
    let chrome = SiteChrome {
        title: "Store".to_string(),
        identity_base: "https://id.example".to_string(),
        app_base: "https://store.example".to_string(),
        contact_base: "https://contact.example".to_string(),
        cart_url: "https://cart.example/".to_string(),
        show_cart: true,
    };
    let header = chrome.page_header(Some(SiteMenuSection::Store), &ServiceUrls::defaults());
    assert_eq!(header.brand_label, "Store");
    assert!(header.menu[0].active);
    let nav = chrome.app_site_nav("/items", 3);
    assert_eq!(nav.app_base, "https://store.example");
    assert_eq!(nav.return_path, "/items");
    assert_eq!(nav.cart_count, 3);
    assert!(nav.show_cart);
    assert!(!nav.show_contact_us);
    assert_eq!(nav.leading_html, "");
}

#[test]
fn menu_links_from_resolved_targets_end_with_slash() {
    let urls = ServiceUrls::from_values(Some(" https://s.example "), Some(""), None);
    for item in site_menu(None, &urls) {
        assert!(item.href.ends_with('/'), "{}", item.href);
    }
}
