//! Shared site chrome for the Sigma web services: copyright labels, the
//! content-security-policy builder, navbar models, Markdown front matter and
//! the decision logic behind the cached fetches, error pages and static
//! asset routes.

pub mod assets;
pub mod cache;
pub mod calendar;
pub mod content;
pub mod copyright;
pub mod errors;
pub mod nav;
pub mod page_cache;
pub mod security;
pub mod server;
pub mod site_nav;
pub mod templates;
pub mod text;

pub use copyright::{copyright_years, current_year, COPYRIGHT_START_YEAR};
pub use security::{public_html_csp, public_html_csp_production, CSP_ALTCHA};
