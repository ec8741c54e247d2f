//! What is answered over HTTP.

pub mod dashboard;
pub mod page;
pub mod routes;
pub mod server;

pub use crate::http::dashboard::render_dashboard;
pub use crate::http::server::HttpServer;
