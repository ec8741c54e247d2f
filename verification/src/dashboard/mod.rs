//! The status panel of the terminal.

pub mod driver;
pub mod render;
pub mod sparkline;
pub mod throttle;

pub use crate::dashboard::render::render_panel;
pub use crate::dashboard::sparkline::{compute_sparkline, update_token_samples};
pub use crate::dashboard::throttle::RenderThrottle;
