//! Verified core of the Loco + Leptos islands starter: configuration
//! validation, the rate limiter's decisions, the nightly restart schedule,
//! hashed asset names and the response texts the server sends.

pub mod app;
pub mod assets;
pub mod clock;
pub mod environment;
pub mod header;
pub mod layout;
pub mod mail;
pub mod maintenance;
pub mod rate_limit;
pub mod render;
pub mod robots;
pub mod settings;
pub mod text;

pub use app::App;
pub use assets::{css_hash, Assets};
pub use environment::Environment;
pub use maintenance::stop_gracefully;
pub use rate_limit::{render_page, KeySource, RateLimit, VisitorIp};
pub use settings::{NightlyRestartSettings, RateLimitSettings, SecuritySettings, Settings};
