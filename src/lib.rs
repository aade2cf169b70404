//! Removes tracking parameters from URLs and resolves open redirections,
//! driven by an ordered list of rule providers.

pub mod cleaner;
pub mod decode;
pub mod error;
pub mod laws;
pub mod params;
pub mod pattern;
pub mod provider;
pub mod text;
pub mod weburl;

pub use cleaner::UrlCleaner;
pub use error::Error;
pub use pattern::{Pattern, PatternSet};
pub use provider::Provider;
