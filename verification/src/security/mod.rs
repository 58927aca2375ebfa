//! Security and validation: CSS sanitization and path checks.
pub mod css;
pub mod path;

pub use css::sanitize_css;
