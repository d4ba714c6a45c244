//! Platform-specific extensions.

pub mod macos;
