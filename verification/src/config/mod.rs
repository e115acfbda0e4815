//! Configuration: profiles (session templates) and settings.
pub mod profile;
pub mod store;
pub mod settings;
