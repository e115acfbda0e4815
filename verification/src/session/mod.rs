//! Session lifecycle and theming.
pub mod launch;
pub mod palette;
pub mod pin;
pub mod theme;
