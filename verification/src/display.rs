//! Displays to draw the greeter on.

pub mod formats;
pub mod native;
pub mod setup;
