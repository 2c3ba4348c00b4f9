//! The logic of a graphical login greeter.

pub mod config;
pub mod devices;
pub mod display;
pub mod greet;
pub mod greetd;
pub mod greetd_client;
pub mod keyboard;
pub mod login;
pub mod protocol;
pub mod scene;
pub mod text;
pub mod web;

pub use config::{
    BackgroundConfig, BackgroundEffect, BackgroundKind, Color, Config, InputConfig, InputType,
    PostConfig, ShaderConfig,
};
pub use protocol::{AuthMessageType, ErrorType, Request, Response};
