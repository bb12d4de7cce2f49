//! The decisions of a desktop traffic-light indicator: where its window
//! sits, what its tray menu does, what its settings file holds, and how its
//! HTTP endpoint answers a request.
pub mod text;
pub mod corner;
pub mod monitor;
pub mod server;
pub mod request;
pub mod settings;
pub mod state;
pub mod menu;
