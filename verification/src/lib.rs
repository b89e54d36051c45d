//! A verified core for a command line client of the Meroshare service:
//! reading what the user typed, keeping the per-user login tokens,
//! deciding when to log in, and building the addresses of the service.

pub mod text;
pub mod models;
pub mod tokens;
pub mod session;
pub mod menu;
pub mod api;
pub mod handler;
