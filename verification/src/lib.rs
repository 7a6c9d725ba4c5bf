//! Profile handling and connection decisions for a NetworkManager-backed OpenVPN client.

pub mod text;
pub mod ids;
pub mod nmcli;
pub mod commands;
pub mod paths;
pub mod profile;
pub mod disconnect;
pub mod cleanup;
pub mod bundle;
pub mod session;
pub mod monitor;
pub mod screen;
pub mod flows;
pub mod display;
pub mod worker;
