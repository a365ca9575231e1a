//! Wake-on-LAN building blocks: the magic packet and the registry of known hosts.

pub mod config;
pub mod configurations;
pub mod registry;
pub mod text;
pub mod wol;
