pub mod config;
pub mod manager;
pub mod table;
pub mod types;
pub mod wireguard;
