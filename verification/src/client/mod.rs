pub mod service;
pub mod table;
pub mod types;
