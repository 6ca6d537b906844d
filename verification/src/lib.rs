pub mod client;
pub mod contract_store;
pub mod handler;
pub mod logging;
pub mod memory;
pub mod parser;
pub mod persistence;
pub mod poller;
pub mod text;
pub mod types;
