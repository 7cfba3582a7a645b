pub mod connection;
pub mod error;
pub mod uri;
pub mod worker;
pub mod selector;
pub mod proxy;
pub mod load_balancer;
pub mod config;
