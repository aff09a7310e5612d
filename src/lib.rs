pub mod http;
pub mod log_config;
pub mod pool;
pub mod server;
pub mod text;
