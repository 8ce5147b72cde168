pub mod endpoint;
pub mod session;
pub mod http;
pub mod flight;
