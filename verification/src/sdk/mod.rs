pub mod client;
pub mod ctx;
pub mod queue;
pub mod service;
