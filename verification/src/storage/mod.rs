pub mod owners;
pub mod object;
pub mod data;
