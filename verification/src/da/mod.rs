pub mod batcher;
pub mod openda;
