pub mod batch;
pub mod da_laws;
pub mod da_store;
