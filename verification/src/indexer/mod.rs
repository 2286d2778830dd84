pub mod query;
pub mod reader;
pub mod repair;
pub mod query_laws;
