pub mod address_mapping;
pub mod auth_validator;
pub mod genesis;
