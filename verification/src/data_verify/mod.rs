pub mod ord_verify;
