//! The rules of the domain.

pub mod admin_password;

pub use admin_password::AdminPassword;
