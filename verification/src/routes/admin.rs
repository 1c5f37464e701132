//! The pages and decisions of the administrator's routes.

pub mod dashboard;
pub mod newsletters;
pub mod password;
