//! What the routes of the application decide and render. The handlers
//! themselves, which speak HTTP and wait for the database, are not here.

pub mod admin;
pub mod flash;
pub mod subscriptions_confirm;
