pub mod error;
pub mod sets;
pub mod store;
pub mod views;
pub mod users;
pub mod messages;
pub mod search;
pub mod password;
pub mod auth;
