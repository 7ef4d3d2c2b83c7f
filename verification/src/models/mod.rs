pub mod property;
pub mod search;
pub mod user;
