//! Property listing, search and session logic of the live-bet platform.
//!
//! Each executable function here states what it returns in its contract.
//! The web server, the database access and the floating-point parts of the
//! embedding live in the application crate around this library.

pub mod handlers;
pub mod models;
pub mod text;
