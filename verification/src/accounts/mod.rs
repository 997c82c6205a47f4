//! People who use published apps, kept apart from those who publish them.
pub mod laws;
pub mod rows;
pub mod schema;
pub mod session_laws;
pub mod users;
pub mod web;
pub mod web_laws;
