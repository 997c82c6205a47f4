//! What runs an app: its database, its handler, and the calls it may make.
pub mod db;
pub mod laws;
pub mod migrate;
pub mod outbound;
pub mod wasm;
