//! Publishing pages, apps and handlers from a shell.
//!
//! Everything here could be done with curl; the point is that the parts that
//! are easy to get wrong (base paths, tar shape, upload order, verifying the
//! result) happen the same way every time.
pub mod deploy;
pub mod init;
pub mod laws;
pub mod plan;
pub mod plan_laws;
pub mod print;
pub mod project;
pub mod react;
pub mod scalar;
pub mod start_laws;
pub mod wire;
