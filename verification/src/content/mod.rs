//! What the site serves: names, files, bundles and pages.
pub mod archive;
pub mod bundle;
pub mod laws;
pub mod page_laws;
pub mod serve;
pub mod serve_laws;
pub mod slug;
pub mod store;
pub mod store_laws;
