//! What a signed-in owner or an agent can do to the site.
pub mod admin;
pub mod admin_laws;
pub mod bearer;
pub mod client_oauth;
pub mod laws;
pub mod manifest;
pub mod mcp;
pub mod published;
pub mod scaffold;
pub mod schedule;
pub mod secrets;
pub mod settings_laws;
pub mod site_laws;
pub mod told_laws;
pub mod tool_laws;
pub mod trash;
pub mod upload;
