//! What the HTTP handlers decide before they call into the services: who is calling, whether the
//! page may open the stream, and whether a request asks for something sensible.

pub mod auth_context;
pub mod export_controller;
pub mod stream_controller;
pub mod timeline_controller;
