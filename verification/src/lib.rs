//! The verified core of a pipeline watch server: pipeline control and node outcomes, the
//! event log that WebSocket clients replay, the status shown to viewers, and the HTTP
//! requests and replies of the server.

pub mod artifacts;
pub mod control;
pub mod event_log;
pub mod events;
pub mod http;
pub mod pipeline;
pub mod request;
pub mod runtime;
pub mod server;
pub mod status;
pub mod text;
mod wake;
pub mod ws_client;
