//! Engine of an API-testing tool: one-shot HTTP exchanges and a registry of
//! long-lived connections addressed by handle.

pub mod endpoint;
pub mod http;
pub mod manager;
pub mod response;
pub mod text;
pub mod transport;
pub mod udp;

pub use http::{HttpRequest, HttpRequestGroup, HttpResponse, Transfer, Verb};
pub use manager::{Command, ConnectionManager, Effect};
