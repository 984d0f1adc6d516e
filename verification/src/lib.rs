//! A relay between a Zenoh bus and serverless workers, with the nodes that use it.

pub mod camera;
pub mod chat;
pub mod chat_laws;
pub mod chat_view;
mod chunks;
pub mod codec;
pub mod config;
pub mod egress;
pub mod http;
pub mod ingress;
pub mod ingress_laws;
pub mod joining;
pub mod node;
pub mod node_laws;
pub mod pattern;
pub mod registry;
pub mod relay_laws;
pub mod request_laws;
pub mod requests;
pub mod resolver;
pub mod resolver_laws;
pub mod text;
pub mod text_laws;
pub mod tui;
pub mod tunnel;
pub mod wildcard;
pub mod worker;
