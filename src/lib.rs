//! A network deception service: protocol engines that answer clients with
//! scripted, pattern-driven responses and keep a transcript of every session.
pub mod config;
pub mod docker;
pub mod engine;
pub mod http;
pub mod net;
pub mod pattern;
pub mod record;
pub mod protocols;
pub mod resolver;
pub mod services;
pub mod ssh;
pub mod template;
pub mod tcp;
pub mod telnet;
pub mod text;
pub mod udp;
