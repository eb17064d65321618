//! The decisions of an HTTPS reverse proxy, verified.
//!
//! The library reads no file, opens no socket and waits for nothing. Its caller does, and hands
//! what it saw to the function that decides what follows from it: how the configuration resolves,
//! which upstream a path goes to, which headers are passed on, which TLS material is used, and how
//! the server drains its connections. `outside` holds what is taken on trust of other crates.

pub mod config;
pub mod headers;
pub mod health;
pub mod outside;
pub mod proxy;
pub mod routes;
pub mod server;
pub mod text;
pub mod tls;
