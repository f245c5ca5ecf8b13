//! A session relay for driving one long-lived interactive subprocess over
//! local rendezvous endpoints: a client sends line-oriented commands, the
//! relay forwards them to the subprocess, collects the output that arrives
//! within a quiet period, and returns it as one sentinel-framed batch.

pub mod acceptor;
pub mod aggregate;
pub mod bytes;
pub mod config;
pub mod control;
pub mod framing;
pub mod session;
