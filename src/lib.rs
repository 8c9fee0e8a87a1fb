//! A publish/subscribe relay core: a binary wire codec, per-connection
//! subscription state, a registry from channel ids to subscribed connections,
//! and a dispatcher that applies decoded commands to both.

pub mod codec;
pub mod registry;
pub mod routes;
pub mod connection;
pub mod dispatch;
