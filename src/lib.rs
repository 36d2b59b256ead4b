//! The post-key-exchange core of an SSH endpoint: the encrypted-session state
//! machine, user authentication, and channel multiplexing.
pub mod auth;
pub mod client;
pub mod codec;
pub mod laws;
pub mod msg;
pub mod names;
pub mod server;
pub mod server_channel;
pub mod server_session;
pub mod session;
