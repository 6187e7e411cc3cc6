//! Chat-task protocol core: wire framing, the chat transcript format, key
//! encoding and signature checks, and the state machines that drive tasks on
//! the server and sessions on the client.

pub mod commands;
pub mod config;
pub mod crypto;
pub mod error;
pub mod frame;
pub mod gateway;
pub mod handler;
pub mod ids;
pub mod json;
pub mod local_store;
pub mod log_view;
pub mod network;
pub mod protocol;
pub mod roundtrip;
pub mod sorting;
pub mod task;
pub mod text;
pub mod text_laws;
pub mod time;
pub mod types;
pub mod users;
pub mod worker;
