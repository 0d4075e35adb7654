//! An HTTP/WebSocket bridge in front of varlink sockets: the rules that decide
//! which socket a request reaches, who may send it, and what is forwarded.

pub mod auth;
pub mod auth_ssh;
pub mod base64;
pub mod cli;
pub mod client;
pub mod config;
pub mod error;
pub mod headers;
pub mod idl;
pub mod import_ssh;
pub mod interface_name;
pub mod nonce;
pub mod paths;
pub mod signer;
pub mod sockets;
pub mod ssh_keys;
pub mod text;
pub mod text_map;
pub mod tls;
pub mod token;
pub mod ws;
