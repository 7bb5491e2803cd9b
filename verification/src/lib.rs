//! Connection orchestration for a VPN command-line client: which endpoints an
//! account may use, which one a request resolves to, and the text of the
//! artifacts handed to the native client.

pub mod api;
pub mod catalog;
pub mod cli;
pub mod connect;
pub mod credentials;
pub mod ip;
pub mod openvpn;
pub mod protocol;
pub mod resolve;
pub mod servers;
pub mod settings;
pub mod split_tunnel;
pub mod text;
pub mod tier;
pub mod user;
