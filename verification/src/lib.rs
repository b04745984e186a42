//! Verified core of an ESP32 QQ bot: the length-delimited wire framing,
//! the client's connection lifecycle and network-loop decisions, the
//! login and messaging decisions, Wi-Fi configuration choices and the
//! broadcast channel provider used by the protocol client.

pub mod frame;
pub mod client;
pub mod channel;
pub mod session;
pub mod wifi;
