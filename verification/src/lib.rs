//! EcoFlow BLE protocol core: framing, checksums, command encoding, telemetry decoding
//! and the pure decisions of the session handshake, with their contracts.

pub mod crc;
pub mod bytes;
pub mod packet;
pub mod crypto;
pub mod keydata;
pub mod encpacket;
pub mod command;
pub mod model;
pub mod river;
pub mod profile;
pub mod session;
pub mod auth;
pub mod handshake;
pub mod text;
pub mod ble;
pub mod cloud;
pub mod store;
pub mod secp160r1;
pub mod manager;
