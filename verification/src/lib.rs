//! The session engine of a device agent that speaks Moonlight, the binary
//! protocol between a device and its fleet service, together with the
//! rules of the agent's local interface.
//!
//! The library decides and the host acts: nothing here opens a socket,
//! starts a thread or reads a clock. The host hands in what has arrived
//! and what time it is, and carries out what it is told.
//!
//! - [`wire`], [`packet`], [`codec`]: the frames and their bytes;
//!   [`roundtrip`] and [`stream`] say what the encoder and the decoder
//!   owe each other.
//! - [`server_resp`], [`pending`], [`client_logic`]: the engine of one
//!   session; [`correlation`] and [`handshake`] say what holds of it over
//!   several events.
//! - [`moonlight_client`], [`moonlight_socket`]: the supervisor of the
//!   sessions, the timer and the transport.
//! - [`creds`], [`digest`], [`protocol`]: credentials and the vocabularies
//!   of the protocol.
//! - [`http_server`], [`notifycast`], [`cli`]: the local HTTP interface,
//!   the fan-out of notifications and the command line.
//! - [`text`], [`hex`], [`json`]: text, hexadecimal digits and JSON.

pub mod cli;
pub mod client_logic;
pub mod codec;
pub mod correlation;
pub mod creds;
pub mod digest;
pub mod handshake;
pub mod hex;
pub mod http_server;
pub mod json;
pub mod moonlight_client;
pub mod moonlight_socket;
pub mod notifycast;
pub mod packet;
pub mod pending;
pub mod protocol;
pub mod roundtrip;
pub mod server_resp;
pub mod stream;
pub mod text;
pub mod wire;
