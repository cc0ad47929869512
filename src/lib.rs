//! The protocol plane and address-space engine of an OPC UA server: the UA Binary
//! codec, UA-TCP framing, chunk reassembly, the handshake, service dispatch rules,
//! typed attribute storage and the server's lifecycle decisions.

pub mod status;
pub mod codec;
pub mod string;
pub mod array;
pub mod node_id;
pub mod basic;
pub mod records;
pub mod message;
pub mod variant;
pub mod address_space;
pub mod date_time;
pub mod services;
pub mod server;
pub mod channel;
pub mod service_types;
pub mod endpoints;
