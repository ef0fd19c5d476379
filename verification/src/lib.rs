//! The data plane of a relayed, tunnelled connection, with its rules proved.
//!
//! The heart of the crate is [`allocation::Allocation`], the client side of a
//! TURN allocation on one relay. Around it stand the table of channel
//! bindings, the channel-data framing, the retransmission backoff, the
//! per-peer tunnel with its resource table, and the decisions of the event
//! loops that drive all of them.

pub mod allocation;
pub mod allocation_laws;
pub mod allocation_model;
pub mod allowed_ips;
pub mod backoff;
pub mod candidate;
pub mod channel_bindings;
pub mod channel_data;
pub mod controller;
pub mod eventloop;
pub mod gateway;
pub mod gateway_eventloop;
pub mod headless;
pub mod ip_checksum;
pub mod ip_network;
pub mod ip_packet;
pub mod messages;
pub mod net;
pub mod ordered_keys;
pub mod peer;
pub mod relay_socket;
pub mod resource;
pub mod resource_table;
pub mod ringbuffer;
pub mod stun;
pub mod stun_wire;
pub mod text;
pub mod time;
pub mod tunnel;
