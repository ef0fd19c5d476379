//! The calls into the WireGuard implementation.
//!
//! Nothing in this file is proved. A tunnel keeps keys, counters and timers
//! of its own and reads the machine's clock, so what it returns is not a
//! function of what it is handed. The functions here say of each call only
//! which kinds of output it can have.

use std::sync::Arc;
use boringtun::noise::errors::WireGuardError;
use boringtun::noise::rate_limiter::RateLimiter;
use boringtun::noise::{Tunn, TunnResult};
use vstd::prelude::*;

verus! {

/// A WireGuard session with one peer.
#[verifier::external_type_specification]
#[verifier::external_body]
pub struct ExTunn(Tunn);

/// What keeps a peer from flooding us with handshakes; shared by the tunnels
/// of one device.
#[verifier::external_type_specification]
#[verifier::external_body]
pub struct ExRateLimiter(RateLimiter);

/// Why a tunnel refused to go on.
#[verifier::external_type_specification]
#[verifier::external_body]
pub struct ExWireGuardError(WireGuardError);

/// The largest datagram that a tunnel handles, and the size of the scratch
/// space that it is handed.
pub const MAX_UDP_SIZE: usize = 65535;

/// What a tunnel adds to a packet that it wraps.
pub const DATA_OVERHEAD: usize = 32;

/// What a tunnel makes of a call.
#[derive(Debug)]
pub enum TunnelOutput {
    /// Nothing is to be done.
    Done,
    /// The tunnel refused to go on.
    Failed(WireGuardError),
    /// The bytes are to be sent to the peer.
    WriteToNetwork(Vec<u8>),
    /// The bytes are an IPv4 packet from the peer at the given address inside
    /// the tunnel.
    WriteToTunnelV4(Vec<u8>, u32),
    /// The bytes are an IPv6 packet from the peer at the given address inside
    /// the tunnel.
    WriteToTunnelV6(Vec<u8>, u128),
}

impl TunnelOutput {
    /// Whether the output is for the network or for nobody, as the output of
    /// a call that does not open anything is.
    pub open spec fn stays_outside(&self) -> bool {
        !(self is WriteToTunnelV4) && !(self is WriteToTunnelV6)
    }
}

/// Calls `Tunn::new`.
#[verifier::external_body]
pub(crate) fn new_tunnel(
    private_key: [u8; 32],
    public_key: [u8; 32],
    preshared_key: [u8; 32],
    persistent_keepalive: Option<u16>,
    index: u32,
    rate_limiter: Arc<RateLimiter>,
) -> Tunn {
    Tunn::new(
        private_key.into(),
        public_key.into(),
        Some(preshared_key),
        persistent_keepalive,
        index,
        Some(rate_limiter),
    )
}

/// Calls `Tunn::update_timers` with `buf` as scratch space.
///
/// The call returns a handshake or a keepalive for the network, an error or
/// nothing; it never opens a packet. The largest of what it writes is a
/// handshake of 148 bytes.
#[verifier::external_body]
pub(crate) fn update_timers(tunnel: &mut Tunn, buf: &mut Vec<u8>) -> (output: TunnelOutput)
    requires
        old(buf)@.len() == MAX_UDP_SIZE,
    ensures
        final(buf)@.len() == old(buf)@.len(),
        output.stays_outside(),
{
    match tunnel.update_timers(buf.as_mut_slice()) {
        TunnResult::Done => TunnelOutput::Done,
        TunnResult::Err(e) => TunnelOutput::Failed(e),
        TunnResult::WriteToNetwork(b) => TunnelOutput::WriteToNetwork(b.to_vec()),
        TunnResult::WriteToTunnelV4(b, a) => TunnelOutput::WriteToTunnelV4(b.to_vec(), a.to_bits()),
        TunnResult::WriteToTunnelV6(b, a) => TunnelOutput::WriteToTunnelV6(b.to_vec(), a.to_bits()),
    }
}

/// Calls `Tunn::encapsulate` with `buf` as scratch space.
///
/// The call returns the wrapped packet or a handshake for the network, an
/// error or nothing; it never opens a packet. It panics where the scratch
/// space is shorter than the packet and what is added to it, or than a
/// handshake.
#[verifier::external_body]
pub(crate) fn encapsulate(tunnel: &mut Tunn, packet: &[u8], buf: &mut Vec<u8>) -> (output: TunnelOutput)
    requires
        old(buf)@.len() == MAX_UDP_SIZE,
        packet@.len() + DATA_OVERHEAD <= MAX_UDP_SIZE,
    ensures
        final(buf)@.len() == old(buf)@.len(),
        output.stays_outside(),
{
    match tunnel.encapsulate(packet, buf.as_mut_slice()) {
        TunnResult::Done => TunnelOutput::Done,
        TunnResult::Err(e) => TunnelOutput::Failed(e),
        TunnResult::WriteToNetwork(b) => TunnelOutput::WriteToNetwork(b.to_vec()),
        TunnResult::WriteToTunnelV4(b, a) => TunnelOutput::WriteToTunnelV4(b.to_vec(), a.to_bits()),
        TunnResult::WriteToTunnelV6(b, a) => TunnelOutput::WriteToTunnelV6(b.to_vec(), a.to_bits()),
    }
}

/// Calls `Tunn::decapsulate` with `buf` as scratch space, and without the
/// address that the datagram came from.
///
/// The call panics where the scratch space is shorter than the datagram, or
/// than a packet that the tunnel has kept to send once the handshake is
/// done, with what is added to it.
#[verifier::external_body]
pub(crate) fn decapsulate(tunnel: &mut Tunn, datagram: &[u8], buf: &mut Vec<u8>) -> (output: TunnelOutput)
    requires
        old(buf)@.len() == MAX_UDP_SIZE,
        datagram@.len() <= MAX_UDP_SIZE,
    ensures
        final(buf)@.len() == old(buf)@.len(),
{
    match tunnel.decapsulate(None, datagram, buf.as_mut_slice()) {
        TunnResult::Done => TunnelOutput::Done,
        TunnResult::Err(e) => TunnelOutput::Failed(e),
        TunnResult::WriteToNetwork(b) => TunnelOutput::WriteToNetwork(b.to_vec()),
        TunnResult::WriteToTunnelV4(b, a) => TunnelOutput::WriteToTunnelV4(b.to_vec(), a.to_bits()),
        TunnResult::WriteToTunnelV6(b, a) => TunnelOutput::WriteToTunnelV6(b.to_vec(), a.to_bits()),
    }
}

} // verus!
