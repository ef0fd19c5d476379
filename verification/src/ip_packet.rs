//! IP packets as bytes: where their addresses and checksums stand, and how
//! to rewrite them.

use vstd::prelude::*;
use vstd::slice::slice_subrange;
use crate::ip_checksum;
use crate::ip_checksum::{
    control_checksum_of, control_v6_checksum_of, ipv4_header_checksum_of, tcp_ipv4_checksum_of, tcp_ipv6_checksum_of,
    udp_ipv4_checksum_of, udp_ipv6_checksum_of,
};
use crate::net::IpAddr;

verus! {

/// The shortest IPv4 header.
pub const IPV4_HEADER_LEN: usize = 20;

/// The IPv6 header.
pub const IPV6_HEADER_LEN: usize = 40;

/// The protocol number of ICMP, the control messages of IPv4.
pub const CONTROL: u8 = 1;

/// The protocol number of TCP.
pub const TCP: u8 = 6;

/// The protocol number of UDP.
pub const UDP: u8 = 17;

/// The protocol number of ICMPv6, the control messages of IPv6.
pub const CONTROL_V6: u8 = 58;

/// The version of an IP packet.
#[derive(Clone, Copy, Debug, PartialEq, Eq, Structural)]
pub enum IpVersion {
    V4,
    V6,
}

/// The number whose bytes, the most significant first, are the two bytes of
/// `bytes` from `at` on.
pub open spec fn spec_be16(bytes: Seq<u8>, at: int) -> u16 {
    (bytes[at] * 0x100 + bytes[at + 1]) as u16
}

/// As [`spec_be16`], of four bytes.
pub open spec fn spec_be32(bytes: Seq<u8>, at: int) -> u32 {
    (spec_be16(bytes, at) * 0x1_0000 + spec_be16(bytes, at + 2)) as u32
}

/// As [`spec_be16`], of eight bytes.
pub open spec fn spec_be64(bytes: Seq<u8>, at: int) -> u64 {
    (spec_be32(bytes, at) * 0x1_0000_0000 + spec_be32(bytes, at + 4)) as u64
}

/// As [`spec_be16`], of sixteen bytes.
pub open spec fn spec_be128(bytes: Seq<u8>, at: int) -> u128 {
    (spec_be64(bytes, at) * 0x1_0000_0000_0000_0000 + spec_be64(bytes, at + 8)) as u128
}

/// The two bytes of `value`, the most significant first.
pub open spec fn spec_bytes16(value: u16) -> Seq<u8> {
    seq![(value / 0x100) as u8, (value % 0x100) as u8]
}

/// The four bytes of `value`, the most significant first.
pub open spec fn spec_bytes32(value: u32) -> Seq<u8> {
    spec_bytes16((value / 0x1_0000) as u16) + spec_bytes16((value % 0x1_0000) as u16)
}

/// The eight bytes of `value`, the most significant first.
pub open spec fn spec_bytes64(value: u64) -> Seq<u8> {
    spec_bytes32((value / 0x1_0000_0000) as u32) + spec_bytes32((value % 0x1_0000_0000) as u32)
}

/// The sixteen bytes of `value`, the most significant first.
pub open spec fn spec_bytes128(value: u128) -> Seq<u8> {
    spec_bytes64((value / 0x1_0000_0000_0000_0000) as u64) + spec_bytes64((value % 0x1_0000_0000_0000_0000) as u64)
}

/// `bytes` with `patch` written over what stood from `at` on.
pub open spec fn spec_patched(bytes: Seq<u8>, at: int, patch: Seq<u8>) -> Seq<u8>
    recommends
        0 <= at,
        at + patch.len() <= bytes.len(),
{
    bytes.subrange(0, at) + patch + bytes.subrange(at + patch.len(), bytes.len() as int)
}

/// The version of the packet in `bytes`: what its first four bits say, where
/// `bytes` is long enough for a header of that version.
pub open spec fn spec_version(bytes: Seq<u8>) -> Option<IpVersion> {
    if bytes.len() >= IPV4_HEADER_LEN && bytes[0] / 16 == 4 {
        Some(IpVersion::V4)
    } else if bytes.len() >= IPV6_HEADER_LEN && bytes[0] / 16 == 6 {
        Some(IpVersion::V6)
    } else {
        None
    }
}

/// The address that the packet says it comes from.
pub open spec fn spec_source(bytes: Seq<u8>) -> IpAddr {
    match spec_version(bytes) {
        Some(IpVersion::V6) => IpAddr::V6(spec_be128(bytes, 8)),
        _ => IpAddr::V4(spec_be32(bytes, 12)),
    }
}

/// The address that the packet is for.
pub open spec fn spec_destination(bytes: Seq<u8>) -> IpAddr {
    match spec_version(bytes) {
        Some(IpVersion::V6) => IpAddr::V6(spec_be128(bytes, 24)),
        _ => IpAddr::V4(spec_be32(bytes, 16)),
    }
}

/// The packet with its source set to `ip`; unchanged where `ip` is not of
/// the packet's version.
pub open spec fn spec_set_source(bytes: Seq<u8>, ip: IpAddr) -> Seq<u8> {
    match (spec_version(bytes), ip) {
        (Some(IpVersion::V4), IpAddr::V4(bits)) => spec_patched(bytes, 12, spec_bytes32(bits)),
        (Some(IpVersion::V6), IpAddr::V6(bits)) => spec_patched(bytes, 8, spec_bytes128(bits)),
        _ => bytes,
    }
}

/// The packet with its destination set to `ip`; unchanged where `ip` is not
/// of the packet's version.
pub open spec fn spec_set_destination(bytes: Seq<u8>, ip: IpAddr) -> Seq<u8> {
    match (spec_version(bytes), ip) {
        (Some(IpVersion::V4), IpAddr::V4(bits)) => spec_patched(bytes, 16, spec_bytes32(bits)),
        (Some(IpVersion::V6), IpAddr::V6(bits)) => spec_patched(bytes, 24, spec_bytes128(bits)),
        _ => bytes,
    }
}

/// The protocol of what the packet carries.
pub open spec fn spec_protocol(bytes: Seq<u8>) -> u8 {
    match spec_version(bytes) {
        Some(IpVersion::V6) => bytes[6],
        _ => bytes[9],
    }
}

/// Where in the packet its payload starts: behind the header, whose length
/// an IPv4 packet names in words of four bytes, and at the end of the packet
/// where the header claims to be longer than that.
pub open spec fn spec_payload_start(bytes: Seq<u8>) -> int {
    match spec_version(bytes) {
        Some(IpVersion::V6) => IPV6_HEADER_LEN as int,
        _ => {
            let header = (bytes[0] % 16) * 4;
            if header > bytes.len() {
                bytes.len() as int
            } else {
                header
            }
        },
    }
}

/// Where in the packet its payload ends: where the lengths in the header
/// say, and at the end of the packet where they point beyond it.
pub open spec fn spec_payload_end(bytes: Seq<u8>) -> int {
    let start = spec_payload_start(bytes);
    let claimed: int = match spec_version(bytes) {
        Some(IpVersion::V6) => IPV6_HEADER_LEN + spec_be16(bytes, 4),
        _ => spec_be16(bytes, 2) as int,
    };
    if claimed < start {
        start
    } else if claimed > bytes.len() {
        bytes.len() as int
    } else {
        claimed
    }
}

/// The payload of the packet.
pub open spec fn spec_payload(bytes: Seq<u8>) -> Seq<u8> {
    bytes.subrange(spec_payload_start(bytes), spec_payload_end(bytes))
}

/// The checksum that belongs into the payload of the packet, and where in
/// the payload it stands: for TCP, UDP, ICMP and ICMPv6, each under its own
/// version of IP, and `None` for anything else, or where the payload is too
/// short for the header of its protocol.
pub open spec fn spec_payload_checksum(bytes: Seq<u8>) -> Option<(int, u16)> {
    let payload = spec_payload(bytes);
    let protocol = spec_protocol(bytes);
    match (spec_version(bytes), spec_source(bytes), spec_destination(bytes)) {
        (Some(IpVersion::V4), IpAddr::V4(src), IpAddr::V4(dst)) => {
            if protocol == UDP {
                with_offset(6, payload, udp_ipv4_checksum_of(payload, src, dst))
            } else if protocol == TCP {
                with_offset(16, payload, tcp_ipv4_checksum_of(payload, src, dst))
            } else if protocol == CONTROL {
                with_offset(2, payload, control_checksum_of(payload))
            } else {
                None
            }
        },
        (Some(IpVersion::V6), IpAddr::V6(src), IpAddr::V6(dst)) => {
            if protocol == UDP {
                with_offset(6, payload, udp_ipv6_checksum_of(payload, src, dst))
            } else if protocol == TCP {
                with_offset(16, payload, tcp_ipv6_checksum_of(payload, src, dst))
            } else if protocol == CONTROL_V6 {
                with_offset(2, payload, control_v6_checksum_of(payload, src, dst))
            } else {
                None
            }
        },
        _ => None,
    }
}

/// `checksum` with the offset `at` at which it stands, where there is a
/// checksum and the payload has room for it there.
pub open spec fn with_offset(at: int, payload: Seq<u8>, checksum: Option<u16>) -> Option<(int, u16)> {
    match checksum {
        Some(c) => if at + 2 <= payload.len() {
            Some((at, c))
        } else {
            None
        },
        None => None,
    }
}

/// The packet with the checksum of its payload brought up to date.
pub open spec fn spec_with_payload_checksum(bytes: Seq<u8>) -> Seq<u8> {
    match spec_payload_checksum(bytes) {
        Some((at, checksum)) => spec_patched(bytes, spec_payload_start(bytes) + at, spec_bytes16(checksum)),
        None => bytes,
    }
}

/// The packet with the checksum of its header brought up to date; an IPv6
/// header has none.
pub open spec fn spec_with_header_checksum(bytes: Seq<u8>) -> Seq<u8> {
    match (spec_version(bytes), ipv4_header_checksum_of(bytes)) {
        (Some(IpVersion::V4), Some(checksum)) => spec_patched(bytes, 10, spec_bytes16(checksum)),
        _ => bytes,
    }
}

/// The packet with its checksums brought up to date: first that of its
/// payload, then that of its header.
pub open spec fn spec_update_checksum(bytes: Seq<u8>) -> Seq<u8> {
    spec_with_header_checksum(spec_with_payload_checksum(bytes))
}

fn be16(bytes: &[u8], at: usize) -> (value: u16)
    requires
        at + 2 <= bytes@.len(),
    ensures
        value == spec_be16(bytes@, at as int),
{
    let hi: u16 = bytes[at] as u16;
    let lo: u16 = bytes[at + 1] as u16;
    hi * 0x100 + lo
}

fn be32(bytes: &[u8], at: usize) -> (value: u32)
    requires
        at + 4 <= bytes@.len(),
    ensures
        value == spec_be32(bytes@, at as int),
{
    let _ = bytes.len();
    let hi: u32 = be16(bytes, at) as u32;
    let lo: u32 = be16(bytes, at + 2) as u32;
    hi * 0x1_0000 + lo
}

fn be64(bytes: &[u8], at: usize) -> (value: u64)
    requires
        at + 8 <= bytes@.len(),
    ensures
        value == spec_be64(bytes@, at as int),
{
    let _ = bytes.len();
    let hi: u64 = be32(bytes, at) as u64;
    let lo: u64 = be32(bytes, at + 4) as u64;
    hi * 0x1_0000_0000 + lo
}

fn be128(bytes: &[u8], at: usize) -> (value: u128)
    requires
        at + 16 <= bytes@.len(),
    ensures
        value == spec_be128(bytes@, at as int),
{
    let _ = bytes.len();
    let hi: u128 = be64(bytes, at) as u128;
    let lo: u128 = be64(bytes, at + 8) as u128;
    hi * 0x1_0000_0000_0000_0000 + lo
}

fn write16(bytes: &mut Vec<u8>, at: usize, value: u16)
    requires
        at + 2 <= old(bytes)@.len(),
    ensures
        final(bytes)@ == spec_patched(old(bytes)@, at as int, spec_bytes16(value)),
{
    let _ = bytes.len();
    bytes.set(at, (value / 0x100) as u8);
    bytes.set(at + 1, (value % 0x100) as u8);
    assert(bytes@ =~= spec_patched(old(bytes)@, at as int, spec_bytes16(value)));
}

fn write32(bytes: &mut Vec<u8>, at: usize, value: u32)
    requires
        at + 4 <= old(bytes)@.len(),
    ensures
        final(bytes)@ == spec_patched(old(bytes)@, at as int, spec_bytes32(value)),
{
    let _ = bytes.len();
    write16(bytes, at, (value / 0x1_0000) as u16);
    write16(bytes, at + 2, (value % 0x1_0000) as u16);
    assert(bytes@ =~= spec_patched(old(bytes)@, at as int, spec_bytes32(value)));
}

fn write64(bytes: &mut Vec<u8>, at: usize, value: u64)
    requires
        at + 8 <= old(bytes)@.len(),
    ensures
        final(bytes)@ == spec_patched(old(bytes)@, at as int, spec_bytes64(value)),
{
    let _ = bytes.len();
    write32(bytes, at, (value / 0x1_0000_0000) as u32);
    write32(bytes, at + 4, (value % 0x1_0000_0000) as u32);
    assert(bytes@ =~= spec_patched(old(bytes)@, at as int, spec_bytes64(value)));
}

fn write128(bytes: &mut Vec<u8>, at: usize, value: u128)
    requires
        at + 16 <= old(bytes)@.len(),
    ensures
        final(bytes)@ == spec_patched(old(bytes)@, at as int, spec_bytes128(value)),
{
    let _ = bytes.len();
    write64(bytes, at, (value / 0x1_0000_0000_0000_0000) as u64);
    write64(bytes, at + 8, (value % 0x1_0000_0000_0000_0000) as u64);
    assert(bytes@ =~= spec_patched(old(bytes)@, at as int, spec_bytes128(value)));
}

/// An IP packet.
#[derive(Debug)]
pub struct IpPacket {
    bytes: Vec<u8>,
}

impl View for IpPacket {
    type V = Seq<u8>;

    closed spec fn view(&self) -> Seq<u8> {
        self.bytes@
    }
}

impl IpPacket {
    /// The bytes start with a header of IPv4 or IPv6.
    pub closed spec fn wf(&self) -> bool {
        spec_version(self.bytes@) is Some
    }

    /// A well-formed packet has a version.
    pub proof fn lemma_wf(&self)
        requires
            self.wf(),
        ensures
            spec_version(self@) is Some,
    {
    }

    /// Takes `bytes` as an IP packet; `None` where they do not start with a
    /// header of IPv4 or IPv6.
    pub fn new(bytes: Vec<u8>) -> (packet: Option<IpPacket>)
        ensures
            match packet {
                Some(p) => p.wf() && p@ == bytes@,
                None => spec_version(bytes@) is None,
            },
    {
        if bytes.len() >= IPV4_HEADER_LEN && bytes[0] / 16 == 4 {
            Some(IpPacket { bytes })
        } else if bytes.len() >= IPV6_HEADER_LEN && bytes[0] / 16 == 6 {
            Some(IpPacket { bytes })
        } else {
            None
        }
    }

    /// The version of the packet.
    pub fn version(&self) -> (version: IpVersion)
        requires
            self.wf(),
        ensures
            Some(version) == spec_version(self@),
    {
        if self.bytes[0] / 16 == 4 {
            IpVersion::V4
        } else {
            IpVersion::V6
        }
    }

    /// The bytes of the packet.
    pub fn packet(&self) -> (bytes: &[u8])
        ensures
            bytes@ == self@,
    {
        self.bytes.as_slice()
    }

    /// Gives the bytes of the packet back.
    pub fn into_bytes(self) -> (bytes: Vec<u8>)
        ensures
            bytes@ == self@,
    {
        self.bytes
    }

    /// The address that the packet says it comes from.
    pub fn source(&self) -> (ip: IpAddr)
        requires
            self.wf(),
        ensures
            ip == spec_source(self@),
    {
        match self.version() {
            IpVersion::V4 => IpAddr::V4(be32(self.bytes.as_slice(), 12)),
            IpVersion::V6 => IpAddr::V6(be128(self.bytes.as_slice(), 8)),
        }
    }

    /// The address that the packet is for.
    pub fn destination(&self) -> (ip: IpAddr)
        requires
            self.wf(),
        ensures
            ip == spec_destination(self@),
    {
        match self.version() {
            IpVersion::V4 => IpAddr::V4(be32(self.bytes.as_slice(), 16)),
            IpVersion::V6 => IpAddr::V6(be128(self.bytes.as_slice(), 24)),
        }
    }

    /// Sets the address that the packet says it comes from. An address of
    /// the other version is passed over.
    pub fn set_source(&mut self, ip: IpAddr)
        requires
            old(self).wf(),
        ensures
            final(self).wf(),
            final(self)@ == spec_set_source(old(self)@, ip),
    {
        match (self.version(), ip) {
            (IpVersion::V4, IpAddr::V4(bits)) => {
                write32(&mut self.bytes, 12, bits);
            },
            (IpVersion::V6, IpAddr::V6(bits)) => {
                write128(&mut self.bytes, 8, bits);
            },
            _ => {},
        }
    }

    /// Sets the address that the packet is for. An address of the other
    /// version is passed over.
    pub fn set_dst(&mut self, ip: IpAddr)
        requires
            old(self).wf(),
        ensures
            final(self).wf(),
            final(self)@ == spec_set_destination(old(self)@, ip),
    {
        match (self.version(), ip) {
            (IpVersion::V4, IpAddr::V4(bits)) => {
                write32(&mut self.bytes, 16, bits);
            },
            (IpVersion::V6, IpAddr::V6(bits)) => {
                write128(&mut self.bytes, 24, bits);
            },
            _ => {},
        }
    }

    fn payload_start(&self) -> (start: usize)
        requires
            self.wf(),
        ensures
            start == spec_payload_start(self@),
            start <= self@.len(),
    {
        match self.version() {
            IpVersion::V6 => IPV6_HEADER_LEN,
            IpVersion::V4 => {
                let header: usize = (self.bytes[0] % 16) as usize * 4;
                if header > self.bytes.len() {
                    self.bytes.len()
                } else {
                    header
                }
            },
        }
    }

    fn payload_end(&self) -> (end: usize)
        requires
            self.wf(),
        ensures
            end == spec_payload_end(self@),
            spec_payload_start(self@) <= end <= self@.len(),
    {
        let start = self.payload_start();
        let claimed: usize = match self.version() {
            IpVersion::V6 => IPV6_HEADER_LEN + be16(self.bytes.as_slice(), 4) as usize,
            IpVersion::V4 => be16(self.bytes.as_slice(), 2) as usize,
        };
        if claimed < start {
            start
        } else if claimed > self.bytes.len() {
            self.bytes.len()
        } else {
            claimed
        }
    }

    fn payload_checksum(&self) -> (checksum: Option<(usize, u16)>)
        requires
            self.wf(),
        ensures
            match checksum {
                Some((at, c)) => spec_payload_checksum(self@) == Some((at as int, c)) && spec_payload_start(self@)
                    + at + 2 <= self@.len(),
                None => spec_payload_checksum(self@) is None,
            },
    {
        let start = self.payload_start();
        let end = self.payload_end();
        let payload = slice_subrange(self.bytes.as_slice(), start, end);
        let protocol = match self.version() {
            IpVersion::V6 => self.bytes[6],
            IpVersion::V4 => self.bytes[9],
        };
        let (at, checksum): (usize, Option<u16>) = match (self.source(), self.destination()) {
            (IpAddr::V4(src), IpAddr::V4(dst)) => {
                if protocol == UDP {
                    (6, ip_checksum::udp_ipv4_checksum(payload, src, dst))
                } else if protocol == TCP {
                    (16, ip_checksum::tcp_ipv4_checksum(payload, src, dst))
                } else if protocol == CONTROL {
                    (2, ip_checksum::control_checksum(payload))
                } else {
                    (0, None)
                }
            },
            (IpAddr::V6(src), IpAddr::V6(dst)) => {
                if protocol == UDP {
                    (6, ip_checksum::udp_ipv6_checksum(payload, src, dst))
                } else if protocol == TCP {
                    (16, ip_checksum::tcp_ipv6_checksum(payload, src, dst))
                } else if protocol == CONTROL_V6 {
                    (2, ip_checksum::control_v6_checksum(payload, src, dst))
                } else {
                    (0, None)
                }
            },
            _ => (0, None),
        };
        match checksum {
            Some(c) => if at + 2 <= payload.len() {
                Some((at, c))
            } else {
                None
            },
            None => None,
        }
    }

    /// Brings the checksums of the packet up to date: that of its payload,
    /// where it carries TCP, UDP or ICMP, and then that of its header.
    pub fn update_checksum(&mut self)
        requires
            old(self).wf(),
        ensures
            final(self).wf(),
            final(self)@ == spec_update_checksum(old(self)@),
    {
        match self.payload_checksum() {
            Some((at, checksum)) => {
                let start = self.payload_start();
                proof {
                    lemma_wf_needs_first_byte(old(self)@, (start + at) as int, spec_bytes16(checksum));
                }
                write16(&mut self.bytes, start + at, checksum);
            },
            None => {},
        }
        match self.version() {
            IpVersion::V4 => match ip_checksum::ipv4_header_checksum(self.bytes.as_slice()) {
                Some(checksum) => {
                    write16(&mut self.bytes, 10, checksum);
                },
                None => {},
            },
            IpVersion::V6 => {},
        }
    }
}

/// Setting an address leaves a packet as long as it was.
pub proof fn lemma_set_address_keeps_length(bytes: Seq<u8>, ip: IpAddr)
    requires
        spec_version(bytes) is Some,
    ensures
        spec_set_source(bytes, ip).len() == bytes.len(),
        spec_set_destination(bytes, ip).len() == bytes.len(),
{
    match ip {
        IpAddr::V4(bits) => {
            assert(spec_bytes32(bits).len() == 4);
        },
        IpAddr::V6(bits) => {
            assert(spec_bytes64((bits / 0x1_0000_0000_0000_0000) as u64).len() == 8);
            assert(spec_bytes64((bits % 0x1_0000_0000_0000_0000) as u64).len() == 8);
            assert(spec_bytes128(bits).len() == 16);
        },
    }
}

/// Bringing the checksums up to date leaves a packet as long as it was.
pub proof fn lemma_update_checksum_keeps_length(bytes: Seq<u8>)
    ensures
        spec_update_checksum(bytes).len() == bytes.len(),
{
    let inner = spec_with_payload_checksum(bytes);
    match spec_payload_checksum(bytes) {
        Some((at, checksum)) => {
            assert(spec_bytes16(checksum).len() == 2);
            assert(spec_payload_start(bytes) + at + 2 <= bytes.len());
        },
        None => {},
    }
    assert(inner.len() == bytes.len());
    match (spec_version(inner), ipv4_header_checksum_of(inner)) {
        (Some(IpVersion::V4), Some(checksum)) => {
            assert(spec_bytes16(checksum).len() == 2);
        },
        _ => {},
    }
}

proof fn lemma_wf_needs_first_byte(bytes: Seq<u8>, at: int, patch: Seq<u8>)
    requires
        1 <= at,
        at + patch.len() <= bytes.len(),
    ensures
        spec_version(spec_patched(bytes, at, patch)) == spec_version(bytes),
{
}

/// An address that was written into a packet is the address that is read
/// from it: after `set_source` the packet comes from the address that was
/// set, and after `set_dst` it is for that address, where the address is of
/// the packet's version.
pub proof fn lemma_addresses_read_back(bytes: Seq<u8>, ip: IpAddr)
    requires
        spec_version(bytes) == Some(
            match ip {
                IpAddr::V4(_) => IpVersion::V4,
                IpAddr::V6(_) => IpVersion::V6,
            },
        ),
    ensures
        spec_source(spec_set_source(bytes, ip)) == ip,
        spec_destination(spec_set_destination(bytes, ip)) == ip,
        spec_version(spec_set_source(bytes, ip)) == spec_version(bytes),
        spec_version(spec_set_destination(bytes, ip)) == spec_version(bytes),
{
    match ip {
        IpAddr::V4(bits) => {
            lemma_be32_reads_bytes32(bytes, 12, bits);
            lemma_be32_reads_bytes32(bytes, 16, bits);
        },
        IpAddr::V6(bits) => {
            lemma_be128_reads_bytes128(bytes, 8, bits);
            lemma_be128_reads_bytes128(bytes, 24, bits);
        },
    }
}

proof fn lemma_be32_reads_bytes32(bytes: Seq<u8>, at: int, value: u32)
    requires
        0 <= at,
        at + 4 <= bytes.len(),
    ensures
        spec_be32(spec_patched(bytes, at, spec_bytes32(value)), at) == value,
{
    let patched = spec_patched(bytes, at, spec_bytes32(value));
    let p = spec_bytes32(value);
    assert(p.len() == 4);
    assert(patched[at] == p[0] && patched[at + 1] == p[1] && patched[at + 2] == p[2] && patched[at + 3] == p[3]);
}

proof fn lemma_be64_reads_bytes64(bytes: Seq<u8>, at: int, value: u64)
    requires
        0 <= at,
        at + 8 <= bytes.len(),
    ensures
        spec_be64(spec_patched(bytes, at, spec_bytes64(value)), at) == value,
{
    let hi = (value / 0x1_0000_0000) as u32;
    let lo = (value % 0x1_0000_0000) as u32;
    let patched = spec_patched(bytes, at, spec_bytes64(value));
    let first = spec_patched(bytes, at, spec_bytes32(hi));
    let second = spec_patched(bytes, at + 4, spec_bytes32(lo));
    lemma_be32_reads_bytes32(bytes, at, hi);
    lemma_be32_reads_bytes32(bytes, at + 4, lo);
    assert(spec_bytes32(hi).len() == 4 && spec_bytes32(lo).len() == 4);
    assert forall|j: int| at <= j < at + 4 implies #[trigger] patched[j] == first[j] by {}
    assert forall|j: int| at + 4 <= j < at + 8 implies #[trigger] patched[j] == second[j] by {}
    assert(spec_be32(patched, at) == spec_be32(first, at));
    assert(spec_be32(patched, at + 4) == spec_be32(second, at + 4));
}

proof fn lemma_be128_reads_bytes128(bytes: Seq<u8>, at: int, value: u128)
    requires
        0 <= at,
        at + 16 <= bytes.len(),
    ensures
        spec_be128(spec_patched(bytes, at, spec_bytes128(value)), at) == value,
{
    let hi = (value / 0x1_0000_0000_0000_0000) as u64;
    let lo = (value % 0x1_0000_0000_0000_0000) as u64;
    let patched = spec_patched(bytes, at, spec_bytes128(value));
    let first = spec_patched(bytes, at, spec_bytes64(hi));
    let second = spec_patched(bytes, at + 8, spec_bytes64(lo));
    lemma_be64_reads_bytes64(bytes, at, hi);
    lemma_be64_reads_bytes64(bytes, at + 8, lo);
    assert(spec_bytes64(hi).len() == 8 && spec_bytes64(lo).len() == 8);
    assert forall|j: int| at <= j < at + 8 implies #[trigger] patched[j] == first[j] by {}
    assert forall|j: int| at + 8 <= j < at + 16 implies #[trigger] patched[j] == second[j] by {}
    assert(spec_be64(patched, at) == spec_be64(first, at));
    assert(spec_be64(patched, at + 8) == spec_be64(second, at + 8));
}

} // verus!
