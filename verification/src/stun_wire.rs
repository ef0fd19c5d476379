//! The calls into the STUN codec.
//!
//! Nothing in this file is proved. Each function hands bytes to the codec and
//! gives back what the codec made of them; what it returns is named by a
//! function of its arguments, so that the rest of the crate can say exactly
//! which bytes it sends and which values it has read. A message is built up
//! one attribute at a time: the codec reads the message built so far, keeping
//! the attributes it is not asked about byte for byte, appends the new
//! attribute and writes the message out again.

use bytecodec::{DecodeExt, EncodeExt};
use stun_codec::rfc5389::attributes::{
    ErrorCode, MessageIntegrity, Nonce, Realm, Software, Username, XorMappedAddress,
};
use stun_codec::rfc5766::attributes::{
    ChannelNumber, Lifetime, RequestedTransport, XorPeerAddress, XorRelayAddress,
};
use stun_codec::rfc8656::attributes::{AdditionalAddressFamily, AddressFamily};
use stun_codec::{Message, MessageDecoder, MessageEncoder, Method, RawAttribute, TransactionId};
use vstd::prelude::*;
use crate::net::{IpAddr, SocketAddr};
use crate::stun::MessageClass;

verus! {

/// The bytes of a request of `method` with the id `transaction_id` and no
/// attributes; `None` where the codec refuses the method.
pub uninterp spec fn wire_request(method: u16, transaction_id: u128) -> Option<Seq<u8>>;

/// `message` with a SOFTWARE attribute of `description` appended.
pub uninterp spec fn wire_with_software(message: Seq<u8>, description: Seq<char>) -> Option<Seq<u8>>;

/// `message` with a REQUESTED-TRANSPORT attribute of `protocol` appended.
pub uninterp spec fn wire_with_requested_transport(message: Seq<u8>, protocol: u8) -> Option<Seq<u8>>;

/// `message` with an ADDITIONAL-ADDRESS-FAMILY attribute appended that asks
/// for IPv6.
pub uninterp spec fn wire_with_additional_ipv6(message: Seq<u8>) -> Option<Seq<u8>>;

/// `message` with a LIFETIME attribute of `seconds` appended.
pub uninterp spec fn wire_with_lifetime(message: Seq<u8>, seconds: u32) -> Option<Seq<u8>>;

/// `message` with an XOR-PEER-ADDRESS attribute of `peer` appended.
pub uninterp spec fn wire_with_xor_peer_address(message: Seq<u8>, peer: SocketAddr) -> Option<Seq<u8>>;

/// `message` with a CHANNEL-NUMBER attribute of `number` appended.
pub uninterp spec fn wire_with_channel_number(message: Seq<u8>, number: u16) -> Option<Seq<u8>>;

/// `message` with a USERNAME attribute of `name` appended.
pub uninterp spec fn wire_with_username(message: Seq<u8>, name: Seq<char>) -> Option<Seq<u8>>;

/// `message` with a REALM attribute of `text` appended.
pub uninterp spec fn wire_with_realm(message: Seq<u8>, text: Seq<char>) -> Option<Seq<u8>>;

/// `message` with a NONCE attribute of `value` appended.
pub uninterp spec fn wire_with_nonce(message: Seq<u8>, value: Seq<char>) -> Option<Seq<u8>>;

/// `message` with a MESSAGE-INTEGRITY attribute appended that signs it with
/// the long-term credential of `username`, `realm` and `password`.
pub uninterp spec fn wire_with_message_integrity(
    message: Seq<u8>,
    username: Seq<char>,
    realm: Seq<char>,
    password: Seq<char>,
) -> Option<Seq<u8>>;

/// The class, method and transaction id of the message in `packet`; `None`
/// where `packet` is no STUN message.
pub uninterp spec fn wire_header(packet: Seq<u8>) -> Option<(MessageClass, u16, u128)>;

/// The code of the first ERROR-CODE attribute in `packet`. The outer `None`
/// says that the codec could not read the message with its ERROR-CODE
/// attributes, the inner one that it holds none.
pub uninterp spec fn wire_error_code(packet: Seq<u8>) -> Option<Option<u16>>;

/// The value of the first NONCE attribute in `packet`, as [`wire_error_code`].
pub uninterp spec fn wire_nonce(packet: Seq<u8>) -> Option<Option<Seq<char>>>;

/// The text of the first REALM attribute in `packet`, as [`wire_error_code`].
pub uninterp spec fn wire_realm(packet: Seq<u8>) -> Option<Option<Seq<char>>>;

/// The whole seconds of the first LIFETIME attribute in `packet`, as
/// [`wire_error_code`].
pub uninterp spec fn wire_lifetime(packet: Seq<u8>) -> Option<Option<u64>>;

/// How many XOR-MAPPED-ADDRESS attributes `packet` holds; `None` where the
/// codec could not read the message with them.
pub uninterp spec fn wire_xor_mapped_count(packet: Seq<u8>) -> Option<usize>;

/// The address of the XOR-MAPPED-ADDRESS attribute of `packet` at `index`,
/// counted among the attributes of that type.
pub uninterp spec fn wire_xor_mapped_address(packet: Seq<u8>, index: usize) -> Option<SocketAddr>;

/// How many XOR-RELAYED-ADDRESS attributes `packet` holds; `None` where the
/// codec could not read the message with them.
pub uninterp spec fn wire_xor_relay_count(packet: Seq<u8>) -> Option<usize>;

/// The address of the XOR-RELAYED-ADDRESS attribute of `packet` at `index`,
/// counted among the attributes of that type.
pub uninterp spec fn wire_xor_relay_address(packet: Seq<u8>, index: usize) -> Option<SocketAddr>;

/// Whether the codec can read the message in `packet` with its USERNAME
/// attributes.
pub uninterp spec fn wire_reads_username(packet: Seq<u8>) -> bool;

/// Whether the codec can read the message in `packet` with its MESSAGE-INTEGRITY
/// attributes.
pub uninterp spec fn wire_reads_message_integrity(packet: Seq<u8>) -> bool;

/// Whether the codec can read the message in `packet` with its SOFTWARE
/// attributes.
pub uninterp spec fn wire_reads_software(packet: Seq<u8>) -> bool;

/// Whether the codec can read the message in `packet` with its REQUESTED-TRANSPORT
/// attributes.
pub uninterp spec fn wire_reads_requested_transport(packet: Seq<u8>) -> bool;

/// Whether the codec can read the message in `packet` with its ADDITIONAL-ADDRESS-FAMILY
/// attributes.
pub uninterp spec fn wire_reads_additional_address_family(packet: Seq<u8>) -> bool;

/// Whether the codec can read the message in `packet` with its XOR-PEER-ADDRESS
/// attributes.
pub uninterp spec fn wire_reads_xor_peer_address(packet: Seq<u8>) -> bool;

/// Whether the codec can read the message in `packet` with its CHANNEL-NUMBER
/// attributes.
pub uninterp spec fn wire_reads_channel_number(packet: Seq<u8>) -> bool;

/// Whether `bytes` holds the bytes `wire`, or neither holds any.
pub open spec fn same_bytes(bytes: Option<Vec<u8>>, wire: Option<Seq<u8>>) -> bool {
    match bytes {
        Some(b) => wire == Some(b@),
        None => wire is None,
    }
}

/// Whether `text` holds the text `wire`, each as read from a packet.
pub open spec fn same_text(text: Option<Option<String>>, wire: Option<Option<Seq<char>>>) -> bool {
    match text {
        Some(Some(s)) => wire == Some(Some(s@)),
        Some(None) => wire == Some(None::<Seq<char>>),
        None => wire is None,
    }
}

/// Calls `Message::new` and `MessageEncoder::encode_into_bytes`.
///
/// The result is the encoding of a request without attributes. `Method::new`
/// refuses a method above `0xFFF`; the id is the low twelve bytes of
/// `transaction_id`.
#[verifier::external_body]
pub(crate) fn request(method: u16, transaction_id: u128) -> (bytes: Option<Vec<u8>>)
    ensures
        same_bytes(bytes, wire_request(method, transaction_id)),
{
    let id = TransactionId::new(transaction_id.to_be_bytes()[4..].try_into().ok()?);
    let m = Message::<RawAttribute>::new(stun_codec::MessageClass::Request, Method::new(method).ok()?, id);
    MessageEncoder::default().encode_into_bytes(m).ok()
}

/// Calls `Software::new` and `Message::add_attribute` between a decoding and
/// an encoding of the message.
#[verifier::external_body]
pub(crate) fn with_software(message: &[u8], description: &str) -> (bytes: Option<Vec<u8>>)
    ensures
        same_bytes(bytes, wire_with_software(message@, description@)),
{
    let mut m = MessageDecoder::<Software>::default().decode_from_bytes(message).ok()?.ok()?;
    m.add_attribute(Software::new(description.to_owned()).ok()?);
    MessageEncoder::default().encode_into_bytes(m).ok()
}

/// Calls `RequestedTransport::new` and `Message::add_attribute` between a
/// decoding and an encoding of the message.
#[verifier::external_body]
pub(crate) fn with_requested_transport(message: &[u8], protocol: u8) -> (bytes: Option<Vec<u8>>)
    ensures
        same_bytes(bytes, wire_with_requested_transport(message@, protocol)),
{
    let mut m = MessageDecoder::<RequestedTransport>::default().decode_from_bytes(message).ok()?.ok()?;
    m.add_attribute(RequestedTransport::new(protocol));
    MessageEncoder::default().encode_into_bytes(m).ok()
}

/// Calls `AdditionalAddressFamily::new` with the IPv6 family and
/// `Message::add_attribute` between a decoding and an encoding of the message.
#[verifier::external_body]
pub(crate) fn with_additional_ipv6(message: &[u8]) -> (bytes: Option<Vec<u8>>)
    ensures
        same_bytes(bytes, wire_with_additional_ipv6(message@)),
{
    let mut m = MessageDecoder::<AdditionalAddressFamily>::default().decode_from_bytes(message).ok()?.ok()?;
    m.add_attribute(AdditionalAddressFamily::new(AddressFamily::V6));
    MessageEncoder::default().encode_into_bytes(m).ok()
}

/// Calls `Lifetime::from_u32` and `Message::add_attribute` between a decoding
/// and an encoding of the message.
#[verifier::external_body]
pub(crate) fn with_lifetime(message: &[u8], seconds: u32) -> (bytes: Option<Vec<u8>>)
    ensures
        same_bytes(bytes, wire_with_lifetime(message@, seconds)),
{
    let mut m = MessageDecoder::<Lifetime>::default().decode_from_bytes(message).ok()?.ok()?;
    m.add_attribute(Lifetime::from_u32(seconds));
    MessageEncoder::default().encode_into_bytes(m).ok()
}

/// Calls `XorPeerAddress::new` and `Message::add_attribute` between a
/// decoding and an encoding of the message.
#[verifier::external_body]
pub(crate) fn with_xor_peer_address(message: &[u8], peer: SocketAddr) -> (bytes: Option<Vec<u8>>)
    ensures
        same_bytes(bytes, wire_with_xor_peer_address(message@, peer)),
{
    let mut m = MessageDecoder::<XorPeerAddress>::default().decode_from_bytes(message).ok()?.ok()?;
    m.add_attribute(XorPeerAddress::new(match peer.ip() {
        IpAddr::V4(bits) => (core::net::Ipv4Addr::from_bits(bits), peer.port()).into(),
        IpAddr::V6(bits) => (core::net::Ipv6Addr::from_bits(bits), peer.port()).into(),
    }));
    MessageEncoder::default().encode_into_bytes(m).ok()
}

/// Calls `ChannelNumber::new`, which refuses a number outside the channel
/// numbers, and `Message::add_attribute` between a decoding and an encoding
/// of the message.
#[verifier::external_body]
pub(crate) fn with_channel_number(message: &[u8], number: u16) -> (bytes: Option<Vec<u8>>)
    ensures
        same_bytes(bytes, wire_with_channel_number(message@, number)),
{
    let mut m = MessageDecoder::<ChannelNumber>::default().decode_from_bytes(message).ok()?.ok()?;
    m.add_attribute(ChannelNumber::new(number).ok()?);
    MessageEncoder::default().encode_into_bytes(m).ok()
}

/// Calls `Username::new` and `Message::add_attribute` between a decoding and
/// an encoding of the message.
#[verifier::external_body]
pub(crate) fn with_username(message: &[u8], name: &str) -> (bytes: Option<Vec<u8>>)
    ensures
        same_bytes(bytes, wire_with_username(message@, name@)),
{
    let mut m = MessageDecoder::<Username>::default().decode_from_bytes(message).ok()?.ok()?;
    m.add_attribute(Username::new(name.to_owned()).ok()?);
    MessageEncoder::default().encode_into_bytes(m).ok()
}

/// Calls `Realm::new` and `Message::add_attribute` between a decoding and an
/// encoding of the message.
#[verifier::external_body]
pub(crate) fn with_realm(message: &[u8], text: &str) -> (bytes: Option<Vec<u8>>)
    ensures
        same_bytes(bytes, wire_with_realm(message@, text@)),
{
    let mut m = MessageDecoder::<Realm>::default().decode_from_bytes(message).ok()?.ok()?;
    m.add_attribute(Realm::new(text.to_owned()).ok()?);
    MessageEncoder::default().encode_into_bytes(m).ok()
}

/// Calls `Nonce::new` and `Message::add_attribute` between a decoding and an
/// encoding of the message.
#[verifier::external_body]
pub(crate) fn with_nonce(message: &[u8], value: &str) -> (bytes: Option<Vec<u8>>)
    ensures
        same_bytes(bytes, wire_with_nonce(message@, value@)),
{
    let mut m = MessageDecoder::<Nonce>::default().decode_from_bytes(message).ok()?.ok()?;
    m.add_attribute(Nonce::new(value.to_owned()).ok()?);
    MessageEncoder::default().encode_into_bytes(m).ok()
}

/// Calls `MessageIntegrity::new_long_term_credential` on the message and
/// `Message::add_attribute` between a decoding and an encoding of it.
#[verifier::external_body]
pub(crate) fn with_message_integrity(message: &[u8], username: &str, realm: &str, password: &str) -> (bytes:
    Option<Vec<u8>>)
    ensures
        same_bytes(bytes, wire_with_message_integrity(message@, username@, realm@, password@)),
{
    let mut m = MessageDecoder::<MessageIntegrity>::default().decode_from_bytes(message).ok()?.ok()?;
    let user = Username::new(username.to_owned()).ok()?;
    let realm = Realm::new(realm.to_owned()).ok()?;
    m.add_attribute(MessageIntegrity::new_long_term_credential(&m, &user, &realm, password).ok()?);
    MessageEncoder::default().encode_into_bytes(m).ok()
}

/// Calls `MessageDecoder::decode_from_bytes` with every attribute kept as
/// raw bytes, then `Message::class`, `method` and `transaction_id`.
#[verifier::external_body]
pub(crate) fn header(packet: &[u8]) -> (r: Option<(MessageClass, u16, u128)>)
    ensures
        r == wire_header(packet@),
{
    let m = MessageDecoder::<RawAttribute>::default().decode_from_bytes(packet).ok()?.ok()?;
    let class = match m.class() {
        stun_codec::MessageClass::Request => MessageClass::Request,
        stun_codec::MessageClass::Indication => MessageClass::Indication,
        stun_codec::MessageClass::SuccessResponse => MessageClass::SuccessResponse,
        stun_codec::MessageClass::ErrorResponse => MessageClass::ErrorResponse,
    };
    let mut id = [0u8; 16];
    id[4..].copy_from_slice(m.transaction_id().as_bytes());
    Some((class, m.method().as_u16(), u128::from_be_bytes(id)))
}

/// Calls `MessageDecoder::decode_from_bytes`, `Message::attributes` and
/// `ErrorCode::code`.
#[verifier::external_body]
pub(crate) fn error_code(packet: &[u8]) -> (r: Option<Option<u16>>)
    ensures
        r == wire_error_code(packet@),
{
    let m = MessageDecoder::<ErrorCode>::default().decode_from_bytes(packet).ok()?.ok()?;
    let code = m.attributes().next().map(|e| e.code());
    Some(code)
}

/// Calls `MessageDecoder::decode_from_bytes`, `Message::attributes` and
/// `Nonce::value`.
#[verifier::external_body]
pub(crate) fn nonce(packet: &[u8]) -> (r: Option<Option<String>>)
    ensures
        same_text(r, wire_nonce(packet@)),
{
    let m = MessageDecoder::<Nonce>::default().decode_from_bytes(packet).ok()?.ok()?;
    let value = m.attributes().next().map(|n| n.value().to_owned());
    Some(value)
}

/// Calls `MessageDecoder::decode_from_bytes`, `Message::attributes` and
/// `Realm::text`.
#[verifier::external_body]
pub(crate) fn realm(packet: &[u8]) -> (r: Option<Option<String>>)
    ensures
        same_text(r, wire_realm(packet@)),
{
    let m = MessageDecoder::<Realm>::default().decode_from_bytes(packet).ok()?.ok()?;
    let text = m.attributes().next().map(|r| r.text().to_owned());
    Some(text)
}

/// Calls `MessageDecoder::decode_from_bytes`, `Message::attributes` and
/// `Lifetime::lifetime`.
#[verifier::external_body]
pub(crate) fn lifetime(packet: &[u8]) -> (r: Option<Option<u64>>)
    ensures
        r == wire_lifetime(packet@),
{
    let m = MessageDecoder::<Lifetime>::default().decode_from_bytes(packet).ok()?.ok()?;
    let seconds = m.attributes().next().map(|l| l.lifetime().as_secs());
    Some(seconds)
}

/// Calls `MessageDecoder::decode_from_bytes` and counts what
/// `Message::attributes` yields.
#[verifier::external_body]
pub(crate) fn xor_mapped_count(packet: &[u8]) -> (r: Option<usize>)
    ensures
        r == wire_xor_mapped_count(packet@),
{
    let m = MessageDecoder::<XorMappedAddress>::default().decode_from_bytes(packet).ok()?.ok()?;
    let count = m.attributes().count();
    Some(count)
}

/// Calls `MessageDecoder::decode_from_bytes`, `Message::attributes` and
/// `XorMappedAddress::address`.
#[verifier::external_body]
pub(crate) fn xor_mapped_address(packet: &[u8], index: usize) -> (r: Option<SocketAddr>)
    ensures
        r == wire_xor_mapped_address(packet@, index),
{
    let m = MessageDecoder::<XorMappedAddress>::default().decode_from_bytes(packet).ok()?.ok()?;
    let a = m.attributes().nth(index)?.address();
    Some(match a.ip() {
        core::net::IpAddr::V4(ip) => SocketAddr::new(IpAddr::V4(ip.to_bits()), a.port()),
        core::net::IpAddr::V6(ip) => SocketAddr::new(IpAddr::V6(ip.to_bits()), a.port()),
    })
}

/// Calls `MessageDecoder::decode_from_bytes` and counts what
/// `Message::attributes` yields.
#[verifier::external_body]
pub(crate) fn xor_relay_count(packet: &[u8]) -> (r: Option<usize>)
    ensures
        r == wire_xor_relay_count(packet@),
{
    let m = MessageDecoder::<XorRelayAddress>::default().decode_from_bytes(packet).ok()?.ok()?;
    let count = m.attributes().count();
    Some(count)
}

/// Calls `MessageDecoder::decode_from_bytes`, `Message::attributes` and
/// `XorRelayAddress::address`.
#[verifier::external_body]
pub(crate) fn xor_relay_address(packet: &[u8], index: usize) -> (r: Option<SocketAddr>)
    ensures
        r == wire_xor_relay_address(packet@, index),
{
    let m = MessageDecoder::<XorRelayAddress>::default().decode_from_bytes(packet).ok()?.ok()?;
    let a = m.attributes().nth(index)?.address();
    Some(match a.ip() {
        core::net::IpAddr::V4(ip) => SocketAddr::new(IpAddr::V4(ip.to_bits()), a.port()),
        core::net::IpAddr::V6(ip) => SocketAddr::new(IpAddr::V6(ip.to_bits()), a.port()),
    })
}

/// Calls `MessageDecoder::decode_from_bytes` for USERNAME attributes, and
/// says whether it made a message of the packet.
#[verifier::external_body]
pub(crate) fn reads_username(packet: &[u8]) -> (readable: bool)
    ensures
        readable == wire_reads_username(packet@),
{
    MessageDecoder::<Username>::default().decode_from_bytes(packet).is_ok_and(|m| m.is_ok())
}

/// Calls `MessageDecoder::decode_from_bytes` for MESSAGE-INTEGRITY attributes, and
/// says whether it made a message of the packet.
#[verifier::external_body]
pub(crate) fn reads_message_integrity(packet: &[u8]) -> (readable: bool)
    ensures
        readable == wire_reads_message_integrity(packet@),
{
    MessageDecoder::<MessageIntegrity>::default().decode_from_bytes(packet).is_ok_and(|m| m.is_ok())
}

/// Calls `MessageDecoder::decode_from_bytes` for SOFTWARE attributes, and
/// says whether it made a message of the packet.
#[verifier::external_body]
pub(crate) fn reads_software(packet: &[u8]) -> (readable: bool)
    ensures
        readable == wire_reads_software(packet@),
{
    MessageDecoder::<Software>::default().decode_from_bytes(packet).is_ok_and(|m| m.is_ok())
}

/// Calls `MessageDecoder::decode_from_bytes` for REQUESTED-TRANSPORT attributes, and
/// says whether it made a message of the packet.
#[verifier::external_body]
pub(crate) fn reads_requested_transport(packet: &[u8]) -> (readable: bool)
    ensures
        readable == wire_reads_requested_transport(packet@),
{
    MessageDecoder::<RequestedTransport>::default().decode_from_bytes(packet).is_ok_and(|m| m.is_ok())
}

/// Calls `MessageDecoder::decode_from_bytes` for ADDITIONAL-ADDRESS-FAMILY attributes, and
/// says whether it made a message of the packet.
#[verifier::external_body]
pub(crate) fn reads_additional_address_family(packet: &[u8]) -> (readable: bool)
    ensures
        readable == wire_reads_additional_address_family(packet@),
{
    MessageDecoder::<AdditionalAddressFamily>::default().decode_from_bytes(packet).is_ok_and(|m| m.is_ok())
}

/// Calls `MessageDecoder::decode_from_bytes` for XOR-PEER-ADDRESS attributes, and
/// says whether it made a message of the packet.
#[verifier::external_body]
pub(crate) fn reads_xor_peer_address(packet: &[u8]) -> (readable: bool)
    ensures
        readable == wire_reads_xor_peer_address(packet@),
{
    MessageDecoder::<XorPeerAddress>::default().decode_from_bytes(packet).is_ok_and(|m| m.is_ok())
}

/// Calls `MessageDecoder::decode_from_bytes` for CHANNEL-NUMBER attributes, and
/// says whether it made a message of the packet.
#[verifier::external_body]
pub(crate) fn reads_channel_number(packet: &[u8]) -> (readable: bool)
    ensures
        readable == wire_reads_channel_number(packet@),
{
    MessageDecoder::<ChannelNumber>::default().decode_from_bytes(packet).is_ok_and(|m| m.is_ok())
}

/// Calls `rand::random` for twelve bytes.
///
/// The id is drawn afresh at every call, so nothing is said of it but that
/// it fits in twelve bytes.
#[verifier::external_body]
pub(crate) fn random_transaction_id() -> (id: u128)
    ensures
        id < 0x1_0000_0000_0000_0000_0000_0000,
{
    let mut bytes = [0u8; 16];
    bytes[4..].copy_from_slice(&rand::random::<[u8; 12]>());
    u128::from_be_bytes(bytes)
}

} // verus!
