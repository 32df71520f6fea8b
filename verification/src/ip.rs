//! The IPv4 header, without options.

use crate::checksum::calculate_checksum_rfc1071;
use crate::checksum::internet_checksum;
use crate::checksum::lemma_checksum_verifies;
use crate::checksum::verifies;
use crate::checksum::word_at;
use crate::text::decimal_text;
use crate::text::push_decimal;
use crate::wire::be32_byte;
use crate::wire::from_be16;
use crate::wire::from_be32;
use crate::wire::hi8;
use crate::wire::lemma_be16_round_trip;
use crate::wire::lemma_be32_decode_encode;
use crate::wire::lemma_be32_encode_decode;
use crate::wire::lo8;
use crate::wire::push_u16;
use crate::wire::push_u32;
use crate::wire::read_u16;
use crate::wire::read_u32;
use vstd::prelude::*;

verus! {

/// The size of an IPv4 header without options, in bytes.
pub const IP_HEADER_SIZE: usize = 20;

/// The protocol number of TCP.
pub const IP_PROTOCOL_TCP: u8 = 6;

/// The longest payload that fits in one datagram behind a header without
/// options: the total length is a 16-bit field.
pub const MAX_IP_PAYLOAD: u16 = 65515;

/// The fields of an IPv4 header, each in host order.
#[derive(Debug, Clone, Copy, PartialEq, Eq, Structural)]
pub struct IpHeader {
    /// Version in the high four bits, header length in 32-bit words in the low four.
    pub version_ihl: u8,
    pub tos: u8,
    /// Length of header and payload together, in bytes.
    pub length: u16,
    pub id: u16,
    /// Three flag bits and the fragment offset.
    pub flags_fragment: u16,
    pub ttl: u8,
    pub protocol: u8,
    pub checksum: u16,
    pub source: u32,
    pub destination: u32,
}

/// Why bytes were not taken as the header of a TCP datagram.
#[derive(Debug, Clone, Copy, PartialEq, Eq, Structural)]
pub enum IpError {
    /// Fewer than 20 bytes.
    Malformed,
    /// The version is not 4 but the one given.
    UnexpectedVersion(u8),
    /// The protocol is not TCP but the one given.
    UnexpectedProtocol(u8),
}

/// The 20 bytes of a header on the wire: every field of more than one byte in
/// network order.
pub open spec fn ip_header_bytes(h: IpHeader) -> Seq<u8> {
    seq![
        h.version_ihl,
        h.tos,
        hi8(h.length),
        lo8(h.length),
        hi8(h.id),
        lo8(h.id),
        hi8(h.flags_fragment),
        lo8(h.flags_fragment),
        h.ttl,
        h.protocol,
        hi8(h.checksum),
        lo8(h.checksum),
        be32_byte(h.source, 0),
        be32_byte(h.source, 1),
        be32_byte(h.source, 2),
        be32_byte(h.source, 3),
        be32_byte(h.destination, 0),
        be32_byte(h.destination, 1),
        be32_byte(h.destination, 2),
        be32_byte(h.destination, 3),
    ]
}

/// The header that the first 20 bytes of `bytes` hold.
pub open spec fn decode_ip_header(bytes: Seq<u8>) -> IpHeader
    recommends
        bytes.len() >= 20,
{
    IpHeader {
        version_ihl: bytes[0],
        tos: bytes[1],
        length: from_be16(bytes[2], bytes[3]),
        id: from_be16(bytes[4], bytes[5]),
        flags_fragment: from_be16(bytes[6], bytes[7]),
        ttl: bytes[8],
        protocol: bytes[9],
        checksum: from_be16(bytes[10], bytes[11]),
        source: from_be32(bytes[12], bytes[13], bytes[14], bytes[15]),
        destination: from_be32(bytes[16], bytes[17], bytes[18], bytes[19]),
    }
}

/// The header of a TCP datagram from `source` to `destination` with
/// `data_len` bytes behind the header, before its checksum is filled in:
/// version 4, five words of header, no fragmentation allowed, 64 hops to live.
pub open spec fn unsummed_ip_header(source: u32, destination: u32, data_len: u16) -> IpHeader {
    IpHeader {
        version_ihl: 0x45,
        tos: 0,
        length: (20 + data_len) as u16,
        id: 0,
        flags_fragment: 0x4000,
        ttl: 64,
        protocol: 6,
        checksum: 0,
        source,
        destination,
    }
}

/// The same header with the checksum of its own 20 bytes.
pub open spec fn new_ip_header(source: u32, destination: u32, data_len: u16) -> IpHeader {
    let unsummed = unsummed_ip_header(source, destination, data_len);
    IpHeader { checksum: internet_checksum(ip_header_bytes(unsummed)) as u16, ..unsummed }
}

/// What parsing the start of a datagram gives: the header, if there are 20
/// bytes of version 4 that announce TCP.
pub open spec fn parse_ip_result(bytes: Seq<u8>) -> Result<IpHeader, IpError> {
    let h = decode_ip_header(bytes);
    if bytes.len() < 20 {
        Err(IpError::Malformed)
    } else if h.version_ihl / 16 != 4 {
        Err(IpError::UnexpectedVersion(h.version_ihl / 16))
    } else if h.protocol != 6 {
        Err(IpError::UnexpectedProtocol(h.protocol))
    } else {
        Ok(h)
    }
}

/// The text of an error.
pub open spec fn ip_error_text(e: IpError) -> Seq<char> {
    match e {
        IpError::Malformed => "Packet too short for IP header"@,
        IpError::UnexpectedVersion(v) => "Expected IPv4 (version 4), got version "@
            + decimal_text(v as nat),
        IpError::UnexpectedProtocol(p) => "Expected TCP (protocol 6), got protocol "@
            + decimal_text(p as nat),
    }
}

impl IpError {
    /// The error in words.
    pub fn message(&self) -> (r: String)
        ensures
            r@ == ip_error_text(*self),
    {
        let mut out = String::new();
        match self {
            IpError::Malformed => {
                out.push_str("Packet too short for IP header");
            },
            IpError::UnexpectedVersion(v) => {
                out.push_str("Expected IPv4 (version 4), got version ");
                push_decimal(&mut out, *v as usize);
            },
            IpError::UnexpectedProtocol(p) => {
                out.push_str("Expected TCP (protocol 6), got protocol ");
                push_decimal(&mut out, *p as usize);
            },
        }
        out
    }
}

impl IpHeader {
    /// The header of a TCP datagram that carries `data_len` bytes, with its
    /// checksum.
    pub fn new(source: u32, dest: u32, data_len: u16) -> (r: Self)
        requires
            data_len <= MAX_IP_PAYLOAD,
        ensures
            r == new_ip_header(source, dest, data_len),
            verifies(ip_header_bytes(r)),
    {
        let mut header = Self {
            version_ihl: 0x45,
            tos: 0,
            length: 20 + data_len,
            id: 0,
            flags_fragment: 0x4000,
            ttl: 64,
            protocol: 6,
            checksum: 0,
            source,
            destination: dest,
        };
        let bytes = header.to_bytes();
        header.checksum = calculate_checksum_rfc1071(bytes.as_slice());
        proof {
            lemma_ip_checksum_verifies(unsummed_ip_header(source, dest, data_len));
        }
        header
    }

    /// The 20 bytes of the header on the wire.
    pub fn to_bytes(&self) -> (r: Vec<u8>)
        ensures
            r@ == ip_header_bytes(*self),
    {
        let mut bytes: Vec<u8> = Vec::with_capacity(20);
        bytes.push(self.version_ihl);
        bytes.push(self.tos);
        push_u16(&mut bytes, self.length);
        push_u16(&mut bytes, self.id);
        push_u16(&mut bytes, self.flags_fragment);
        bytes.push(self.ttl);
        bytes.push(self.protocol);
        push_u16(&mut bytes, self.checksum);
        push_u32(&mut bytes, self.source);
        push_u32(&mut bytes, self.destination);
        assert(bytes@ =~= ip_header_bytes(*self));
        bytes
    }

    /// Reads a header from the first 20 bytes of `data`, whatever they hold.
    pub fn from_bytes(data: &[u8]) -> (r: Result<Self, IpError>)
        ensures
            data@.len() < 20 ==> r == Err::<IpHeader, IpError>(IpError::Malformed),
            data@.len() >= 20 ==> r == Ok::<IpHeader, IpError>(decode_ip_header(data@)),
    {
        if data.len() < IP_HEADER_SIZE {
            return Err(IpError::Malformed);
        }
        Ok(
            IpHeader {
                version_ihl: data[0],
                tos: data[1],
                length: read_u16(data, 2),
                id: read_u16(data, 4),
                flags_fragment: read_u16(data, 6),
                ttl: data[8],
                protocol: data[9],
                checksum: read_u16(data, 10),
                source: read_u32(data, 12),
                destination: read_u32(data, 16),
            },
        )
    }

    /// The IP version: the high four bits of the first byte.
    pub fn version(&self) -> (r: u8)
        ensures
            r == self.version_ihl / 16,
    {
        self.version_ihl / 16
    }

    /// The length of the header in bytes: the low four bits of the first byte
    /// count its 32-bit words.
    pub fn header_length(&self) -> (r: u8)
        ensures
            r == (self.version_ihl % 16) * 4,
    {
        (self.version_ihl % 16) * 4
    }

    /// The source address, its first octet in the high-order byte.
    pub fn source_ip(&self) -> (r: u32)
        ensures
            r == self.source,
    {
        self.source
    }

    /// The destination address, its first octet in the high-order byte.
    pub fn dest_ip(&self) -> (r: u32)
        ensures
            r == self.destination,
    {
        self.destination
    }
}

/// Parses the header of a received datagram and accepts it if it is IPv4
/// and announces TCP.
pub fn parse_ip_header(data: &[u8]) -> (r: Result<IpHeader, IpError>)
    ensures
        r == parse_ip_result(data@),
{
    match IpHeader::from_bytes(data) {
        Err(e) => Err(e),
        Ok(header) => {
            if header.version() != 4 {
                Err(IpError::UnexpectedVersion(header.version()))
            } else if header.protocol != IP_PROTOCOL_TCP {
                Err(IpError::UnexpectedProtocol(header.protocol))
            } else {
                Ok(header)
            }
        },
    }
}

/// Decoding the bytes of a header gives the header back.
#[verifier::rlimit(50)]
pub proof fn lemma_ip_decode_encode(h: IpHeader)
    ensures
        decode_ip_header(ip_header_bytes(h)) == h,
        ip_header_bytes(h).len() == 20,
{
    lemma_be16_round_trip(h.length, 0, 0);
    lemma_be16_round_trip(h.id, 0, 0);
    lemma_be16_round_trip(h.flags_fragment, 0, 0);
    lemma_be16_round_trip(h.checksum, 0, 0);
    lemma_be32_decode_encode(h.source);
    lemma_be32_decode_encode(h.destination);
}

/// Encoding the header that 20 bytes hold gives the bytes back.
#[verifier::rlimit(50)]
pub proof fn lemma_ip_encode_decode(bytes: Seq<u8>)
    requires
        bytes.len() >= 20,
    ensures
        ip_header_bytes(decode_ip_header(bytes)) == bytes.subrange(0, 20),
{
    lemma_be16_round_trip(0, bytes[2], bytes[3]);
    lemma_be16_round_trip(0, bytes[4], bytes[5]);
    lemma_be16_round_trip(0, bytes[6], bytes[7]);
    lemma_be16_round_trip(0, bytes[10], bytes[11]);
    lemma_be32_encode_decode(bytes[12], bytes[13], bytes[14], bytes[15]);
    lemma_be32_encode_decode(bytes[16], bytes[17], bytes[18], bytes[19]);
    assert(ip_header_bytes(decode_ip_header(bytes)) =~= bytes.subrange(0, 20));
}

/// A header whose checksum field holds the checksum of the header with that
/// field zero verifies.
#[verifier::rlimit(50)]
pub proof fn lemma_ip_checksum_verifies(h: IpHeader)
    requires
        h.checksum == 0,
    ensures
        verifies(
            ip_header_bytes(
                IpHeader { checksum: internet_checksum(ip_header_bytes(h)) as u16, ..h },
            ),
        ),
        0 <= internet_checksum(ip_header_bytes(h)) <= 0xFFFF,
{
    let before = ip_header_bytes(h);
    crate::checksum::lemma_words_sum_nonnegative(before, crate::checksum::word_count(before));
    crate::checksum::lemma_end_around_carry(crate::checksum::total_sum(before));
    let sum = internet_checksum(before) as u16;
    let after = ip_header_bytes(IpHeader { checksum: sum, ..h });
    lemma_be16_round_trip(sum, 0, 0);
    assert(word_at(after, 5) == sum);
    assert(word_at(before, 5) == 0);
    assert forall|j: int| 0 <= j < 10 && j != 5 implies #[trigger] word_at(after, j) == word_at(
        before,
        j,
    ) by {}
    lemma_checksum_verifies(before, after, 5);
}

/// Every header made by `IpHeader::new` is read back by `parse_ip_header`.
pub proof fn lemma_new_ip_header_parses(source: u32, destination: u32, data_len: u16)
    requires
        data_len <= MAX_IP_PAYLOAD,
    ensures
        parse_ip_result(ip_header_bytes(new_ip_header(source, destination, data_len))) == Ok::<
            IpHeader,
            IpError,
        >(new_ip_header(source, destination, data_len)),
{
    lemma_ip_decode_encode(new_ip_header(source, destination, data_len));
}

} // verus!
