//! The TCP header, without options, and its checksum over the pseudo-header.

use crate::checksum::calculate_1s_complement_sum;
use crate::checksum::calculate_checksum_rfc1071;
use crate::checksum::internet_checksum;
use crate::checksum::lemma_checksum_verifies;
use crate::checksum::verifies;
use crate::checksum::word_at;
use crate::wire::be32_byte;
use crate::wire::from_be16;
use crate::wire::from_be32;
use crate::wire::hi8;
use crate::wire::lemma_be16_round_trip;
use crate::wire::lemma_be32_decode_encode;
use crate::wire::lemma_be32_encode_decode;
use crate::wire::lo8;
use crate::wire::push_u16;
use crate::wire::push_u32;
use crate::wire::read_u16;
use crate::wire::read_u32;
use vstd::prelude::*;

verus! {

/// The size of a TCP header without options, in bytes.
pub const TCP_HEADER_SIZE: usize = 20;

/// The fields of a TCP header, each in host order.
#[derive(Debug, Clone, Copy, PartialEq, Eq, Structural)]
pub struct TcpHeader {
    pub source_port: u16,
    pub destination_port: u16,
    pub sequence_number: u32,
    /// The next sequence number that the sender of this header expects.
    pub acknowledgment_number: u32,
    /// The header length in 32-bit words in the high four bits, four reserved
    /// bits, and the eight flags in the low byte.
    pub data_offset_and_flags: u16,
    pub window_size: u16,
    pub checksum: u16,
    pub urgent_pointer: u16,
}

/// The 20 bytes of a header on the wire: every field in network order.
pub open spec fn tcp_header_bytes(h: TcpHeader) -> Seq<u8> {
    seq![
        hi8(h.source_port),
        lo8(h.source_port),
        hi8(h.destination_port),
        lo8(h.destination_port),
        be32_byte(h.sequence_number, 0),
        be32_byte(h.sequence_number, 1),
        be32_byte(h.sequence_number, 2),
        be32_byte(h.sequence_number, 3),
        be32_byte(h.acknowledgment_number, 0),
        be32_byte(h.acknowledgment_number, 1),
        be32_byte(h.acknowledgment_number, 2),
        be32_byte(h.acknowledgment_number, 3),
        hi8(h.data_offset_and_flags),
        lo8(h.data_offset_and_flags),
        hi8(h.window_size),
        lo8(h.window_size),
        hi8(h.checksum),
        lo8(h.checksum),
        hi8(h.urgent_pointer),
        lo8(h.urgent_pointer),
    ]
}

/// The header that the first 20 bytes of `bytes` hold.
pub open spec fn decode_tcp_header(bytes: Seq<u8>) -> TcpHeader
    recommends
        bytes.len() >= 20,
{
    TcpHeader {
        source_port: from_be16(bytes[0], bytes[1]),
        destination_port: from_be16(bytes[2], bytes[3]),
        sequence_number: from_be32(bytes[4], bytes[5], bytes[6], bytes[7]),
        acknowledgment_number: from_be32(bytes[8], bytes[9], bytes[10], bytes[11]),
        data_offset_and_flags: from_be16(bytes[12], bytes[13]),
        window_size: from_be16(bytes[14], bytes[15]),
        checksum: from_be16(bytes[16], bytes[17]),
        urgent_pointer: from_be16(bytes[18], bytes[19]),
    }
}

/// The header that `TcpHeader::new` makes: five words long, with no checksum
/// yet and no urgent data.
pub open spec fn new_tcp_header(
    src_port: u16,
    dst_port: u16,
    seq: u32,
    ack: u32,
    flags: u8,
    window: u16,
) -> TcpHeader {
    TcpHeader {
        source_port: src_port,
        destination_port: dst_port,
        sequence_number: seq,
        acknowledgment_number: ack,
        data_offset_and_flags: (0x5000 + flags) as u16,
        window_size: window,
        checksum: 0,
        urgent_pointer: 0,
    }
}

/// The 12 bytes of the pseudo-header: both addresses, a zero byte, the
/// protocol number of TCP, and the length of the TCP segment.
pub open spec fn pseudo_header_bytes(src_ip: u32, dst_ip: u32, tcp_length: u16) -> Seq<u8> {
    seq![
        be32_byte(src_ip, 0),
        be32_byte(src_ip, 1),
        be32_byte(src_ip, 2),
        be32_byte(src_ip, 3),
        be32_byte(dst_ip, 0),
        be32_byte(dst_ip, 1),
        be32_byte(dst_ip, 2),
        be32_byte(dst_ip, 3),
        0u8,
        6u8,
        hi8(tcp_length),
        lo8(tcp_length),
    ]
}

/// The length of a segment of a header and `data_len` bytes of data, as the
/// 16-bit field of the pseudo-header holds it.
pub open spec fn segment_length(data_len: nat) -> u16 {
    ((20 + data_len) % 0x1_0000) as u16
}

/// What the checksum of a segment is computed over: the pseudo-header, the
/// header and the data.
pub open spec fn checksum_data(h: TcpHeader, src_ip: u32, dst_ip: u32, data: Seq<u8>) -> Seq<u8> {
    pseudo_header_bytes(src_ip, dst_ip, segment_length(data.len())) + tcp_header_bytes(h) + data
}

/// `h` with the checksum of the segment that it heads.
pub open spec fn with_checksum(h: TcpHeader, src_ip: u32, dst_ip: u32, data: Seq<u8>) -> TcpHeader {
    TcpHeader {
        checksum: internet_checksum(
            checksum_data(TcpHeader { checksum: 0, ..h }, src_ip, dst_ip, data),
        ) as u16,
        ..h
    }
}

/// The length field of the pseudo-header for `data_len` bytes of data.
pub fn segment_length_field(data_len: usize) -> (r: u16)
    ensures
        r == segment_length(data_len as nat),
{
    let low: u32 = (data_len % 0x1_0000) as u32;
    let total: u32 = low + 20;
    if total >= 0x1_0000 {
        (total - 0x1_0000) as u16
    } else {
        total as u16
    }
}

/// Appends `data` to `out`.
pub fn append_bytes(out: &mut Vec<u8>, data: &[u8])
    ensures
        final(out)@ == old(out)@ + data@,
{
    out.extend_from_slice(data);
    assert(out@ =~= old(out)@ + data@);
}

/// The pseudo-header for a segment of `tcp_length` bytes.
pub fn create_pseudo_header(src_ip: u32, dst_ip: u32, tcp_length: u16) -> (r: Vec<u8>)
    ensures
        r@ == pseudo_header_bytes(src_ip, dst_ip, tcp_length),
{
    let mut bytes: Vec<u8> = Vec::with_capacity(12);
    push_u32(&mut bytes, src_ip);
    push_u32(&mut bytes, dst_ip);
    bytes.push(0);
    bytes.push(6);
    push_u16(&mut bytes, tcp_length);
    assert(bytes@ =~= pseudo_header_bytes(src_ip, dst_ip, tcp_length));
    bytes
}

impl TcpHeader {
    /// A header of five words with the given fields, no checksum yet and no
    /// urgent data.
    pub fn new(src_port: u16, dst_port: u16, seq: u32, ack: u32, flags: u8, window: u16) -> (r:
        Self)
        ensures
            r == new_tcp_header(src_port, dst_port, seq, ack, flags, window),
            r.flags() == flags,
            r.data_offset() == 5,
    {
        Self {
            source_port: src_port,
            destination_port: dst_port,
            sequence_number: seq,
            acknowledgment_number: ack,
            data_offset_and_flags: 0x5000 + flags as u16,
            window_size: window,
            urgent_pointer: 0,
            checksum: 0,
        }
    }

    /// The eight flags: the low byte of the offset-and-flags field.
    pub open spec fn flags(&self) -> u8 {
        lo8(self.data_offset_and_flags)
    }

    /// The header length in 32-bit words: the high four bits of the
    /// offset-and-flags field.
    pub open spec fn data_offset(&self) -> u8 {
        (self.data_offset_and_flags / 0x1000) as u8
    }

    /// The 20 bytes of the header on the wire.
    pub fn to_bytes(&self) -> (r: Vec<u8>)
        ensures
            r@ == tcp_header_bytes(*self),
    {
        let mut bytes: Vec<u8> = Vec::with_capacity(20);
        push_u16(&mut bytes, self.source_port);
        push_u16(&mut bytes, self.destination_port);
        push_u32(&mut bytes, self.sequence_number);
        push_u32(&mut bytes, self.acknowledgment_number);
        push_u16(&mut bytes, self.data_offset_and_flags);
        push_u16(&mut bytes, self.window_size);
        push_u16(&mut bytes, self.checksum);
        push_u16(&mut bytes, self.urgent_pointer);
        assert(bytes@ =~= tcp_header_bytes(*self));
        bytes
    }

    /// Reads a header from the first 20 bytes of `data`; fewer are refused.
    pub fn from_bytes(data: &[u8]) -> (r: Result<Self, &'static str>)
        ensures
            data@.len() < 20 ==> (r matches Err(message) && message@
                == "Data too short for TCP header"@),
            data@.len() >= 20 ==> r == Ok::<TcpHeader, &'static str>(decode_tcp_header(data@)),
    {
        if data.len() < TCP_HEADER_SIZE {
            return Err("Data too short for TCP header");
        }
        Ok(
            Self {
                source_port: read_u16(data, 0),
                destination_port: read_u16(data, 2),
                sequence_number: read_u32(data, 4),
                acknowledgment_number: read_u32(data, 8),
                data_offset_and_flags: read_u16(data, 12),
                window_size: read_u16(data, 14),
                checksum: read_u16(data, 16),
                urgent_pointer: read_u16(data, 18),
            },
        )
    }

    /// The bytes that the checksum of the segment is computed over.
    #[verifier::rlimit(50)]
    pub fn prepare_checksum_data(&self, src_ip: u32, dst_ip: u32, tcp_data: &[u8]) -> (r: Vec<u8>)
        ensures
            r@ == checksum_data(*self, src_ip, dst_ip, tcp_data@),
    {
        let tcp_length = segment_length_field(tcp_data.len());
        let mut all_data = create_pseudo_header(src_ip, dst_ip, tcp_length);
        let tcp_header_bytes = self.to_bytes();
        append_bytes(&mut all_data, tcp_header_bytes.as_slice());
        append_bytes(&mut all_data, tcp_data);
        all_data
    }

    /// Fills in the checksum of the segment that this header heads. The
    /// segment then verifies.
    #[verifier::rlimit(50)]
    pub fn calculate_checksum(&mut self, src_ip: u32, dst_ip: u32, tcp_data: &[u8])
        ensures
            *final(self) == with_checksum(*old(self), src_ip, dst_ip, tcp_data@),
            verifies(checksum_data(*final(self), src_ip, dst_ip, tcp_data@)),
    {
        self.checksum = 0;
        let all_data = self.prepare_checksum_data(src_ip, dst_ip, tcp_data);
        self.checksum = calculate_checksum_rfc1071(all_data.as_slice());
        proof {
            lemma_tcp_checksum_verifies(*old(self), src_ip, dst_ip, tcp_data@);
        }
    }

    /// Whether the segment verifies: whether the sum over the pseudo-header,
    /// the header with its checksum and the data folds to `0xFFFF`.
    pub fn verify_checksum(&self, src_ip: u32, dst_ip: u32, tcp_data: &[u8]) -> (r: bool)
        ensures
            r == verifies(checksum_data(*self, src_ip, dst_ip, tcp_data@)),
    {
        let all_data = self.prepare_checksum_data(src_ip, dst_ip, tcp_data);
        let result = calculate_1s_complement_sum(all_data.as_slice());
        result == 0xFFFF
    }

    /// The eight flags.
    pub fn get_flags(&self) -> (r: u8)
        ensures
            r == self.flags(),
    {
        (self.data_offset_and_flags % 256) as u8
    }

    /// The header length in 32-bit words.
    pub fn get_data_offset(&self) -> (r: u8)
        ensures
            r == self.data_offset(),
    {
        (self.data_offset_and_flags / 0x1000) as u8
    }

    pub fn get_source_port(&self) -> (r: u16)
        ensures
            r == self.source_port,
    {
        self.source_port
    }

    pub fn get_destination_port(&self) -> (r: u16)
        ensures
            r == self.destination_port,
    {
        self.destination_port
    }

    pub fn get_ack_number(&self) -> (r: u32)
        ensures
            r == self.acknowledgment_number,
    {
        self.acknowledgment_number
    }
}

/// Decoding the bytes of a header gives the header back.
pub proof fn lemma_tcp_decode_encode(h: TcpHeader)
    ensures
        decode_tcp_header(tcp_header_bytes(h)) == h,
        tcp_header_bytes(h).len() == 20,
{
    lemma_be16_round_trip(h.source_port, 0, 0);
    lemma_be16_round_trip(h.destination_port, 0, 0);
    lemma_be32_decode_encode(h.sequence_number);
    lemma_be32_decode_encode(h.acknowledgment_number);
    lemma_be16_round_trip(h.data_offset_and_flags, 0, 0);
    lemma_be16_round_trip(h.window_size, 0, 0);
    lemma_be16_round_trip(h.checksum, 0, 0);
    lemma_be16_round_trip(h.urgent_pointer, 0, 0);
}

/// Encoding the header that 20 bytes hold gives the bytes back.
pub proof fn lemma_tcp_encode_decode(bytes: Seq<u8>)
    requires
        bytes.len() >= 20,
    ensures
        tcp_header_bytes(decode_tcp_header(bytes)) == bytes.subrange(0, 20),
{
    lemma_be16_round_trip(0, bytes[0], bytes[1]);
    lemma_be16_round_trip(0, bytes[2], bytes[3]);
    lemma_be32_encode_decode(bytes[4], bytes[5], bytes[6], bytes[7]);
    lemma_be32_encode_decode(bytes[8], bytes[9], bytes[10], bytes[11]);
    lemma_be16_round_trip(0, bytes[12], bytes[13]);
    lemma_be16_round_trip(0, bytes[14], bytes[15]);
    lemma_be16_round_trip(0, bytes[16], bytes[17]);
    lemma_be16_round_trip(0, bytes[18], bytes[19]);
    assert(tcp_header_bytes(decode_tcp_header(bytes)) =~= bytes.subrange(0, 20));
}

/// A segment whose header carries the checksum computed for it verifies,
/// whatever the addresses, the header's other fields and the data are.
#[verifier::rlimit(50)]
pub proof fn lemma_tcp_checksum_verifies(h: TcpHeader, src_ip: u32, dst_ip: u32, data: Seq<u8>)
    ensures
        verifies(checksum_data(with_checksum(h, src_ip, dst_ip, data), src_ip, dst_ip, data)),
        0 <= internet_checksum(
            checksum_data(TcpHeader { checksum: 0, ..h }, src_ip, dst_ip, data),
        ) <= 0xFFFF,
{
    let cleared = TcpHeader { checksum: 0, ..h };
    let before = checksum_data(cleared, src_ip, dst_ip, data);
    crate::checksum::lemma_words_sum_nonnegative(before, crate::checksum::word_count(before));
    crate::checksum::lemma_end_around_carry(crate::checksum::total_sum(before));
    let sum = internet_checksum(before) as u16;
    let summed = with_checksum(h, src_ip, dst_ip, data);
    let after = checksum_data(summed, src_ip, dst_ip, data);
    lemma_be16_round_trip(sum, 0, 0);
    assert(before.len() == after.len());
    assert(after[28] == hi8(sum) && after[29] == lo8(sum));
    assert(before[28] == 0 && before[29] == 0);
    assert(word_at(after, 14) == sum);
    assert(word_at(before, 14) == 0);
    assert forall|j: int|
        0 <= j < crate::checksum::word_count(before) && j != 14 implies #[trigger] word_at(
        after,
        j,
    ) == word_at(before, j) by {
        assert(after[2 * j] == before[2 * j]);
        if 2 * j + 1 < before.len() {
            assert(after[2 * j + 1] == before[2 * j + 1]);
        }
    }
    lemma_checksum_verifies(before, after, 14);
}

} // verus!
