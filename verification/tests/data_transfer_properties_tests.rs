use std::cmp::Ordering;
use tcp_core::connection::RECEIVE_WINDOW;
use tcp_core::isn::isn_from_clock;
use tcp_core::receive_buffer::wrap_length;
use tcp_core::segment_data;
use tcp_core::send_buffer::SEND_BUFFER_CAPACITY;
use tcp_core::validate_segment;
use tcp_core::ReceiveBuffer;
use tcp_core::Segment;
use tcp_core::SendBuffer;
use tcp_core::SequenceNumber;
use tcp_core::TcpConnection;

fn seq(value: u32) -> SequenceNumber {
    SequenceNumber::new(value)
}

#[test]
fn test_add_then_sub_gives_the_addend() {
    let starts = [0u32, 1, 1000, 0x7FFF_FFFF, 0x8000_0000, 0xFFFF_FFF0, u32::MAX];
    let addends = [0u32, 1, 20, 0x7FFF_FFFE, 0x7FFF_FFFF, 0x8000_0000, u32::MAX];
    for a in starts {
        for n in addends {
            assert_eq!(seq(a).wrapping_add(n).wrapping_sub(seq(a)), n);
        }
    }
}

#[test]
fn test_wrapping_arithmetic_values() {
    assert_eq!(seq(u32::MAX).wrapping_add(1).value(), 0);
    assert_eq!(seq(0).wrapping_sub(seq(1)), u32::MAX);
    assert_eq!(seq(5).wrapping_sub(seq(5)), 0);
    assert_eq!(seq(0x10).wrapping_sub(seq(0xFFFF_FFF0)), 0x20);
}

#[test]
fn test_compare_near_wraparound() {
    assert_eq!(seq(0xFFFF_FFF0).compare(seq(0x0000_0010)), Ordering::Less);
    assert_eq!(seq(0x0000_0010).compare(seq(0xFFFF_FFF0)), Ordering::Greater);
    assert_eq!(seq(7).compare(seq(7)), Ordering::Equal);
    assert!(seq(0xFFFF_FFF0).is_before(seq(0x10)));
    assert!(seq(0x10).is_after(seq(0xFFFF_FFF0)));
    assert!(!seq(7).is_before(seq(7)));
    assert!(!seq(7).is_after(seq(7)));
}

#[test]
fn test_compare_at_half_the_space() {
    // One short of half the space ahead: still later.
    assert_eq!(seq(0).compare(seq(0x7FFF_FFFF)), Ordering::Less);
    assert_eq!(seq(0x7FFF_FFFF).compare(seq(0)), Ordering::Greater);
    // Exactly half the space apart, each is after the other: neither is
    // within 2^31 steps ahead.
    assert_eq!(seq(0).compare(seq(0x8000_0000)), Ordering::Greater);
    assert_eq!(seq(0x8000_0000).compare(seq(0)), Ordering::Greater);
    // More than half the space ahead counts as behind.
    assert_eq!(seq(0).compare(seq(0x8000_0001)), Ordering::Greater);
    assert_eq!(seq(0x8000_0001).compare(seq(0)), Ordering::Less);
}

#[test]
fn test_operators_follow_compare() {
    let pairs = [
        (0u32, 1u32),
        (1, 0),
        (5, 5),
        (0xFFFF_FFF0, 0x10),
        (0x10, 0xFFFF_FFF0),
        (0, 0x8000_0000),
    ];
    for (a, b) in pairs {
        let order = seq(a).compare(seq(b));
        assert_eq!(seq(a).cmp(&seq(b)), order);
        assert_eq!(seq(a).partial_cmp(&seq(b)), Some(order));
        assert_eq!(seq(a) < seq(b), order == Ordering::Less);
        assert_eq!(seq(a) > seq(b), order == Ordering::Greater);
        assert_eq!(seq(a) == seq(b), order == Ordering::Equal);
    }
}

#[test]
fn test_isn_from_clock() {
    assert_eq!(isn_from_clock(0, 0).value(), 12345);
    assert_eq!(isn_from_clock(1_700_000_000, 0).value(), 1_700_012_345);
    assert_eq!(isn_from_clock(1_700_000_000, 999_999_999).value(), 2_700_012_344);
    assert_eq!(isn_from_clock(u32::MAX as u64, 0).value(), 12344);
    assert_eq!(isn_from_clock((1u64 << 32) + 5, 7).value(), 12357);
    assert_eq!(isn_from_clock(u64::MAX, 0).value(), 12344);
    // Two readings in the same second differ as their nanoseconds do.
    assert_ne!(isn_from_clock(42, 100), isn_from_clock(42, 101));
}

#[test]
fn test_send_buffer_one_byte_too_many() {
    let mut buffer = SendBuffer::new(seq(1000));
    assert_eq!(SEND_BUFFER_CAPACITY, 65536);

    assert_eq!(buffer.write(&vec![7u8; 65536]), Ok(65536));
    assert_eq!(buffer.write(&[1]), Err("Send buffer full".to_string()));
    assert_eq!(buffer.available_space(), 0);
}

#[test]
fn test_send_buffer_partial_write() {
    let mut buffer = SendBuffer::new(seq(1000));
    assert_eq!(buffer.write(&vec![1u8; 65530]), Ok(65530));

    assert_eq!(buffer.write(b"0123456789"), Ok(6));
    assert_eq!(buffer.available_space(), 0);

    buffer.consume(65536);
    assert_eq!(buffer.acknowledge(seq(1000 + 65530)), Ok(65530));
    assert_eq!(buffer.peek(10), b"");
    assert_eq!(buffer.available_space(), 65530);
    // What was accepted of the last write is its beginning.
    assert_eq!(buffer.unacked_data(), 6);
    assert_eq!(buffer.acknowledge(seq(1000 + 65533)), Ok(3));
    assert_eq!(buffer.write(b"6789"), Ok(4));
    buffer.consume(1);
    assert_eq!(buffer.peek(100), b"789");
}

#[test]
fn test_send_buffer_write_nothing() {
    let mut buffer = SendBuffer::new(seq(1000));
    assert_eq!(buffer.write(b""), Ok(0));
    assert_eq!(buffer.available_space(), 65536);
    buffer.write(&vec![0u8; 65536]).unwrap();
    assert!(buffer.write(b"").is_err());
}

#[test]
fn test_send_buffer_peek_follows_consume() {
    let mut buffer = SendBuffer::new(seq(1000));
    buffer.write(b"0123456789").unwrap();

    buffer.consume(4);

    assert_eq!(buffer.peek(3), b"456");
    assert_eq!(buffer.peek(100), b"456789");
    assert_eq!(buffer.peek(0), b"");
    assert_eq!(buffer.next_seq(), seq(1004));
    assert_eq!(buffer.unacked_seq(), seq(1000));
    assert_eq!(buffer.unacked_data(), 4);
    // The bytes stay queued until they are acknowledged.
    assert_eq!(buffer.available_space(), 65536 - 10);
}

#[test]
fn test_send_buffer_consume_stops_at_the_end() {
    let mut buffer = SendBuffer::new(seq(1000));
    buffer.write(b"0123456789").unwrap();

    buffer.consume(25);

    assert_eq!(buffer.next_seq(), seq(1010));
    assert_eq!(buffer.unacked_data(), 10);
    buffer.consume(usize::MAX);
    assert_eq!(buffer.next_seq(), seq(1010));
}

#[test]
fn test_send_buffer_old_and_repeated_acknowledgments() {
    let mut buffer = SendBuffer::new(seq(1000));
    buffer.write(b"0123456789").unwrap();
    buffer.consume(10);
    assert_eq!(buffer.acknowledge(seq(1005)), Ok(5));

    assert_eq!(buffer.acknowledge(seq(1005)), Ok(0));
    assert_eq!(buffer.acknowledge(seq(1003)), Ok(0));
    assert_eq!(buffer.acknowledge(seq(999)), Ok(0));

    assert_eq!(buffer.unacked_seq(), seq(1005));
    assert_eq!(buffer.unacked_data(), 5);
    assert_eq!(buffer.available_space(), 65536 - 5);
}

#[test]
fn test_send_buffer_acknowledgment_beyond_what_was_written() {
    let mut buffer = SendBuffer::new(seq(1000));
    buffer.write(b"0123456789").unwrap();
    buffer.consume(10);

    assert_eq!(
        buffer.acknowledge(seq(1011)),
        Err("Acknowledgment of bytes never written".to_string())
    );

    assert_eq!(buffer.unacked_seq(), seq(1000));
    assert_eq!(buffer.next_seq(), seq(1010));
    assert_eq!(buffer.available_space(), 65536 - 10);
    assert_eq!(buffer.acknowledge(seq(1010)), Ok(10));
    assert_eq!(buffer.available_space(), 65536);
}

#[test]
fn test_send_buffer_acknowledgment_ahead_of_next_seq() {
    let mut buffer = SendBuffer::new(seq(1000));
    buffer.write(b"0123456789").unwrap();
    buffer.consume(2);

    assert_eq!(buffer.acknowledge(seq(1006)), Ok(6));

    assert_eq!(buffer.unacked_seq(), seq(1006));
    assert_eq!(buffer.next_seq(), seq(1006));
    assert_eq!(buffer.unacked_data(), 0);
    assert_eq!(buffer.peek(100), b"6789");
}

#[test]
fn test_send_buffer_across_wraparound() {
    let mut buffer = SendBuffer::new(seq(u32::MAX - 4));
    buffer.write(b"0123456789").unwrap();
    buffer.consume(10);
    assert_eq!(buffer.next_seq(), seq(5));
    assert_eq!(buffer.unacked_data(), 10);

    assert_eq!(buffer.acknowledge(seq(2)), Ok(7));
    assert_eq!(buffer.unacked_seq(), seq(2));
    assert_eq!(buffer.unacked_data(), 3);
    assert_eq!(buffer.peek(10), b"");
}

#[test]
fn test_receive_buffer_scenario() {
    let mut buffer = ReceiveBuffer::new(seq(2000));

    buffer.receive(seq(2005), b"World").unwrap();
    assert_eq!(buffer.available(), 0);
    assert!(buffer.has_gap());
    assert_eq!(buffer.next_expected(), seq(2000));

    buffer.receive(seq(2000), b"Hello").unwrap();
    assert_eq!(buffer.available(), 10);
    assert!(!buffer.has_gap());
    assert_eq!(buffer.next_expected(), seq(2010));
    assert_eq!(buffer.read(100), b"HelloWorld");
    assert_eq!(buffer.next_expected(), seq(2010));
}

fn permutations(n: usize) -> Vec<Vec<usize>> {
    if n == 0 {
        return vec![vec![]];
    }
    let mut all = Vec::new();
    for shorter in permutations(n - 1) {
        for at in 0..=shorter.len() {
            let mut longer = shorter.clone();
            longer.insert(at, n - 1);
            all.push(longer);
        }
    }
    all
}

#[test]
fn test_every_order_of_arrival_reassembles() {
    let segments: [&[u8]; 5] = [b"The ", b"quick", b" b", b"rown fox jumps", b"!"];
    for start in [2000u32, u32::MAX - 10, 0] {
        let mut offsets = Vec::new();
        let mut offset = 0u32;
        for segment in segments {
            offsets.push(offset);
            offset += segment.len() as u32;
        }
        let orders = permutations(segments.len());
        assert_eq!(orders.len(), 120);
        for order in orders {
            let mut buffer = ReceiveBuffer::new(seq(start));
            let mut arrived = vec![false; segments.len()];
            for i in order {
                buffer
                    .receive(seq(start).wrapping_add(offsets[i]), segments[i])
                    .unwrap();
                arrived[i] = true;
                // Segments wait exactly while one before them is missing.
                let first_missing = arrived.iter().position(|a| !a).unwrap_or(segments.len());
                let waiting = arrived[first_missing..].iter().any(|a| *a);
                assert_eq!(buffer.has_gap(), waiting);
                assert_eq!(
                    buffer.available(),
                    segments[..first_missing].iter().map(|s| s.len()).sum::<usize>()
                );
            }
            assert!(!buffer.has_gap());
            assert_eq!(buffer.next_expected(), seq(start).wrapping_add(offset));
            assert_eq!(buffer.read(1000), b"The quick brown fox jumps!");
        }
    }
}

#[test]
fn test_receive_buffer_drains_a_chain() {
    let mut buffer = ReceiveBuffer::new(seq(100));
    buffer.receive(seq(104), b"e").unwrap();
    buffer.receive(seq(103), b"d").unwrap();
    buffer.receive(seq(102), b"c").unwrap();
    buffer.receive(seq(101), b"b").unwrap();
    assert_eq!(buffer.available(), 0);

    buffer.receive(seq(100), b"a").unwrap();

    assert_eq!(buffer.available(), 5);
    assert!(!buffer.has_gap());
    assert_eq!(buffer.read(5), b"abcde");
}

#[test]
fn test_receive_buffer_later_arrival_overwrites() {
    let mut buffer = ReceiveBuffer::new(seq(100));
    buffer.receive(seq(103), b"xyz").unwrap();
    buffer.receive(seq(103), b"def").unwrap();
    buffer.receive(seq(100), b"abc").unwrap();

    assert_eq!(buffer.read(100), b"abcdef");
    assert!(!buffer.has_gap());
}

#[test]
fn test_receive_buffer_drops_what_is_behind() {
    let mut buffer = ReceiveBuffer::new(seq(100));
    buffer.receive(seq(100), b"abcdef").unwrap();

    buffer.receive(seq(98), b"xxxx").unwrap();
    buffer.receive(seq(103), b"yyyyyy").unwrap();
    buffer.receive(seq(106).wrapping_add(0x8000_0001), b"zz").unwrap();

    assert_eq!(buffer.available(), 6);
    assert!(!buffer.has_gap());
    assert_eq!(buffer.next_expected(), seq(106));
    assert_eq!(buffer.read(100), b"abcdef");
}

#[test]
fn test_receive_buffer_drops_overtaken_segments() {
    let mut buffer = ReceiveBuffer::new(seq(100));
    buffer.receive(seq(103), b"DEF").unwrap();
    buffer.receive(seq(110), b"klm").unwrap();
    assert!(buffer.has_gap());

    // The bytes up to 105 arrive in one segment. The segment that waits at
    // 103 now starts behind the next expected byte and is dropped; the one
    // at 110 is still ahead and stays.
    buffer.receive(seq(100), b"abcde").unwrap();

    assert_eq!(buffer.available(), 5);
    assert_eq!(buffer.next_expected(), seq(105));
    assert!(buffer.has_gap());

    buffer.receive(seq(105), b"fghij").unwrap();
    assert!(!buffer.has_gap());
    assert_eq!(buffer.read(100), b"abcdefghijklm");
}

#[test]
fn test_receive_buffer_drops_the_only_overtaken_segment() {
    let mut buffer = ReceiveBuffer::new(seq(100));
    buffer.receive(seq(103), b"DEF").unwrap();

    buffer.receive(seq(100), b"abcde").unwrap();

    assert!(!buffer.has_gap());
    assert_eq!(buffer.read(100), b"abcde");
}

#[test]
fn test_receive_buffer_empty_segments() {
    let mut buffer = ReceiveBuffer::new(seq(100));
    buffer.receive(seq(100), b"").unwrap();
    assert_eq!(buffer.next_expected(), seq(100));
    assert_eq!(buffer.available(), 0);

    buffer.receive(seq(102), b"").unwrap();
    assert!(buffer.has_gap());
    buffer.receive(seq(100), b"ab").unwrap();
    assert!(!buffer.has_gap());
    assert_eq!(buffer.next_expected(), seq(102));
    assert_eq!(buffer.read(10), b"ab");
}

#[test]
fn test_receive_buffer_across_wraparound() {
    let mut buffer = ReceiveBuffer::new(seq(u32::MAX - 2));
    buffer.receive(seq(2), b"World").unwrap();
    assert!(buffer.has_gap());
    buffer.receive(seq(u32::MAX - 2), b"Hello").unwrap();

    assert_eq!(buffer.next_expected(), seq(7));
    assert_eq!(buffer.read(3), b"Hel");
    assert_eq!(buffer.available(), 7);
    assert_eq!(buffer.read(0), b"");
    assert_eq!(buffer.read(7), b"loWorld");
    assert_eq!(buffer.read(7), b"");
}

#[test]
fn test_process_out_of_order_changes_nothing_when_drained() {
    let mut buffer = ReceiveBuffer::new(seq(100));
    buffer.receive(seq(105), b"later").unwrap();
    buffer.process_out_of_order();
    assert_eq!(buffer.available(), 0);
    assert!(buffer.has_gap());
    assert_eq!(buffer.next_expected(), seq(100));
}

#[test]
fn test_wrap_length() {
    assert_eq!(wrap_length(0), 0);
    assert_eq!(wrap_length(1460), 1460);
    assert_eq!(wrap_length(u32::MAX as usize), u32::MAX);
    if usize::BITS > 32 {
        assert_eq!(wrap_length((1u64 << 32) as usize), 0);
        assert_eq!(wrap_length(((1u64 << 32) + 17) as usize), 17);
    }
}

#[test]
fn test_segment_data_exact() {
    let data: Vec<u8> = (0u8..10).collect();

    let segments = segment_data(&data, 4, seq(u32::MAX - 5));

    assert_eq!(
        segments,
        vec![
            Segment::new(seq(u32::MAX - 5), vec![0, 1, 2, 3]),
            Segment::new(seq(u32::MAX - 1), vec![4, 5, 6, 7]),
            Segment::new(seq(2), vec![8, 9]),
        ]
    );
    assert_eq!(segment_data(&data, 10, seq(1)).len(), 1);
    assert_eq!(segment_data(&data, 11, seq(1)).len(), 1);
    assert_eq!(segment_data(&data, 9, seq(1)).len(), 2);
    assert_eq!(segment_data(&data, 1, seq(1)).len(), 10);
    assert_eq!(segment_data(&data, usize::MAX, seq(1)).len(), 1);
    assert!(segment_data(&[], 4, seq(1)).is_empty());
}

#[test]
fn test_segments_reassemble_in_any_order() {
    let data: Vec<u8> = (0..5000u32).map(|i| (i * 7 % 251) as u8).collect();
    let mut segments = segment_data(&data, 1460, seq(u32::MAX - 2000));
    assert_eq!(segments.len(), 4);
    segments.reverse();
    segments.swap(0, 2);

    let mut buffer = ReceiveBuffer::new(seq(u32::MAX - 2000));
    for segment in &segments {
        buffer.receive(segment.seq, &segment.data).unwrap();
    }

    assert_eq!(buffer.read(10000), data);
}

#[test]
fn test_segment_len_and_is_empty() {
    assert!(Segment::new(seq(1), vec![]).is_empty());
    assert_eq!(Segment::new(seq(1), vec![]).len(), 0);
    assert!(!Segment::new(seq(1), vec![0]).is_empty());
}

#[test]
fn test_validate_segment_edges() {
    let segment = |at: u32| Segment::new(seq(at), vec![1, 2, 3]);

    assert!(validate_segment(&segment(7000), seq(7000), 1));
    assert!(!validate_segment(&segment(7000), seq(7000), 0));
    assert!(!validate_segment(&segment(8000), seq(7000), 1000));
    assert!(!validate_segment(&segment(6999), seq(7000), 1000));
    // The window may lie across the wraparound.
    assert!(validate_segment(&segment(5), seq(u32::MAX - 5), 100));
    assert!(!validate_segment(&segment(95), seq(u32::MAX - 5), 100));
    // A window of all but one sequence number leaves out the one just behind.
    assert!(validate_segment(&segment(6998), seq(7000), u32::MAX));
    assert!(!validate_segment(&segment(6999), seq(7000), u32::MAX));
}

#[test]
fn test_tcp_connection_refuses_segments_outside_the_window() {
    let mut conn = TcpConnection::new(seq(1000), seq(2000));
    assert_eq!(RECEIVE_WINDOW, 65536);

    assert_eq!(
        conn.receive(seq(2000 + 65536), b"far"),
        Err("Segment outside the receive window".to_string())
    );
    assert_eq!(
        conn.receive(seq(1999), b"old"),
        Err("Segment outside the receive window".to_string())
    );
    assert!(!conn.recv_buffer().has_gap());
    assert_eq!(conn.recv_buffer().available(), 0);

    assert_eq!(conn.receive(seq(2000 + 65535), b"edge"), Ok(()));
    assert!(conn.recv_buffer().has_gap());
    assert_eq!(conn.generate_ack(), seq(2000));
}

#[test]
fn test_tcp_connection_acknowledgments() {
    let mut conn = TcpConnection::new(seq(1000), seq(2000));
    conn.send(b"Sending data").unwrap();

    assert_eq!(
        conn.process_ack(seq(1013)),
        Err("Acknowledgment of bytes never written".to_string())
    );
    assert_eq!(conn.send_buffer().unacked_seq(), seq(1000));
    assert_eq!(conn.process_ack(seq(1000)), Ok(()));
    assert_eq!(conn.process_ack(seq(1004)), Ok(()));
    assert_eq!(conn.send_buffer().unacked_seq(), seq(1004));
    assert_eq!(conn.send_buffer().next_seq(), seq(1004));
    assert_eq!(conn.send_buffer().peek(100), b"ing data");
}
