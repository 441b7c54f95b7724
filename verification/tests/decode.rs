use demparse::demo::Demo;
use demparse::error::DemoError;
use demparse::header::HEADER_LEN;
use demparse::machine::StopReason;

fn push_i32(buf: &mut Vec<u8>, v: i32) {
    let b = v.to_le_bytes();
    buf.push(b[0]);
    buf.push(b[1]);
    buf.push(b[2]);
    buf.push(b[3]);
}

fn push_u32(buf: &mut Vec<u8>, v: u32) {
    let b = v.to_le_bytes();
    buf.push(b[0]);
    buf.push(b[1]);
    buf.push(b[2]);
    buf.push(b[3]);
}

/// A header with the given magic and integer fields; the four 260-byte text
/// fields are all NUL.
fn header_bytes(magic: &str, dem: i32, net: i32, time_bits: u32, ticks: i32, frames: i32, signon: i32) -> Vec<u8> {
    assert_eq!(magic.len(), 8);
    let mut b: Vec<u8> = Vec::new();
    b.extend_from_slice(magic.as_bytes());
    push_i32(&mut b, dem);
    push_i32(&mut b, net);
    for _ in 0..(4 * 260) {
        b.push(0);
    }
    push_u32(&mut b, time_bits);
    push_i32(&mut b, ticks);
    push_i32(&mut b, frames);
    push_i32(&mut b, signon);
    assert_eq!(b.len(), HEADER_LEN);
    b
}

fn zero_header() -> Vec<u8> {
    header_bytes("ABCDEFGH", 0, 0, 0, 0, 0, 0)
}

#[test]
fn header_roundtrip_and_zero_tick() {
    let mut buf = header_bytes("DEMOPROT", 4, 0, 0, 0, 0, 0);
    buf.push(7);
    let mut demo = Demo::new(buf);
    assert_eq!(demo.parse(), Ok(0));
    assert_eq!(demo.header.magic, "DEMOPROT");
    assert_eq!(demo.header.dem_protocol, 4);
    assert_eq!(demo.header.net_protocol, 0);
    assert_eq!(demo.header.time_bits, 0);
    assert_eq!(demo.header.ticks, 0);
    assert_eq!(demo.header.frames, 0);
    assert_eq!(demo.header.signon, 0);
    assert_eq!(demo.header.server.len(), 260);
    assert!(demo.header.server.chars().all(|c| c == '\0'));
    assert_eq!(demo.header.client.len(), 260);
    assert_eq!(demo.header.map_name.len(), 260);
    assert_eq!(demo.header.dir.len(), 260);
    assert_eq!(demo.stop, Some(StopReason::Terminator));
    assert!(demo.cmds.is_empty());
}

#[test]
fn console_command_captured() {
    let mut buf = zero_header();
    buf.push(4);
    push_i32(&mut buf, 42);
    push_i32(&mut buf, 9);
    buf.extend_from_slice(b"say hello");
    buf.push(7);
    let mut demo = Demo::new(buf);
    assert_eq!(demo.parse(), Ok(42));
    assert_eq!(demo.cmds, vec![(42, String::from("say hello"))]);
    assert_eq!(demo.stop, Some(StopReason::Terminator));
}

#[test]
fn unknown_tag_reports_offset() {
    // tag 9 right after the header: the error names the offset at which the
    // tag byte itself sits
    let mut buf = zero_header();
    buf.push(9);
    let mut demo = Demo::new(buf);
    assert_eq!(
        demo.parse(),
        Err(DemoError::UnrecognizedTag { tag: 9, offset: HEADER_LEN })
    );
}

#[test]
fn unknown_tag_later_in_stream() {
    // a tick-sync record first, then tag 9 at HEADER_LEN + 5
    let mut buf = zero_header();
    buf.push(3);
    push_i32(&mut buf, 1);
    buf.push(9);
    let mut demo = Demo::new(buf);
    assert_eq!(
        demo.parse(),
        Err(DemoError::UnrecognizedTag { tag: 9, offset: HEADER_LEN + 5 })
    );
}

#[test]
fn truncated_packet_is_error() {
    // a packet record whose declared payload length exceeds the remaining bytes
    let mut buf = zero_header();
    buf.push(2);
    push_i32(&mut buf, 7);
    for _ in 0..84 {
        buf.push(0);
    }
    push_i32(&mut buf, 100);
    buf.extend_from_slice(&[1, 2, 3, 4, 5]);
    let mut demo = Demo::new(buf);
    assert_eq!(demo.parse(), Err(DemoError::UnexpectedEndOfData));
}

#[test]
fn truncated_tick_is_error() {
    let mut buf = zero_header();
    buf.push(3);
    buf.push(1);
    let mut demo = Demo::new(buf);
    assert_eq!(demo.parse(), Err(DemoError::UnexpectedEndOfData));
}

#[test]
fn missing_terminator_is_error() {
    // the stream simply stops at a record boundary without a terminator
    let mut buf = zero_header();
    buf.push(3);
    push_i32(&mut buf, 12);
    let mut demo = Demo::new(buf);
    assert_eq!(demo.parse(), Err(DemoError::UnexpectedEndOfData));
}

#[test]
fn regression_keeps_higher_tick() {
    // tick goes 10 then 5: the walk stops and the result stays 10
    let mut buf = zero_header();
    buf.push(3);
    push_i32(&mut buf, 10);
    buf.push(3);
    push_i32(&mut buf, 5);
    buf.push(3);
    push_i32(&mut buf, 99);
    buf.push(7);
    let mut demo = Demo::new(buf);
    assert_eq!(demo.parse(), Ok(10));
    assert_eq!(demo.stop, Some(StopReason::Regression));
    assert!(demo.cmds.is_empty());
}

#[test]
fn parse_is_idempotent() {
    let mut buf = zero_header();
    buf.push(4);
    push_i32(&mut buf, 42);
    push_i32(&mut buf, 2);
    buf.extend_from_slice(b"ok");
    buf.push(7);
    let mut demo = Demo::new(buf);
    assert_eq!(demo.parse(), Ok(42));
    let pos_after_first = demo.cursor.pos;
    let cmds_after_first = demo.cmds.clone();
    assert_eq!(demo.parse(), Ok(42));
    assert_eq!(demo.cursor.pos, pos_after_first);
    assert_eq!(demo.cmds, cmds_after_first);
}

#[test]
fn last_tick_before_terminator_wins() {
    // a packet with tick 7 and a 3-byte payload, then a tick-sync to 9
    let mut buf = zero_header();
    buf.push(2);
    push_i32(&mut buf, 7);
    for _ in 0..84 {
        buf.push(0);
    }
    push_i32(&mut buf, 3);
    buf.extend_from_slice(&[0xAA, 0xBB, 0xCC]);
    buf.push(3);
    push_i32(&mut buf, 9);
    buf.push(7);
    let mut demo = Demo::new(buf);
    assert_eq!(demo.parse(), Ok(9));
}

#[test]
fn signon_record_skips_payload() {
    // signon length 6: the seek after the tag moves 5 bytes forward
    let mut buf = header_bytes("ABCDEFGH", 0, 0, 0, 0, 0, 6);
    buf.push(1);
    buf.extend_from_slice(&[0xDE, 0xAD, 0xBE, 0xEF, 0x00]);
    buf.push(7);
    let mut demo = Demo::new(buf);
    assert_eq!(demo.parse(), Ok(0));
    assert_eq!(demo.stop, Some(StopReason::Terminator));
}

#[test]
fn datatables_stops_early_with_result() {
    let mut buf = zero_header();
    buf.push(3);
    push_i32(&mut buf, 3);
    buf.push(6);
    buf.extend_from_slice(&[0xFF; 10]);
    let mut demo = Demo::new(buf);
    assert_eq!(demo.parse(), Ok(3));
    assert_eq!(demo.stop, Some(StopReason::Unimplemented));
}

#[test]
fn user_command_and_string_table_ticks() {
    let mut buf = zero_header();
    buf.push(5);
    push_i32(&mut buf, 11);
    push_i32(&mut buf, 0);
    push_i32(&mut buf, 2);
    buf.extend_from_slice(&[9, 9]);
    buf.push(8);
    push_i32(&mut buf, 12);
    push_i32(&mut buf, 1);
    buf.push(0);
    buf.push(7);
    let mut demo = Demo::new(buf);
    assert_eq!(demo.parse(), Ok(12));
}

#[test]
fn signon_seek_below_zero_is_invalid() {
    let mut buf = header_bytes("ABCDEFGH", 0, 0, 0, 0, 0, -2000);
    buf.push(1);
    let mut demo = Demo::new(buf);
    assert_eq!(demo.parse(), Err(DemoError::InvalidSeek));
}

#[test]
fn empty_buffer_is_error() {
    let mut demo = Demo::new(Vec::new());
    assert_eq!(demo.parse(), Err(DemoError::UnexpectedEndOfData));
    // the header never decoded, so nothing is memoized and a second call
    // fails the same way
    assert_eq!(demo.parse(), Err(DemoError::UnexpectedEndOfData));
}

#[test]
fn short_header_is_error() {
    let mut demo = Demo::new(vec![1, 2, 3, 4, 5, 6, 7, 8, 9, 10]);
    assert_eq!(demo.parse(), Err(DemoError::UnexpectedEndOfData));
}

#[test]
fn invalid_utf8_is_replaced_not_fatal() {
    // 0xFF can begin no UTF-8 sequence: it decodes to U+FFFD, the byte after
    // it survives
    let mut buf = zero_header();
    buf.push(4);
    push_i32(&mut buf, 1);
    push_i32(&mut buf, 2);
    buf.push(0xFF);
    buf.push(b'A');
    buf.push(7);
    let mut demo = Demo::new(buf);
    assert_eq!(demo.parse(), Ok(1));
    assert_eq!(demo.cmds.len(), 1);
    assert_eq!(demo.cmds[0].0, 1);
    assert_eq!(demo.cmds[0].1, "\u{FFFD}A");
}

#[test]
fn negative_console_length_is_error() {
    let mut buf = zero_header();
    buf.push(4);
    push_i32(&mut buf, 1);
    push_i32(&mut buf, -1);
    buf.push(7);
    let mut demo = Demo::new(buf);
    assert_eq!(demo.parse(), Err(DemoError::UnexpectedEndOfData));
}

#[test]
fn error_leaves_no_partial_result() {
    // the walk sees tick 10, then fails on an unknown tag; the failure is
    // unrecoverable, so no tick is memoized and no later call may return one
    let mut buf = zero_header();
    buf.push(3);
    push_i32(&mut buf, 10);
    buf.push(9);
    let mut demo = Demo::new(buf);
    assert!(matches!(demo.parse(), Err(DemoError::UnrecognizedTag { .. })));
    assert_eq!(demo.ticks, None);
    // nothing was memoized; the retry starts over at the moved cursor,
    // where no full header remains
    assert_eq!(demo.parse(), Err(DemoError::UnexpectedEndOfData));
}

#[test]
fn truncation_leaves_no_partial_result() {
    // a tick record then a cut-short record: the error propagates and no
    // partial tick count is returned or kept
    let mut buf = zero_header();
    buf.push(3);
    push_i32(&mut buf, 12);
    buf.push(3);
    buf.push(1);
    let mut demo = Demo::new(buf);
    assert_eq!(demo.parse(), Err(DemoError::UnexpectedEndOfData));
    assert_eq!(demo.ticks, None);
}

#[test]
fn header_time_bits_kept_verbatim() {
    // 1.5f32 is 0x3FC00000; the header keeps the raw bits
    let mut buf = header_bytes("ABCDEFGH", 0, 0, 0x3FC0_0000, 0, 0, 0);
    buf.push(7);
    let mut demo = Demo::new(buf);
    assert_eq!(demo.parse(), Ok(0));
    assert_eq!(demo.header.time_bits, 0x3FC0_0000);
    assert_eq!(f32::from_bits(demo.header.time_bits), 1.5f32);
}

#[test]
fn error_descriptions_are_nonempty() {
    assert!(!DemoError::UnexpectedEndOfData.describe().is_empty());
    assert!(!DemoError::UnrecognizedTag { tag: 9, offset: 0 }.describe().is_empty());
    assert!(!DemoError::InvalidSeek.describe().is_empty());
    assert!(!DemoError::StalledStream.describe().is_empty());
}
