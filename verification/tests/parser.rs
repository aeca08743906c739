//! Tests of the incremental SSE parser: record framing, payload joining,
//! unknown fields, trimming, and independence from chunk boundaries.

use relay_core::sse::SseParser;

fn feed_all(parser: &mut SseParser, chunks: &[&[u8]]) -> Vec<Vec<u8>> {
    let mut msgs = Vec::new();
    for c in chunks {
        msgs.extend(parser.feed(c));
    }
    msgs
}

#[test]
fn two_data_lines_join_into_one_message() {
    let mut p = SseParser::new();
    let msgs = p.feed(b"data: foo\ndata: bar\n\n");
    assert_eq!(msgs.len(), 1);
    assert_eq!(msgs[0].as_slice(), b"foo\nbar");
}

#[test]
fn blank_line_without_data_yields_nothing() {
    let mut p = SseParser::new();
    let msgs = p.feed(b"\n\r\n\n");
    assert_eq!(msgs.len(), 0);
    assert_eq!(p.take_final(), None);
}

#[test]
fn unknown_fields_are_discarded() {
    let mut p = SseParser::new();
    let msgs = p.feed(b"id: 5\nretry: 3000\n: comment\ndata: x\nevent: tick\n\n");
    assert_eq!(msgs.len(), 1);
    assert_eq!(msgs[0].as_slice(), b"x");
}

#[test]
fn unknown_fields_do_not_break_accumulation() {
    let mut p = SseParser::new();
    let msgs = p.feed(b"data: first\nid: 7\ndata: second\n\n");
    assert_eq!(msgs.len(), 1);
    assert_eq!(msgs[0].as_slice(), b"first\nsecond");
}

#[test]
fn chunk_boundaries_do_not_matter() {
    let input: &[u8] = b"data: alpha\r\ndata: beta\r\n\r\ndata: gamma\n\nid: 9\ndata: delta\n\n";
    let whole = {
        let mut p = SseParser::new();
        p.feed(input)
    };
    // Split at every position, including mid-line and mid-field.
    for cut in 0..=input.len() {
        let mut p = SseParser::new();
        let msgs = feed_all(&mut p, &[&input[..cut], &input[cut..]]);
        assert_eq!(msgs, whole, "split at {cut} changed the parse");
    }
    // Byte-at-a-time.
    let mut p = SseParser::new();
    let mut msgs = Vec::new();
    for b in input {
        msgs.extend(p.feed(std::slice::from_ref(b)));
    }
    assert_eq!(msgs, whole);
}

#[test]
fn crlf_lines_parse_like_lf_lines() {
    let mut p1 = SseParser::new();
    let mut p2 = SseParser::new();
    let m1 = p1.feed(b"data: one\r\n\r\n");
    let m2 = p2.feed(b"data: one\n\n");
    assert_eq!(m1, m2);
    assert_eq!(m1.len(), 1);
    assert_eq!(m1[0].as_slice(), b"one");
}

#[test]
fn end_of_stream_flushes_pending_record() {
    let mut p = SseParser::new();
    let msgs = p.feed(b"data: tail\n");
    assert_eq!(msgs.len(), 0);
    assert_eq!(p.take_final().as_deref(), Some(b"tail".as_slice()));
    // A second flush finds nothing.
    assert_eq!(p.take_final(), None);
}

#[test]
fn unterminated_line_is_discarded_at_end_of_stream() {
    let mut p = SseParser::new();
    let msgs = p.feed(b"data: incomp");
    assert_eq!(msgs.len(), 0);
    assert_eq!(p.take_final(), None);
}

#[test]
fn empty_data_payload_contributes_nothing() {
    let mut p = SseParser::new();
    let msgs = p.feed(b"data:\ndata:   \n\n");
    assert_eq!(msgs.len(), 0);
    let msgs = p.feed(b"data: a\ndata:\ndata: b\n\n");
    assert_eq!(msgs.len(), 1);
    assert_eq!(msgs[0].as_slice(), b"a\nb");
}

#[test]
fn payload_whitespace_is_trimmed() {
    let mut p = SseParser::new();
    let msgs = p.feed(b"data:   spaced out  \n\n");
    assert_eq!(msgs.len(), 1);
    assert_eq!(msgs[0].as_slice(), b"spaced out");
}

#[test]
fn consecutive_records_stay_separate() {
    let mut p = SseParser::new();
    let msgs = p.feed(b"data: one\n\ndata: two\n\ndata: three\n\n");
    assert_eq!(msgs.len(), 3);
    assert_eq!(msgs[0].as_slice(), b"one");
    assert_eq!(msgs[1].as_slice(), b"two");
    assert_eq!(msgs[2].as_slice(), b"three");
}

#[test]
fn data_prefix_without_colon_is_not_data() {
    let mut p = SseParser::new();
    let msgs = p.feed(b"database: x\ndata x\n\n");
    assert_eq!(msgs.len(), 0);
}
