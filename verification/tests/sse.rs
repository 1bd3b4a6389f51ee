//! Server-sent events, however they are cut into chunks.

use opus_api::sse::{parse_frame, SseParser};

#[test]
fn parses_the_control_planes_shape_across_chunk_boundaries() {
    let mut p = SseParser::default();
    p.push(b": connected\n\nevent: message\ndata: {\"id\":\"sevt_1\",\"ty");
    assert!(
        p.frames().is_empty(),
        "comment alone is not a frame; data frame incomplete"
    );
    p.push(b"pe\":\"agent.message\"}\n\nevent: message\ndata: {\"id\":\"sevt_2\"}\n\n");
    let frames = p.frames();
    assert_eq!(frames.len(), 2);
    assert_eq!(frames[0].event.as_deref(), Some("message"));
    assert_eq!(
        frames[0].data,
        "{\"id\":\"sevt_1\",\"type\":\"agent.message\"}"
    );
    assert_eq!(frames[1].data, "{\"id\":\"sevt_2\"}");
    assert!(p.frames().is_empty());
}

#[test]
fn multiline_data_and_crlf() {
    let mut p = SseParser::default();
    p.push(b"data: a\r\ndata: b\r\n\r\n");
    let frames = p.frames();
    assert_eq!(frames.len(), 1);
    assert_eq!(frames[0].data, "a\nb");
    assert_eq!(frames[0].event, None);
}

#[test]
fn chunks_make_no_difference() {
    let stream = "event: x\r\ndata: a\r\n\r\n: hi\n\ndata: h\u{e9}llo\ndata:two\n\ndata\n\ndata: rest";
    let bytes = stream.as_bytes();
    let mut whole = SseParser::default();
    whole.push(bytes);
    let all = whole.frames();
    for cut in 0..=bytes.len() {
        let mut p = SseParser::default();
        p.push(&bytes[..cut]);
        let mut got = p.frames();
        p.push(&bytes[cut..]);
        got.extend(p.frames());
        assert_eq!(got, all, "cut at {cut}");
        assert_eq!(p.pending(), whole.pending());
    }
    let mut p = SseParser::default();
    let mut got = vec![];
    for b in bytes {
        p.push(&[*b]);
        got.extend(p.frames());
    }
    assert_eq!(got, all);
    assert_eq!(p.pending(), "data: rest".len());
}

#[test]
fn a_frame_without_data_is_none() {
    assert!(parse_frame("").is_none());
    assert!(parse_frame(": comment").is_none());
    assert!(parse_frame("event: ping").is_none());
    assert!(parse_frame("id: 7\nretry: 10").is_none());
    let f = parse_frame("data: x").unwrap();
    assert_eq!((f.event, f.data.as_str()), (None, "x"));
    // One space is taken off, no more.
    assert_eq!(parse_frame("data:  x").unwrap().data, " x");
    assert_eq!(parse_frame("data:x").unwrap().data, "x");
}

#[test]
fn bytes_that_are_no_text_are_replaced() {
    let mut p = SseParser::default();
    p.push(b"data: a\xffb\n\n");
    assert_eq!(p.frames()[0].data, "a\u{fffd}b");
}
