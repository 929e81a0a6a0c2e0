use bution::chat::SseDecoder;

#[test]
fn decodes_sse_across_arbitrary_chunks() {
    let mut decoder = SseDecoder::new();
    assert!(decoder.push(b"data: {\"choices\":").is_empty());
    let events = decoder.push(b"[]}\r\n\r\ndata: [DONE]\n\n");
    assert_eq!(events, vec![r#"{"choices":[]}"#, "[DONE]"]);
}

#[test]
fn joins_multi_line_data_and_skips_comments() {
    let mut decoder = SseDecoder::new();
    let events = decoder.push(b": keep-alive\n\nevent: x\ndata: a\ndata:b\n\n");
    assert_eq!(events, vec!["a\nb"]);
}

#[test]
fn invalid_utf8_is_replaced() {
    let mut decoder = SseDecoder::new();
    let events = decoder.push(b"data: \xff\n\n");
    assert_eq!(events, vec!["\u{fffd}"]);
}

#[test]
fn every_split_of_a_stream_gives_the_same_events() {
    let stream = b"data: one\n\ndata: two\ndata: lines\n\n: comment\n\ndata: [DONE]\n\npartial";
    let mut whole = SseDecoder::new();
    let expected = whole.push(stream);
    assert_eq!(expected, vec!["one", "two\nlines", "[DONE]"]);
    for cut in 0..=stream.len() {
        let mut decoder = SseDecoder::new();
        let mut events = decoder.push(&stream[..cut]);
        events.extend(decoder.push(&stream[cut..]));
        assert_eq!(events, expected, "cut at {cut}");
    }
}
