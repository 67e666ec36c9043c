use examparse::bridge::LineDecoder;

fn texts(events: Vec<examparse::bridge::OutputEvent>) -> Vec<String> {
    events.into_iter().map(|e| e.text).collect()
}

#[test]
fn empty_stream_yields_no_events() {
    let mut d = LineDecoder::new();
    let events = d.feed(b"");
    assert!(events.is_empty());
    assert!(d.finish().is_none());
}

#[test]
fn one_line_yields_one_event() {
    let mut d = LineDecoder::new();
    let events = texts(d.feed(b"hello\n"));
    assert_eq!(events, vec!["hello"]);
    assert!(d.finish().is_none());
}

#[test]
fn many_lines_in_order_no_loss_no_duplication() {
    let mut d = LineDecoder::new();
    let mut stream = Vec::new();
    for i in 0..10_000 {
        stream.extend_from_slice(format!("line-{}\n", i).as_bytes());
    }
    let events = texts(d.feed(&stream));
    assert_eq!(events.len(), 10_000);
    for (i, e) in events.iter().enumerate() {
        assert_eq!(e, &format!("line-{}", i));
    }
}

#[test]
fn chunk_boundaries_do_not_change_events() {
    let mut d = LineDecoder::new();
    let mut events = texts(d.feed(b"hel"));
    events.extend(texts(d.feed(b"lo\nwor")));
    events.extend(texts(d.feed(b"ld\n")));
    assert_eq!(events, vec!["hello", "world"]);
}

#[test]
fn malformed_line_is_skipped_without_ending_the_stream() {
    let mut d = LineDecoder::new();
    let mut stream = Vec::new();
    stream.extend_from_slice(b"before\n");
    stream.extend_from_slice(&[0xff, 0xfe, 0x80]);
    stream.extend_from_slice(b"\nafter\n");
    let events = texts(d.feed(&stream));
    assert_eq!(events, vec!["before", "after"]);
}

#[test]
fn unterminated_final_line_is_delivered_at_end() {
    let mut d = LineDecoder::new();
    let events = texts(d.feed(b"done\ntail"));
    assert_eq!(events, vec!["done"]);
    let last = d.finish().expect("the final line is delivered");
    assert_eq!(last.text, "tail");
    assert!(d.finish().is_none());
}

#[test]
fn malformed_final_line_is_skipped() {
    let mut d = LineDecoder::new();
    let events = texts(d.feed(b"ok\n"));
    assert_eq!(events, vec!["ok"]);
    d.feed(&[0xff, 0xff]);
    assert!(d.finish().is_none());
}

#[test]
fn non_ascii_text_decodes() {
    let mut d = LineDecoder::new();
    let events = texts(d.feed("héllo wörld ✓\n".as_bytes()));
    assert_eq!(events, vec!["héllo wörld ✓"]);
}
