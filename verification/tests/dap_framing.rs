use den::dap::{
    find_header_end, frame_message, header_content_length, line_content_length, lines_of,
    parse_usize_chars, trim_chars, try_decode_frame, Frame,
};

fn chars(s: &str) -> Vec<char> {
    s.chars().collect()
}

#[test]
fn framing_writes_the_length_header() {
    assert_eq!(frame_message(b"{}"), b"Content-Length: 2\r\n\r\n{}".to_vec());
    assert_eq!(frame_message(b""), b"Content-Length: 0\r\n\r\n".to_vec());
    let big = vec![b'x'; 1234];
    let framed = frame_message(&big);
    assert!(framed.starts_with(b"Content-Length: 1234\r\n\r\n"));
    assert_eq!(framed.len(), 24 + 1234);
}

#[test]
fn a_framed_message_decodes_back() {
    for payload in [&b"{}"[..], b"", b"{\"seq\":1,\"type\":\"request\"}", "é".as_bytes()] {
        let mut buf = frame_message(payload);
        buf.extend_from_slice(b"Content-Length: 1\r\n");
        let f = try_decode_frame(&buf).unwrap().unwrap();
        assert_eq!(f.content_length, payload.len());
        assert_eq!(&buf[f.payload_start..f.consumed], payload);
        assert_eq!(f.consumed, frame_message(payload).len());
    }
}

#[test]
fn frames_are_found_one_after_another() {
    let mut buf = frame_message(b"first");
    buf.extend(frame_message(b"second!"));
    let f1 = try_decode_frame(&buf).unwrap().unwrap();
    assert_eq!(&buf[f1.payload_start..f1.consumed], b"first");
    buf.drain(0..f1.consumed);
    let f2 = try_decode_frame(&buf).unwrap().unwrap();
    assert_eq!(&buf[f2.payload_start..f2.consumed], b"second!");
    buf.drain(0..f2.consumed);
    assert_eq!(try_decode_frame(&buf), Some(None));
}

#[test]
fn incomplete_messages_wait_for_more_bytes() {
    assert_eq!(try_decode_frame(b""), Some(None));
    assert_eq!(try_decode_frame(b"Content-Length: 5\r\n\r"), Some(None));
    assert_eq!(try_decode_frame(b"Content-Length: 5\r\n\r\nabc"), Some(None));
    assert_eq!(
        try_decode_frame(b"Content-Length: 5\r\n\r\nabcde"),
        Some(Some(Frame { content_length: 5, payload_start: 21, consumed: 26 }))
    );
}

#[test]
fn header_is_read_case_insensitively_among_other_lines() {
    let buf = b"X-Other: 9\r\ncontent-LENGTH:  3 \r\n\r\nabcXYZ";
    let f = try_decode_frame(buf).unwrap().unwrap();
    assert_eq!(f.content_length, 3);
    assert_eq!(&buf[f.payload_start..f.consumed], b"abc");
}

#[test]
fn first_parsable_length_line_wins() {
    let buf = b"Content-Length: x\r\nContent-Length: 2\r\nContent-Length: 4\r\n\r\nabcd";
    let f = try_decode_frame(buf).unwrap().unwrap();
    assert_eq!(f.content_length, 2);
}

#[test]
fn a_header_without_a_length_gives_nothing() {
    assert_eq!(try_decode_frame(b"Content-Type: json\r\n\r\n{}"), Some(None));
    assert_eq!(try_decode_frame(b"Content-Length: -1\r\n\r\n{}"), Some(None));
    assert_eq!(try_decode_frame(b"Content-Length: 1 2\r\n\r\n{}"), Some(None));
}

#[test]
fn a_plus_sign_is_accepted() {
    let f = try_decode_frame(b"Content-Length: +1\r\n\r\nA").unwrap().unwrap();
    assert_eq!(f.content_length, 1);
}

#[test]
fn invalid_utf8_in_the_header_is_tolerated() {
    let f = try_decode_frame(b"\xff\xfe\r\nContent-Length: 1\r\n\r\nA").unwrap().unwrap();
    assert_eq!(f.content_length, 1);
    assert_eq!(f.consumed, 26);
}

#[test]
fn a_length_past_the_address_space_is_refused() {
    let buf = format!("Content-Length: {}\r\n\r\n", usize::MAX);
    assert_eq!(try_decode_frame(buf.as_bytes()), None);
    let buf = format!("Content-Length: {}\r\n\r\n", usize::MAX - 100);
    assert_eq!(try_decode_frame(buf.as_bytes()), Some(None));
}

#[test]
fn header_end_is_the_first_blank_line() {
    assert_eq!(find_header_end(b"a\r\n\r\nb\r\n\r\n"), Some(1));
    assert_eq!(find_header_end(b"\r\n\r"), None);
}

#[test]
fn header_text_helpers() {
    let ls: Vec<String> = lines_of(&chars("a\r\nb\n\nc\r")).iter().map(|l| l.iter().collect()).collect();
    assert_eq!(ls, vec!["a", "b", "", "c\r"]);
    assert_eq!(trim_chars(&chars(" \t x y \u{3000}")), chars("x y"));
    assert_eq!(parse_usize_chars(&chars("42")), Some(42));
    assert_eq!(parse_usize_chars(&chars("")), None);
    assert_eq!(parse_usize_chars(&chars("99999999999999999999999")), None);
    assert_eq!(line_content_length(&chars("CONTENT-length:7")), Some(7));
    assert_eq!(line_content_length(&chars("Content-Length 7")), None);
    assert_eq!(header_content_length(&chars("A: b\r\nContent-Length: 12")), Some(12));
}

#[test]
fn no_proper_prefix_of_a_message_is_taken() {
    let framed = frame_message(b"{\"seq\":1}");
    for k in 0..framed.len() {
        assert_eq!(try_decode_frame(&framed[..k]), Some(None));
    }
    assert!(try_decode_frame(&framed).unwrap().is_some());
}
