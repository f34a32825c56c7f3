use contact_relay::body::{content_length, parse_length, BodyCollector, BodyStep};
use contact_relay::bytes::{bytes_eq, find_bytes, split_bytes, split_once_bytes, trim_bytes};
use contact_relay::error::{Error, FormField};
use contact_relay::form::{split_body_from, HttpMessage};
use contact_relay::frame::{check_http_header, FrameReader, FrameStep, DEFAULT_MAX_HEADER_SIZE};
use contact_relay::header::{split_header, split_header_from, HttpHeader};

fn feed_all(limit: usize, chunks: &[&[u8]]) -> (usize, FrameStep) {
    let mut reader = FrameReader::new(limit);
    for (i, chunk) in chunks.iter().enumerate() {
        match reader.feed(chunk) {
            FrameStep::NeedMore(next) => reader = next,
            done => return (i + 1, done),
        }
    }
    (chunks.len(), FrameStep::NeedMore(reader))
}

fn header_of(bytes: &[u8]) -> HttpHeader {
    match split_header(bytes.to_vec()) {
        Ok(h) => h,
        Err(e) => panic!("header refused: {:?}", e),
    }
}

#[test]
fn finds_first_occurrence() {
    assert_eq!(find_bytes(b"ab\r\n\r\n\r\n\r\n", b"\r\n\r\n"), Some(2));
    assert_eq!(find_bytes(b"ab\r\n\r", b"\r\n\r\n"), None);
    assert_eq!(find_bytes(b"", b"x"), None);
}

#[test]
fn check_http_header_positions() {
    assert_eq!(check_http_header(b"GET / HTTP/1.1\r\n\r\nrest"), Some(14));
    assert_eq!(check_http_header(b"\r\n\r\n"), Some(0));
    assert_eq!(check_http_header(b"GET / HTTP/1.1\r\n"), None);
}

#[test]
fn splits_and_trims_bytes() {
    let pieces = split_bytes(b"a&&b&", b"&");
    assert_eq!(pieces, vec![b"a".to_vec(), Vec::new(), b"b".to_vec(), Vec::new()]);
    assert_eq!(split_bytes(b"", b"&"), vec![Vec::<u8>::new()]);
    assert_eq!(split_once_bytes(b"k=v=w", b"="), Some((b"k".to_vec(), b"v=w".to_vec())));
    assert_eq!(split_once_bytes(b"kv", b"="), None);
    assert_eq!(trim_bytes(b" \t hi there \r\n"), b"hi there".to_vec());
    assert_eq!(trim_bytes(b"   "), Vec::<u8>::new());
    assert!(bytes_eq(b"abc", b"abc"));
    assert!(!bytes_eq(b"abc", b"abd"));
}

#[test]
fn delimiter_split_across_chunks() {
    let (used, step) = feed_all(
        DEFAULT_MAX_HEADER_SIZE,
        &[b"POST /contact HTTP/1.1\r\nHost: x\r", b"\n\r", b"\nbody", b"never read"],
    );
    assert_eq!(used, 3);
    match step {
        FrameStep::Complete(header, trailing) => {
            assert_eq!(header, b"POST /contact HTTP/1.1\r\nHost: x".to_vec());
            assert_eq!(trailing, b"body".to_vec());
        }
        _ => panic!("expected a complete header"),
    }
}

#[test]
fn delimiter_in_one_chunk_keeps_trailing() {
    let (used, step) = feed_all(64, &[b"GET / HTTP/1.1\r\n\r\nabc\r\n\r\nxyz"]);
    assert_eq!(used, 1);
    match step {
        FrameStep::Complete(header, trailing) => {
            assert_eq!(header, b"GET / HTTP/1.1".to_vec());
            assert_eq!(trailing, b"abc\r\n\r\nxyz".to_vec());
        }
        _ => panic!("expected a complete header"),
    }
}

#[test]
fn reader_waits_without_delimiter() {
    let (_, step) = feed_all(16, &[b"GET / HT", b"TP/1.1\r\n"]);
    assert!(matches!(step, FrameStep::NeedMore(_)));
}

#[test]
fn oversized_header_fails() {
    let (used, step) = feed_all(8, &[b"GET / HT", b"T", b"more"]);
    assert_eq!(used, 2);
    assert!(matches!(step, FrameStep::Failed(Error::HeaderTooLarge)));
}

#[test]
fn delimiter_past_limit_fails() {
    let (_, step) = feed_all(8, &[b"GET / HTTP/1.1\r\n\r\n"]);
    assert!(matches!(step, FrameStep::Failed(Error::HeaderTooLarge)));
}

#[test]
fn delimiter_ending_at_limit_succeeds() {
    let (_, step) = feed_all(8, &[b"GET\r\n\r\nabcdef"]);
    match step {
        FrameStep::Complete(header, trailing) => {
            assert_eq!(header, b"GET".to_vec());
            assert_eq!(trailing, b"abcdef".to_vec());
        }
        _ => panic!("expected a complete header"),
    }
}

#[test]
fn parses_header_fields() {
    let h = header_of(b"POST /contact HTTP/1.1\r\nHost:  x \r\nContent-Length: 41\r\nHost: y\r\n");
    assert_eq!(h.start_line, vec![b"POST".to_vec(), b"/contact".to_vec(), b"HTTP/1.1".to_vec()]);
    assert_eq!(h.fields.len(), 3);
    assert_eq!(h.fields[0], (b"Host".to_vec(), b"x".to_vec()));
    assert_eq!(h.get(b"Host"), Some(&b"y".to_vec()));
    assert_eq!(h.get(b"host"), None);
    assert_eq!(content_length(&h), Ok(41));
}

#[test]
fn header_errors() {
    assert_eq!(split_header(vec![0xff, 0xfe]).err(), Some(Error::Encoding));
    assert_eq!(split_header(b"GET /".to_vec()).err(), Some(Error::MalformedStartLine));
    assert_eq!(split_header(Vec::new()).err(), Some(Error::MalformedStartLine));
    assert_eq!(
        split_header(b"GET / HTTP/1.1\r\nHost x".to_vec()).err(),
        Some(Error::MalformedField)
    );
}

#[test]
fn split_header_from_needs_delimiter() {
    assert_eq!(
        split_header_from(b"GET / HTTP/1.1\r\n".to_vec()).err(),
        Some(Error::TruncatedRequest)
    );
    match split_header_from(b"GET / HTTP/1.1\r\nA: b\r\n\r\ntail".to_vec()) {
        Ok((h, trailing)) => {
            assert_eq!(h.start_line.len(), 3);
            assert_eq!(h.get(b"A"), Some(&b"b".to_vec()));
            assert_eq!(trailing, b"tail".to_vec());
        }
        Err(e) => panic!("refused: {:?}", e),
    }
}

#[test]
fn missing_content_length() {
    let h = header_of(b"POST /contact HTTP/1.1\r\nHost: x");
    assert_eq!(content_length(&h), Err(Error::MissingLength));
}

#[test]
fn invalid_content_length() {
    let h = header_of(b"POST / HTTP/1.1\r\nContent-Length: 4x");
    assert_eq!(content_length(&h), Err(Error::InvalidLength));
    let h = header_of(b"POST / HTTP/1.1\r\nContent-Length: 99999999999999999999999");
    assert_eq!(content_length(&h), Err(Error::InvalidLength));
    let h = header_of(b"POST / HTTP/1.1\r\nContent-Length:  ");
    assert_eq!(content_length(&h), Err(Error::InvalidLength));
}

#[test]
fn parses_decimal_lengths() {
    assert_eq!(parse_length(b"0"), Some(0));
    assert_eq!(parse_length(b"1234"), Some(1234));
    assert_eq!(parse_length(b"18446744073709551615"), Some(usize::MAX));
    assert_eq!(parse_length(b"18446744073709551616"), None);
    assert_eq!(parse_length(b""), None);
    assert_eq!(parse_length(b"-1"), None);
}

#[test]
fn body_collected_to_length() {
    let collector = match BodyCollector::new(6, b"abc".to_vec()) {
        BodyStep::NeedMore(c) => c,
        BodyStep::Complete(_) => panic!("too early"),
    };
    let collector = match collector.feed(b"d") {
        BodyStep::NeedMore(c) => c,
        BodyStep::Complete(_) => panic!("too early"),
    };
    match collector.feed(b"efgh") {
        BodyStep::Complete(body) => assert_eq!(body, b"abcdef".to_vec()),
        BodyStep::NeedMore(_) => panic!("expected the body"),
    }
}

#[test]
fn body_from_trailing_alone() {
    match BodyCollector::new(2, b"xyz".to_vec()) {
        BodyStep::Complete(body) => assert_eq!(body, b"xy".to_vec()),
        BodyStep::NeedMore(_) => panic!("expected the body"),
    }
    match BodyCollector::new(0, Vec::new()) {
        BodyStep::Complete(body) => assert!(body.is_empty()),
        BodyStep::NeedMore(_) => panic!("expected an empty body"),
    }
}

fn contact(email: &str, surname: &str, last_name: &str, subject: &str, content: &str) -> HttpMessage {
    HttpMessage {
        email: email.as_bytes().to_vec(),
        surname: surname.as_bytes().to_vec(),
        last_name: last_name.as_bytes().to_vec(),
        subject: subject.as_bytes().to_vec(),
        content: content.as_bytes().to_vec(),
    }
}

#[test]
fn example_request_end_to_end() {
    let body: &[u8] = b"email=a@b.com&surname=A&last_name=B&subject=Hi&content=Hey";
    let mut request = b"POST /contact HTTP/1.1\r\nHost: x\r\nContent-Length: 58\r\n\r\n".to_vec();
    request.extend_from_slice(&body[..20]);
    let (header, trailing) = match FrameReader::new(DEFAULT_MAX_HEADER_SIZE).feed(&request) {
        FrameStep::Complete(h, t) => (h, t),
        _ => panic!("expected a complete header"),
    };
    let (header, rest) = split_header_from([header, b"\r\n\r\n".to_vec(), trailing].concat()).unwrap();
    let n = content_length(&header).unwrap();
    let collector = match BodyCollector::new(n, rest) {
        BodyStep::NeedMore(c) => c,
        BodyStep::Complete(_) => panic!("too early"),
    };
    let body_bytes = match collector.feed(&body[20..]) {
        BodyStep::Complete(b) => b,
        BodyStep::NeedMore(_) => panic!("expected the body"),
    };
    let message = split_body_from(body_bytes).unwrap();
    assert_eq!(message, contact("a@b.com", "A", "B", "Hi", "Hey"));
}

#[test]
fn example_length_cuts_body() {
    let body = b"email=a@b.com&surname=A&last_name=B&subject=Hi&content=Hey".to_vec();
    match BodyCollector::new(41, body) {
        BodyStep::Complete(b) => {
            assert_eq!(b, b"email=a@b.com&surname=A&last_name=B&subje".to_vec());
            assert_eq!(split_body_from(b), Err(Error::MalformedField));
        }
        BodyStep::NeedMore(_) => panic!("expected the body"),
    }
}

#[test]
fn form_values_trimmed_and_last_wins() {
    let m = split_body_from(
        b"email= x@y.z &surname=S&last_name=L&subject=first&content=C&subject= second ".to_vec(),
    )
    .unwrap();
    assert_eq!(m, contact("x@y.z", "S", "L", "second", "C"));
}

#[test]
fn form_missing_fields() {
    assert_eq!(
        split_body_from(b"surname=S&last_name=L&subject=s&content=C".to_vec()),
        Err(Error::MissingField(FormField::Email))
    );
    assert_eq!(
        split_body_from(b"email=e&last_name=L&subject=s&content=C".to_vec()),
        Err(Error::MissingField(FormField::Surname))
    );
    assert_eq!(
        split_body_from(b"email=e&surname=S&subject=s&content=C".to_vec()),
        Err(Error::MissingField(FormField::LastName))
    );
    assert_eq!(
        split_body_from(b"email=e&surname=S&last_name=L&content=C".to_vec()),
        Err(Error::MissingField(FormField::Subject))
    );
    assert_eq!(
        split_body_from(b"email=e&surname=S&last_name=L&subject=s".to_vec()),
        Err(Error::MissingField(FormField::Content))
    );
}

#[test]
fn form_malformed_and_encoding() {
    assert_eq!(split_body_from(b"email".to_vec()), Err(Error::MalformedField));
    assert_eq!(split_body_from(Vec::new()), Err(Error::MalformedField));
    assert_eq!(split_body_from(vec![b'a', b'=', 0xc3]), Err(Error::Encoding));
}

#[test]
fn http_message_from_pairs() {
    let pairs = vec![
        (b"content".to_vec(), b"C".to_vec()),
        (b"email".to_vec(), b"e".to_vec()),
        (b"subject".to_vec(), b"s".to_vec()),
        (b"last_name".to_vec(), b"L".to_vec()),
        (b"surname".to_vec(), b"S".to_vec()),
        (b"extra".to_vec(), b"ignored".to_vec()),
    ];
    assert_eq!(HttpMessage::from(&pairs), Ok(contact("e", "S", "L", "s", "C")));
    assert_eq!(HttpMessage::from(&Vec::new()), Err(Error::MissingField(FormField::Email)));
}

#[test]
fn form_round_trip() {
    let m = contact("jo@example.org", "Jo", "Doe", "Grüße", "Hello there");
    let encoded = m.to_form();
    assert_eq!(
        encoded,
        "email=jo@example.org&surname=Jo&last_name=Doe&subject=Grüße&content=Hello there"
            .as_bytes()
            .to_vec()
    );
    assert_eq!(split_body_from(encoded), Ok(m));
}
