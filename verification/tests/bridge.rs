use git_backend_rs::pkt::{decode, encode, Decoded};
use git_backend_rs::refs::content_type_for;
use git_backend_rs::{BridgeError, CgiResponseParser, PktLine, RefsAdvertiser};

#[test]
fn it_prints_service_line_correctly() {
    let line = "# service=git-upload-pack\n";
    let pkt_line = PktLine(line.as_bytes());
    assert_eq!(
        pkt_line.encode().unwrap(),
        b"001e# service=git-upload-pack\n".to_vec()
    );
}

#[test]
fn encode_empty_payload_is_flush() {
    assert_eq!(encode(b"").unwrap(), b"0000".to_vec());
}

#[test]
fn encode_prefixes_length_plus_four() {
    assert_eq!(encode(b"a").unwrap(), b"0005a".to_vec());
    assert_eq!(encode(b"hello\n").unwrap(), b"000ahello\n".to_vec());
}

#[test]
fn encode_largest_payload() {
    let payload = vec![0x2au8; 65516];
    let frame = encode(&payload).unwrap();
    assert_eq!(frame.len(), 65520);
    assert_eq!(&frame[..4], b"fff0");
    assert_eq!(&frame[4..], payload.as_slice());
}

#[test]
fn encode_oversized_payload_fails() {
    let payload = vec![0u8; 65517];
    assert_eq!(encode(&payload), Err(BridgeError::OversizedPayload));
}

#[test]
fn encode_is_repeatable() {
    let payload = b"# service=git-upload-pack\n";
    let first = encode(payload).unwrap();
    let second = encode(payload).unwrap();
    assert_eq!(first, second);
}

#[test]
fn decode_round_trips_encode() {
    let payloads: [&[u8]; 4] = [b"a", b"hello world", b"\x00\xff\x01binary", b"0000"];
    for payload in payloads {
        let frame = encode(payload).unwrap();
        match decode(&frame) {
            Decoded::Frame {
                payload: got,
                remaining,
            } => {
                assert_eq!(got, payload.to_vec());
                assert!(remaining.is_empty());
            }
            _ => panic!("expected a frame"),
        }
    }
}

#[test]
fn decode_round_trips_largest_payload() {
    let payload = vec![7u8; 65516];
    let frame = encode(&payload).unwrap();
    match decode(&frame) {
        Decoded::Frame {
            payload: got,
            remaining,
        } => {
            assert_eq!(got, payload);
            assert!(remaining.is_empty());
        }
        _ => panic!("expected a frame"),
    }
}

#[test]
fn decode_flush_keeps_remaining() {
    match decode(b"0000XYZ") {
        Decoded::Flush { remaining } => assert_eq!(remaining, b"XYZ".to_vec()),
        _ => panic!("expected a flush"),
    }
}

#[test]
fn decode_keeps_bytes_after_frame() {
    match decode(b"0005a0000") {
        Decoded::Frame { payload, remaining } => {
            assert_eq!(payload, b"a".to_vec());
            assert_eq!(remaining, b"0000".to_vec());
        }
        _ => panic!("expected a frame"),
    }
}

#[test]
fn decode_short_stream_needs_more() {
    assert!(matches!(decode(b""), Decoded::NeedMoreData));
    assert!(matches!(decode(b"00"), Decoded::NeedMoreData));
    assert!(matches!(decode(b"0008abc"), Decoded::NeedMoreData));
}

#[test]
fn decode_rejects_bad_prefix() {
    assert!(matches!(decode(b"00zz"), Decoded::Invalid));
    assert!(matches!(decode(b"00FF"), Decoded::Invalid));
    assert!(matches!(decode(b"0001"), Decoded::Invalid));
    assert!(matches!(decode(b"0003abc"), Decoded::Invalid));
}

#[test]
fn advertisement_starts_with_service_line_then_flush() {
    let backend = b"00a3deadbeef refs/heads/main\n0000";
    let out = RefsAdvertiser::build(b"git-upload-pack", backend).unwrap();
    let mut expected = b"001e# service=git-upload-pack\n0000".to_vec();
    expected.extend_from_slice(backend);
    assert_eq!(out, expected);
}

#[test]
fn advertisement_forwards_backend_bytes_verbatim() {
    let backend = b"\x00\x01raw \xffbytes";
    let out = RefsAdvertiser::build(b"git-receive-pack", backend).unwrap();
    assert_eq!(&out[..35], b"001f# service=git-receive-pack\n0000");
    assert_eq!(&out[35..], backend);
}

#[test]
fn advertisement_with_empty_backend_output() {
    let out = RefsAdvertiser::build(b"git-upload-archive", b"").unwrap();
    assert_eq!(out, b"0021# service=git-upload-archive\n0000".to_vec());
}

#[test]
fn unknown_service_is_refused() {
    assert_eq!(
        RefsAdvertiser::build(b"git-evil-pack", b""),
        Err(BridgeError::UnknownService)
    );
    assert_eq!(
        RefsAdvertiser::build(b"git-upload-pack\r\nInjected: header", b""),
        Err(BridgeError::UnknownService)
    );
    assert_eq!(
        RefsAdvertiser::build(b"", b""),
        Err(BridgeError::UnknownService)
    );
}

#[test]
fn content_type_names_the_service() {
    assert_eq!(
        content_type_for(b"git-upload-pack").unwrap(),
        b"application/x-git-upload-pack-advertisement".to_vec()
    );
    assert_eq!(
        content_type_for(b"not-a-service"),
        Err(BridgeError::UnknownService)
    );
}

#[test]
fn parse_splits_headers_and_body() {
    let raw = b"Status: 200 OK\r\nContent-Type: text/plain\r\n\r\nHELLO";
    let resp = CgiResponseParser::parse(raw).unwrap();
    assert_eq!(resp.headers.len(), 2);
    assert_eq!(resp.headers[0].name, b"Status".to_vec());
    assert_eq!(resp.headers[0].value, b"200 OK".to_vec());
    assert_eq!(resp.headers[1].name, b"Content-Type".to_vec());
    assert_eq!(resp.headers[1].value, b"text/plain".to_vec());
    assert_eq!(resp.body, b"HELLO".to_vec());
}

#[test]
fn parse_rejects_line_without_colon() {
    let r = CgiResponseParser::parse(b"garbage\r\n\r\nBODY");
    assert_eq!(r.unwrap_err(), BridgeError::MalformedCgiHeader);
}

#[test]
fn parse_rejects_illegal_value_byte() {
    let r = CgiResponseParser::parse(b"X-Thing: a\x01b\r\n\r\n");
    assert_eq!(r.unwrap_err(), BridgeError::InvalidHeaderValue);
}

#[test]
fn parse_rejects_illegal_name() {
    let r = CgiResponseParser::parse(b"bad name: v\r\n\r\nBODY");
    assert_eq!(r.unwrap_err(), BridgeError::InvalidHeaderValue);
}

#[test]
fn parse_accepts_bare_lf_lines() {
    let resp = CgiResponseParser::parse(b"Status: 404 Not Found\n\nmissing").unwrap();
    assert_eq!(resp.headers.len(), 1);
    assert_eq!(resp.headers[0].name, b"Status".to_vec());
    assert_eq!(resp.headers[0].value, b"404 Not Found".to_vec());
    assert_eq!(resp.body, b"missing".to_vec());
}

#[test]
fn parse_skips_one_byte_after_colon_even_without_space() {
    let resp = CgiResponseParser::parse(b"A:bc\r\n\r\n").unwrap();
    assert_eq!(resp.headers[0].name, b"A".to_vec());
    assert_eq!(resp.headers[0].value, b"c".to_vec());
}

#[test]
fn parse_keeps_later_colons_in_value() {
    let resp = CgiResponseParser::parse(b"A: b:c\r\n\r\n").unwrap();
    assert_eq!(resp.headers[0].name, b"A".to_vec());
    assert_eq!(resp.headers[0].value, b"b:c".to_vec());
}

#[test]
fn parse_gives_empty_value_when_nothing_follows_colon() {
    let resp = CgiResponseParser::parse(b"A:\r\n\r\n").unwrap();
    assert_eq!(resp.headers[0].name, b"A".to_vec());
    assert_eq!(resp.headers[0].value, b"".to_vec());
}

#[test]
fn parse_empty_input_gives_nothing() {
    let resp = CgiResponseParser::parse(b"").unwrap();
    assert!(resp.headers.is_empty());
    assert!(resp.body.is_empty());
}

#[test]
fn parse_without_terminator_consumes_all_as_headers() {
    let resp = CgiResponseParser::parse(b"A: b\nC: d").unwrap();
    assert_eq!(resp.headers.len(), 2);
    assert_eq!(resp.headers[1].name, b"C".to_vec());
    assert_eq!(resp.headers[1].value, b"d".to_vec());
    assert!(resp.body.is_empty());
}

#[test]
fn parse_body_starts_right_after_terminator() {
    let resp = CgiResponseParser::parse(b"\r\nBODY\r\nMORE").unwrap();
    assert!(resp.headers.is_empty());
    assert_eq!(resp.body, b"BODY\r\nMORE".to_vec());
}

#[test]
fn parse_accepts_lone_cr_terminator() {
    let resp = CgiResponseParser::parse(b"A: b\n\r").unwrap();
    assert_eq!(resp.headers.len(), 1);
    assert!(resp.body.is_empty());
}

#[test]
fn parse_forwards_binary_body_untouched() {
    let mut raw = b"Content-Type: application/x-git-upload-pack-result\r\n\r\n".to_vec();
    let body: Vec<u8> = vec![0x00, 0xff, 0x30, 0x30, 0x31, 0x0a, 0x0d];
    raw.extend_from_slice(&body);
    let resp = CgiResponseParser::parse(&raw).unwrap();
    assert_eq!(resp.body, body);
}

#[test]
fn oversized_pkt_line_reports_error() {
    let payload = vec![b'x'; 70000];
    let pkt_line = PktLine(&payload);
    assert_eq!(pkt_line.encode(), Err(BridgeError::OversizedPayload));
}

#[test]
fn error_labels_are_distinct() {
    assert_eq!(
        BridgeError::OversizedPayload.describe(),
        "oversized pkt-line payload"
    );
    assert_eq!(
        BridgeError::MalformedCgiHeader.describe(),
        "malformed CGI header line"
    );
    assert_eq!(
        BridgeError::InvalidHeaderValue.describe(),
        "invalid HTTP header"
    );
    assert_eq!(BridgeError::UnknownService.describe(), "unknown service");
}
