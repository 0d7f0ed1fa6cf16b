use reshell::crypto::{base64_encode, sha1};
use reshell::http::{handle_http_request_inline, parse_http_request, route_connection, send_simple_response, ListenerAction};
use reshell::terminal::{classify_frame, close_frame, pong_frame, FrameAction};
use reshell::ws::{
    accept_key, decode_frame, encode_masked_text_frame, encode_text_frame, find_websocket_key,
    handle_websocket_connection, is_websocket_upgrade,
};

const HANDSHAKE: &[u8] = b"GET /ws HTTP/1.1\r\nSec-WebSocket-Key: dGhlIHNhbXBsZSBub25jZQ==\r\n\r\n";

fn hex(bytes: &[u8]) -> String {
    bytes.iter().map(|b| format!("{:02x}", b)).collect()
}

#[test]
fn sha1_of_abc() {
    assert_eq!(hex(&sha1(b"abc")), "a9993e364706816aba3e25717850c26c9cd0d89d");
}

#[test]
fn sha1_of_empty_input() {
    assert_eq!(hex(&sha1(b"")), "da39a3ee5e6b4b0d3255bfef95601890afd80709");
}

#[test]
fn sha1_of_two_block_input() {
    let msg = b"abcdbcdecdefdefgefghfghighijhijkijkljklmklmnlmnomnopnopq";
    assert_eq!(hex(&sha1(msg)), "84983e441c3bd26ebaae4aa1f95129e5e54670f1");
}

#[test]
fn base64_pads_and_fills() {
    let mut out = [0u8; 8];
    assert_eq!(base64_encode(b"Ma", &mut out), 4);
    assert_eq!(&out[..4], b"TWE=");
    let mut out = [0u8; 8];
    assert_eq!(base64_encode(b"M", &mut out), 4);
    assert_eq!(&out[..4], b"TQ==");
    let mut out = [0u8; 8];
    assert_eq!(base64_encode(b"Man", &mut out), 4);
    assert_eq!(&out[..4], b"TWFu");
}

#[test]
fn base64_stops_at_output_capacity() {
    let mut out = [b'x'; 6];
    assert_eq!(base64_encode(b"abcdef", &mut out), 4);
    assert_eq!(&out, b"YWJjxx");
}

#[test]
fn accept_key_of_rfc_example() {
    let acc = accept_key(b"dGhlIHNhbXBsZSBub25jZQ==");
    assert_eq!(acc, b"s3pPLMBiTxaQ9kYGzzhZRbK+xOo=".to_vec());
}

#[test]
fn handshake_scenario() {
    assert!(is_websocket_upgrade(HANDSHAKE));
    let expected = "HTTP/1.1 101 Switching Protocols\r\nUpgrade: websocket\r\nConnection: Upgrade\r\nSec-WebSocket-Accept: s3pPLMBiTxaQ9kYGzzhZRbK+xOo=\r\n\r\n";
    let resp = handle_websocket_connection(HANDSHAKE).expect("key present");
    assert_eq!(String::from_utf8(resp).unwrap(), expected);
    match route_connection(false, HANDSHAKE, b"", b"") {
        ListenerAction::Upgrade(r) => assert_eq!(r, expected.as_bytes().to_vec()),
        _ => panic!("expected an upgrade"),
    }
}

#[test]
fn upgrade_word_at_the_very_end_counts() {
    assert!(is_websocket_upgrade(b"Upgrade: WebSocket"));
    assert!(!is_websocket_upgrade(b"GET / HTTP/1.1\r\n\r\n"));
}

#[test]
fn missing_key_is_rejected() {
    let req = b"GET /ws HTTP/1.1\r\nUpgrade: websocket\r\n\r\n";
    assert!(find_websocket_key(req).is_none());
    assert!(handle_websocket_connection(req).is_none());
    match route_connection(false, req, b"", b"") {
        ListenerAction::Reject => {}
        _ => panic!("expected a rejected upgrade"),
    }
}

#[test]
fn key_is_capped_at_sixty_bytes() {
    let long = "k".repeat(80);
    let req = format!("GET / HTTP/1.1\r\nSec-WebSocket-Key: {}\r\n\r\n", long);
    let key = find_websocket_key(req.as_bytes()).unwrap();
    assert_eq!(key.len(), 60);
}

#[test]
fn text_frame_round_trip_lengths() {
    for len in [1usize, 125, 126, 1000, 65535] {
        let payload: Vec<u8> = (0..len).map(|i| (i % 251) as u8).collect();
        let frame = encode_text_frame(&payload).unwrap();
        let f = decode_frame(&frame).unwrap();
        assert!(f.fin);
        assert_eq!(f.opcode, 1);
        assert_eq!(f.payload, payload);
    }
}

#[test]
fn text_frame_header_bytes() {
    assert_eq!(encode_text_frame(b"l").unwrap(), vec![0x81, 0x01, b'l']);
    let p = vec![7u8; 300];
    let f = encode_text_frame(&p).unwrap();
    assert_eq!(&f[..4], &[0x81, 0x7E, 0x01, 0x2C]);
    assert!(encode_text_frame(&vec![0u8; 65536]).is_none());
}

#[test]
fn masked_client_frames_decode_to_payload() {
    let payload = b"ls -la".to_vec();
    for mask in [[0u8, 0, 0, 0], [0x37, 0xfa, 0x21, 0x3d], [0xff, 0xff, 0xff, 0xff]] {
        let frame = encode_masked_text_frame(&payload, mask).unwrap();
        assert_eq!(frame[1], 0x80 | 6);
        let f = decode_frame(&frame).unwrap();
        assert_eq!(f.opcode, 1);
        assert_eq!(f.payload, payload);
    }
    let long = vec![b'a'; 200];
    let frame = encode_masked_text_frame(&long, [1, 2, 3, 4]).unwrap();
    assert_eq!(decode_frame(&frame).unwrap().payload, long);
}

#[test]
fn rfc_masked_hello() {
    let frame = [0x81u8, 0x85, 0x37, 0xfa, 0x21, 0x3d, 0x7f, 0x9f, 0x4d, 0x51, 0x58];
    let f = decode_frame(&frame).unwrap();
    assert_eq!(f.payload, b"Hello".to_vec());
}

#[test]
fn short_and_unsupported_frames() {
    assert!(decode_frame(&[0x81]).is_none());
    assert!(decode_frame(&[0x81, 0x7F, 0, 0, 0, 0, 0, 0, 0, 1, 0]).is_none());
    assert!(decode_frame(&[0x81, 0x7E, 0x00]).is_none());
    assert!(decode_frame(&[0x81, 0x85, 1, 2]).is_none());
    assert!(decode_frame(&[0x81, 0x05, b'a']).is_none());
}

#[test]
fn frame_classification() {
    match classify_frame(&encode_masked_text_frame(b"x", [9, 9, 9, 9]).unwrap()) {
        FrameAction::Input(p) => assert_eq!(p, b"x".to_vec()),
        _ => panic!("expected input"),
    }
    assert!(matches!(classify_frame(&[0x88, 0x80, 0, 0, 0, 0]), FrameAction::Close));
    assert!(matches!(classify_frame(&[0x89, 0x00]), FrameAction::Pong));
    assert!(matches!(classify_frame(&[0x82, 0x00]), FrameAction::Ignore));
    assert!(matches!(classify_frame(&[0x81]), FrameAction::Ignore));
    assert_eq!(close_frame(), vec![0x88, 0x00]);
    assert_eq!(pong_frame(), vec![0x8A, 0x00]);
}

#[test]
fn http_request_parts() {
    let (m, p, b) = parse_http_request(b"POST /upload?x=1 HTTP/1.1\r\nHost: a\r\n\r\nbody");
    assert_eq!(m, b"POST".to_vec());
    assert_eq!(p, b"/upload".to_vec());
    assert_eq!(b, b"body".to_vec());
    let (m, p, b) = parse_http_request(b"garbage");
    assert_eq!((m, p, b), (b"GET".to_vec(), b"/".to_vec(), Vec::new()));
    let (_, p, b) = parse_http_request(b"GET  HTTP/1.1\r\n\r\n");
    assert_eq!(p, b"/".to_vec());
    assert!(b.is_empty());
}

#[test]
fn http_routing() {
    let r = handle_http_request_inline(b"POST / HTTP/1.1\r\n\r\n", b"<p>", b"js");
    assert_eq!(
        r,
        b"HTTP/1.1 405 Method Not Allowed\r\nContent-Type: text/html\r\nContent-Length: 24\r\n\r\n<h1>405 Not Allowed</h1>".to_vec()
    );
    let r = handle_http_request_inline(b"GET /nothing HTTP/1.1\r\n\r\n", b"<p>", b"js");
    assert_eq!(
        r,
        b"HTTP/1.1 404 Not Found\r\nContent-Type: text/html\r\nContent-Length: 22\r\n\r\n<h1>404 Not Found</h1>".to_vec()
    );
    let r = handle_http_request_inline(b"GET / HTTP/1.1\r\n\r\n", b"<p>", b"js");
    assert_eq!(
        r,
        b"HTTP/1.1 200 OK\r\nContent-Type: text/html; charset=utf-8\r\nContent-Length: 3\r\n\r\n<p>".to_vec()
    );
    let r = handle_http_request_inline(b"GET /terminal.js HTTP/1.1\r\n\r\n", b"<p>", b"js");
    assert!(r.starts_with(b"HTTP/1.1 200 OK\r\nContent-Type: application/javascript\r\nContent-Length: 2\r\n"));
    assert_eq!(send_simple_response(b"200 OK", b"t", b""), b"HTTP/1.1 200 OK\r\nContent-Type: t\r\nContent-Length: 0\r\n\r\n".to_vec());
}

#[test]
fn listener_stops_once_shutdown_is_requested() {
    assert!(matches!(route_connection(true, HANDSHAKE, b"", b""), ListenerAction::CloseServer));
    assert!(matches!(route_connection(false, b"", b"", b""), ListenerAction::Reject));
    match route_connection(false, b"GET / HTTP/1.1\r\n\r\n", b"page", b"") {
        ListenerAction::Respond(r) => assert!(r.ends_with(b"page")),
        _ => panic!("expected a response"),
    }
    let req = b"GET /ws HTTP/1.1\r\nUpgrade: websocket\r\nSec-WebSocket-Key: dGhlIHNhbXBsZSBub25jZQ==\r\n\r\n";
    match route_connection(false, req, b"", b"") {
        ListenerAction::Upgrade(r) => assert!(r.ends_with(b"s3pPLMBiTxaQ9kYGzzhZRbK+xOo=\r\n\r\n")),
        _ => panic!("expected an upgrade"),
    }
}
