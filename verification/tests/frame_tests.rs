use mcproxy::frame::{decode_client_frame, decode_server_frame, encode_relay_frame, lossy_text};

#[test]
fn frame_layout() {
    let f = encode_relay_frame("abc", &[1, 2, 3]);
    assert_eq!(f, vec![0, 3, b'a', b'b', b'c', 1, 2, 3]);
}

#[test]
fn frame_round_trip_on_both_sides() {
    let id = "6f1c2a4e-0000-4000-8000-123456789abc";
    let data: Vec<u8> = (0..200).map(|i| i as u8).collect();
    let f = encode_relay_frame(id, &data);
    let (sid, sdata) = decode_server_frame(&f).unwrap();
    assert_eq!(sid, id);
    assert_eq!(sdata, data);
    let (cid, cdata) = decode_client_frame(&f).unwrap();
    assert_eq!(cid, id);
    assert_eq!(cdata, data);
}

#[test]
fn short_frames_are_dropped() {
    // Three bytes: the client reads it, the server does not.
    let f = vec![0, 1, b'x'];
    assert!(decode_server_frame(&f).is_none());
    let (id, payload) = decode_client_frame(&f).unwrap();
    assert_eq!(id, "x");
    assert!(payload.is_empty());
    assert!(decode_client_frame(&[0]).is_none());
    // The length prefix claims more bytes than there are.
    assert!(decode_client_frame(&[0, 9, b'a', b'b']).is_none());
    assert!(decode_server_frame(&[0, 9, b'a', b'b']).is_none());
}

#[test]
fn invalid_id_bytes_are_replaced() {
    let f = vec![0, 2, 0xff, b'a', 7];
    let (id, payload) = decode_client_frame(&f).unwrap();
    assert_eq!(id, "\u{fffd}a");
    assert_eq!(payload, vec![7]);
    assert_eq!(lossy_text(&[b'h', 0xc3]).as_str(), "h\u{fffd}");
    assert_eq!(lossy_text("grüß".as_bytes()).as_str(), "grüß");
}
