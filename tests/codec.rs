use cql_client::frame::{decode, encode, CorruptKind, Decoded, Frame};

fn sample() -> Frame {
    Frame { version: 4, flags: 0, stream: -2, opcode: 7, body: vec![1, 2, 3] }
}

#[test]
fn encode_gives_exact_bytes() {
    let bytes = encode(&sample());
    assert_eq!(bytes, vec![4, 0, 0xff, 0xfe, 7, 0, 0, 0, 3, 1, 2, 3]);
}

#[test]
fn round_trip_keeps_every_field() {
    let f = Frame { version: 0x84, flags: 3, stream: 300, opcode: 8, body: vec![9; 70000] };
    let bytes = encode(&f);
    match decode(&bytes, 100000) {
        Decoded::Complete(g, n) => {
            assert_eq!(n, bytes.len());
            assert_eq!(g.version, 0x84);
            assert_eq!(g.flags, 3);
            assert_eq!(g.stream, 300);
            assert_eq!(g.opcode, 8);
            assert_eq!(g.body, f.body);
        }
        _ => panic!("expected a frame"),
    }
}

#[test]
fn round_trip_leaves_following_bytes() {
    let mut bytes = encode(&sample());
    bytes.extend_from_slice(&[4, 0]);
    match decode(&bytes, 16) {
        Decoded::Complete(g, n) => {
            assert_eq!(n, 12);
            assert_eq!(g.stream, -2);
            assert_eq!(g.body, vec![1, 2, 3]);
        }
        _ => panic!("expected a frame"),
    }
}

#[test]
fn partial_buffers_need_more_data() {
    let bytes = encode(&sample());
    for k in 0..bytes.len() {
        assert!(matches!(decode(&bytes[..k], 16), Decoded::NeedMoreData));
    }
    assert!(matches!(decode(&bytes, 16), Decoded::Complete(_, 12)));
    assert!(matches!(decode(&bytes[12..], 16), Decoded::NeedMoreData));
}

#[test]
fn chunked_feed_yields_frame_once() {
    let bytes = encode(&sample());
    let mut buf: Vec<u8> = Vec::new();
    let mut frames = 0;
    for chunk in bytes.chunks(2) {
        buf.extend_from_slice(chunk);
        if let Decoded::Complete(_, n) = decode(&buf, 16) {
            frames += 1;
            buf.drain(..n);
        }
    }
    assert_eq!(frames, 1);
    assert!(buf.is_empty());
}

#[test]
fn bad_version_is_corrupt() {
    let mut bytes = encode(&sample());
    bytes[0] = 2;
    assert!(matches!(decode(&bytes, 16), Decoded::Corrupt(CorruptKind::BadVersion)));
}

#[test]
fn bad_opcode_is_corrupt() {
    let mut bytes = encode(&sample());
    bytes[4] = 17;
    assert!(matches!(decode(&bytes, 16), Decoded::Corrupt(CorruptKind::BadOpcode)));
}

#[test]
fn oversized_body_is_corrupt_before_it_arrives() {
    let header = [4u8, 0, 0, 1, 8, 0, 0, 1, 0];
    assert!(matches!(decode(&header, 255), Decoded::Corrupt(CorruptKind::BodyTooLarge)));
    assert!(matches!(decode(&header, 256), Decoded::NeedMoreData));
}

#[test]
fn empty_body_frame() {
    let f = Frame { version: 5, flags: 0, stream: 0, opcode: 0, body: vec![] };
    let bytes = encode(&f);
    assert_eq!(bytes.len(), 9);
    assert!(matches!(decode(&bytes, 0), Decoded::Complete(_, 9)));
}
