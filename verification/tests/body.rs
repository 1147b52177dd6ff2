use mocktail::wire::{decode_frame, encode_frame};
use mocktail::Body;

#[test]
fn stream_equals_full_with_the_same_bytes() {
    let whole = b"hello world".to_vec();
    let full = Body::bytes(whole.clone());
    let cuts = vec![
        vec![b"hello world".to_vec()],
        vec![b"hello".to_vec(), b" world".to_vec()],
        vec![b"".to_vec(), b"hel".to_vec(), b"".to_vec(), b"lo wor".to_vec(), b"ld".to_vec()],
        whole.iter().map(|b| vec![*b]).collect::<Vec<Vec<u8>>>(),
    ];
    for cut in cuts {
        let stream = Body::bytes_stream(cut);
        assert_eq!(stream, full);
        assert_eq!(full, stream);
        assert_eq!(stream.len(), 11);
    }
    assert_ne!(Body::bytes_stream(vec![b"hello".to_vec()]), full);
}

#[test]
fn empty_bodies_are_equal() {
    assert_eq!(Body::empty(), Body::bytes(Vec::new()));
    assert_eq!(Body::empty(), Body::bytes_stream(Vec::new()));
    assert_eq!(Body::empty(), Body::bytes_stream(vec![Vec::new(), Vec::new()]));
    assert_eq!(Body::default(), Body::Empty);
    assert!(Body::bytes_stream(vec![Vec::new()]).is_empty());
    assert!(!Body::bytes_stream(vec![Vec::new(), vec![0]]).is_empty());
    assert_eq!(Body::empty().len(), 0);
}

#[test]
fn len_is_the_number_of_bytes() {
    assert_eq!(Body::bytes(vec![1, 2, 3]).len(), 3);
    assert_eq!(Body::bytes_stream(vec![vec![1, 2], vec![], vec![3, 4, 5]]).len(), 5);
    assert_eq!(Body::text("\u{e9}").len(), 2);
}

#[test]
fn chunks_keep_the_frames() {
    assert_eq!(Body::empty().chunks(), Vec::<Vec<u8>>::new());
    assert_eq!(Body::bytes(vec![1, 2]).chunks(), vec![vec![1, 2]]);
    let frames = vec![vec![1], vec![], vec![2, 3]];
    assert_eq!(Body::bytes_stream(frames.clone()).chunks(), frames);
    assert_eq!(Body::bytes_stream(frames.clone()).as_bytes(), vec![1, 2, 3]);
    let copy = Body::bytes_stream(frames.clone()).clone();
    assert_eq!(copy.chunks(), frames);
    assert!(matches!(copy, Body::Stream(_)));
    assert!(matches!(Body::raw(vec![1]), Body::Full(_)));
}

#[test]
fn matches_bytes_compares_the_content() {
    let body = Body::bytes_stream(vec![b"ab".to_vec(), b"c".to_vec()]);
    assert!(body.matches_bytes(b"abc"));
    assert!(!body.matches_bytes(b"ab"));
    assert!(!body.matches_bytes(b"abd"));
    assert!(Body::empty().matches_bytes(b""));
}

#[test]
fn json_lines_end_each_value_with_a_line_feed() {
    let body = Body::json_lines_stream(&vec![b"{\"a\":1}".to_vec(), b"2".to_vec()]);
    assert_eq!(body.chunks(), vec![b"{\"a\":1}\n".to_vec(), b"2\n".to_vec()]);
    assert_eq!(Body::json(b"[]".to_vec()), Body::bytes(b"[]".to_vec()));
}

#[test]
fn text_bodies_hold_utf8() {
    assert_eq!(Body::text("h\u{e9}").as_bytes(), vec![0x68, 0xc3, 0xa9]);
    let stream = Body::text_stream(&vec!["a".to_string(), "\u{20ac}".to_string()]);
    assert_eq!(stream.chunks(), vec![vec![0x61], vec![0xe2, 0x82, 0xac]]);
}

#[test]
fn frame_header_is_flag_and_big_endian_length() {
    assert_eq!(encode_frame(b""), vec![0, 0, 0, 0, 0]);
    assert_eq!(encode_frame(b"abc"), vec![0, 0, 0, 0, 3, b'a', b'b', b'c']);
    let payload = vec![7u8; 0x01_02_03];
    let frame = encode_frame(&payload);
    assert_eq!(&frame[..5], &[0, 0, 1, 2, 3]);
    assert_eq!(frame.len(), 5 + 0x01_02_03);
    assert_eq!(&frame[5..], &payload[..]);
}

#[test]
fn framing_round_trips() {
    for payload in [
        Vec::new(),
        vec![0u8],
        b"\x0a\x03Dan".to_vec(),
        vec![0xff; 255],
        vec![1; 256],
        vec![2; 65536],
    ] {
        let frame = encode_frame(&payload);
        assert_eq!(decode_frame(&frame), Some(payload));
    }
}

#[test]
fn decode_rejects_what_is_not_one_frame() {
    assert_eq!(decode_frame(b""), None);
    assert_eq!(decode_frame(&[0, 0, 0, 0]), None);
    assert_eq!(decode_frame(&[1, 0, 0, 0, 0]), None);
    assert_eq!(decode_frame(&[0, 0, 0, 0, 1]), None);
    assert_eq!(decode_frame(&[0, 0, 0, 0, 1, 9, 9]), None);
    assert_eq!(decode_frame(&[0, 0, 0, 1, 0]), None);
    assert_eq!(decode_frame(&[0, 0, 0, 0, 0]), Some(Vec::new()));
    assert_eq!(decode_frame(&[0, 0, 0, 0, 2, 8, 9]), Some(vec![8, 9]));
}

#[test]
fn pb_bodies_are_framed() {
    assert_eq!(Body::pb(b"hi").as_bytes(), vec![0, 0, 0, 0, 2, b'h', b'i']);
    let stream = Body::pb_stream(&vec![b"a".to_vec(), b"bc".to_vec()]);
    assert_eq!(
        stream.chunks(),
        vec![vec![0, 0, 0, 0, 1, b'a'], vec![0, 0, 0, 0, 2, b'b', b'c']]
    );
}
