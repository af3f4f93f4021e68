use sv_manage::wire::{prefix_payload, unprefix_payload};
use sv_manage::wire::{encode_frame, frame_length, hash_pw, open_frame, pad_plaintext, seal_frame, seal_frame_fresh, session_key, split_frame, to_be32, FrameError};

#[test]
fn hash_pw_is_sha256() {
    let h = hash_pw("abc");
    assert_eq!(h[0], 0xba);
    assert_eq!(h[1], 0x78);
    assert_eq!(h[31], 0xad);
}

#[test]
fn padding_always_adds_bytes() {
    let mut v = vec![1u8; 16];
    pad_plaintext(&mut v);
    assert_eq!(v.len(), 32);
    assert!(v[16..].iter().all(|b| *b == 0));
    let mut w = vec![7u8; 5];
    pad_plaintext(&mut w);
    assert_eq!(w.len(), 16);
    let mut e: Vec<u8> = Vec::new();
    pad_plaintext(&mut e);
    assert_eq!(e, vec![0u8; 16]);
}

#[test]
fn length_is_big_endian() {
    assert_eq!(to_be32(0x01020304), [1, 2, 3, 4]);
    assert_eq!(frame_length(&[0, 0, 1, 0]), 256);
}

#[test]
fn frame_layout_and_split() {
    let iv = [9u8; 16];
    let ct = vec![1u8, 2, 3];
    let f = encode_frame(&iv, &ct).unwrap();
    assert_eq!(f.len(), 23);
    assert_eq!(&f[16..20], &[0, 0, 0, 3]);
    assert_eq!(split_frame(&f), Ok((iv, ct)));
    let mut bad = f.clone();
    bad[19] = 4;
    assert_eq!(split_frame(&bad), Err(FrameError::BadLength));
    assert_eq!(split_frame(&vec![0u8; 5]), Err(FrameError::BadLength));
}

#[test]
fn sealed_frame_opens_to_padded_payload() {
    let key = [3u8; 16];
    let iv = [5u8; 16];
    let payload = vec![10u8, 20, 30];
    let f = seal_frame(&key, &iv, &payload).unwrap();
    let (iv2, ct) = split_frame(&f).unwrap();
    assert_eq!(iv2, iv);
    assert_ne!(&ct[..3], &payload[..]);
    let plain = open_frame(&key, &iv2, &ct).unwrap();
    let mut expected = payload.clone();
    pad_plaintext(&mut expected);
    assert_eq!(plain, expected);
}

#[test]
fn fresh_frames_open_too() {
    let key = [1u8; 16];
    let payload = vec![42u8; 40];
    let f = seal_frame_fresh(&key, &payload).unwrap();
    let (iv, ct) = split_frame(&f).unwrap();
    let plain = open_frame(&key, &iv, &ct).unwrap();
    assert_eq!(&plain[..40], &payload[..]);
    assert_eq!(plain.len(), 48);
}

#[test]
fn wrong_key_size_fails() {
    let key = [1u8; 3];
    assert_eq!(seal_frame(&key, &[0u8; 16], &vec![1u8]), Err(FrameError::BadKey));
    assert_eq!(open_frame(&key, &[0u8; 16], &vec![0u8; 16]), Err(FrameError::BadKey));
    assert_eq!(open_frame(&[1u8; 16], &[0u8; 16], &vec![0u8; 5]), Err(FrameError::Crypto));
    assert_eq!(seal_frame_fresh(&key, &vec![1u8]), Err(FrameError::BadKey));
}

#[test]
fn session_key_is_block_prefix() {
    let block: Vec<u8> = (0..=255).collect();
    let k = session_key(&block).unwrap();
    assert_eq!(k[0], 0);
    assert_eq!(k[15], 15);
    assert_eq!(session_key(&vec![1u8; 3]), None);
}

#[test]
fn size_prefix_round_trip_through_padding() {
    let payload = vec![0u8, 7, 0, 0];
    let mut framed = prefix_payload(&payload).unwrap();
    assert_eq!(&framed[..4], &[0, 0, 0, 4]);
    pad_plaintext(&mut framed);
    assert_eq!(framed.len(), 16);
    assert_eq!(unprefix_payload(&framed), Some(payload));
    assert_eq!(unprefix_payload(&vec![0, 0, 0, 9, 1]), None);
    assert_eq!(unprefix_payload(&vec![0, 0]), None);
}
