use multiplayer::key::{decode_hex, HexError, Key, KEY_LEN, TAG_LEN};

fn sample_key() -> Key {
    Key::from_bytes((0u8..32).collect())
}

#[test]
fn encrypted_paths_are_opaque_and_tagged() {
    let key = sample_key();
    let path = "/home/me/music/song.flac".to_string();
    let data = key.encrypt_path(&path).unwrap();
    assert_eq!(data.len(), path.len() + TAG_LEN);
    assert_ne!(&data[..path.len()], path.as_bytes());
}

#[test]
fn encryption_is_deterministic() {
    let key = sample_key();
    let path = "a/b.mp3".to_string();
    assert_eq!(key.encrypt_path(&path).unwrap(), key.encrypt_path(&path).unwrap());
    assert_ne!(key.encrypt_path(&path).unwrap(), key.encrypt_path(&"a/c.mp3".to_string()).unwrap());
}

#[test]
fn decrypting_gives_back_the_path() {
    let key = sample_key();
    for path in ["", "x", "/music/ünïcödé ♪.ogg"] {
        let data = key.encrypt_path(&path.to_string()).unwrap();
        assert_eq!(key.decrypt_path(data).unwrap(), path);
    }
}

#[test]
fn tampered_data_is_refused() {
    let key = sample_key();
    let mut data = key.encrypt_path(&"track.wav".to_string()).unwrap();
    data[0] ^= 1;
    assert!(key.decrypt_path(data).is_err());
    assert!(key.decrypt_path(vec![1, 2, 3]).is_err());
}

#[test]
fn another_key_cannot_decrypt() {
    let key = sample_key();
    let other = Key::from_bytes(vec![7u8; 32]);
    let data = key.encrypt_path(&"track.wav".to_string()).unwrap();
    assert!(other.decrypt_path(data).is_err());
}

#[test]
fn try_decrypt_agrees_with_decrypt() {
    let key = sample_key();
    let data = key.encrypt_path(&"p.opus".to_string()).unwrap();
    match key.try_decrypt_path(data) {
        Some(Ok(s)) => assert_eq!(s, "p.opus"),
        other => panic!("unexpected {:?}", other),
    }
    assert!(matches!(key.try_decrypt_path(vec![0u8; 20]), Some(Err(_))));
}

#[test]
fn generated_keys_have_32_bytes_and_roundtrip() {
    let key = Key::generate().expect("the system's random number generator works");
    assert_eq!(key.bytes().len(), KEY_LEN);
    let other = Key::generate().unwrap();
    assert_ne!(key.bytes(), other.bytes());
    let data = key.encrypt_path(&"z".to_string()).unwrap();
    assert_eq!(key.decrypt_path(data).unwrap(), "z");
}

#[test]
fn keys_are_written_in_lower_case_hex() {
    let key = Key::from_bytes((0u8..32).map(|b| b * 8).collect());
    let text = key.to_hex();
    assert_eq!(text.len(), 64);
    assert!(text.starts_with("0008101820283038"));
    assert!(text.ends_with("f0f8"));
}

#[test]
fn hex_roundtrip_of_a_key() {
    let key = sample_key();
    let bytes = decode_hex(&key.to_hex()).unwrap();
    assert_eq!(bytes, key.bytes().to_vec());
}

#[test]
fn hex_decoding_accepts_both_cases() {
    assert_eq!(decode_hex("00ffA0aB").unwrap(), vec![0x00, 0xff, 0xa0, 0xab]);
    assert_eq!(decode_hex("").unwrap(), Vec::<u8>::new());
}

#[test]
fn hex_decoding_errors() {
    assert_eq!(decode_hex("abc"), Err(HexError::OddLength));
    assert_eq!(decode_hex("0g12"), Err(HexError::InvalidHexCharacter { c: 'g', index: 1 }));
    assert_eq!(decode_hex("00\n"), Err(HexError::OddLength));
    assert_eq!(decode_hex("0011 \n"), Err(HexError::InvalidHexCharacter { c: ' ', index: 4 }));
}

#[test]
fn encrypted_paths_roundtrip_and_repeat() {
    let key = sample_key();
    let a = key.encrypt_path(&"music/a.flac".to_string()).unwrap();
    let again = key.encrypt_path(&"music/a.flac".to_string()).unwrap();
    let b = key.encrypt_path(&"music/b.flac".to_string()).unwrap();
    assert_eq!(a, again);
    assert_ne!(a, b);
    assert_eq!(a.len(), "music/a.flac".len() + 16);
    match key.try_decrypt_path(a.clone()) {
        Some(Ok(s)) => assert_eq!(s, "music/a.flac"),
        other => panic!("unexpected {:?}", other),
    }
    assert_eq!(key.decrypt_path(b).unwrap(), "music/b.flac");
}
