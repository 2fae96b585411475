use remote_probe::decode::{bytes_contain, bytes_start_with, Encoding};
use remote_probe::ProbeError;

#[test]
fn narrow_decode_cuts_at_first_zero() {
    let mut buf = b"GameWorld".to_vec();
    buf.push(0);
    buf.extend_from_slice(b"trailing junk");
    let s = Encoding::UFT8.decode(&buf).unwrap();
    assert_eq!(s, "GameWorld");
}

#[test]
fn narrow_decode_without_zero_takes_whole_buffer() {
    let s = Encoding::UFT8.decode(b"abc").unwrap();
    assert_eq!(s, "abc");
}

#[test]
fn narrow_decode_rejects_malformed_text() {
    let buf = vec![0x66u8, 0xFF, 0xFE, 0x67];
    assert_eq!(Encoding::UFT8.decode(&buf), Err(ProbeError::Decode));
}

#[test]
fn narrow_decode_of_empty_buffer_is_empty() {
    let s = Encoding::UFT8.decode(b"").unwrap();
    assert_eq!(s, "");
}

#[test]
fn wide_decode_cuts_at_first_zero_unit() {
    // "hideout" in little-endian two-byte units, then a zero unit, then junk
    let mut buf = Vec::new();
    for c in "hideout".chars() {
        buf.extend_from_slice(&(c as u16).to_le_bytes());
    }
    buf.extend_from_slice(&[0, 0]);
    buf.extend_from_slice(&[0x41, 0x00]);
    let s = Encoding::UNICODE.decode(&buf).unwrap();
    assert_eq!(s, "hideout");
}

#[test]
fn wide_decode_rejects_unpaired_surrogate() {
    let buf = 0xD800u16.to_le_bytes().to_vec();
    assert_eq!(Encoding::UNICODE.decode(&buf), Err(ProbeError::Decode));
}

#[test]
fn wide_decode_rejects_odd_length_buffer() {
    let mut buf = Vec::new();
    for c in "ab".chars() {
        buf.extend_from_slice(&(c as u16).to_le_bytes());
    }
    buf.push(0x7A);
    assert_eq!(Encoding::UNICODE.decode(&buf), Err(ProbeError::Decode));
    assert_eq!(Encoding::UNICODE.decode(&[0x61]), Err(ProbeError::Decode));
}

#[test]
fn wide_decode_handles_non_ascii_text() {
    let mut buf = Vec::new();
    for u in "Streets of Tarkov".encode_utf16() {
        buf.extend_from_slice(&u.to_le_bytes());
    }
    let s = Encoding::UNICODE.decode(&buf).unwrap();
    assert_eq!(s, "Streets of Tarkov");
}

#[test]
fn substring_search_over_bytes() {
    assert!(bytes_contain(b"xxGameWorldyy", b"GameWorld"));
    assert!(bytes_contain(b"GameWorld", b"GameWorld"));
    assert!(!bytes_contain(b"GameWorl", b"GameWorld"));
    assert!(!bytes_contain(b"gameworld", b"GameWorld"));
    assert!(bytes_contain(b"anything", b""));
}

#[test]
fn prefix_test_over_bytes() {
    assert!(bytes_start_with(b"ClientPlayer(Clone)", b"ClientPlayer"));
    assert!(!bytes_start_with(b"Client", b"ClientPlayer"));
    assert!(bytes_start_with(b"abc", b""));
}
