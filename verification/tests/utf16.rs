use mpv_rc::utf16::from_utf16_buf;

#[test]
fn decodes_up_to_the_first_nul() {
    let mut buf: Vec<u16> = "C:\\videos\\clip.json".encode_utf16().collect();
    buf.push(0);
    buf.extend_from_slice(&[0x41, 0x42, 0x43]);
    assert_eq!(from_utf16_buf(&buf), "C:\\videos\\clip.json");
}

#[test]
fn decodes_a_whole_buffer_without_nul() {
    let buf: Vec<u16> = "hello".encode_utf16().collect();
    assert_eq!(from_utf16_buf(&buf), "hello");
}

#[test]
fn empty_buffer_decodes_to_empty_text() {
    assert_eq!(from_utf16_buf(&[]), "");
    assert_eq!(from_utf16_buf(&[0]), "");
}

#[test]
fn combines_surrogate_pairs() {
    let buf: Vec<u16> = vec![0xD83D, 0xDE00, 0];
    assert_eq!(from_utf16_buf(&buf), "😀");
}

#[test]
fn decodes_basic_plane_text() {
    let buf: Vec<u16> = "é日本語".encode_utf16().collect();
    assert_eq!(from_utf16_buf(&buf), "é日本語");
}

#[test]
fn lone_surrogates_become_the_replacement_character() {
    assert_eq!(from_utf16_buf(&[0x0061, 0xD800, 0x0062]), "a\u{FFFD}b");
    assert_eq!(from_utf16_buf(&[0x0061, 0xDC00, 0x0062]), "a\u{FFFD}b");
    assert_eq!(from_utf16_buf(&[0xD800, 0xD83D, 0xDE00]), "\u{FFFD}😀");
}
