use wiradesk::util::{fill_wide_buf, wide};

#[test]
fn fill_wide_buf_zero_length_is_safe() {
    let mut buf = [0u16; 0];
    fill_wide_buf(&mut buf, "test");
}

#[test]
fn fill_wide_buf_truncates_and_null_terminates() {
    let mut buf = [0u16; 4];
    fill_wide_buf(&mut buf, "hello");
    assert_eq!(buf[3], 0);
    let s = String::from_utf16_lossy(&buf[..3]);
    assert_eq!(s, "hel");
}

#[test]
fn fill_wide_buf_short_text_leaves_the_tail_untouched() {
    let mut buf = [7u16; 6];
    fill_wide_buf(&mut buf, "ab");
    assert_eq!(buf, [0x61, 0x62, 0, 7, 7, 7]);
}

#[test]
fn wide_is_utf16_with_a_terminating_nul() {
    assert_eq!(wide(""), vec![0]);
    assert_eq!(wide("Aé"), vec![0x41, 0xE9, 0]);
    let mut expected: Vec<u16> = "x😀".encode_utf16().collect();
    expected.push(0);
    assert_eq!(wide("x😀"), expected);
    assert_eq!(wide("x😀"), vec![0x78, 0xD83D, 0xDE00, 0]);
}
