use brewinget::mutex::{ui_mutex_name_wide, wide, MUTEX_ALL_ACCESS};

#[test]
fn utf16_with_terminator() {
    assert_eq!(wide("Ab"), vec![65, 98, 0]);
    assert_eq!(wide(""), vec![0]);
    assert_eq!(wide("é😀"), vec![0xE9, 0xD83D, 0xDE00, 0]);
    let mut expected: Vec<u16> = "Local\\BrewingetUI".encode_utf16().collect();
    expected.push(0);
    assert_eq!(ui_mutex_name_wide(), expected);
    assert_eq!(MUTEX_ALL_ACCESS, 0x1F_0001);
}
