use videostream::repack_plane;

#[test]
fn contiguous_plane_is_copied_verbatim() {
    let data: Vec<u8> = (0..24u8).collect();
    let out = repack_plane(&data, 6, 2, 4, 3);
    assert_eq!(out, data);
}

#[test]
fn padded_rows_drop_their_padding() {
    // Three rows of two RGB pixels (6 bytes), each row padded to 8 bytes.
    let mut data = Vec::new();
    for marker in [0xA1u8, 0xB2, 0xC3] {
        data.extend_from_slice(&[marker; 6]);
        data.extend_from_slice(&[0xEE, 0xEE]);
    }
    let out = repack_plane(&data, 8, 2, 3, 3);
    assert_eq!(out.len(), 18);
    let mut expected = Vec::new();
    for marker in [0xA1u8, 0xB2, 0xC3] {
        expected.extend_from_slice(&[marker; 6]);
    }
    assert_eq!(out, expected);
    assert!(!out.contains(&0xEE));
}

#[test]
fn padded_rows_keep_byte_order() {
    let data: Vec<u8> = vec![1, 2, 3, 9, 4, 5, 6, 9];
    let out = repack_plane(&data, 4, 3, 2, 1);
    assert_eq!(out, vec![1, 2, 3, 4, 5, 6]);
}

#[test]
fn zero_sized_plane_gives_empty_buffer() {
    let data: Vec<u8> = Vec::new();
    assert!(repack_plane(&data, 0, 0, 0, 3).is_empty());
    assert!(repack_plane(&data, 32, 0, 0, 4).is_empty());
    assert!(repack_plane(&data, 32, 5, 0, 4).is_empty());
}

#[test]
fn zero_width_with_padding_gives_empty_buffer() {
    let data: Vec<u8> = vec![7; 16];
    assert!(repack_plane(&data, 8, 0, 2, 3).is_empty());
}
