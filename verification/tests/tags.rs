use riverbar::tags::{decode_tag_words, insert_sorted, normalize_tags};

#[test]
fn test_decode_tag_words_little_endian() {
    let bytes = vec![1, 0, 0, 0, 2, 1, 0, 0];
    assert_eq!(decode_tag_words(&bytes), vec![1, 258]);
}

#[test]
fn test_decode_tag_words_ignores_trailing_bytes() {
    let bytes = vec![9, 0, 0, 0, 7, 7];
    assert_eq!(decode_tag_words(&bytes), vec![9]);
    let empty: Vec<u8> = Vec::new();
    assert_eq!(decode_tag_words(&empty), Vec::<u32>::new());
}

#[test]
fn test_decode_tag_words_all_byte_lanes() {
    let bytes = vec![0x78, 0x56, 0x34, 0x12];
    assert_eq!(decode_tag_words(&bytes), vec![0x1234_5678]);
}

#[test]
fn test_normalize_tags_sorts_and_dedups() {
    assert_eq!(normalize_tags(&vec![4, 1, 4, 2]), vec![1, 2, 4]);
    assert_eq!(normalize_tags(&vec![]), Vec::<u32>::new());
    assert_eq!(normalize_tags(&vec![3, 3, 3]), vec![3]);
}

#[test]
fn test_insert_sorted_places_and_dedups() {
    let mut v = vec![1, 4];
    insert_sorted(&mut v, 2);
    assert_eq!(v, vec![1, 2, 4]);
    insert_sorted(&mut v, 4);
    assert_eq!(v, vec![1, 2, 4]);
    insert_sorted(&mut v, 0);
    assert_eq!(v, vec![0, 1, 2, 4]);
    insert_sorted(&mut v, 9);
    assert_eq!(v, vec![0, 1, 2, 4, 9]);
}
