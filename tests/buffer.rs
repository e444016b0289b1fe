use musicpd::buffer::Buffer;

#[test]
fn test_simple() {
    let data1 = vec![1u8, 0, 1];
    let data2 = vec![3u8, 4, 5];
    let mut b = Buffer::new();
    b.fetch(&data1[..]);
    assert_eq!(b.len(), 3);
    assert_eq!(b.data(), [1u8, 0, 1]);
    b.fetch(&data2[..]);
    assert_eq!(b.len(), 6);
    assert_eq!(b.data(), [1u8, 0, 1, 3, 4, 5]);
}

#[test]
fn test_with_realloc() {
    let data1 = vec![1u8, 0, 1];
    let data2 = vec![3u8, 4, 5];
    let mut b = Buffer::with_block_size(2);
    b.fetch(&data1[..]);
    assert_eq!(b.len(), 2);
    assert_eq!(b.data(), [1u8, 0]);
    b.fetch(&data2[..]);
    assert_eq!(b.len(), 4);
    assert_eq!(b.data(), [1u8, 0, 3, 4]);
}
