use objc_encode::NSMutableData;

#[test]
fn test_set_len() {
    let mut data = NSMutableData::with_bytes(&[7, 16]);
    data.set_len(4);
    assert_eq!(data.len(), 4);
    assert_eq!(data.bytes(), [7, 16, 0, 0]);

    data.set_len(1);
    assert_eq!(data.len(), 1);
    assert_eq!(data.bytes(), [7]);
}

#[test]
fn test_append() {
    let mut data = NSMutableData::with_bytes(&[7, 16]);
    data.extend_from_slice(&[3, 52]);
    assert_eq!(data.len(), 4);
    assert_eq!(data.bytes(), [7, 16, 3, 52]);
}

#[test]
fn test_replace() {
    let mut data = NSMutableData::with_bytes(&[7, 16]);
    data.replace_range(0..0, &[3]);
    assert_eq!(data.bytes(), [3, 7, 16]);

    data.replace_range(1..2, &[52, 13]);
    assert_eq!(data.bytes(), [3, 52, 13, 16]);

    data.replace_range(2..4, &[6]);
    assert_eq!(data.bytes(), [3, 52, 6]);

    data.set_bytes(&[8, 17]);
    assert_eq!(data.bytes(), [8, 17]);
}

#[test]
fn test_with_capacity() {
    let mut data = NSMutableData::with_capacity(5);
    assert_eq!(data.bytes(), &[]);
    data.extend_from_slice(&[1, 2, 3, 4, 5]);
    assert_eq!(data.bytes(), &[1, 2, 3, 4, 5]);
    data.extend_from_slice(&[6, 7]);
    assert_eq!(data.bytes(), &[1, 2, 3, 4, 5, 6, 7]);
}

#[test]
fn push_appends_one_byte() {
    let mut data = NSMutableData::new();
    assert!(data.is_empty());
    data.push(9);
    data.push(0);
    assert_eq!(data.bytes(), [9, 0]);
}

#[test]
fn from_vec_keeps_bytes() {
    let data = NSMutableData::from_vec(vec![1, 2, 3]);
    assert_eq!(data.len(), 3);
    assert_eq!(data.bytes(), [1, 2, 3]);
}

#[test]
fn replace_past_end_zero_fills() {
    let mut data = NSMutableData::with_bytes(&[1, 2]);
    data.replace_range(4..6, &[9]);
    assert_eq!(data.bytes(), [1, 2, 0, 0, 9]);

    let mut data = NSMutableData::with_bytes(&[1, 2, 3]);
    data.replace_range(1..10, &[7, 7]);
    assert_eq!(data.bytes(), [1, 7, 7]);
}

#[test]
fn set_bytes_on_empty_and_to_empty() {
    let mut data = NSMutableData::new();
    data.set_bytes(&[4, 5, 6]);
    assert_eq!(data.bytes(), [4, 5, 6]);
    data.set_bytes(&[]);
    assert!(data.is_empty());
}

#[test]
fn test_bytes_mut() {
    let mut data = NSMutableData::with_bytes(&[7, 16]);
    data.bytes_mut()[0] = 3;
    assert_eq!(data.bytes(), [3, 16]);
}
