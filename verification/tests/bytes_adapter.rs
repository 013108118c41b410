use defiant::bytes_adapter::BytesAdapter;

#[test]
fn vec_adapter() {
    let mut v: Vec<u8> = vec![1, 2, 3];
    assert_eq!(BytesAdapter::len(&v), 3);
    assert!(!BytesAdapter::is_empty(&v));
    v.replace_with(&[9, 8]);
    assert_eq!(v, vec![9, 8]);
    let mut out = vec![0];
    v.append_to(&mut out);
    assert_eq!(out, vec![0, 9, 8]);
    v.replace_with(&[]);
    assert!(BytesAdapter::is_empty(&v));
}

#[test]
fn bytes_adapter() {
    let mut b = bytes::Bytes::from_static(b"abc");
    assert_eq!(BytesAdapter::len(&b), 3);
    b.replace_with(&[5, 6, 7, 8]);
    assert_eq!(&b[..], &[5, 6, 7, 8]);
    assert_eq!(BytesAdapter::len(&b), 4);
    let mut out = vec![1];
    b.append_to(&mut out);
    assert_eq!(out, vec![1, 5, 6, 7, 8]);
    b.replace_with(&[]);
    assert!(BytesAdapter::is_empty(&b));
}
