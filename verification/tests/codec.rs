use reasonable::codec::{pad, unpad};

#[test]
fn pad_embeds_version_length_and_payload() {
    let input = vec![10u8, 20, 30, 40, 50];
    let buf = pad(&input, 650).unwrap();
    assert_eq!(buf.len(), 655);
    assert_eq!(buf[0], 1);
    assert_eq!(&buf[1..5], &[5, 0, 0, 0]);
    assert_eq!(&buf[5..10], &input[..]);
}

#[test]
fn unpad_inverts_pad() {
    let input = b"a reason worth remembering".to_vec();
    let buf = pad(&input, 650).unwrap();
    assert_eq!(unpad(buf), Some(input));

    let empty: Vec<u8> = Vec::new();
    let buf = pad(&empty, 650).unwrap();
    assert_eq!(buf.len(), 655);
    assert_eq!(unpad(buf), Some(empty));
}

#[test]
fn pad_rejects_oversize_payload() {
    assert_eq!(pad(&vec![0u8; 651], 650), None);
    assert!(pad(&vec![0u8; 650], 650).is_some());
}

#[test]
fn unpad_rejects_malformed_buffers() {
    // too short for even the header
    assert_eq!(unpad(Vec::new()), None);
    assert_eq!(unpad(vec![1, 2, 3]), None);
    // unknown version byte
    let mut buf = pad(&vec![9u8, 9], 650).unwrap();
    buf[0] = 2;
    assert_eq!(unpad(buf), None);
    // the header claims more payload than the buffer holds
    assert_eq!(unpad(vec![1, 10, 0, 0, 0, 1, 2, 3]), None);
}
