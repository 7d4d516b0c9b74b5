use esb_bridge::{decode_to, expand_run, DecodeError};

// zigzag varints: -3 is 0x05, 4 is 0x08, -1 is 0x01, 0 is 0x00, 64 is [0x80, 0x01]

#[test]
fn literal_and_repeat_runs() {
    let mut buf = vec![0u8; 10];
    assert_eq!(decode_to(&[0x05, 1, 2, 3, 0x08, 9], &mut buf), Ok(()));
    assert_eq!(buf, vec![1, 2, 3, 9, 9, 9, 9, 0, 0, 0]);
}

#[test]
fn multi_byte_run_length() {
    let mut buf = vec![7u8; 65];
    assert_eq!(decode_to(&[0x80, 0x01, 0xaa], &mut buf), Ok(()));
    assert!(buf[..64].iter().all(|b| *b == 0xaa));
    assert_eq!(buf[64], 7);
}

#[test]
fn empty_input_changes_nothing() {
    let mut buf = vec![5u8; 3];
    assert_eq!(decode_to(&[], &mut buf), Ok(()));
    assert_eq!(buf, vec![5, 5, 5]);
}

#[test]
fn zero_length_repeat_uses_its_byte() {
    let mut buf = vec![0u8; 2];
    assert_eq!(decode_to(&[0x00, 0x33, 0x01, 0x44], &mut buf), Ok(()));
    assert_eq!(buf, vec![0x44, 0]);
}

#[test]
fn run_past_buffer_overflows() {
    let mut buf = vec![0u8; 3];
    assert_eq!(decode_to(&[0x08, 1], &mut buf), Err(DecodeError::Overflow));
    assert_eq!(decode_to(&[0x07, 1, 2, 3, 4], &mut buf), Err(DecodeError::Overflow));
}

#[test]
fn missing_bytes_are_eof() {
    let mut buf = vec![0u8; 8];
    assert_eq!(decode_to(&[0x05, 1, 2], &mut buf), Err(DecodeError::DecodeOrEof));
    assert_eq!(decode_to(&[0x08], &mut buf), Err(DecodeError::DecodeOrEof));
    assert_eq!(decode_to(&[0x80], &mut buf), Err(DecodeError::DecodeOrEof));
}

#[test]
fn expand_run_reports_use() {
    let mut buf = vec![0u8; 6];
    assert_eq!(expand_run(-2, &[4, 5, 6], &mut buf, 1), Ok((2, 2)));
    assert_eq!(buf, vec![0, 4, 5, 0, 0, 0]);
    assert_eq!(expand_run(3, &[8, 6], &mut buf, 3), Ok((1, 3)));
    assert_eq!(buf, vec![0, 4, 5, 8, 8, 8]);
    assert_eq!(expand_run(1, &[8], &mut buf, 6), Err(DecodeError::Overflow));
    assert_eq!(expand_run(-1, &[], &mut buf, 0), Err(DecodeError::DecodeOrEof));
    assert_eq!(buf, vec![0, 4, 5, 8, 8, 8]);
}
