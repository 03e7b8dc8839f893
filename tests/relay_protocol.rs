use relay_sr201::error::Error;
use relay_sr201::relay::{
    char_list_to_array, close_request, decode_close, decode_status, is_open, open_request,
    status_request, verify_closed, CloseMode,
};

#[test]
fn status_decodes_first_channel_closed() {
    let s = char_list_to_array("10000000").unwrap();
    assert_eq!(s, [true, false, false, false, false, false, false, false]);
}

#[test]
fn status_of_wrong_length_fails() {
    assert!(matches!(char_list_to_array("1000000"), Err(Error::Decode(_))));
    assert!(matches!(char_list_to_array("100000000"), Err(Error::Decode(_))));
    assert!(matches!(char_list_to_array(""), Err(Error::Decode(_))));
}

#[test]
fn status_with_other_characters_fails() {
    assert!(matches!(char_list_to_array("1000000x"), Err(Error::Decode(_))));
    assert!(matches!(char_list_to_array("10000002"), Err(Error::Decode(_))));
}

#[test]
fn requests_are_encoded() {
    assert_eq!(status_request(), b"00".to_vec());
    assert_eq!(open_request(0), b"21".to_vec());
    assert_eq!(open_request(7), b"28".to_vec());
    assert_eq!(close_request(2, CloseMode::Immediate), b"13".to_vec());
    assert_eq!(close_request(2, CloseMode::QuickReopen), b"13*".to_vec());
    assert_eq!(close_request(2, CloseMode::Delayed(0)), b"13".to_vec());
    assert_eq!(close_request(2, CloseMode::Delayed(5)), b"13:5".to_vec());
    assert_eq!(close_request(7, CloseMode::Delayed(65535)), b"18:65535".to_vec());
    assert_eq!(close_request(0, CloseMode::Delayed(120)), b"11:120".to_vec());
}

#[test]
fn decode_status_reads_raw_bytes() {
    let s = decode_status(b"01000001").unwrap();
    assert_eq!(s, [false, true, false, false, false, false, false, true]);
    assert!(matches!(decode_status(b"0100"), Err(Error::Decode(_))));
}

#[test]
fn close_fails_when_channel_reported_open() {
    assert!(matches!(decode_close(3, b"11100000"), Err(Error::Verification(3))));
}

#[test]
fn close_succeeds_when_channel_reported_closed() {
    let s = decode_close(3, b"00010000").unwrap();
    assert_eq!(s, [false, false, false, true, false, false, false, false]);
    assert!(matches!(verify_closed(1, s), Err(Error::Verification(1))));
}

#[test]
fn open_check_reads_channel() {
    let s = [true, false, false, false, false, false, false, false];
    assert!(!is_open(0, &s));
    assert!(is_open(1, &s));
}

#[test]
fn full_buffer_is_rejected() {
    let raw = vec![b'0'; 128];
    assert!(matches!(decode_status(&raw), Err(Error::Framing(_))));
}
