use xbee_frames::error::FrameError;
use xbee_frames::zb_frames::{
    check_checksum, compute_checksum, local_at_command, make_api_frame, send_data,
};

#[test]
fn checksum_of_empty_content_is_ff() {
    assert_eq!(compute_checksum(&[]), 0xFF);
    assert!(check_checksum(&[], 0xFF));
    assert!(!check_checksum(&[], 0x00));
}

#[test]
fn checksum_of_node_identifier_request() {
    // 0x08 + 0x42 + 0x4E + 0x49 = 0xE1, and 0xFF - 0xE1 = 0x1E.
    assert_eq!(compute_checksum(&[0x08, 0x42, 0x4E, 0x49]), 0x1E);
}

#[test]
fn checksum_of_node_discovery_request() {
    // 0x08 + 0x42 + 0x4E + 0x44 = 0xDC, and 0xFF - 0xDC = 0x23.
    assert_eq!(compute_checksum(&[0x08, 0x42, 0x4E, 0x44]), 0x23);
}

#[test]
fn checksum_wraps_the_sum_to_eight_bits() {
    // 0x88 + 0x42 + 0x4E + 0x49 + 0x00 + 0x41 + 0x42 = 0x1E4; only 0xE4 counts.
    assert_eq!(compute_checksum(&[0x88, 0x42, 0x4E, 0x49, 0x00, 0x41, 0x42]), 0x1B);
    assert_eq!(compute_checksum(&[0xFF; 256]), 0xFF);
    assert_eq!(compute_checksum(&[0xFF; 257]), 0x00);
}

#[test]
fn computed_checksum_always_verifies() {
    let mut content: Vec<u8> = Vec::new();
    for len in 0..=255usize {
        let checksum = compute_checksum(&content);
        assert!(check_checksum(&content, checksum), "length {}", len);
        content.push((len * 37 + 11) as u8);
    }
}

#[test]
fn only_the_computed_checksum_verifies() {
    let content = [0x10u8, 0x88, 0x00, 0x13, 0xA2];
    let good = compute_checksum(&content);
    for candidate in 0..=255u8 {
        assert_eq!(check_checksum(&content, candidate), candidate == good);
    }
}

#[test]
fn node_identifier_request_with_defaults() {
    let frame = local_at_command("NI".as_bytes(), None, None);
    assert_eq!(frame, Ok(vec![0x7E, 0x00, 0x04, 0x08, 0x42, 0x4E, 0x49, 0x1E]));
}

#[test]
fn node_discovery_request_with_defaults() {
    let frame = local_at_command("ND".as_bytes(), None, None).unwrap();
    assert_eq!(frame, vec![0x7E, 0x00, 0x04, 0x08, 0x42, 0x4E, 0x44, 0x23]);
    assert_eq!(frame[7], compute_checksum(&[0x08, 0x42, 0x4E, 0x44]));
    assert!(check_checksum(&frame[3..7], frame[7]));
}

#[test]
fn local_at_command_with_parameter_and_frame_id() {
    let frame = local_at_command("NI".as_bytes(), Some("XBEE".as_bytes()), Some(0x07));
    assert_eq!(
        frame,
        Ok(vec![0x7E, 0x00, 0x08, 0x08, 0x07, 0x4E, 0x49, 0x58, 0x42, 0x45, 0x45, 0x35])
    );
}

#[test]
fn local_at_command_with_empty_parameter_equals_no_parameter() {
    assert_eq!(
        local_at_command("NI".as_bytes(), Some(&[]), None),
        local_at_command("NI".as_bytes(), None, None)
    );
}

#[test]
fn local_at_command_rejects_one_byte_command() {
    assert_eq!(local_at_command("N".as_bytes(), None, None), Err(FrameError::Argument));
}

#[test]
fn local_at_command_rejects_other_command_lengths() {
    assert_eq!(local_at_command(&[], None, None), Err(FrameError::Argument));
    assert_eq!(local_at_command("NDX".as_bytes(), None, None), Err(FrameError::Argument));
    // The command is judged before the length of the content.
    assert_eq!(local_at_command("N".as_bytes(), Some(&[0u8; 300]), None), Err(FrameError::Argument));
}

#[test]
fn local_at_command_rejects_content_over_255_bytes() {
    // 4 fixed bytes + 251 parameter bytes = 255: the longest that fits.
    let fits = local_at_command("NI".as_bytes(), Some(&[0x55u8; 251]), None).unwrap();
    assert_eq!(fits.len(), 3 + 255 + 1);
    assert_eq!(&fits[..3], &[0x7E, 0x00, 0xFF]);
    assert_eq!(
        local_at_command("NI".as_bytes(), Some(&[0x55u8; 252]), None),
        Err(FrameError::Length)
    );
}

#[test]
fn make_api_frame_wraps_content() {
    assert_eq!(make_api_frame(&vec![]), Ok(vec![0x7E, 0x00, 0x00, 0xFF]));
    assert_eq!(make_api_frame(&vec![0x01, 0x02]), Ok(vec![0x7E, 0x00, 0x02, 0x01, 0x02, 0xFC]));
}

#[test]
fn make_api_frame_length_limit() {
    let longest = vec![0x01u8; 255];
    let frame = make_api_frame(&longest).unwrap();
    assert_eq!(frame.len(), 259);
    assert_eq!(frame[1], 0x00);
    assert_eq!(frame[2], 0xFF);
    assert_eq!(&frame[3..258], &longest[..]);
    // 255 * 1 = 0xFF, so the checksum is 0xFF - 0xFF.
    assert_eq!(frame[258], 0x00);
    assert_eq!(make_api_frame(&vec![0x01u8; 256]), Err(FrameError::Length));
}

#[test]
fn make_api_frame_does_not_escape_reserved_bytes() {
    let frame = make_api_frame(&vec![0x7E, 0x7D, 0x11, 0x13]).unwrap();
    assert_eq!(&frame[3..7], &[0x7E, 0x7D, 0x11, 0x13]);
    assert_eq!(frame.len(), 8);
}

#[test]
fn send_data_to_long_address() {
    let frame = send_data(Some(&[0, 19, 162, 0, 65, 103, 52, 98]), None, "test".as_bytes(), 0x88);
    assert_eq!(
        frame,
        Ok(vec![
            0x7E, 0x00, 0x12, 0x10, 0x88, 0x00, 0x13, 0xA2, 0x00, 0x41, 0x67, 0x34, 0x62, 0xFF,
            0xFE, 0x00, 0x00, 0x74, 0x65, 0x73, 0x74, 0xB7,
        ])
    );
}

#[test]
fn send_data_to_short_address_broadcasts_long_address() {
    let frame = send_data(None, Some(&[0x12, 0x34]), "hi".as_bytes(), 0x01);
    assert_eq!(
        frame,
        Ok(vec![
            0x7E, 0x00, 0x10, 0x10, 0x01, 0xFF, 0xFF, 0xFF, 0xFF, 0xFF, 0xFF, 0xFF, 0xFF, 0x12,
            0x34, 0x00, 0x00, 0x68, 0x69, 0xDF,
        ])
    );
}

#[test]
fn send_data_with_both_addresses_and_no_payload() {
    let frame = send_data(Some(&[1, 2, 3, 4, 5, 6, 7, 8]), Some(&[0x12, 0x34]), &[], 0x01);
    assert_eq!(
        frame,
        Ok(vec![
            0x7E, 0x00, 0x0E, 0x10, 0x01, 0x01, 0x02, 0x03, 0x04, 0x05, 0x06, 0x07, 0x08, 0x12,
            0x34, 0x00, 0x00, 0x84,
        ])
    );
}

#[test]
fn send_data_rejects_missing_addresses() {
    assert_eq!(send_data(None, None, "test".as_bytes(), 0x01), Err(FrameError::Argument));
    assert_eq!(send_data(None, None, &[0u8; 400], 0x01), Err(FrameError::Argument));
}

#[test]
fn send_data_rejects_content_over_255_bytes() {
    // 14 fixed bytes + 241 payload bytes = 255.
    let fits = send_data(None, Some(&[0x12, 0x34]), &[0xAAu8; 241], 0x01).unwrap();
    assert_eq!(fits.len(), 259);
    assert_eq!(fits[2], 0xFF);
    assert_eq!(
        send_data(None, Some(&[0x12, 0x34]), &[0xAAu8; 242], 0x01),
        Err(FrameError::Length)
    );
}

#[test]
fn send_data_does_not_escape_payload() {
    let frame = send_data(None, Some(&[0x12, 0x34]), &[0x7E, 0x7D], 0x01).unwrap();
    assert_eq!(&frame[17..19], &[0x7E, 0x7D]);
    assert_eq!(frame.len(), 20);
}
