use xbee_frames::at_data::{
    at_command_to_data_type, device_type_from, parse_at_data, parse_node_discovery, signed_value,
    ATCommandDataTag,
};
use xbee_frames::error::FrameError;
use xbee_frames::zb_parse_frame::{ATCommandData, CommandStatus, DeviceType, NodeDiscoveryData};

fn node_record() -> Vec<u8> {
    vec![
        0x12, 0x34, // network address
        0x00, 0x13, 0xA2, 0x00, 0x41, 0x67, 0x34, 0x62, // 64-bit address
        0x4E, 0x4F, 0x44, 0x45, 0x00, // "NODE"
        0xFF, 0xFE, // parent
        0x01, // router
        0x00, // status
        0xC1, 0x05, // profile
        0x10, 0x1E, // manufacturer
    ]
}

fn node(digidevice_type: Option<Vec<u8>>, last_hop_rssi: Option<u8>) -> NodeDiscoveryData {
    NodeDiscoveryData {
        addr64: vec![0x00, 0x13, 0xA2, 0x00, 0x41, 0x67, 0x34, 0x62],
        node_name: String::from("NODE"),
        device_type: DeviceType::ROUTER,
        status: CommandStatus::OK,
        digidevice_type,
        last_hop_rssi,
    }
}

#[test]
fn command_table() {
    assert_eq!(at_command_to_data_type("ND"), Some(ATCommandDataTag::NodeDiscovery));
    assert_eq!(at_command_to_data_type("NI"), Some(ATCommandDataTag::String));
    assert_eq!(at_command_to_data_type("VL"), Some(ATCommandDataTag::String));
    assert_eq!(at_command_to_data_type("TP"), Some(ATCommandDataTag::Celsius));
}

#[test]
fn command_table_has_no_other_entries() {
    assert_eq!(at_command_to_data_type("SH"), None);
    assert_eq!(at_command_to_data_type("ni"), None);
    assert_eq!(at_command_to_data_type("N"), None);
    assert_eq!(at_command_to_data_type("NDX"), None);
    assert_eq!(at_command_to_data_type(""), None);
    assert_eq!(at_command_to_data_type("DN"), None);
    assert_eq!(at_command_to_data_type("NL"), None);
}

#[test]
fn text_value_is_decoded() {
    let value = parse_at_data(&String::from("NI"), "AB".as_bytes());
    assert_eq!(value, Ok(ATCommandData::String(String::from("AB"))));
    let value = parse_at_data(&String::from("VL"), "XBee\r2.0".as_bytes());
    assert_eq!(value, Ok(ATCommandData::String(String::from("XBee\r2.0"))));
}

#[test]
fn text_value_may_be_empty_or_multibyte() {
    assert_eq!(
        parse_at_data(&String::from("NI"), &[]),
        Ok(ATCommandData::String(String::new()))
    );
    assert_eq!(
        parse_at_data(&String::from("NI"), &[0xC3, 0xA9, 0x21]),
        Ok(ATCommandData::String(String::from("\u{e9}!")))
    );
}

#[test]
fn text_value_that_is_not_utf8_is_an_encoding_error() {
    assert_eq!(parse_at_data(&String::from("NI"), &[0xFF, 0xFE]), Err(FrameError::Encoding));
    assert_eq!(parse_at_data(&String::from("VL"), &[0x41, 0xC3]), Err(FrameError::Encoding));
    // Overlong encoding and surrogate.
    assert_eq!(parse_at_data(&String::from("NI"), &[0xC0, 0x80]), Err(FrameError::Encoding));
    assert_eq!(parse_at_data(&String::from("NI"), &[0xED, 0xA0, 0x80]), Err(FrameError::Encoding));
}

#[test]
fn other_commands_stay_opaque() {
    assert_eq!(parse_at_data(&String::from("SH"), &[0x00, 0x13, 0xA2, 0x00]), Ok(ATCommandData::Bytes));
    assert_eq!(parse_at_data(&String::from("SH"), &[0xFF, 0xFE]), Ok(ATCommandData::Bytes));
    assert_eq!(parse_at_data(&String::from(""), &[0x01]), Ok(ATCommandData::Bytes));
    assert_eq!(parse_at_data(&String::from("NIX"), "AB".as_bytes()), Ok(ATCommandData::Bytes));
}

#[test]
fn temperature_is_a_signed_big_endian_integer() {
    assert_eq!(parse_at_data(&String::from("TP"), &[0x00, 0x1A]), Ok(ATCommandData::Celsius(26)));
    assert_eq!(parse_at_data(&String::from("TP"), &[0xFF, 0xF6]), Ok(ATCommandData::Celsius(-10)));
    assert_eq!(parse_at_data(&String::from("TP"), &[0x1A]), Ok(ATCommandData::Celsius(26)));
    assert_eq!(parse_at_data(&String::from("TP"), &[0xF6]), Ok(ATCommandData::Celsius(-10)));
    assert_eq!(parse_at_data(&String::from("TP"), &[0x01, 0x00]), Ok(ATCommandData::Celsius(256)));
}

#[test]
fn temperature_of_other_widths_stays_opaque() {
    assert_eq!(parse_at_data(&String::from("TP"), &[]), Ok(ATCommandData::Bytes));
    assert_eq!(parse_at_data(&String::from("TP"), &[0, 0, 0, 0, 0x1A]), Ok(ATCommandData::Bytes));
}

#[test]
fn signed_value_extremes() {
    assert_eq!(signed_value(&[0x00]), Some(0));
    assert_eq!(signed_value(&[0x7F]), Some(127));
    assert_eq!(signed_value(&[0x80]), Some(-128));
    assert_eq!(signed_value(&[0xFF]), Some(-1));
    assert_eq!(signed_value(&[0x7F, 0xFF]), Some(32767));
    assert_eq!(signed_value(&[0x80, 0x00]), Some(-32768));
    assert_eq!(signed_value(&[0x00, 0x80]), Some(128));
    assert_eq!(signed_value(&[0x01, 0x02, 0x03]), Some(0x010203));
    assert_eq!(signed_value(&[0xFF, 0xFF, 0xFE]), Some(-2));
    assert_eq!(signed_value(&[0x7F, 0xFF, 0xFF, 0xFF]), Some(i32::MAX));
    assert_eq!(signed_value(&[0x80, 0x00, 0x00, 0x00]), Some(i32::MIN));
    assert_eq!(signed_value(&[0x12, 0x34, 0x56, 0x78]), Some(0x12345678));
}

#[test]
fn signed_value_of_other_widths() {
    assert_eq!(signed_value(&[]), None);
    assert_eq!(signed_value(&[0x00, 0x00, 0x00, 0x00, 0x01]), None);
}

#[test]
fn device_type_bytes() {
    assert_eq!(device_type_from(0), Some(DeviceType::COORDINATOR));
    assert_eq!(device_type_from(1), Some(DeviceType::ROUTER));
    assert_eq!(device_type_from(2), Some(DeviceType::ENDDEVICE));
    assert_eq!(device_type_from(3), None);
    assert_eq!(device_type_from(0xFF), None);
}

#[test]
fn node_discovery_record_without_tail() {
    assert_eq!(parse_node_discovery(&node_record()), Ok(node(None, None)));
}

#[test]
fn node_discovery_record_with_signal_strength() {
    let mut record = node_record();
    record.push(0x2B);
    assert_eq!(parse_node_discovery(&record), Ok(node(None, Some(0x2B))));
}

#[test]
fn node_discovery_record_with_vendor_device_type() {
    let mut record = node_record();
    record.extend_from_slice(&[0x00, 0x03, 0x00, 0x00]);
    assert_eq!(
        parse_node_discovery(&record),
        Ok(node(Some(vec![0x00, 0x03, 0x00, 0x00]), None))
    );
}

#[test]
fn node_discovery_record_with_full_tail() {
    let mut record = node_record();
    record.extend_from_slice(&[0x00, 0x03, 0x00, 0x00, 0x2B]);
    assert_eq!(
        parse_node_discovery(&record),
        Ok(node(Some(vec![0x00, 0x03, 0x00, 0x00]), Some(0x2B)))
    );
    assert_eq!(
        parse_at_data(&String::from("ND"), &record),
        Ok(ATCommandData::NodeDiscovery(node(Some(vec![0x00, 0x03, 0x00, 0x00]), Some(0x2B))))
    );
}

#[test]
fn node_discovery_record_with_empty_name() {
    let mut record = node_record();
    record.drain(10..14);
    let mut expected = node(None, None);
    expected.node_name = String::new();
    assert_eq!(parse_node_discovery(&record), Ok(expected));
}

#[test]
fn node_discovery_record_device_types() {
    let mut record = node_record();
    record[17] = 0x00;
    assert_eq!(parse_node_discovery(&record).unwrap().device_type, DeviceType::COORDINATOR);
    record[17] = 0x02;
    assert_eq!(parse_node_discovery(&record).unwrap().device_type, DeviceType::ENDDEVICE);
    record[17] = 0x03;
    assert_eq!(parse_node_discovery(&record), Err(FrameError::Encoding));
}

#[test]
fn node_discovery_record_status_bytes() {
    let mut record = node_record();
    record[18] = 0x03;
    assert_eq!(parse_node_discovery(&record).unwrap().status, CommandStatus::InvalidParameter);
    record[18] = 0x04;
    assert_eq!(parse_node_discovery(&record), Err(FrameError::Encoding));
}

#[test]
fn malformed_node_discovery_records_are_encoding_errors() {
    assert_eq!(parse_node_discovery(&[]), Err(FrameError::Encoding));
    assert_eq!(parse_node_discovery(&[0u8; 9]), Err(FrameError::Encoding));
    // No terminator after the name.
    assert_eq!(parse_node_discovery(&[0x41u8; 40]), Err(FrameError::Encoding));
    // Cut short after the name.
    let record = node_record();
    assert_eq!(parse_node_discovery(&record[..22]), Err(FrameError::Encoding));
    assert_eq!(parse_node_discovery(&record[..15]), Err(FrameError::Encoding));
    // A tail of two, three or six bytes is none of the known shapes.
    for extra in [2usize, 3, 6] {
        let mut longer = node_record();
        longer.extend(std::iter::repeat(0x01).take(extra));
        assert_eq!(parse_node_discovery(&longer), Err(FrameError::Encoding), "tail {}", extra);
    }
    // A name that is not UTF-8.
    let mut bad_name = node_record();
    bad_name[10] = 0xFF;
    assert_eq!(parse_node_discovery(&bad_name), Err(FrameError::Encoding));
}

#[test]
fn node_discovery_value_without_a_record_stays_opaque() {
    assert_eq!(parse_at_data(&String::from("ND"), &[]), Ok(ATCommandData::Bytes));
    assert_eq!(parse_at_data(&String::from("ND"), &[0x2A]), Ok(ATCommandData::Bytes));
    assert_eq!(parse_at_data(&String::from("ND"), &[0x41u8; 40]), Ok(ATCommandData::Bytes));
    let record = node_record();
    assert_eq!(parse_at_data(&String::from("ND"), &record[..22]), Ok(ATCommandData::Bytes));
    // Unknown device type, unknown status, unlisted tail, name that is not UTF-8.
    let mut changed = node_record();
    changed[17] = 0x03;
    assert_eq!(parse_at_data(&String::from("ND"), &changed), Ok(ATCommandData::Bytes));
    let mut changed = node_record();
    changed[18] = 0x04;
    assert_eq!(parse_at_data(&String::from("ND"), &changed), Ok(ATCommandData::Bytes));
    let mut changed = node_record();
    changed.extend_from_slice(&[0x01, 0x02]);
    assert_eq!(parse_at_data(&String::from("ND"), &changed), Ok(ATCommandData::Bytes));
    let mut changed = node_record();
    changed[10] = 0xFF;
    assert_eq!(parse_at_data(&String::from("ND"), &changed), Ok(ATCommandData::Bytes));
}
