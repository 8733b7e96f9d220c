use exr_meta::acquire::{header_read_len, uses_memory_map, HEADER_READ_CAP};
use exr_meta::errors::ParseError;
use exr_meta::fast_exr::{Compression, FastEXRParser, LineOrder, SampleType, ASPECT_ONE_BITS};

fn push_u32(buf: &mut Vec<u8>, v: u32) {
    buf.extend_from_slice(&v.to_le_bytes());
}

fn push_i32(buf: &mut Vec<u8>, v: i32) {
    buf.extend_from_slice(&v.to_le_bytes());
}

fn push_str_z(buf: &mut Vec<u8>, s: &str) {
    buf.extend_from_slice(s.as_bytes());
    buf.push(0);
}

fn header_prefix() -> Vec<u8> {
    let mut buf = Vec::new();
    push_u32(&mut buf, 20000630);
    push_u32(&mut buf, 0);
    buf
}

fn push_attribute(buf: &mut Vec<u8>, name: &str, type_tag: &str, payload: &[u8]) {
    push_str_z(buf, name);
    push_str_z(buf, type_tag);
    push_u32(buf, payload.len() as u32);
    buf.extend_from_slice(payload);
}

#[test]
fn bad_magic_is_rejected_before_any_attribute() {
    let mut buf = Vec::new();
    push_u32(&mut buf, 20000631);
    push_u32(&mut buf, 0);
    push_attribute(&mut buf, "displayWindow", "box2i", &[0u8; 16]);
    buf.push(0);
    let mut parser = FastEXRParser::from_bytes(buf);
    let r = parser.parse_metadata();
    assert_eq!(r.unwrap_err(), ParseError::InvalidMagicNumber);
    // Only the magic word itself was consumed.
    assert_eq!(parser.position, 4);
}

#[test]
fn minimal_header_recovers_display_window_and_defaults() {
    let mut buf = header_prefix();
    let mut payload = Vec::new();
    push_i32(&mut payload, 0);
    push_i32(&mut payload, 0);
    push_i32(&mut payload, 1919);
    push_i32(&mut payload, 1079);
    push_attribute(&mut buf, "displayWindow", "box2i", &payload);
    buf.push(0);
    let mut parser = FastEXRParser::from_bytes(buf);
    let meta = parser.parse_metadata().unwrap();
    assert_eq!(meta.display_window, (0, 0, 1919, 1079));
    assert_eq!(meta.compression, Compression::Unknown);
    assert_eq!(meta.line_order, LineOrder::Increasing);
    assert_eq!(meta.pixel_aspect_bits, ASPECT_ONE_BITS);
    assert!(meta.channels.is_empty());
    assert!(meta.layer_name.is_none());
    assert!(meta.custom_attributes.is_empty());
}

#[test]
fn unknown_attribute_consumes_exactly_its_record() {
    let mut buf = header_prefix();
    let before = buf.len();
    push_attribute(&mut buf, "customThing", "string", b"hello");
    let after_record = buf.len();
    // record = name + NUL + type + NUL + 4 size bytes + payload
    assert_eq!(
        after_record - before,
        ("customThing".len() + 1) + ("string".len() + 1) + 4 + "hello".len()
    );
    buf.push(0);
    let end = buf.len();
    let mut parser = FastEXRParser::from_bytes(buf);
    let meta = parser.parse_metadata().unwrap();
    assert_eq!(parser.position, end);
    assert_eq!(
        meta.custom_attributes,
        vec![("customThing".to_string(), "hello".to_string())]
    );
}

#[test]
fn unknown_attribute_with_unprintable_payload_is_skipped_not_stored() {
    let mut buf = header_prefix();
    push_attribute(&mut buf, "binaryBlob", "bytes", &[0x01, 0x02, 0x03]);
    push_attribute(&mut buf, "afterwards", "string", b"ok");
    buf.push(0);
    let mut parser = FastEXRParser::from_bytes(buf);
    let meta = parser.parse_metadata().unwrap();
    // the unprintable payload was consumed but not retained, and parsing
    // stayed in sync for the following attribute
    assert_eq!(
        meta.custom_attributes,
        vec![("afterwards".to_string(), "ok".to_string())]
    );
}

#[test]
fn unknown_attribute_larger_than_cap_is_skipped() {
    let mut buf = header_prefix();
    push_attribute(&mut buf, "huge", "bytes", &[b'x'; 65]);
    buf.push(0);
    let mut parser = FastEXRParser::from_bytes(buf);
    let meta = parser.parse_metadata().unwrap();
    assert!(meta.custom_attributes.is_empty());
}

#[test]
fn channels_are_parsed_in_order() {
    let mut buf = header_prefix();
    let mut payload = Vec::new();
    push_str_z(&mut payload, "R");
    push_u32(&mut payload, 1); // Half
    payload.push(1); // quantize linearly
    payload.extend_from_slice(&[0, 0, 0]); // reserved
    push_i32(&mut payload, 1);
    push_i32(&mut payload, 1);
    push_str_z(&mut payload, "Beauty.red");
    push_u32(&mut payload, 2); // Float
    payload.push(0);
    payload.extend_from_slice(&[0, 0, 0]);
    push_i32(&mut payload, 2);
    push_i32(&mut payload, 4);
    payload.push(0); // list terminator
    push_attribute(&mut buf, "channels", "chlist", &payload);
    buf.push(0);
    let mut parser = FastEXRParser::from_bytes(buf);
    let meta = parser.parse_metadata().unwrap();
    assert_eq!(meta.channels.len(), 2);
    assert_eq!(meta.channels[0].name, "R");
    assert_eq!(meta.channels[0].sample_type, SampleType::Half);
    assert_eq!(meta.channels[0].sampling, (1, 1));
    assert!(meta.channels[0].quantize_linearly);
    assert_eq!(meta.channels[1].name, "Beauty.red");
    assert_eq!(meta.channels[1].sample_type, SampleType::Float);
    assert_eq!(meta.channels[1].sampling, (2, 4));
    assert!(!meta.channels[1].quantize_linearly);
}

#[test]
fn channel_list_early_terminator_stops_without_error() {
    let mut buf = header_prefix();
    // declared size 10, but the payload's first byte already terminates
    // the list; the stream continues right after that byte
    push_str_z(&mut buf, "channels");
    push_str_z(&mut buf, "chlist");
    push_u32(&mut buf, 10);
    buf.push(0); // empty channel name: early list terminator
    let after_terminator = buf.len();
    buf.push(0); // end of attribute stream
    let end = buf.len();
    let mut parser = FastEXRParser::from_bytes(buf);
    let meta = parser.parse_metadata().unwrap();
    assert!(meta.channels.is_empty());
    // the nine declared-but-absent payload bytes were never consumed
    assert_eq!(parser.position, end);
    assert_eq!(after_terminator + 1, end);
}

#[test]
fn unknown_sample_type_reports_the_raw_code() {
    let mut buf = header_prefix();
    let mut payload = Vec::new();
    push_str_z(&mut payload, "R");
    push_u32(&mut payload, 7);
    payload.push(0);
    payload.extend_from_slice(&[0, 0, 0]);
    push_i32(&mut payload, 1);
    push_i32(&mut payload, 1);
    payload.push(0);
    push_attribute(&mut buf, "channels", "chlist", &payload);
    buf.push(0);
    let mut parser = FastEXRParser::from_bytes(buf);
    let r = parser.parse_metadata();
    assert_eq!(r.unwrap_err(), ParseError::UnknownSampleType(7));
}

#[test]
fn truncated_buffer_fails_with_end_of_data() {
    let mut buf = header_prefix();
    push_str_z(&mut buf, "displayWindow");
    push_str_z(&mut buf, "box2i");
    // size word missing entirely
    let mut parser = FastEXRParser::from_bytes(buf);
    assert_eq!(
        parser.parse_metadata().unwrap_err(),
        ParseError::UnexpectedEndOfData
    );

    let mut buf2 = header_prefix();
    let mut payload = Vec::new();
    push_i32(&mut payload, 0);
    push_i32(&mut payload, 0);
    push_i32(&mut payload, 1919);
    push_i32(&mut payload, 1079);
    push_attribute(&mut buf2, "displayWindow", "box2i", &payload);
    buf2.truncate(buf2.len() - 10); // cut into the payload
    let mut parser2 = FastEXRParser::from_bytes(buf2);
    assert_eq!(
        parser2.parse_metadata().unwrap_err(),
        ParseError::UnexpectedEndOfData
    );
}

#[test]
fn short_magic_buffer_fails_without_moving() {
    let mut parser = FastEXRParser::from_bytes(vec![0x76, 0x2f]);
    assert_eq!(
        parser.parse_metadata().unwrap_err(),
        ParseError::UnexpectedEndOfData
    );
    assert_eq!(parser.position, 0);
}

#[test]
fn compression_and_line_order_codes_map_through_the_tables() {
    let mut buf = header_prefix();
    push_attribute(&mut buf, "compression", "compression", &[3]);
    push_attribute(&mut buf, "lineOrder", "lineOrder", &[1]);
    buf.push(0);
    let mut parser = FastEXRParser::from_bytes(buf);
    let meta = parser.parse_metadata().unwrap();
    assert_eq!(meta.compression, Compression::Zip);
    assert_eq!(meta.line_order, LineOrder::Decreasing);

    let mut buf2 = header_prefix();
    push_attribute(&mut buf2, "compression", "compression", &[42]);
    push_attribute(&mut buf2, "lineOrder", "lineOrder", &[9]);
    buf2.push(0);
    let mut parser2 = FastEXRParser::from_bytes(buf2);
    let meta2 = parser2.parse_metadata().unwrap();
    assert_eq!(meta2.compression, Compression::UnknownCode(42));
    assert_eq!(meta2.line_order, LineOrder::UnknownCode(9));
}

#[test]
fn layer_name_and_pixel_aspect_are_recorded() {
    let mut buf = header_prefix();
    push_attribute(&mut buf, "name", "string", b"hello");
    push_attribute(&mut buf, "pixelAspectRatio", "float", &2.0f32.to_le_bytes());
    buf.push(0);
    let mut parser = FastEXRParser::from_bytes(buf);
    let meta = parser.parse_metadata().unwrap();
    assert_eq!(meta.layer_name.as_deref(), Some("hello"));
    assert_eq!(meta.pixel_aspect_bits, 2.0f32.to_bits());
}

#[test]
fn invalid_utf8_channel_name_decodes_to_replacement() {
    let mut buf = header_prefix();
    let mut payload = Vec::new();
    payload.push(0xff); // not valid UTF-8
    payload.push(0); // name terminator
    push_u32(&mut payload, 0); // UInt
    payload.push(0);
    payload.extend_from_slice(&[0, 0, 0]);
    push_i32(&mut payload, 1);
    push_i32(&mut payload, 1);
    payload.push(0);
    push_attribute(&mut buf, "channels", "chlist", &payload);
    buf.push(0);
    let mut parser = FastEXRParser::from_bytes(buf);
    let meta = parser.parse_metadata().unwrap();
    assert_eq!(meta.channels.len(), 1);
    assert_eq!(meta.channels[0].name, "\u{fffd}");
}

#[test]
fn header_budget_is_the_capped_file_length() {
    assert_eq!(header_read_len(0), 0);
    assert_eq!(header_read_len(100), 100);
    assert_eq!(header_read_len(65535), 65535);
    assert_eq!(header_read_len(65536), HEADER_READ_CAP);
    assert_eq!(header_read_len(65537), HEADER_READ_CAP);
    assert_eq!(header_read_len(10_000_000_000), HEADER_READ_CAP);
    assert!(!uses_memory_map(1024));
    assert!(!uses_memory_map(1048576));
    assert!(uses_memory_map(1048577));
    assert!(uses_memory_map(10_000_000_000));
}

#[test]
fn error_messages_name_each_kind() {
    assert_eq!(
        ParseError::InvalidMagicNumber.message(),
        "Invalid EXR magic number"
    );
    assert_eq!(
        ParseError::UnexpectedEndOfData.message(),
        "Unexpected end of data"
    );
    assert_eq!(ParseError::UnknownSampleType(9).message(), "Unknown sample type");
}
