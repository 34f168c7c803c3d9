use can_io::catalog::{CatalogError, ExtendedValueType, MessageCatalog};
use can_io::codec::CodecError;
use can_io::frame::Frame;
use can_io::parser::{get_message_id, CanParser, DecodedRecord, Error, FieldValue};
use can_io::table::FrameTable;

const DESCRIPTION: &str = r#"
VERSION "1.0"
NS_ :
    SIG_VALTYPE_
BS_:
BU_: ECU
BO_ 256 Engine: 8 ECU
    SG_ Speed : 0|16@1+ (1,0) [0|65535] "kmh" ECU
    SG_ Temp : 16|8@1- (1,0) [0|0] "" ECU
    SG_ Mode : 24|8@0+ (1,0) [0|255] "" ECU
    SG_ Ratio : 32|32@1+ (1,0) [0|0] "" ECU

BO_ 2147484160 Body: 2 ECU
    SG_ Door : 0|1@1+ (1,0) [0|1] "" ECU
    SG_ Wide : 8|16@1+ (1,0) [0|1] "" ECU

SIG_VALTYPE_ 256 Ratio : 1;
"#;

fn loaded() -> CanParser {
    let mut p = CanParser::new();
    p.open_dbc(DESCRIPTION.as_bytes()).unwrap();
    p
}

fn one_record(p: &CanParser, frame: Frame, t: u128) -> DecodedRecord {
    let mut table = FrameTable::new();
    table.upsert(frame, t);
    let mut records = p.parse_can_table(&table);
    assert_eq!(records.len(), 1);
    records.remove(0)
}

#[test]
fn unknown_frame_without_catalog_gives_raw_bytes() {
    let p = CanParser::new();
    let r = one_record(&p, Frame::new(0x100, false, vec![7, 8, 9]).unwrap(), 42);
    assert_eq!(r.name, "");
    assert_eq!(r.id, 0x100);
    assert_eq!(r.timestamp_us, 42);
    assert!(!r.extended);
    let values: Vec<FieldValue> = r.fields.iter().map(|f| f.value).collect();
    assert_eq!(values, vec![FieldValue::Byte(7), FieldValue::Byte(8), FieldValue::Byte(9)]);
    assert!(r.fields.iter().all(|f| f.name.is_empty()));
}

#[test]
fn unknown_identifier_with_catalog_gives_raw_bytes() {
    let p = loaded();
    let r = one_record(&p, Frame::new(0x101, false, vec![1, 2]).unwrap(), 0);
    assert_eq!(r.name, "");
    assert_eq!(r.fields.len(), 2);
    assert_eq!(r.fields[1].value, FieldValue::Byte(2));
}

#[test]
fn described_frame_is_decoded_in_declaration_order() {
    let p = loaded();
    let mut data = vec![0x34, 0x12, 0xFE, 0b1000_0000];
    data.extend_from_slice(&0.5f32.to_le_bytes());
    let r = one_record(&p, Frame::new(0x100, false, data).unwrap(), 9);
    assert_eq!(r.name, "Engine");
    let names: Vec<&str> = r.fields.iter().map(|f| f.name.as_str()).collect();
    assert_eq!(names, vec!["Speed", "Temp", "Mode", "Ratio"]);
    assert_eq!(r.fields[0].value, FieldValue::Unsigned(0x1234));
    assert_eq!(r.fields[1].value, FieldValue::Signed(-2));
    // big-endian: each byte's bits are reversed before reading
    assert_eq!(r.fields[2].value, FieldValue::Unsigned(1));
    match r.fields[3].value {
        FieldValue::Float32Bits(b) => assert_eq!(f32::from_bits(b), 0.5),
        other => panic!("unexpected {:?}", other),
    }
}

#[test]
fn extended_identifier_matches_extended_message() {
    let p = loaded();
    let r = one_record(&p, Frame::new(0x200, true, vec![1, 0x34, 0x12]).unwrap(), 0);
    assert_eq!(r.name, "Body");
    assert!(r.extended);
    assert_eq!(r.fields[0].value, FieldValue::Unsigned(1));
    assert_eq!(r.fields[1].value, FieldValue::Unsigned(0x1234));
    // the same number as a standard identifier is another message
    let s = one_record(&p, Frame::new(0x200, false, vec![1]).unwrap(), 0);
    assert_eq!(s.name, "");
}

#[test]
fn short_payload_marks_only_the_signals_it_cannot_hold() {
    let p = loaded();
    let r = one_record(&p, Frame::new(0x200, true, vec![1]).unwrap(), 0);
    assert_eq!(r.fields[0].value, FieldValue::Unsigned(1));
    assert_eq!(r.fields[1].value, FieldValue::Invalid(CodecError::FieldTooLong));
    let r = one_record(&p, Frame::new(0x200, true, vec![1, 2]).unwrap(), 0);
    assert_eq!(r.fields[1].value, FieldValue::Invalid(CodecError::OutOfRange));
}

#[test]
fn annotation_defaults_to_integer() {
    let c = MessageCatalog::parse(DESCRIPTION.as_bytes()).unwrap();
    assert_eq!(c.extended_value_type(0x100, false, &"Ratio".to_string()), Some(ExtendedValueType::Float32));
    assert_eq!(c.extended_value_type(0x100, false, &"Speed".to_string()), Some(ExtendedValueType::Integer));
    assert_eq!(c.extended_value_type(0x100, false, &"Nope".to_string()), None);
    assert_eq!(c.extended_value_type(0x300, false, &"Speed".to_string()), None);
    assert_eq!(c.lookup(0x200, true).map(|m| m.key), Some(0x8000_0200));
    assert!(c.lookup(0x200, false).is_none());
}

#[test]
fn malformed_description_keeps_previous_catalog() {
    let mut p = loaded();
    assert_eq!(p.open_dbc(b"BO_ nonsense"), Err(Error::CanDbc));
    assert!(p.catalog.is_some());
    assert_eq!(p.open_dbc(&[0xFF, 0xFE]), Err(Error::CanDbc));
    assert!(p.catalog.is_some());
    let mut q = CanParser::new();
    assert_eq!(q.open_dbc(b"BO_ nonsense"), Err(Error::CanDbc));
    assert!(q.catalog.is_none());
}

#[test]
fn clearing_catalog_falls_back_to_raw_bytes() {
    let mut p = loaded();
    p.clear_dbc();
    let r = one_record(&p, Frame::new(0x100, false, vec![5]).unwrap(), 0);
    assert_eq!(r.name, "");
    assert_eq!(r.fields[0].value, FieldValue::Byte(5));
}

#[test]
fn message_id_sets_top_bit_for_extended() {
    assert_eq!(get_message_id(&Frame::new(0x123, true, vec![]).unwrap()), 0x8000_0123);
    assert_eq!(get_message_id(&Frame::new(0x123, false, vec![]).unwrap()), 0x123);
}

#[test]
fn table_records_carry_frequency() {
    let p = CanParser::new();
    let mut table = FrameTable::new();
    table.upsert(Frame::new(0x10, false, vec![]).unwrap(), 0);
    table.upsert(Frame::new(0x10, false, vec![]).unwrap(), 1_000_000);
    table.upsert(Frame::new(0x20, false, vec![]).unwrap(), 1_000_000);
    let records = p.parse_can_table(&table);
    assert_eq!(records.len(), 2);
    assert_eq!(records[0].frequency.numerator, 1_000_000);
    assert_eq!(records[0].frequency.denominator, 1_000_000);
    assert_eq!(records[1].frequency.numerator, 0);
}

#[test]
fn catalog_keeps_annotations_as_given() {
    let c = MessageCatalog::parse(DESCRIPTION.as_bytes()).unwrap();
    let engine = c.lookup(0x100, false).unwrap();
    assert_eq!(engine.key, 0x100);
    assert_eq!(engine.name, "Engine");
    assert_eq!(engine.signals.len(), 4);
    assert_eq!(engine.signals[0].annotation, None);
    assert_eq!(engine.signals[0].start_bit, 0);
    assert_eq!(engine.signals[0].length, 16);
    assert_eq!(engine.signals[3].annotation, Some(ExtendedValueType::Float32));
}

#[test]
fn catalog_parse_errors() {
    assert_eq!(MessageCatalog::parse(&[0xFF, 0xFE]).unwrap_err(), CatalogError::NotText);
    assert_eq!(MessageCatalog::parse(b"BO_ nonsense").unwrap_err(), CatalogError::Malformed);
}
