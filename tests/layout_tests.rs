use udp_session::bits::{get_u8_from_bit_slice, u16_from_be_bytes, u16_to_be_bytes};
use udp_session::builders::RawDataBuilder;
use udp_session::datastructure::StructuredData;
use udp_session::jobtype::{
    create_job_type_byte, get_job_bytes, get_job_single_byte, get_job_type, parse_header, ClientJob,
    ServerJob,
};
use udp_session::layout::{get_protocol_total_length, DataStructuresFactory, DataType, Layout, ProtocolError};
use udp_session::protocol::Protocol;

fn record_layout() -> Layout {
    let mut f = DataStructuresFactory::new();
    f.structure("PlayerNumber", 1, DataType::Number, None).unwrap();
    f.structure("PlayerName", 15, DataType::FixedString, None).unwrap();
    f.structure("PlayerIP", 4, DataType::Number, None).unwrap();
    f.structure("PlayerPort", 2, DataType::Number, None).unwrap();
    f.get_structures()
}

#[test]
fn bit_slices_read_nibbles() {
    assert_eq!(get_u8_from_bit_slice(0x43, 0, 4), 4);
    assert_eq!(get_u8_from_bit_slice(0x43, 4, 4), 3);
    assert_eq!(get_u8_from_bit_slice(0b1011_0000, 1, 2), 1);
    assert_eq!(get_u8_from_bit_slice(0xFF, 0, 8), 255);
}

#[test]
fn u16_big_endian_round_trip() {
    assert_eq!(u16_to_be_bytes(0x1234), (0x12, 0x34));
    assert_eq!(u16_from_be_bytes(0x12, 0x34), 0x1234);
    let (hi, lo) = u16_to_be_bytes(54321);
    assert_eq!(u16_from_be_bytes(hi, lo), 54321);
}

#[test]
fn kind_bytes() {
    assert_eq!(get_job_single_byte(&(ServerJob::PongResponse, ClientJob::PingRequest)), 0x85);
    assert_eq!(get_job_single_byte(&(ServerJob::PlayerCreatedResponse, ClientJob::PlayerEnterRequest)), 0x43);
    assert_eq!(get_job_single_byte(&(ServerJob::NoServerAction, ClientJob::PlayerEnterRequest)), 0x03);
    assert_eq!(get_job_bytes(&(ServerJob::PlayerEnterPush, ClientJob::DataRequest)), (5, 2));
    assert_eq!(create_job_type_byte(&(8, 5)), 0x85);
    assert_eq!(get_job_type(&(9, 0)), None);
    assert_eq!(get_job_type(&(0, 6)), None);
    assert_eq!(get_job_type(&(4, 3)), Some((ServerJob::PlayerCreatedResponse, ClientJob::PlayerEnterRequest)));
    assert_eq!(ServerJob::as_string().len(), 9);
    assert_eq!(ClientJob::as_string()[5], "PingRequest");
}

#[test]
fn headers() {
    assert_eq!(parse_header(&[7, 0x03, 65]), Some((7, (ServerJob::NoServerAction, ClientJob::PlayerEnterRequest))));
    assert_eq!(parse_header(&[0x10, 0x85]), Some((0x10, (ServerJob::PongResponse, ClientJob::PingRequest))));
    assert_eq!(parse_header(&[1]), None);
    assert_eq!(parse_header(&[1, 0x96]), None);
}

#[test]
fn factory_places_fields_in_order() {
    let layout = record_layout();
    assert_eq!(layout.fields.len(), 4);
    assert_eq!(layout.fields[2].0, "PlayerIP");
    assert_eq!(layout.fields[2].1.start_byte, 16);
    assert_eq!(layout.fields[3].1.start_byte, 20);
    assert_eq!(get_protocol_total_length(&layout), 22);
}

#[test]
fn factory_rejects_duplicate_names() {
    let mut f = DataStructuresFactory::new();
    f.structure("A", 1, DataType::Number, None).unwrap();
    assert_eq!(f.structure("A", 2, DataType::Number, None), Err(ProtocolError::DuplicateName));
}

#[test]
fn factory_rejects_field_after_dynamic() {
    let mut f = DataStructuresFactory::new();
    f.structure("Name", 0, DataType::DynamicString, None).unwrap();
    assert_eq!(f.structure("After", 1, DataType::Number, None), Err(ProtocolError::DynamicNotLast));
    let mut g = DataStructuresFactory::new();
    g.structure("List", 0, DataType::Array, Some(record_layout())).unwrap();
    assert_eq!(g.structure("After", 1, DataType::Number, None), Err(ProtocolError::DynamicNotLast));
}

#[test]
fn factory_checks_array_layouts() {
    let mut f = DataStructuresFactory::new();
    assert_eq!(f.structure("List", 0, DataType::Array, None), Err(ProtocolError::EmptyArrayLayout));
    let mut dynamic_inner = DataStructuresFactory::new();
    dynamic_inner.structure("Text", 0, DataType::DynamicString, None).unwrap();
    assert_eq!(
        f.structure("List", 0, DataType::Array, Some(dynamic_inner.get_structures())),
        Err(ProtocolError::WrongFieldKind)
    );
    f.structure("List", 0, DataType::Array, Some(record_layout())).unwrap();
    let layout = f.get_structures();
    assert_eq!(layout.fields[0].1.length, 22);
}

#[test]
fn builder_errors() {
    let layout = record_layout();
    let r = RawDataBuilder::new(false).add_u8_data("Missing", &layout, 1);
    assert_eq!(r.err(), Some(ProtocolError::StructureNotFound));
    let r = RawDataBuilder::new(false).add_u8_data("PlayerIP", &layout, 1);
    assert_eq!(r.err(), Some(ProtocolError::OutOfOrder));
    let r = RawDataBuilder::new(false).add_vec_data("PlayerNumber", &layout, vec![1, 2]);
    assert_eq!(r.err(), Some(ProtocolError::SizeMismatch));
    let r = RawDataBuilder::new(false).add_string_data("PlayerNumber", &layout, "x".to_string());
    assert_eq!(r.err(), Some(ProtocolError::WrongFieldKind));
    let r = RawDataBuilder::new(false).add_array_data("PlayerNumber", &layout, vec![]);
    assert_eq!(r.err(), Some(ProtocolError::WrongFieldKind));
}

#[test]
fn builder_pads_and_truncates_fixed_strings() {
    let layout = record_layout();
    let mut b = RawDataBuilder::new(false)
        .add_u8_data("PlayerNumber", &layout, 9)
        .unwrap()
        .add_string_data("PlayerName", &layout, "Ann".to_string())
        .unwrap();
    let raw = b.get_raw_data();
    assert_eq!(raw.len(), 16);
    assert_eq!(&raw[..4], &[9, b'A', b'n', b'n']);
    assert!(raw[4..].iter().all(|x| *x == 0));
    let mut long = RawDataBuilder::new(false)
        .add_u8_data("PlayerNumber", &layout, 9)
        .unwrap()
        .add_string_data("PlayerName", &layout, "abcdefghijklmnopqrst".to_string())
        .unwrap();
    assert_eq!(long.get_raw_data(), b"\x09abcdefghijklmno".to_vec());
}

#[test]
fn builder_arrays_need_whole_elements() {
    let mut f = DataStructuresFactory::new();
    f.structure("Status", 1, DataType::Number, None).unwrap();
    f.structure("List", 0, DataType::Array, Some(record_layout())).unwrap();
    let layout = f.get_structures();
    let b = RawDataBuilder::new(false).add_u8_data("Status", &layout, 1).unwrap();
    let r = b.add_array_data("List", &layout, vec![0; 21]);
    assert_eq!(r.err(), Some(ProtocolError::ArrayLengthMismatch));
    let b = RawDataBuilder::new(false).add_u8_data("Status", &layout, 1).unwrap();
    let mut b = b.add_array_data("List", &layout, vec![1; 22]).unwrap().add_array_data("List", &layout, vec![2; 44]).unwrap();
    assert_eq!(b.get_raw_data().len(), 67);
}

#[test]
fn structured_data_reads_fields() {
    let layout = record_layout();
    let mut raw = vec![7];
    raw.extend_from_slice(b"Bob\0\0\0\0\0\0\0\0\0\0\0\0");
    raw.extend_from_slice(&[10, 0, 0, 1, 0x1F, 0x90]);
    let data = StructuredData::new(&layout, raw);
    assert_eq!(data.get_u8_data("PlayerNumber"), Ok(7));
    assert_eq!(data.get_u16_data("PlayerPort"), Ok(8080));
    assert_eq!(data.get_vec_data("PlayerIP"), Ok(vec![10, 0, 0, 1]));
    assert_eq!(data.get_string_data("PlayerName").unwrap(), "Bob\0\0\0\0\0\0\0\0\0\0\0\0");
    assert_eq!(data.get_u16_data("PlayerIP"), Err(ProtocolError::LengthMismatch));
    assert_eq!(data.get_u8_data("Nope"), Err(ProtocolError::StructureNotFound));
    assert_eq!(data.raw_count(), 22);
    let short = StructuredData::new(&layout, vec![7, 1, 2]);
    assert_eq!(short.get_vec_data("PlayerName"), Err(ProtocolError::InvalidRawData));
}

#[test]
fn lossy_strings_replace_invalid_bytes() {
    let mut f = DataStructuresFactory::new();
    f.structure("Text", 0, DataType::DynamicString, None).unwrap();
    let layout = f.get_structures();
    let data = StructuredData::new(&layout, vec![b'h', 0xFF, b'i']);
    assert_eq!(data.get_string_data("Text").unwrap(), "h\u{FFFD}i");
    let ok = StructuredData::new(&layout, "héllo".as_bytes().to_vec());
    assert_eq!(ok.get_string_data("Text").unwrap(), "héllo");
}

#[test]
fn arrays_iterate_whole_elements_only() {
    let mut f = DataStructuresFactory::new();
    f.structure("Status", 1, DataType::Number, None).unwrap();
    f.structure("List", 0, DataType::Array, Some(record_layout())).unwrap();
    let layout = f.get_structures();
    let mut raw = vec![1];
    raw.extend_from_slice(&[3; 22]);
    raw.extend_from_slice(&[4; 22]);
    raw.extend_from_slice(&[5; 10]);
    let data = StructuredData::new(&layout, raw);
    let mut items = data.get_iterable_array("List").unwrap();
    let first = items.next().unwrap();
    assert_eq!(first.get_u8_data("PlayerNumber"), Ok(3));
    let second = items.next().unwrap();
    assert_eq!(second.get_u16_data("PlayerPort"), Ok(0x0404));
    assert!(items.next().is_none());
    assert_eq!(data.get_iterable_array("Status").err(), Some(ProtocolError::WrongFieldKind));
    let key = data.get_array_key_and_structure().unwrap();
    assert_eq!(key.0, "List");
}

#[test]
fn catalogue_lookups() {
    let protocols = Protocol::new();
    assert_eq!(protocols.get_protocol("Nope").err(), Some(ProtocolError::ProtocolNotFound));
    let response = protocols.get_protocol("PlayerCreatedResponse").unwrap();
    assert_eq!(response.fields[3].1.start_byte, 17);
    let element = protocols.get_array_structure_as_ref("PlayerCreatedResponse", "OtherPlayers").unwrap();
    assert_eq!(get_protocol_total_length(element), 22);
    assert_eq!(
        protocols.get_array_structure_as_ref("PlayerCreatedResponse", "Status").err(),
        Some(ProtocolError::WrongFieldKind)
    );
    assert_eq!(get_protocol_total_length(protocols.get_structures_ref("PlayerEnterPush").unwrap()), 22);
}
