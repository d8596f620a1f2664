use mers_libs::lang::val_data::VDataEnum;
use mers_libs::libs::comms::{ByteDataError, Message, MessageResponse};
use mers_libs::libs::data_bytes::list_type;
use mers_libs::libs::run_function;
use mers_libs::{ByteData, ByteDataA, ByteReader, RespondableMessage, VSingleType, VType};

fn read_data(bytes: Vec<u8>) -> Result<VDataEnum, ByteDataError> {
    VDataEnum::from_byte_data(&mut ByteReader::new(bytes))
}

#[test]
fn booleans_are_one_tag_byte() {
    assert_eq!(VDataEnum::Bool(false).as_byte_data_vec(), vec![b'b']);
    assert_eq!(VDataEnum::Bool(true).as_byte_data_vec(), vec![b'B']);
    assert_eq!(read_data(vec![b'B']).unwrap(), VDataEnum::Bool(true));
}

#[test]
fn an_int_is_its_tag_then_eight_big_endian_bytes() {
    assert_eq!(VDataEnum::Int(-2).as_byte_data_vec(), vec![b'i', 255, 255, 255, 255, 255, 255, 255, 254]);
    assert_eq!(read_data(vec![b'i', 0, 0, 0, 0, 0, 0, 1, 2]).unwrap(), VDataEnum::Int(258));
}

#[test]
fn a_float_is_its_tag_then_the_bits_of_the_double() {
    let bits = 1.5f64.to_bits();
    let bytes = VDataEnum::Float(bits).as_byte_data_vec();
    let mut expected = vec![b'f'];
    expected.extend_from_slice(&1.5f64.to_be_bytes());
    assert_eq!(bytes, expected);
    assert_eq!(read_data(bytes).unwrap(), VDataEnum::Float(bits));
}

#[test]
fn strings_tuples_and_enum_variants_roundtrip() {
    let v = VDataEnum::Tuple(vec![
        VDataEnum::String("hé".to_string()),
        VDataEnum::EnumVariant(3, Box::new(VDataEnum::Int(7))),
        VDataEnum::Tuple(vec![]),
    ]);
    let bytes = v.as_byte_data_vec();
    assert_eq!(bytes[0], b't');
    assert_eq!(&bytes[1..9], &[0, 0, 0, 0, 0, 0, 0, 3]);
    assert_eq!(&bytes[9..20], &[b'"', 0, 0, 0, 0, 0, 0, 0, 3, b'h', 0xc3]);
    let mut r = ByteReader::new(bytes.clone());
    assert_eq!(VDataEnum::from_byte_data(&mut r).unwrap(), v);
    assert_eq!(r.position(), bytes.len());
}

#[test]
fn a_list_read_back_has_the_types_of_its_elements_once_each() {
    let v = VDataEnum::List(
        VType::empty(),
        vec![VDataEnum::Int(1), VDataEnum::String("a".to_string()), VDataEnum::Int(2)],
    );
    let bytes = v.as_byte_data_vec();
    match read_data(bytes).unwrap() {
        VDataEnum::List(t, items) => {
            assert_eq!(t, VType { types: vec![VSingleType::Int, VSingleType::String] });
            assert_eq!(items.len(), 3);
        }
        other => panic!("not a list: {other:?}"),
    }
    assert_eq!(list_type(&vec![]), VType::empty());
}

#[test]
fn functions_threads_and_references_are_written_but_not_read() {
    assert_eq!(VDataEnum::Function(vec![]).as_byte_data_vec(), vec![b'F']);
    assert_eq!(VDataEnum::Thread(VSingleType::Int.to()).as_byte_data_vec(), vec![b'T']);
    assert_eq!(VDataEnum::Reference(Box::new(VDataEnum::Int(1))).as_byte_data_vec(), vec![b'R']);
    assert_eq!(read_data(vec![b'R']), Err(ByteDataError::InvalidData));
    assert_eq!(read_data(vec![b'x']), Err(ByteDataError::InvalidData));
}

#[test]
fn a_value_cut_short_is_an_unexpected_eof() {
    assert_eq!(read_data(vec![]), Err(ByteDataError::UnexpectedEof));
    assert_eq!(read_data(vec![b'i', 0, 0]), Err(ByteDataError::UnexpectedEof));
    assert_eq!(read_data(vec![b't', 0, 0, 0, 0, 0, 0, 0, 2, b'b']), Err(ByteDataError::UnexpectedEof));
}

#[test]
fn the_type_of_a_value() {
    let v = VDataEnum::Tuple(vec![
        VDataEnum::Int(1),
        VDataEnum::EnumVariant(2, Box::new(VDataEnum::Bool(true))),
        VDataEnum::Reference(Box::new(VDataEnum::String(String::new()))),
    ]);
    assert_eq!(
        v.out_single(),
        VSingleType::Tuple(vec![
            VSingleType::Int.to(),
            VSingleType::EnumVariant(2, VSingleType::Bool.to()).to(),
            VSingleType::Reference(Box::new(VSingleType::String)).to(),
        ])
    );
    assert_eq!(VDataEnum::List(VSingleType::Int.to(), vec![]).out(), VSingleType::List(VSingleType::Int.to()).to());
}

#[test]
fn a_function_call_message_roundtrips() {
    let m = run_function::Message { function_id: 5, args: vec![VDataEnum::Int(1), VDataEnum::Bool(false)] };
    let bytes = m.as_byte_data_vec();
    assert_eq!(&bytes[0..8], &[0, 0, 0, 0, 0, 0, 0, 5]);
    assert_eq!(&bytes[8..16], &[0, 0, 0, 0, 0, 0, 0, 2]);
    assert_eq!(run_function::Message::from_byte_data(&mut ByteReader::new(bytes.clone())).unwrap(), m);
    let mut general = vec![0, 0, 0, 0];
    general.extend_from_slice(&bytes);
    assert_eq!(Message::from_byte_data(&mut ByteReader::new(general)).unwrap(), Message::RunFunction(m));
    assert_eq!(
        Message::from_byte_data(&mut ByteReader::new(vec![0, 0, 0, 1])),
        Err(ByteDataError::InvalidData)
    );
}

#[test]
fn function_calls_and_their_responses_are_of_kind_zero() {
    assert_eq!(run_function::Message::messagetype_id(), 0);
    assert_eq!(run_function::Response::messagetype_id(), 0);
    let m = run_function::Message { function_id: 1, args: vec![] };
    assert_eq!(m.msgtype_id(), 0);
    let r = m.respond(VDataEnum::String("ok".to_string()));
    assert_eq!(r, run_function::Response { result: VDataEnum::String("ok".to_string()) });
    let bytes = r.as_byte_data_vec();
    assert_eq!(run_function::Response::from_byte_data(&mut ByteReader::new(bytes)).unwrap(), r);
}

#[test]
fn custom_types_are_found_at_any_depth() {
    assert!(!VSingleType::List(VSingleType::Int.to()).to().has_custom_type());
    assert!(VSingleType::CustomType(0).to().has_custom_type());
    assert!(VSingleType::Tuple(vec![VSingleType::Reference(Box::new(VSingleType::CustomTypeS("x".to_string()))).to()])
        .to()
        .has_custom_type());
}
