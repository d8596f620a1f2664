use mers_libs::lang::val_type::{VSingleType, VType};
use mers_libs::libs::comms::ByteDataError;
use mers_libs::{ByteData, ByteDataA, ByteReader};

fn read<T: ByteData>(bytes: Vec<u8>) -> Result<T, ByteDataError> {
    T::from_byte_data(&mut ByteReader::new(bytes))
}

#[test]
fn integers_are_big_endian() {
    assert_eq!(5u32.as_byte_data_vec(), vec![0, 0, 0, 5]);
    assert_eq!((-1i32).as_byte_data_vec(), vec![255, 255, 255, 255]);
    assert_eq!(258u64.as_byte_data_vec(), vec![0, 0, 0, 0, 0, 0, 1, 2]);
    assert_eq!((-2i64).as_byte_data_vec(), vec![255, 255, 255, 255, 255, 255, 255, 254]);
    assert_eq!(3usize.as_byte_data_vec(), vec![0, 0, 0, 0, 0, 0, 0, 3]);
    assert_eq!((-1isize).as_byte_data_vec(), vec![255; 8]);
    let mut one = vec![0u8; 15];
    one.push(1);
    assert_eq!(1u128.as_byte_data_vec(), one);
    assert_eq!((-1i128).as_byte_data_vec(), vec![255; 16]);
}

#[test]
fn integers_read_back() {
    assert_eq!(read::<u32>(vec![0, 0, 1, 0]), Ok(256));
    assert_eq!(read::<i32>(vec![255, 255, 255, 254]), Ok(-2));
    assert_eq!(read::<u64>(123456789u64.as_byte_data_vec()), Ok(123456789));
    assert_eq!(read::<i64>(i64::MIN.as_byte_data_vec()), Ok(i64::MIN));
    assert_eq!(read::<u128>(u128::MAX.as_byte_data_vec()), Ok(u128::MAX));
    assert_eq!(read::<i128>((-77i128).as_byte_data_vec()), Ok(-77));
    assert_eq!(read::<usize>(9usize.as_byte_data_vec()), Ok(9));
    assert_eq!(read::<isize>((-9isize).as_byte_data_vec()), Ok(-9));
}

#[test]
fn too_few_bytes_is_an_unexpected_eof() {
    assert_eq!(read::<u32>(vec![0, 0, 1]), Err(ByteDataError::UnexpectedEof));
    assert_eq!(read::<u64>(vec![]), Err(ByteDataError::UnexpectedEof));
    assert_eq!(read::<String>(vec![0, 0, 0]), Err(ByteDataError::UnexpectedEof));
    assert!(read::<Vec<u32>>(vec![0, 0, 0, 0, 0, 0, 0, 2, 0, 0, 0, 1]).is_err());
}

#[test]
fn strings_have_a_length_prefix() {
    let s = "hi".to_string();
    assert_eq!(s.as_byte_data_vec(), vec![0, 0, 0, 0, 0, 0, 0, 2, b'h', b'i']);
    assert_eq!(read::<String>(s.as_byte_data_vec()), Ok(s));
    let u = "grüße".to_string();
    assert_eq!(u.as_byte_data_vec().len(), 8 + 7);
    assert_eq!(read::<String>(u.as_byte_data_vec()), Ok(u));
    assert_eq!((&"x".to_string()).as_byte_data_vec(), vec![0, 0, 0, 0, 0, 0, 0, 1, b'x']);
}

#[test]
fn a_string_cut_short_is_an_unexpected_eof() {
    let bytes = vec![0, 0, 0, 0, 0, 0, 0, 3, b'a'];
    assert_eq!(read::<String>(bytes), Err(ByteDataError::UnexpectedEof));
}

#[test]
fn vectors_and_pairs() {
    let v: Vec<(u32, String)> = vec![(1, "a".to_string()), (2, String::new())];
    let bytes = v.as_byte_data_vec();
    assert_eq!(&bytes[0..8], &[0, 0, 0, 0, 0, 0, 0, 2]);
    assert_eq!(read::<Vec<(u32, String)>>(bytes), Ok(v));
    let empty: Vec<u64> = vec![];
    assert_eq!(empty.as_byte_data_vec(), vec![0; 8]);
}

#[test]
fn reading_advances_past_each_value() {
    let mut bytes = 7u32.as_byte_data_vec();
    bytes.extend("ok".to_string().as_byte_data_vec());
    let mut r = ByteReader::new(bytes);
    assert_eq!(u32::from_byte_data(&mut r), Ok(7));
    assert_eq!(r.position(), 4);
    assert_eq!(String::from_byte_data(&mut r), Ok("ok".to_string()));
    assert_eq!(r.position(), 14);
    assert_eq!(u32::from_byte_data(&mut r), Err(ByteDataError::UnexpectedEof));
}

#[test]
fn read_exact_takes_bytes_or_nothing() {
    let mut r = ByteReader::new(vec![1, 2, 3]);
    assert_eq!(r.read_exact(2), Some(vec![1, 2]));
    assert_eq!(r.read_exact(2), None);
    assert_eq!(r.position(), 3);
}

#[test]
fn single_types_start_with_a_tag() {
    assert_eq!(VSingleType::Bool.as_byte_data_vec(), vec![b'b']);
    assert_eq!(VSingleType::Int.as_byte_data_vec(), vec![b'i']);
    assert_eq!(VSingleType::Float.as_byte_data_vec(), vec![b'f']);
    assert_eq!(VSingleType::String.as_byte_data_vec(), vec![b'"']);
    assert_eq!(VSingleType::Reference(Box::new(VSingleType::Int)).as_byte_data_vec(), vec![b'R', b'i']);
    let mut tuple = vec![b't'];
    tuple.extend(vec![0u8; 8]);
    assert_eq!(VSingleType::Tuple(vec![]).as_byte_data_vec(), tuple);
    let e = vec![b'e', 0, 0, 0, 0, 0, 0, 0, 3, 0, 0, 0, 0, 0, 0, 0, 1, b'i'];
    assert_eq!(VSingleType::EnumVariant(3, VSingleType::Int.to()).as_byte_data_vec(), e.clone());
    assert_eq!(read::<VSingleType>(e), Ok(VSingleType::EnumVariant(3, VSingleType::Int.to())));
}

#[test]
fn types_read_back() {
    let t = VType {
        types: vec![
            VSingleType::Function(vec![(vec![VSingleType::Int, VSingleType::String], VSingleType::Bool.to())]),
            VSingleType::Thread(VSingleType::Float.to()),
            VSingleType::EnumVariantS("Ok".to_string(), VSingleType::List(VSingleType::Int.to()).to()),
        ],
    };
    assert_eq!(read::<VType>(t.as_byte_data_vec()), Ok(t));
    assert_eq!(read::<VSingleType>(vec![]), Err(ByteDataError::UnexpectedEof));
    assert_eq!(read::<VType>(vec![0, 0, 0, 0, 0, 0, 0, 1]), Err(ByteDataError::UnexpectedEof));
}

#[test]
fn five_tuples_as_in_the_library_handshake() {
    let init: (u32, u32, String, String, Vec<(String, Vec<(Vec<VType>, VType)>)>) = (
        1,
        2,
        "lib".to_string(),
        "does things".to_string(),
        vec![(
            "f".to_string(),
            vec![(vec![VSingleType::Int.to()], VSingleType::String.to())],
        )],
    );
    let bytes = init.as_byte_data_vec();
    assert_eq!(&bytes[0..8], &[0, 0, 0, 1, 0, 0, 0, 2]);
    assert_eq!(read::<(u32, u32, String, String, Vec<(String, Vec<(Vec<VType>, VType)>)>)>(bytes), Ok(init));
    assert_eq!(
        read::<(u32, u32, String, String, u64)>(vec![0, 0, 0, 1]),
        Err(ByteDataError::UnexpectedEof)
    );
}

#[test]
fn bytes_that_encode_no_value_are_invalid_data() {
    assert_eq!(read::<VSingleType>(vec![b'?']), Err(ByteDataError::InvalidData));
    assert_eq!(read::<String>(vec![0, 0, 0, 0, 0, 0, 0, 1, 0xff]), Err(ByteDataError::InvalidData));
    assert_eq!(
        read::<VType>(vec![0, 0, 0, 0, 0, 0, 0, 2, b'i', b'x']),
        Err(ByteDataError::InvalidData)
    );
}
