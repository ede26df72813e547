use modbus_mapping::codec::{Decode, Encode};
use modbus_mapping::entry::DataType;
use modbus_mapping::value::Value;

#[test]
fn encode_be_produces_big_endian_words() {
    assert_eq!(0xABCDu16.to_be_words(), vec![0xABCD]);
    assert_eq!(0x12345678u32.to_be_words(), vec![0x1234, 0x5678]);
    assert_eq!(
        0x0123456789ABCDEFu64.to_be_words(),
        vec![0x0123, 0x4567, 0x89AB, 0xCDEF]
    );
    assert_eq!((-2i16).to_be_words(), vec![0xFFFE]);
    assert_eq!((-2i32).to_be_words(), vec![0xFFFF, 0xFFFE]);
    assert_eq!((-2i64).to_be_words(), vec![0xFFFF, 0xFFFF, 0xFFFF, 0xFFFE]);
}

#[test]
fn decode_be_is_the_inverse_of_encode_be() {
    for x in [0u16, 1, 0x7FFF, 0xFFFF] {
        assert_eq!(u16::from_be_words(&x.to_be_words()).unwrap(), x);
    }
    for x in [0u32, 1, 0xDEADBEEF, u32::MAX] {
        assert_eq!(u32::from_be_words(&x.to_be_words()).unwrap(), x);
    }
    for x in [0u64, 1, 0x0123456789ABCDEF, u64::MAX] {
        assert_eq!(u64::from_be_words(&x.to_be_words()).unwrap(), x);
    }
    for x in [0i16, 1, -1, i16::MIN, i16::MAX] {
        assert_eq!(i16::from_be_words(&x.to_be_words()).unwrap(), x);
    }
    for x in [0i32, 1, -1, i32::MIN, i32::MAX] {
        assert_eq!(i32::from_be_words(&x.to_be_words()).unwrap(), x);
    }
    for x in [0i64, 1, -1, i64::MIN, i64::MAX] {
        assert_eq!(i64::from_be_words(&x.to_be_words()).unwrap(), x);
    }
}

#[test]
fn float_bit_patterns_round_trip() {
    for x in [0.0f32, 1.5, -273.15, f32::MAX] {
        let encoded = Value::F32(x.to_bits()).encode_be();
        match Value::decode_be(DataType::F32, &encoded).unwrap() {
            Value::F32(bits) => assert_eq!(f32::from_bits(bits), x),
            other => panic!("unexpected value {:?}", other),
        }
    }
    for x in [0.0f64, 1.5, -273.15, f64::MAX] {
        let encoded = Value::F64(x.to_bits()).encode_be();
        match Value::decode_be(DataType::F64, &encoded).unwrap() {
            Value::F64(bits) => assert_eq!(f64::from_bits(bits), x),
            other => panic!("unexpected value {:?}", other),
        }
    }
}

#[test]
fn float_words_follow_ieee_big_endian_layout() {
    // 1.0f32 is 0x3F800000: two big-endian words.
    assert_eq!(Value::F32(1.0f32.to_bits()).encode_be(), vec![0x3F80, 0x0000]);
    // 1.0f64 is 0x3FF0000000000000: four big-endian words.
    assert_eq!(
        Value::F64(1.0f64.to_bits()).encode_be(),
        vec![0x3FF0, 0x0000, 0x0000, 0x0000]
    );
}

#[test]
fn wrong_word_count_is_refused() {
    assert!(u16::from_be_words(&[]).is_err());
    assert!(u16::from_be_words(&[1, 2]).is_err());
    assert!(u32::from_be_words(&[1]).is_err());
    assert!(u32::from_be_words(&[1, 2, 3]).is_err());
    assert!(u64::from_be_words(&[1, 2, 3]).is_err());
    assert!(i16::from_be_words(&[1, 2]).is_err());
    assert!(i32::from_be_words(&[1]).is_err());
    assert!(i64::from_be_words(&[1, 2, 3, 4, 5]).is_err());
    assert!(Value::decode_be(DataType::F32, &[1]).is_err());
    assert!(Value::decode_be(DataType::F64, &[1, 2]).is_err());
    assert!(Value::decode_be(DataType::Raw(2), &[1, 2, 3]).is_err());
}

#[test]
fn value_codec_handles_every_data_type() {
    let cases = [
        (DataType::U16, Value::U16(0xBEEF)),
        (DataType::U32, Value::U32(0xDEADBEEF)),
        (DataType::U64, Value::U64(0x0123456789ABCDEF)),
        (DataType::I16, Value::I16(-7)),
        (DataType::I32, Value::I32(-70000)),
        (DataType::I64, Value::I64(-7_000_000_000)),
        (DataType::F32, Value::F32(2.5f32.to_bits())),
        (DataType::F64, Value::F64(2.5f64.to_bits())),
        (DataType::Raw(3), Value::Raw(vec![10, 20, 30])),
    ];
    for (ty, value) in cases {
        let encoded = value.clone().encode_be();
        assert_eq!(encoded.len() as u16, ty.word_size());
        let decoded = Value::decode_be(ty, &encoded).unwrap();
        assert_eq!(decoded, value);
    }
}

#[test]
fn raw_values_pass_through_unchanged() {
    let words = vec![0xAAAA, 0x5555, 0x0F0F];
    assert_eq!(Value::Raw(words.clone()).encode_be(), words);
    assert_eq!(
        Value::decode_be(DataType::Raw(3), &words).unwrap(),
        Value::Raw(words)
    );
}
