use flutter_engine::codec::{MethodCall, MethodCallResult, MethodCodec};
use flutter_engine::standard_codec::StandardMethodCodec;
use flutter_engine::standard_codec::{
    decode_envelope, decode_message, decode_method_call, encode_error_envelope, encode_message,
    encode_method_call, encode_result, encode_success_envelope, read_value, value_fits,
};
use flutter_engine::value::Value;

fn round_trip(v: Value) {
    let bytes = encode_message(&v);
    let back = decode_message(&bytes).expect("decodes");
    assert_eq!(format!("{:?}", back), format!("{:?}", v));
}

#[test]
fn round_trip_every_kind() {
    round_trip(Value::Null);
    round_trip(Value::Boolean(true));
    round_trip(Value::Boolean(false));
    round_trip(Value::I32(-7));
    round_trip(Value::I64(i64::MIN));
    round_trip(Value::F64(2.5f64.to_bits()));
    round_trip(Value::String("héllo ✓".to_string()));
    round_trip(Value::U8List(vec![0, 1, 255]));
    round_trip(Value::I32List(vec![1, -2, i32::MAX]));
    round_trip(Value::I64List(vec![i64::MAX, -1]));
    round_trip(Value::F64List(vec![1.0f64.to_bits(), (-0.5f64).to_bits()]));
    round_trip(Value::List(vec![
        Value::I32(1),
        Value::String("x".to_string()),
        Value::List(vec![Value::Null]),
    ]));
    round_trip(Value::Dict(vec![
        (Value::String("a".to_string()), Value::I64(5)),
        (Value::I32(2), Value::F64List(vec![3.0f64.to_bits()])),
    ]));
}

#[test]
fn round_trip_empty_and_long() {
    round_trip(Value::String(String::new()));
    round_trip(Value::List(vec![]));
    round_trip(Value::Dict(vec![]));
    round_trip(Value::U8List(vec![7u8; 300]));
    round_trip(Value::U8List(vec![9u8; 70000]));
    round_trip(Value::I64List(vec![3; 260]));
}

#[test]
fn exact_scalar_bytes() {
    assert_eq!(encode_message(&Value::Null), vec![0]);
    assert_eq!(encode_message(&Value::Boolean(true)), vec![1]);
    assert_eq!(encode_message(&Value::Boolean(false)), vec![2]);
    assert_eq!(encode_message(&Value::I32(1)), vec![3, 1, 0, 0, 0]);
    assert_eq!(encode_message(&Value::I32(-1)), vec![3, 255, 255, 255, 255]);
    assert_eq!(encode_message(&Value::I64(258)), vec![4, 2, 1, 0, 0, 0, 0, 0, 0]);
    assert_eq!(
        encode_message(&Value::String("hi".to_string())),
        vec![7, 2, b'h', b'i']
    );
}

#[test]
fn float_is_aligned_to_eight() {
    let bits = 1.0f64.to_bits();
    let mut expected = vec![6, 0, 0, 0, 0, 0, 0, 0];
    expected.extend_from_slice(&bits.to_le_bytes());
    assert_eq!(encode_message(&Value::F64(bits)), expected);
}

#[test]
fn typed_lists_are_aligned() {
    // tag, size 2, padding to offset 4, then the words
    assert_eq!(
        encode_message(&Value::I32List(vec![1, 2])),
        vec![9, 2, 0, 0, 1, 0, 0, 0, 2, 0, 0, 0]
    );
    let b = encode_message(&Value::I64List(vec![1]));
    assert_eq!(b, vec![10, 1, 0, 0, 0, 0, 0, 0, 1, 0, 0, 0, 0, 0, 0, 0]);
    // inside a list the offset counts from the start of the buffer
    let b = encode_message(&Value::List(vec![Value::I32List(vec![5])]));
    assert_eq!(b, vec![12, 1, 9, 1, 5, 0, 0, 0]);
}

#[test]
fn size_prefix_widths() {
    let b = encode_message(&Value::U8List(vec![0u8; 253]));
    assert_eq!(&b[..2], &[8, 253]);
    let b = encode_message(&Value::U8List(vec![0u8; 300]));
    assert_eq!(&b[..4], &[8, 254, 0x2c, 0x01]);
    let b = encode_message(&Value::U8List(vec![0u8; 70000]));
    assert_eq!(&b[..6], &[8, 255, 0x70, 0x11, 0x01, 0x00]);
}

#[test]
fn malformed_input_decodes_to_none() {
    assert!(decode_message(&[]).is_none());
    assert!(decode_message(&[99]).is_none());
    assert!(decode_message(&[3, 1, 0]).is_none());
    assert!(decode_message(&[0, 0]).is_none());
    assert!(decode_message(&[7, 5, b'a']).is_none());
    assert!(decode_message(&[12, 2, 0]).is_none());
}

#[test]
fn invalid_utf8_is_refused() {
    assert!(decode_message(&[7, 2, 0xc3, 0x28]).is_none());
    let v = decode_message(&[7, 2, 0xc3, 0xa9]).expect("valid");
    match v {
        Value::String(s) => assert_eq!(s, "é"),
        other => panic!("unexpected {:?}", other),
    }
}

#[test]
fn read_value_reports_end_offset() {
    let r = read_value(&[0, 3, 1, 0, 0, 0, 2], 1).expect("reads");
    assert_eq!(r.1, 6);
    assert!(matches!(r.0, Value::I32(1)));
}

#[test]
fn method_call_bytes_and_round_trip() {
    let call = MethodCall { method: "foo".to_string(), args: Value::Null };
    let b = encode_method_call(&call);
    assert_eq!(b, vec![7, 3, b'f', b'o', b'o', 0]);
    let back = decode_method_call(&b).expect("decodes");
    assert_eq!(back.method, "foo");
    assert!(matches!(back.args, Value::Null));
    assert!(decode_method_call(&[3, 1, 0, 0, 0, 0]).is_none());
    assert!(decode_method_call(&[7, 1, b'a', 0, 0]).is_none());
}

#[test]
fn success_envelope() {
    let b = encode_success_envelope(&Value::I32(4));
    assert_eq!(b, vec![0, 3, 4, 0, 0, 0]);
    match decode_envelope(&b) {
        Some(MethodCallResult::Success(Value::I32(4))) => {}
        other => panic!("unexpected {:?}", other),
    }
}

#[test]
fn declined_and_failed_are_distinct() {
    let declined = encode_result(&MethodCallResult::NotImplemented);
    assert!(declined.is_empty());
    assert!(matches!(
        decode_envelope(&declined),
        Some(MethodCallResult::NotImplemented)
    ));
    let failed = encode_error_envelope(
        &"E1".to_string(),
        &"bad arg".to_string(),
        &Value::I32(9),
    );
    assert_eq!(&failed[..4], &[1, 7, 2, b'E']);
    match decode_envelope(&failed) {
        Some(MethodCallResult::Error { code, message, details }) => {
            assert_eq!(code, "E1");
            assert_eq!(message, "bad arg");
            assert!(matches!(details, Value::I32(9)));
        }
        other => panic!("unexpected {:?}", other),
    }
    assert_ne!(declined, failed);
}

#[test]
fn malformed_envelopes() {
    assert!(decode_envelope(&[2]).is_none());
    assert!(decode_envelope(&[0]).is_none());
    assert!(decode_envelope(&[1, 3, 1, 0, 0, 0, 7, 0, 0]).is_none());
}

#[test]
fn fits_checks_lengths() {
    assert!(value_fits(&Value::List(vec![Value::String("a".to_string())])));
    assert!(value_fits(&Value::Dict(vec![(Value::Null, Value::U8List(vec![1]))])));
}

#[test]
fn standard_codec_through_the_trait() {
    let codec = StandardMethodCodec;
    let call = MethodCall { method: "m".to_string(), args: Value::Boolean(true) };
    let b = codec.encode_method_call(&call);
    assert_eq!(b, vec![7, 1, b'm', 1]);
    assert_eq!(codec.decode_method_call(&b).unwrap().method, "m");
    let e = codec.encode_error_envelope(&"c".to_string(), &"".to_string(), &Value::Null);
    assert_eq!(e, vec![1, 7, 1, b'c', 7, 0, 0]);
    assert!(matches!(codec.decode_envelope(&e), Some(MethodCallResult::Error { .. })));
    assert_eq!(codec.encode_success_envelope(&Value::Null), vec![0, 0]);
}

#[test]
fn equal_keys_are_kept_in_order() {
    let v = Value::Dict(vec![
        (Value::String("k".to_string()), Value::I32(1)),
        (Value::String("k".to_string()), Value::I32(2)),
    ]);
    let b = encode_message(&v);
    assert_eq!(b, vec![13, 2, 7, 1, b'k', 3, 1, 0, 0, 0, 7, 1, b'k', 3, 2, 0, 0, 0]);
    round_trip(v);
}

#[test]
fn size_prefix_boundaries() {
    let b = encode_message(&Value::U8List(vec![0u8; 254]));
    assert_eq!(&b[..4], &[8, 254, 254, 0]);
    let b = encode_message(&Value::U8List(vec![0u8; 65535]));
    assert_eq!(&b[..4], &[8, 254, 0xff, 0xff]);
    assert_eq!(b.len(), 4 + 65535);
    let b = encode_message(&Value::U8List(vec![0u8; 65536]));
    assert_eq!(&b[..6], &[8, 255, 0, 0, 1, 0]);
    assert_eq!(b.len(), 6 + 65536);
    round_trip(Value::U8List(vec![1u8; 65536]));
}
