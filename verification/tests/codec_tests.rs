use xpc::codec::Value;
use xpc::codec::decode;
use xpc::codec::encode;
use xpc::error::ConnectionError;

fn text(s: &str) -> Value {
    Value::Text(s.as_bytes().to_vec())
}

fn ping() -> Value {
    Value::Dict(vec![(b"op".to_vec(), text("ping"))])
}

fn assert_round_trip(v: Value) {
    let bytes = encode(&v);
    let back = decode(&bytes).expect("a value the library encoded must decode");
    assert_eq!(back, v);
}

#[test]
fn round_trip_scalars() {
    assert_round_trip(Value::Null);
    assert_round_trip(Value::Bool(true));
    assert_round_trip(Value::Bool(false));
    assert_round_trip(Value::Number(0));
    assert_round_trip(Value::Number(1));
    assert_round_trip(Value::Number(-1));
    assert_round_trip(Value::Number(321));
    assert_round_trip(Value::Number(i64::MAX));
    assert_round_trip(Value::Number(i64::MIN));
}

#[test]
fn round_trip_text() {
    assert_round_trip(text(""));
    assert_round_trip(text("hello"));
    assert_round_trip(Value::Text(vec![0, 255, 59, 45, 110]));
}

#[test]
fn round_trip_containers() {
    assert_round_trip(Value::Array(vec![]));
    assert_round_trip(Value::Array(vec![Value::Null, Value::Bool(true), Value::Number(-7)]));
    assert_round_trip(Value::Array(vec![Value::Array(vec![Value::Array(vec![text("deep")])])]));
    assert_round_trip(Value::Dict(vec![]));
    assert_round_trip(ping());
    assert_round_trip(Value::Dict(vec![
        (b"a".to_vec(), Value::Number(1)),
        (b"".to_vec(), Value::Array(vec![Value::Null])),
        (b"a".to_vec(), Value::Number(2)),
    ]));
}

#[test]
fn exact_wire_bytes() {
    assert_eq!(encode(&Value::Null), b"n".to_vec());
    assert_eq!(encode(&Value::Bool(true)), b"t".to_vec());
    assert_eq!(encode(&Value::Bool(false)), b"f".to_vec());
    // digits are least significant first: 321 is written "123"
    assert_eq!(encode(&Value::Number(321)), b"i123;".to_vec());
    assert_eq!(encode(&Value::Number(-40)), b"i-04;".to_vec());
    assert_eq!(encode(&text("ab")), b"s2;ab".to_vec());
    assert_eq!(encode(&Value::Array(vec![Value::Null, Value::Bool(true)])), b"a2;nt".to_vec());
    assert_eq!(
        encode(&Value::Dict(vec![(b"k".to_vec(), Value::Null)])),
        b"d1;1;kn".to_vec()
    );
}

#[test]
fn decode_accepts_padded_digits() {
    assert_eq!(decode(&b"i0;".to_vec()).unwrap(), Value::Number(0));
    assert_eq!(decode(&b"i10;".to_vec()).unwrap(), Value::Number(1));
}

#[test]
fn decode_rejects_malformed_input() {
    let cases: Vec<&[u8]> = vec![
        b"",
        b"x",
        b"i",
        b"i12",
        b"i-;x",
        b"i99999999999999999999;",
        b"s5;ab",
        b"s1;",
        b"a2;n",
        b"d1;2;kn",
        b"nn",
        b"t ",
    ];
    for case in cases {
        match decode(&case.to_vec()) {
            Err(ConnectionError::DecodingFailed) => {}
            other => panic!("malformed input must fail decoding, got {:?}", other),
        }
    }
}
