use yex::ffi::{c_ptr_to_cont, decode, to_c_ptr, FfiError, NativeArg, NativeRead, ReturnTag};
use yex::value::{nil, num, Value};

fn text(s: &str) -> NativeRead {
    NativeRead::Text(s.as_bytes().to_vec())
}

#[test]
fn num_read_keeps_bits() {
    for d in [0.0f64, -0.0, 1.5, -2.25, 1e300, f64::MIN_POSITIVE, 3.141592653589793] {
        let r = c_ptr_to_cont(NativeRead::Word(d.to_bits()), "num").unwrap();
        match r {
            Value::Num(bits) => assert_eq!(f64::from_bits(bits).to_bits(), d.to_bits()),
            other => panic!("expected a number, got {:?}", other),
        }
    }
}

#[test]
fn null_num_is_nil() {
    assert_eq!(c_ptr_to_cont(NativeRead::Null, "num"), Ok(Value::Nil));
}

#[test]
fn str_read_hello() {
    assert_eq!(c_ptr_to_cont(text("hello"), "str"), Ok(Value::Str("hello".to_string())));
}

#[test]
fn str_read_multibyte() {
    assert_eq!(c_ptr_to_cont(text("héllo→𝄞"), "str"), Ok(Value::Str("héllo→𝄞".to_string())));
}

#[test]
fn str_read_invalid_utf8_is_fatal() {
    let r = c_ptr_to_cont(NativeRead::Text(vec![0x68, 0xff, 0x69]), "str");
    assert_eq!(r, Err(FfiError::InvalidUtf8));
    assert!(r.unwrap_err().is_fatal());
    let surrogate = c_ptr_to_cont(NativeRead::Text(vec![0xed, 0xa0, 0x80]), "str");
    assert_eq!(surrogate, Err(FfiError::InvalidUtf8));
}

#[test]
fn void_is_nil_whatever_was_read() {
    assert_eq!(c_ptr_to_cont(NativeRead::Null, "void"), Ok(Value::Nil));
    assert_eq!(c_ptr_to_cont(NativeRead::Word(0xdead_beef), "void"), Ok(Value::Nil));
    assert_eq!(c_ptr_to_cont(NativeRead::Text(vec![0xff]), "void"), Ok(Value::Nil));
}

#[test]
fn unknown_tag_is_fatal() {
    let r = c_ptr_to_cont(NativeRead::Null, "bool");
    assert_eq!(r, Err(FfiError::UnknownTag("bool".to_string())));
    assert!(r.unwrap_err().is_fatal());
    assert_eq!(ReturnTag::parse("nu"), Err(FfiError::UnknownTag("nu".to_string())));
    assert_eq!(ReturnTag::parse("voids"), Err(FfiError::UnknownTag("voids".to_string())));
    assert_eq!(ReturnTag::parse(""), Err(FfiError::UnknownTag(String::new())));
}

#[test]
fn tags_parse() {
    assert_eq!(ReturnTag::parse("num"), Ok(ReturnTag::Num));
    assert_eq!(ReturnTag::parse("str"), Ok(ReturnTag::Str));
    assert_eq!(ReturnTag::parse("void"), Ok(ReturnTag::Void));
}

#[test]
fn mismatched_read_is_refused() {
    assert_eq!(decode(ReturnTag::Num, text("x")), Err(FfiError::BadRead));
    assert_eq!(decode(ReturnTag::Str, NativeRead::Null), Err(FfiError::BadRead));
    assert_eq!(decode(ReturnTag::Str, NativeRead::Word(1)), Err(FfiError::BadRead));
}

#[test]
fn encode_abc_round_trip() {
    let arg = to_c_ptr(&Value::Str("abc".to_string())).unwrap();
    let buf = match arg {
        NativeArg::Buffer(b) => b,
        other => panic!("expected a buffer, got {:?}", other),
    };
    assert_eq!(buf, vec![b'a', b'b', b'c', 0]);
    let content = buf[..buf.len() - 1].to_vec();
    assert_eq!(content.len(), 3);
    assert_eq!(
        c_ptr_to_cont(NativeRead::Text(content), "str"),
        Ok(Value::Str("abc".to_string()))
    );
}

#[test]
fn encode_strips_one_trailing_nul() {
    let arg = to_c_ptr(&Value::Str("ab\0".to_string())).unwrap();
    assert_eq!(arg, NativeArg::Buffer(vec![b'a', b'b', 0]));
    let empty = to_c_ptr(&Value::Str(String::new())).unwrap();
    assert_eq!(empty, NativeArg::Buffer(vec![0]));
    let only_nul = to_c_ptr(&Value::Str("\0".to_string())).unwrap();
    assert_eq!(only_nul, NativeArg::Buffer(vec![0]));
}

#[test]
fn encode_interior_nul_is_refused() {
    let r = to_c_ptr(&Value::Str("a\0b".to_string()));
    assert_eq!(r, Err(FfiError::InteriorNul));
    assert_eq!(to_c_ptr(&Value::Str("a\0\0".to_string())), Err(FfiError::InteriorNul));
}

#[test]
fn encode_multibyte_bytes() {
    let arg = to_c_ptr(&Value::Str("é".to_string())).unwrap();
    assert_eq!(arg, NativeArg::Buffer(vec![0xc3, 0xa9, 0]));
}

#[test]
fn encode_num_passes_bits() {
    let d = 2.5f64;
    assert_eq!(to_c_ptr(&num(d.to_bits())), Ok(NativeArg::Word(d.to_bits())));
}

#[test]
fn encode_other_is_recoverable() {
    for v in [nil(), Value::Bool(true), Value::Sym("x".to_string())] {
        let r = to_c_ptr(&v);
        assert_eq!(r, Err(FfiError::Unsupported(v.clone())));
        assert!(!r.unwrap_err().is_fatal());
    }
}

#[test]
fn duplicate_keeps_content() {
    let v = Value::Sym("sym".to_string());
    assert_eq!(v.duplicate(), v);
}
