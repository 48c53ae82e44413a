use vstd::prelude::*;
use vstd::string::*;
use vstd::utf8::*;

use crate::value::{Value, ValueView};

verus! {

/// The declared return type of a native function: it selects how the raw
/// result of a call is read back.
#[derive(Debug, Clone, Copy, PartialEq, Eq, Structural)]
pub enum ReturnTag {
    Num,
    Str,
    Void,
}

/// Errors at the native boundary. `Unsupported` is the one recoverable kind;
/// the others signal a malformed native declaration.
#[derive(Debug, Clone, PartialEq)]
pub enum FfiError {
    /// The declared return type names no known tag.
    UnknownTag(String),
    /// A string result was not well-formed UTF-8.
    InvalidUtf8,
    /// The raw read handed in does not have the shape the tag calls for.
    BadRead,
    /// A string argument holds a zero byte before its end.
    InteriorNul,
    /// The value has no native representation.
    Unsupported(Value),
}

impl FfiError {
    pub open spec fn spec_is_fatal(&self) -> bool {
        !(self is Unsupported)
    }

    /// Whether this error must abort the evaluation rather than surface as
    /// an ordinary failure.
    pub fn is_fatal(&self) -> (r: bool)
        ensures
            r == self.spec_is_fatal(),
    {
        match self {
            FfiError::Unsupported(_) => false,
            _ => true,
        }
    }
}

/// What the caller read at the raw result pointer of a native call.
#[derive(Debug, Clone, PartialEq)]
pub enum NativeRead {
    /// The pointer was null, or nothing was read.
    Null,
    /// The eight bytes at the pointer, as the bit pattern of a double.
    Word(u64),
    /// The bytes at the pointer up to, not including, the first zero byte.
    Text(Vec<u8>),
}

/// A value made ready to be passed to a native call.
#[derive(Debug, Clone, PartialEq)]
pub enum NativeArg {
    /// A register-sized argument: the bit pattern of a number, passed as is.
    Word(u64),
    /// A zero-terminated byte buffer to be copied into native memory.
    Buffer(Vec<u8>),
}

pub open spec fn tag_of(name: Seq<char>) -> Option<ReturnTag> {
    if name == seq!['n', 'u', 'm'] {
        Some(ReturnTag::Num)
    } else if name == seq!['s', 't', 'r'] {
        Some(ReturnTag::Str)
    } else if name == seq!['v', 'o', 'i', 'd'] {
        Some(ReturnTag::Void)
    } else {
        None
    }
}

/// The value a raw read stands for under a given return type.
pub open spec fn decoded(tag: ReturnTag, raw: NativeRead) -> Result<ValueView, FfiError> {
    match tag {
        ReturnTag::Void => Ok(ValueView::Nil),
        ReturnTag::Num => match raw {
            NativeRead::Null => Ok(ValueView::Nil),
            NativeRead::Word(b) => Ok(ValueView::Num(b)),
            NativeRead::Text(_) => Err(FfiError::BadRead),
        },
        ReturnTag::Str => match raw {
            NativeRead::Text(b) => if valid_utf8(b@) {
                Ok(ValueView::Str(decode_utf8(b@)))
            } else {
                Err(FfiError::InvalidUtf8)
            },
            _ => Err(FfiError::BadRead),
        },
    }
}

pub open spec fn result_view(r: Result<Value, FfiError>) -> Result<ValueView, FfiError> {
    match r {
        Ok(v) => Ok(v@),
        Err(e) => Err(e),
    }
}

/// Bytes with one trailing zero byte removed, if there is one.
pub open spec fn strip_nul(b: Seq<u8>) -> Seq<u8> {
    if b.len() > 0 && b.last() == 0 {
        b.drop_last()
    } else {
        b
    }
}

/// The content bytes of a string as it is handed to native code.
pub open spec fn c_content(s: Seq<char>) -> Seq<u8> {
    strip_nul(encode_utf8(s))
}

/// Relies on `String::from_utf8`: it succeeds exactly on well-formed UTF-8,
/// and the string it returns holds the given bytes.
#[verifier::external_body]
fn string_from_utf8(bytes: Vec<u8>) -> (r: Option<String>)
    ensures
        r.is_some() <==> valid_utf8(bytes@),
        r matches Some(s) ==> encode_utf8(s@) == bytes@,
{
    String::from_utf8(bytes).ok()
}

impl ReturnTag {
    /// Reads a declared return type by its name.
    pub fn parse(name: &str) -> (r: Result<ReturnTag, FfiError>)
        ensures
            match tag_of(name@) {
                Some(t) => r == Ok::<ReturnTag, FfiError>(t),
                None => r matches Err(FfiError::UnknownTag(n)) && n@ == name@,
            },
    {
        let n = name.unicode_len();
        if n == 3 {
            let c0 = name.get_char(0);
            let c1 = name.get_char(1);
            let c2 = name.get_char(2);
            if c0 == 'n' && c1 == 'u' && c2 == 'm' {
                assert(name@ =~= seq!['n', 'u', 'm']);
                return Ok(ReturnTag::Num);
            }
            if c0 == 's' && c1 == 't' && c2 == 'r' {
                assert(name@ =~= seq!['s', 't', 'r']);
                return Ok(ReturnTag::Str);
            }
            assert(name@ != seq!['n', 'u', 'm']) by {
                if name@ == seq!['n', 'u', 'm'] {
                    assert(name@[0] == 'n' && name@[1] == 'u' && name@[2] == 'm');
                }
            }
            assert(name@ != seq!['s', 't', 'r']) by {
                if name@ == seq!['s', 't', 'r'] {
                    assert(name@[0] == 's' && name@[1] == 't' && name@[2] == 'r');
                }
            }
        } else if n == 4 {
            let c0 = name.get_char(0);
            let c1 = name.get_char(1);
            let c2 = name.get_char(2);
            let c3 = name.get_char(3);
            if c0 == 'v' && c1 == 'o' && c2 == 'i' && c3 == 'd' {
                assert(name@ =~= seq!['v', 'o', 'i', 'd']);
                return Ok(ReturnTag::Void);
            }
            assert(name@ != seq!['v', 'o', 'i', 'd']) by {
                if name@ == seq!['v', 'o', 'i', 'd'] {
                    assert(name@[0] == 'v' && name@[1] == 'o' && name@[2] == 'i' && name@[3] == 'd');
                }
            }
        }
        Err(FfiError::UnknownTag(name.to_owned()))
    }
}

/// Turns what was read at a native result pointer into a value, under a
/// return type already known.
pub fn decode(tag: ReturnTag, raw: NativeRead) -> (r: Result<Value, FfiError>)
    ensures
        result_view(r) == decoded(tag, raw),
{
    match tag {
        ReturnTag::Void => Ok(Value::Nil),
        ReturnTag::Num => match raw {
            NativeRead::Null => Ok(Value::Nil),
            NativeRead::Word(b) => Ok(Value::Num(b)),
            NativeRead::Text(_) => Err(FfiError::BadRead),
        },
        ReturnTag::Str => match raw {
            NativeRead::Text(b) => {
                match string_from_utf8(b) {
                    Some(s) => {
                        proof {
                            encode_utf8_decode_utf8(s@);
                        }
                        Ok(Value::Str(s))
                    },
                    None => Err(FfiError::InvalidUtf8),
                }
            },
            _ => Err(FfiError::BadRead),
        },
    }
}

/// Turns the raw result of a native call into a value, as the declared
/// return type `fun_ty` says: `"num"` reads a double (a null pointer gives
/// `Nil`), `"str"` reads UTF-8 text, `"void"` gives `Nil` whatever was read.
pub fn c_ptr_to_cont(raw: NativeRead, fun_ty: &str) -> (r: Result<Value, FfiError>)
    ensures
        match tag_of(fun_ty@) {
            Some(t) => result_view(r) == decoded(t, raw),
            None => r matches Err(FfiError::UnknownTag(n)) && n@ == fun_ty@,
        },
{
    match ReturnTag::parse(fun_ty) {
        Ok(tag) => decode(tag, raw),
        Err(e) => Err(e),
    }
}

/// Makes a value ready to be passed to a native call. A number is passed
/// as its bit pattern itself; a string, with one trailing zero byte removed
/// if present, becomes a zero-terminated buffer; other values have no
/// native form, a recoverable error. A string that still holds a zero byte
/// cannot be handed over as a C string: that is reported as the fatal
/// `InteriorNul` through the same result, so that both severities travel
/// one channel and the caller decides to abort.
pub fn to_c_ptr(cont: &Value) -> (r: Result<NativeArg, FfiError>)
    ensures
        match cont@ {
            ValueView::Num(b) => r matches Ok(NativeArg::Word(w)) && w == b,
            ValueView::Str(s) => if c_content(s).contains(0u8) {
                r matches Err(FfiError::InteriorNul)
            } else {
                r matches Ok(NativeArg::Buffer(buf)) && buf@ == c_content(s).push(0u8)
            },
            _ => r matches Err(FfiError::Unsupported(v)) && v@ == cont@,
        },
{
    match cont {
        Value::Num(b) => Ok(NativeArg::Word(*b)),
        Value::Str(s) => {
            let bytes = s.as_str().as_bytes();
            let n = bytes.len();
            let end: usize = if n > 0 && bytes[n - 1] == 0 {
                n - 1
            } else {
                n
            };
            let ghost content = c_content(s@);
            assert(content =~= bytes@.subrange(0, end as int));
            let mut buf: Vec<u8> = Vec::new();
            let mut i: usize = 0;
            while i < end
                invariant
                    end <= n == bytes@.len(),
                    content == bytes@.subrange(0, end as int),
                    content == c_content(s@),
                    cont@ == ValueView::Str(s@),
                    i <= end,
                    buf@ == content.subrange(0, i as int),
                    forall|j: int| 0 <= j < i ==> content[j] != 0,
                decreases end - i,
            {
                if bytes[i] == 0 {
                    assert(content[i as int] == 0);
                    assert(content.contains(0u8));
                    return Err(FfiError::InteriorNul);
                }
                buf.push(bytes[i]);
                i = i + 1;
                assert(buf@ =~= content.subrange(0, i as int));
            }
            assert(!content.contains(0u8));
            assert(buf@ =~= content);
            buf.push(0);
            Ok(NativeArg::Buffer(buf))
        },
        _ => Err(FfiError::Unsupported(cont.duplicate())),
    }
}

/// No byte of the UTF-8 encoding of a nonzero scalar is zero.
proof fn lemma_scalar_bytes_nonzero(c: u32)
    requires
        c != 0,
        is_scalar(c),
    ensures
        !encode_scalar(c).contains(0u8),
{
    if has_width_1_encoding(c) {
        assert((c & 0x7F) as u8 != 0) by (bit_vector)
            requires
                0 < c <= 0x7F,
        ;
    } else if has_width_2_encoding(c) {
        assert(0xC0 | ((c >> 6) & 0x1F) as u8 != 0) by (bit_vector);
        assert(0x80 | (c & 0x3F) as u8 != 0) by (bit_vector);
    } else if has_width_3_encoding(c) {
        assert(0xE0 | ((c >> 12) & 0x0F) as u8 != 0) by (bit_vector);
        assert(0x80 | ((c >> 6) & 0x3F) as u8 != 0) by (bit_vector);
        assert(0x80 | (c & 0x3F) as u8 != 0) by (bit_vector);
    } else {
        assert(0xF0 | ((c >> 18) & 0x7) as u8 != 0) by (bit_vector);
        assert(0x80 | ((c >> 12) & 0x3F) as u8 != 0) by (bit_vector);
        assert(0x80 | ((c >> 6) & 0x3F) as u8 != 0) by (bit_vector);
        assert(0x80 | (c & 0x3F) as u8 != 0) by (bit_vector);
    }
}

/// The UTF-8 encoding of characters none of which is zero has no zero byte.
proof fn lemma_encoding_nonzero(s: Seq<char>)
    requires
        !s.contains('\0'),
    ensures
        !encode_utf8(s).contains(0u8),
    decreases s.len(),
{
    if s.len() > 0 {
        assert(s[0] != '\0');
        char_is_scalar(s[0]);
        if s[0] as u32 == 0 {
            char_u32_cast(s[0], 0u32);
            assert((0u32 as char) == '\0');
        }
        lemma_scalar_bytes_nonzero(s[0] as u32);
        assert(!s.drop_first().contains('\0')) by {
            if s.drop_first().contains('\0') {
                let j = choose|j: int| 0 <= j < s.drop_first().len() && s.drop_first()[j] == '\0';
                assert(s[j + 1] == '\0');
            }
        }
        lemma_encoding_nonzero(s.drop_first());
        let head = encode_scalar(s[0] as u32);
        let tail = encode_utf8(s.drop_first());
        assert(encode_utf8(s) == head + tail);
        if (head + tail).contains(0u8) {
            let j = choose|j: int| 0 <= j < (head + tail).len() && (head + tail)[j] == 0u8;
            if j < head.len() {
                assert(head[j] == 0u8);
            } else {
                assert(tail[j - head.len()] == 0u8);
            }
        }
    }
}

/// A string with no zero character survives the trip through native memory:
/// it is encoded as its UTF-8 bytes and one terminator, the terminator is the
/// buffer's first zero byte, and the bytes before it (`read`), read back
/// under `"str"`, give the same string.
pub proof fn lemma_string_round_trip(s: Seq<char>, read: Vec<u8>)
    requires
        !s.contains('\0'),
        read@ == c_content(s),
    ensures
        !c_content(s).contains(0u8),
        c_content(s) == encode_utf8(s),
        c_content(s).push(0u8).last() == 0u8,
        decoded(ReturnTag::Str, NativeRead::Text(read)) == Ok::<ValueView, FfiError>(
            ValueView::Str(s),
        ),
{
    lemma_encoding_nonzero(s);
    let b = encode_utf8(s);
    if b.len() > 0 {
        assert(b.contains(b.last()));
    }
    assert(c_content(s) == b);
    encode_utf8_valid_utf8(s);
    encode_utf8_decode_utf8(s);
}

/// Text that is not well-formed UTF-8, read under `"str"`, never becomes a
/// value, not even a partial one: it gives `InvalidUtf8`, a fatal error.
pub proof fn lemma_invalid_utf8_is_fatal(read: Vec<u8>)
    requires
        !valid_utf8(read@),
    ensures
        decoded(ReturnTag::Str, NativeRead::Text(read)) == Err::<ValueView, FfiError>(
            FfiError::InvalidUtf8,
        ),
        FfiError::InvalidUtf8.spec_is_fatal(),
{
}

} // verus!
