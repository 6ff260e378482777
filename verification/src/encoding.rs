//! Primary-key encoding: a type tag followed by the value's bytes, integers
//! in big-endian order.

use vstd::prelude::*;
use vstd::utf8::{encode_utf8, decode_utf8, valid_utf8};
use crate::types::{Value, SValue, FloatOps};
use crate::strutil::{push_str, push_char, push_u64_decimal, nat_decimal, int_decimal, i64_to_string};

verus! {

broadcast use vstd::utf8::encode_utf8_decode_utf8, vstd::utf8::encode_utf8_valid_utf8;

/// The eight big-endian bytes of a 64-bit word.
pub open spec fn be_bytes(u: u64) -> Seq<u8> {
    seq![
        (u >> 56u64) as u8, (u >> 48u64) as u8, (u >> 40u64) as u8, (u >> 32u64) as u8,
        (u >> 24u64) as u8, (u >> 16u64) as u8, (u >> 8u64) as u8, u as u8,
    ]
}

/// The 64-bit word whose big-endian bytes are `b[0..8]`.
pub open spec fn be_word(b0: u8, b1: u8, b2: u8, b3: u8, b4: u8, b5: u8, b6: u8, b7: u8) -> u64 {
    ((b0 as u64) << 56u64) | ((b1 as u64) << 48u64) | ((b2 as u64) << 40u64) | ((b3 as u64) << 32u64)
        | ((b4 as u64) << 24u64) | ((b5 as u64) << 16u64) | ((b6 as u64) << 8u64) | (b7 as u64)
}

proof fn lemma_be_roundtrip(u: u64)
    ensures
        be_word((u >> 56u64) as u8, (u >> 48u64) as u8, (u >> 40u64) as u8, (u >> 32u64) as u8,
            (u >> 24u64) as u8, (u >> 16u64) as u8, (u >> 8u64) as u8, u as u8) == u,
{
    assert(((((u >> 56u64) as u8) as u64) << 56u64) | ((((u >> 48u64) as u8) as u64) << 48u64)
        | ((((u >> 40u64) as u8) as u64) << 40u64) | ((((u >> 32u64) as u8) as u64) << 32u64)
        | ((((u >> 24u64) as u8) as u64) << 24u64) | ((((u >> 16u64) as u8) as u64) << 16u64)
        | ((((u >> 8u64) as u8) as u64) << 8u64) | ((u as u8) as u64) == u) by (bit_vector);
}

/// The `Debug` text of a list of bytes: `[1, 2, 3]`.
pub open spec fn bytes_debug(b: Seq<u8>) -> Seq<char> {
    "["@ + bytes_debug_items(b) + "]"@
}

/// The comma-separated decimal items of a list of bytes.
pub open spec fn bytes_debug_items(b: Seq<u8>) -> Seq<char>
    decreases b.len(),
{
    if b.len() == 0 {
        Seq::empty()
    } else if b.len() == 1 {
        nat_decimal(b[0] as nat)
    } else {
        bytes_debug_items(b.drop_last()) + ", "@ + nat_decimal(b.last() as nat)
    }
}

/// The `Debug` text of a non-float value, as the key encoding of the
/// remaining kinds of values uses it.
pub open spec fn value_debug(v: SValue) -> Seq<char> {
    match v {
        SValue::Blob(b) => "Blob("@ + bytes_debug(b) + ")"@,
        SValue::Boolean(x) => if x { "Boolean(true)"@ } else { "Boolean(false)"@ },
        SValue::Timestamp(t) => "Timestamp("@ + int_decimal(t as int) + ")"@,
        _ => Seq::empty(),
    }
}

/// The word an integer key is stored as: the integer offset by 2^63 (its
/// two's-complement bits with the sign bit flipped), so that the words, and
/// their big-endian bytes, order as the integers do.
pub open spec fn order_word(i: i64) -> u64 {
    (i as int + 0x8000_0000_0000_0000) as u64
}

/// The integer a stored word stands for.
pub open spec fn word_int(w: u64) -> i64 {
    (w as int - 0x8000_0000_0000_0000) as i64
}

/// Integer keys keep their order: a smaller integer has a smaller word.
pub proof fn lemma_integer_key_order(a: i64, b: i64)
    requires
        a < b,
    ensures
        order_word(a) < order_word(b),
        word_int(order_word(a)) == a,
{
}

/// Whether `x` comes before `y` in byte order: at the first place where
/// they differ, `x` has the smaller byte.
pub open spec fn bytes_before(x: Seq<u8>, y: Seq<u8>) -> bool {
    exists|j: int| 0 <= j < x.len() && j < y.len() && #[trigger] x[j] < y[j]
        && forall|i: int| 0 <= i < j ==> x[i] == y[i]
}

proof fn lemma_be_bytes_order(u: u64, v: u64)
    requires
        u < v,
    ensures
        bytes_before(be_bytes(u), be_bytes(v)),
{
    let x = be_bytes(u);
    let y = be_bytes(v);
    assert(
        (((u >> 56u64) as u8) < ((v >> 56u64) as u8))
        || (((u >> 56u64) as u8) == ((v >> 56u64) as u8) && ((u >> 48u64) as u8) < ((v >> 48u64) as u8))
        || (((u >> 56u64) as u8) == ((v >> 56u64) as u8) && ((u >> 48u64) as u8) == ((v >> 48u64) as u8) && ((u >> 40u64) as u8) < ((v >> 40u64) as u8))
        || (((u >> 56u64) as u8) == ((v >> 56u64) as u8) && ((u >> 48u64) as u8) == ((v >> 48u64) as u8) && ((u >> 40u64) as u8) == ((v >> 40u64) as u8) && ((u >> 32u64) as u8) < ((v >> 32u64) as u8))
        || (((u >> 56u64) as u8) == ((v >> 56u64) as u8) && ((u >> 48u64) as u8) == ((v >> 48u64) as u8) && ((u >> 40u64) as u8) == ((v >> 40u64) as u8) && ((u >> 32u64) as u8) == ((v >> 32u64) as u8) && ((u >> 24u64) as u8) < ((v >> 24u64) as u8))
        || (((u >> 56u64) as u8) == ((v >> 56u64) as u8) && ((u >> 48u64) as u8) == ((v >> 48u64) as u8) && ((u >> 40u64) as u8) == ((v >> 40u64) as u8) && ((u >> 32u64) as u8) == ((v >> 32u64) as u8) && ((u >> 24u64) as u8) == ((v >> 24u64) as u8) && ((u >> 16u64) as u8) < ((v >> 16u64) as u8))
        || (((u >> 56u64) as u8) == ((v >> 56u64) as u8) && ((u >> 48u64) as u8) == ((v >> 48u64) as u8) && ((u >> 40u64) as u8) == ((v >> 40u64) as u8) && ((u >> 32u64) as u8) == ((v >> 32u64) as u8) && ((u >> 24u64) as u8) == ((v >> 24u64) as u8) && ((u >> 16u64) as u8) == ((v >> 16u64) as u8) && ((u >> 8u64) as u8) < ((v >> 8u64) as u8))
        || (((u >> 56u64) as u8) == ((v >> 56u64) as u8) && ((u >> 48u64) as u8) == ((v >> 48u64) as u8) && ((u >> 40u64) as u8) == ((v >> 40u64) as u8) && ((u >> 32u64) as u8) == ((v >> 32u64) as u8) && ((u >> 24u64) as u8) == ((v >> 24u64) as u8) && ((u >> 16u64) as u8) == ((v >> 16u64) as u8) && ((u >> 8u64) as u8) == ((v >> 8u64) as u8) && (u as u8) < (v as u8))
    ) by (bit_vector)
        requires u < v;
    if x[0] < y[0] {
        assert(bytes_before(x, y));
    } else if x[1] < y[1] {
        assert(bytes_before(x, y));
    } else if x[2] < y[2] {
        assert(bytes_before(x, y));
    } else if x[3] < y[3] {
        assert(bytes_before(x, y));
    } else if x[4] < y[4] {
        assert(bytes_before(x, y));
    } else if x[5] < y[5] {
        assert(bytes_before(x, y));
    } else if x[6] < y[6] {
        assert(bytes_before(x, y));
    } else {
        assert(x[7] < y[7]);
        assert(bytes_before(x, y));
    }
}

/// Integer keys sort as the integers do: the key bytes of a smaller integer
/// come first in byte order.
pub proof fn law_integer_key_bytes_order(a: i64, b: i64)
    requires
        a < b,
    ensures
        bytes_before(key_bytes(SValue::Integer(a)), key_bytes(SValue::Integer(b))),
{
    lemma_integer_key_order(a, b);
    lemma_be_bytes_order(order_word(a), order_word(b));
    let x = be_bytes(order_word(a));
    let y = be_bytes(order_word(b));
    let j = choose|j: int| 0 <= j < x.len() && j < y.len() && #[trigger] x[j] < y[j]
        && forall|i: int| 0 <= i < j ==> x[i] == y[i];
    let kx = key_bytes(SValue::Integer(a));
    let ky = key_bytes(SValue::Integer(b));
    assert(kx[j + 1] == x[j] && ky[j + 1] == y[j]);
    assert forall|i: int| 0 <= i < j + 1 implies kx[i] == ky[i] by {
        if i > 0 {
            assert(kx[i] == x[i - 1] && ky[i] == y[i - 1]);
        }
    }
    assert(kx[j + 1] < ky[j + 1]);
}

/// The key bytes of a value other than a float: integers get tag 1 and the
/// big-endian bytes of their order word, text tag 2 and its UTF-8 bytes, NULL
/// the single byte 0, and blobs, booleans and timestamps tag 2 and the UTF-8
/// of their `Debug` text.
pub open spec fn key_bytes(v: SValue) -> Seq<u8> {
    match v {
        SValue::Integer(i) => seq![1u8] + be_bytes(order_word(i)),
        SValue::Text(s) => seq![2u8] + encode_utf8(s),
        SValue::Null => seq![0u8],
        _ => seq![2u8] + encode_utf8(value_debug(v)),
    }
}

fn push_debug_items(s: &mut String, b: &Vec<u8>)
    ensures
        final(s)@ == old(s)@ + bytes_debug_items(b@),
{
    let mut i: usize = 0;
    while i < b.len()
        invariant
            i <= b@.len(),
            s@ == old(s)@ + bytes_debug_items(b@.take(i as int)),
        decreases b.len() - i,
    {
        if i > 0 {
            push_str(s, ", ");
        }
        push_u64_decimal(s, b[i] as u64);
        proof {
            let t = b@.take(i + 1);
            assert(t.drop_last() =~= b@.take(i as int));
            if i == 0 {
                assert(b@.take(0) =~= Seq::<u8>::empty());
            }
        }
        i += 1;
        assert(s@ =~= old(s)@ + bytes_debug_items(b@.take(i as int)));
    }
    assert(b@.take(b@.len() as int) =~= b@);
}

/// Appends the bytes of a string's UTF-8 encoding.
fn push_utf8(buf: &mut Vec<u8>, s: &str)
    ensures
        final(buf)@ == old(buf)@ + encode_utf8(s@),
{
    let b = s.as_bytes();
    let mut i: usize = 0;
    while i < b.len()
        invariant
            b@ == encode_utf8(s@),
            i <= b@.len(),
            buf@ == old(buf)@ + b@.take(i as int),
        decreases b.len() - i,
    {
        buf.push(b[i]);
        i += 1;
        assert(buf@ =~= old(buf)@ + b@.take(i as int));
    }
    assert(b@.take(b@.len() as int) =~= b@);
}

/// Whether `b` is what `serialize_value` gives for `v`: its key bytes, or
/// for a float tag 2 and the UTF-8 of `Float(..)` around the host's text.
pub open spec fn serialized_as(v: SValue, b: Seq<u8>) -> bool {
    &&& (!(v is Float) ==> b == key_bytes(v))
    &&& (v is Float ==> exists|d: Seq<char>| b == seq![2u8] + encode_utf8("Float("@ + d + ")"@))
}

/// Byte strings one after another.
pub open spec fn concat_bytes(pieces: Seq<Seq<u8>>) -> Seq<u8>
    decreases pieces.len(),
{
    if pieces.len() == 0 { Seq::empty() } else { concat_bytes(pieces.drop_last()) + pieces.last() }
}

/// Serializes a value to its key bytes.  Floats are encoded as tag 2 and the
/// UTF-8 of `Float(<Debug text of the float>)`.
pub fn serialize_value<F: FloatOps>(val: &Value, floats: &F) -> (r: Vec<u8>)
    ensures
        !(val@ is Float) ==> r@ == key_bytes(val@),
        val@ is Float ==> exists|d: Seq<char>| r@ == seq![2u8] + encode_utf8("Float("@ + d + ")"@),
{
    match val {
        Value::Integer(v) => {
            let u = ((*v as i128) + 0x8000_0000_0000_0000i128) as u64;
            assert(u == order_word(*v));
            let mut buf: Vec<u8> = Vec::new();
            buf.push(1u8);
            buf.push((u >> 56u64) as u8);
            buf.push((u >> 48u64) as u8);
            buf.push((u >> 40u64) as u8);
            buf.push((u >> 32u64) as u8);
            buf.push((u >> 24u64) as u8);
            buf.push((u >> 16u64) as u8);
            buf.push((u >> 8u64) as u8);
            buf.push(u as u8);
            assert(buf@ =~= key_bytes(val@));
            buf
        },
        Value::Text(s) => {
            let mut buf: Vec<u8> = Vec::new();
            buf.push(2u8);
            push_utf8(&mut buf, s.as_str());
            assert(buf@ =~= key_bytes(val@));
            buf
        },
        Value::Null => {
            let mut buf: Vec<u8> = Vec::new();
            buf.push(0u8);
            assert(buf@ =~= key_bytes(val@));
            buf
        },
        Value::Float(b) => {
            let mut text = String::from_str("Float(");
            let d = floats.debug(*b);
            push_str(&mut text, d.as_str());
            push_char(&mut text, ')');
            let mut buf: Vec<u8> = Vec::new();
            buf.push(2u8);
            push_utf8(&mut buf, text.as_str());
            proof { reveal_strlit(")"); }
            assert(text@ =~= "Float("@ + d@ + ")"@);
            assert(buf@ =~= seq![2u8] + encode_utf8("Float("@ + d@ + ")"@));
            buf
        },
        Value::Blob(bytes) => {
            let mut text = String::from_str("Blob([");
            push_debug_items(&mut text, bytes);
            push_str(&mut text, "])");
            let mut buf: Vec<u8> = Vec::new();
            buf.push(2u8);
            push_utf8(&mut buf, text.as_str());
            proof {
                reveal_strlit("Blob(");
                reveal_strlit("Blob([");
                reveal_strlit("[");
                reveal_strlit("]");
                reveal_strlit(")");
                reveal_strlit("])");
            }
            assert(text@ =~= value_debug(val@));
            assert(buf@ =~= key_bytes(val@));
            buf
        },
        Value::Boolean(x) => {
            let text = if *x { String::from_str("Boolean(true)") } else { String::from_str("Boolean(false)") };
            let mut buf: Vec<u8> = Vec::new();
            buf.push(2u8);
            push_utf8(&mut buf, text.as_str());
            assert(buf@ =~= key_bytes(val@));
            buf
        },
        Value::Timestamp(t) => {
            let mut text = String::from_str("Timestamp(");
            let n = i64_to_string(*t);
            push_str(&mut text, n.as_str());
            push_char(&mut text, ')');
            let mut buf: Vec<u8> = Vec::new();
            buf.push(2u8);
            push_utf8(&mut buf, text.as_str());
            proof { reveal_strlit(")"); }
            assert(text@ =~= value_debug(val@));
            assert(buf@ =~= key_bytes(val@));
            buf
        },
    }
}

/// The value decoded from key bytes: empty or tag 0 gives NULL, tag 1 with at
/// least eight more bytes an integer, tag 2 text (UTF-8 decoded), anything
/// else NULL.
pub open spec fn decoded_value(b: Seq<u8>) -> Option<SValue> {
    if b.len() == 0 || b[0] == 0 {
        Some(SValue::Null)
    } else if b[0] == 1 {
        if b.len() < 9 {
            Some(SValue::Null)
        } else {
            Some(SValue::Integer(word_int(be_word(b[1], b[2], b[3], b[4], b[5], b[6], b[7], b[8]))))
        }
    } else if b[0] == 2 {
        if valid_utf8(b.skip(1)) { Some(SValue::Text(decode_utf8(b.skip(1)))) } else { None }
    } else {
        Some(SValue::Null)
    }
}

/// The text `String::from_utf8_lossy` makes of bytes: invalid sequences
/// replaced by U+FFFD.
pub uninterp spec fn lossy_utf8(b: Seq<u8>) -> Seq<char>;

/// The value `deserialize_value` gives for key bytes: text (tag 2) decoded
/// with replacement characters, anything else as `decoded_value` reads it.
pub open spec fn key_decoded(b: Seq<u8>) -> SValue {
    if b.len() > 0 && b[0] == 2 { SValue::Text(lossy_utf8(b.skip(1))) } else { decoded_value(b)->0 }
}

/// Decodes bytes as UTF-8, replacing invalid sequences (`String::from_utf8_lossy`).
#[verifier::external_body]
fn utf8_lossy(b: &[u8]) -> (s: String)
    ensures
        s@ == lossy_utf8(b@),
        valid_utf8(b@) ==> s@ == decode_utf8(b@),
{
    String::from_utf8_lossy(b).to_string()
}

/// Decodes key bytes.  Text whose bytes are not valid UTF-8 is decoded with
/// replacement characters.
pub fn deserialize_value(bytes: &[u8]) -> (v: Value)
    ensures
        decoded_value(bytes@) matches Some(d) ==> v@ == d,
        v@ is Text || decoded_value(bytes@) is Some,
        bytes@.len() > 0 && bytes@[0] == 2 ==> v@ == SValue::Text(lossy_utf8(bytes@.skip(1))),
        v@ == key_decoded(bytes@),
{
    if bytes.len() == 0 {
        return Value::Null;
    }
    if bytes[0] == 0 {
        Value::Null
    } else if bytes[0] == 1 {
        if bytes.len() < 9 {
            return Value::Null;
        }
        let w = ((bytes[1] as u64) << 56u64) | ((bytes[2] as u64) << 48u64) | ((bytes[3] as u64) << 40u64)
            | ((bytes[4] as u64) << 32u64) | ((bytes[5] as u64) << 24u64) | ((bytes[6] as u64) << 16u64)
            | ((bytes[7] as u64) << 8u64) | (bytes[8] as u64);
        Value::Integer(((w as i128) - 0x8000_0000_0000_0000i128) as i64)
    } else if bytes[0] == 2 {
        let rest = slice_skip1(bytes);
        Value::Text(utf8_lossy(rest))
    } else {
        Value::Null
    }
}

/// `&b[1..]`.
fn slice_skip1(b: &[u8]) -> (r: &[u8])
    requires
        b@.len() >= 1,
    ensures
        r@ == b@.skip(1),
{
    vstd::slice::slice_subrange(b, 1, b.len())
}

/// Decoding the key bytes of an integer, text or NULL gives the value back.
pub proof fn lemma_key_roundtrip(v: SValue)
    requires
        v is Integer || v is Text || v is Null,
    ensures
        decoded_value(key_bytes(v)) == Some(v),
{
    match v {
        SValue::Integer(i) => {
            let u = order_word(i);
            lemma_be_roundtrip(u);
            let b = key_bytes(v);
            assert(b[1] == (u >> 56u64) as u8 && b[8] == u as u8);
        },
        SValue::Text(s) => {
            let b = key_bytes(v);
            assert(b.skip(1) =~= encode_utf8(s));
        },
        _ => {},
    }
}

} // verus!
