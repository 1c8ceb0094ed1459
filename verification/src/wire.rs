//! Little-endian integers and text as bytes.

use vstd::prelude::*;
use vstd::slice::{slice_subrange, slice_to_vec};
use vstd::string::*;
use vstd::utf8::*;

verus! {

/// The number that two little-endian bytes stand for.
pub open spec fn le16(b: Seq<u8>) -> int
    recommends
        b.len() == 2,
{
    b[0] + 0x100 * b[1]
}

/// The number that four little-endian bytes stand for.
pub open spec fn le32(b: Seq<u8>) -> int
    recommends
        b.len() == 4,
{
    le16(b.subrange(0, 2)) + 0x1_0000 * le16(b.subrange(2, 4))
}

/// The number that eight little-endian bytes stand for.
pub open spec fn le64(b: Seq<u8>) -> int
    recommends
        b.len() == 8,
{
    le32(b.subrange(0, 4)) + 0x1_0000_0000 * le32(b.subrange(4, 8))
}

/// The two little-endian bytes of `v`.
pub open spec fn bytes16(v: u16) -> Seq<u8> {
    seq![(v % 0x100) as u8, (v / 0x100) as u8]
}

/// The four little-endian bytes of `v`.
pub open spec fn bytes32(v: u32) -> Seq<u8> {
    bytes16((v % 0x1_0000) as u16) + bytes16((v / 0x1_0000) as u16)
}

/// The eight little-endian bytes of `v`.
pub open spec fn bytes64(v: u64) -> Seq<u8> {
    bytes32((v % 0x1_0000_0000) as u32) + bytes32((v / 0x1_0000_0000) as u32)
}

/// Reading back the bytes of a 16-bit number gives the number.
pub proof fn lemma_le16_of_bytes16(v: u16)
    ensures
        bytes16(v).len() == 2,
        le16(bytes16(v)) == v,
{
}

/// Writing out the number that two bytes stand for gives the two bytes.
pub proof fn lemma_bytes16_of_le16(b: Seq<u8>)
    requires
        b.len() == 2,
    ensures
        0 <= le16(b) <= u16::MAX,
        bytes16(le16(b) as u16) == b,
{
    assert(bytes16(le16(b) as u16) =~= b);
}

/// Reading back the bytes of a 32-bit number gives the number.
pub proof fn lemma_le32_of_bytes32(v: u32)
    ensures
        bytes32(v).len() == 4,
        le32(bytes32(v)) == v,
{
    let low = (v % 0x1_0000) as u16;
    let high = (v / 0x1_0000) as u16;
    lemma_le16_of_bytes16(low);
    lemma_le16_of_bytes16(high);
    assert(bytes32(v).subrange(0, 2) =~= bytes16(low));
    assert(bytes32(v).subrange(2, 4) =~= bytes16(high));
}

/// Writing out the number that four bytes stand for gives the four bytes.
pub proof fn lemma_bytes32_of_le32(b: Seq<u8>)
    requires
        b.len() == 4,
    ensures
        0 <= le32(b) <= u32::MAX,
        bytes32(le32(b) as u32) == b,
{
    let low = b.subrange(0, 2);
    let high = b.subrange(2, 4);
    lemma_bytes16_of_le16(low);
    lemma_bytes16_of_le16(high);
    let v = le32(b) as u32;
    assert(v % 0x1_0000 == le16(low));
    assert(v / 0x1_0000 == le16(high));
    assert(bytes32(v) =~= b);
}

/// Reading back the bytes of a 64-bit number gives the number.
pub proof fn lemma_le64_of_bytes64(v: u64)
    ensures
        bytes64(v).len() == 8,
        le64(bytes64(v)) == v,
{
    let low = (v % 0x1_0000_0000) as u32;
    let high = (v / 0x1_0000_0000) as u32;
    lemma_le32_of_bytes32(low);
    lemma_le32_of_bytes32(high);
    assert(bytes64(v).subrange(0, 4) =~= bytes32(low));
    assert(bytes64(v).subrange(4, 8) =~= bytes32(high));
}

/// Writing out the number that eight bytes stand for gives the eight bytes.
pub proof fn lemma_bytes64_of_le64(b: Seq<u8>)
    requires
        b.len() == 8,
    ensures
        0 <= le64(b) <= u64::MAX,
        bytes64(le64(b) as u64) == b,
{
    let low = b.subrange(0, 4);
    let high = b.subrange(4, 8);
    lemma_bytes32_of_le32(low);
    lemma_bytes32_of_le32(high);
    let v = le64(b) as u64;
    let l = le32(low);
    let h = le32(high);
    assert(v == l + 0x1_0000_0000 * h);
    assert(v % 0x1_0000_0000 == l && v / 0x1_0000_0000 == h) by (nonlinear_arith)
        requires
            v == l + 0x1_0000_0000 * h,
            0 <= l < 0x1_0000_0000,
            0 <= h,
    ;
    assert(bytes64(v) =~= low + high);
    assert(low + high =~= b);
}

/// Reads a 16-bit little-endian number at `at`.
pub fn read_u16(data: &[u8], at: usize) -> (v: u16)
    requires
        at + 2 <= data.len(),
    ensures
        v == le16(data@.subrange(at as int, at + 2)),
{
    data[at] as u16 + data[at + 1] as u16 * 0x100
}

/// Reads a 32-bit little-endian number at `at`.
pub fn read_u32(data: &[u8], at: usize) -> (v: u32)
    requires
        at + 4 <= data.len(),
    ensures
        v == le32(data@.subrange(at as int, at + 4)),
{
    let low: u32 = data[at] as u32 + data[at + 1] as u32 * 0x100;
    let high: u32 = data[at + 2] as u32 + data[at + 3] as u32 * 0x100;
    proof {
        let b = data@.subrange(at as int, at + 4);
        assert(low == le16(b.subrange(0, 2)));
        assert(high == le16(b.subrange(2, 4)));
    }
    low + high * 0x1_0000
}

/// Reads a 64-bit little-endian number at `at`.
pub fn read_u64(data: &[u8], at: usize) -> (v: u64)
    requires
        at + 8 <= data.len(),
    ensures
        v == le64(data@.subrange(at as int, at + 8)),
{
    let low: u64 = read_u32(data, at) as u64;
    let high: u64 = read_u32(data, at + 4) as u64;
    proof {
        let b = data@.subrange(at as int, at + 8);
        assert(data@.subrange(at as int, at + 4) =~= b.subrange(0, 4));
        assert(data@.subrange(at + 4, at + 8) =~= b.subrange(4, 8));
    }
    low + high * 0x1_0000_0000
}

/// Appends the two little-endian bytes of `v`.
pub fn write_u16(out: &mut Vec<u8>, v: u16)
    ensures
        final(out)@ == old(out)@ + bytes16(v),
{
    out.push((v % 0x100) as u8);
    out.push((v / 0x100) as u8);
    assert(out@ =~= old(out)@ + bytes16(v));
}

/// Appends the four little-endian bytes of `v`.
pub fn write_u32(out: &mut Vec<u8>, v: u32)
    ensures
        final(out)@ == old(out)@ + bytes32(v),
{
    write_u16(out, (v % 0x1_0000) as u16);
    write_u16(out, (v / 0x1_0000) as u16);
    assert(out@ =~= old(out)@ + bytes32(v));
}

/// Appends the eight little-endian bytes of `v`.
pub fn write_u64(out: &mut Vec<u8>, v: u64)
    ensures
        final(out)@ == old(out)@ + bytes64(v),
{
    write_u32(out, (v % 0x1_0000_0000) as u32);
    write_u32(out, (v / 0x1_0000_0000) as u32);
    assert(out@ =~= old(out)@ + bytes64(v));
}

/// The character whose code point is the byte `b`.
pub open spec fn byte_char(b: u8) -> char {
    b as char
}

/// The low eight bits of the code point of `c`.
pub open spec fn char_byte(c: char) -> u8 {
    (c as u32 % 0x100) as u8
}

/// The text that has one character for each byte, with the byte as its code point.
pub open spec fn latin1(bytes: Seq<u8>) -> Seq<char> {
    Seq::new(bytes.len(), |i: int| byte_char(bytes[i]))
}

/// One byte for each character: the low eight bits of its code point.
pub open spec fn low_bytes(chars: Seq<char>) -> Seq<u8> {
    Seq::new(chars.len(), |i: int| char_byte(chars[i]))
}

/// Every character's code point fits in one byte.
pub open spec fn is_latin1(chars: Seq<char>) -> bool {
    forall|i: int| 0 <= i < chars.len() ==> (#[trigger] chars[i]) as u32 <= 0xff
}

/// A character of one byte is the character of its byte.
pub proof fn lemma_byte_of_char(c: char)
    requires
        c as u32 <= 0xff,
    ensures
        byte_char(char_byte(c)) == c,
{
    let u = c as u32;
    vstd::utf8::char_u32_cast(c, u);
    assert(char_byte(c) as u32 == u);
}

/// Bytes read as one character each and written back are unchanged.
pub proof fn lemma_low_bytes_of_latin1(bytes: Seq<u8>)
    ensures
        is_latin1(latin1(bytes)),
        low_bytes(latin1(bytes)) == bytes,
{
    assert(low_bytes(latin1(bytes)) =~= bytes);
}

/// Text of one-byte characters written as bytes and read back is unchanged.
pub proof fn lemma_latin1_of_low_bytes(chars: Seq<char>)
    requires
        is_latin1(chars),
    ensures
        latin1(low_bytes(chars)) == chars,
{
    assert forall|i: int| 0 <= i < chars.len() implies latin1(low_bytes(chars))[i] == chars[i] by {
        lemma_byte_of_char(chars[i]);
    }
    assert(latin1(low_bytes(chars)) =~= chars);
}

/// `String::push`: appends one character to the text.
#[verifier::external_body]
pub(crate) fn push_char(text: &mut String, c: char)
    ensures
        final(text)@ == old(text)@.push(c),
{
    text.push(c);
}

/// `String::from_utf8`: the text that the bytes spell in UTF-8, or nothing
/// where they are not valid UTF-8.
#[verifier::external_body]
fn string_from_utf8(bytes: Vec<u8>) -> (text: Option<String>)
    ensures
        text is Some <==> valid_utf8(bytes@),
        text matches Some(t) ==> t@ == decode_utf8(bytes@),
{
    match String::from_utf8(bytes) {
        Ok(text) => Some(text),
        Err(_) => None,
    }
}

/// The text with one character for each byte of `data` from `from` on.
pub fn latin1_string(data: &[u8], from: usize) -> (text: String)
    requires
        from <= data.len(),
    ensures
        text@ == latin1(data@.skip(from as int)),
{
    let mut text = String::new();
    let mut i: usize = from;
    while i < data.len()
        invariant
            from <= i <= data@.len(),
            text@ == latin1(data@.subrange(from as int, i as int)),
        decreases data@.len() - i,
    {
        push_char(&mut text, data[i] as char);
        i += 1;
        assert(text@ =~= latin1(data@.subrange(from as int, i as int)));
    }
    assert(data@.subrange(from as int, i as int) =~= data@.skip(from as int));
    text
}

/// Appends one byte for each character of `text`: the low eight bits of its code point.
pub fn write_low_bytes(out: &mut Vec<u8>, text: &str)
    ensures
        final(out)@ == old(out)@ + low_bytes(text@),
{
    broadcast use vstd::string::group_string_axioms;

    for c in it: text.chars()
        invariant
            it.seq() == text@,
            out@ == old(out)@ + low_bytes(text@.take(it.index())),
    {
        out.push((c as u32 % 0x100) as u8);
        assert(out@ =~= old(out)@ + low_bytes(text@.take(it.index() + 1)));
    }
    assert(text@.take(text@.len() as int) =~= text@);
}

/// Appends the UTF-8 bytes of `text`.
pub fn write_utf8(out: &mut Vec<u8>, text: &str)
    ensures
        final(out)@ == old(out)@ + encode_utf8(text@),
{
    out.extend_from_slice(text.as_bytes());
    assert(out@ =~= old(out)@ + encode_utf8(text@));
}

/// The text that `data` from `from` on spells in UTF-8, or nothing where
/// those bytes are not valid UTF-8.
pub fn utf8_string(data: &[u8], from: usize) -> (text: Option<String>)
    requires
        from <= data.len(),
    ensures
        text is Some <==> valid_utf8(data@.skip(from as int)),
        text matches Some(t) ==> t@ == decode_utf8(data@.skip(from as int)),
{
    let bytes = slice_to_vec(slice_subrange(data, from, data.len()));
    assert(bytes@ =~= data@.skip(from as int));
    string_from_utf8(bytes)
}

/// The text that a payload spells where all of it is text in UTF-8; the
/// error `invalid` where it is not valid UTF-8.
pub open spec fn spec_text_from_raw<E>(data: Seq<u8>, invalid: E) -> Result<Seq<char>, E> {
    if valid_utf8(data) {
        Ok(decode_utf8(data))
    } else {
        Err(invalid)
    }
}

/// A text read from its UTF-8 bytes is the text.
pub proof fn lemma_text_round_trip<E>(text: Seq<char>, invalid: E)
    ensures
        spec_text_from_raw(encode_utf8(text), invalid) == Ok::<_, E>(text),
{
    vstd::utf8::encode_utf8_valid_utf8(text);
    vstd::utf8::encode_utf8_decode_utf8(text);
}

/// The UTF-8 bytes of a text that was read are the bytes it was read from.
pub proof fn lemma_text_payload_unique<E>(data: Seq<u8>, invalid: E)
    requires
        spec_text_from_raw(data, invalid) is Ok,
    ensures
        encode_utf8(spec_text_from_raw(data, invalid)->Ok_0) == data,
{
    vstd::utf8::decode_utf8_encode_utf8(data);
}

} // verus!
