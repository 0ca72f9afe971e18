//! Positioned CBOR reading and appending on top of `minicbor`.
//!
//! Every read takes the whole input and the position at which to start,
//! and hands back the decoded value together with the position after it,
//! or the message of `minicbor`'s error. Every write appends the encoding of
//! one item to a byte vector.

use vstd::prelude::*;
use minicbor::{Decoder, Encoder};
use crate::text::{decimal, decimal_text};

verus! {

/// The initial bytes of a CBOR item of major type `major` with argument `n`,
/// in the shortest form, as `minicbor`'s encoder writes them.
pub open spec fn cbor_head(major: u8, n: u64) -> Seq<u8>
    recommends
        major < 8,
{
    let t = major * 32;
    if n <= 0x17 {
        seq![(t + n) as u8]
    } else if n <= 0xff {
        seq![(t + 24) as u8, n as u8]
    } else if n <= 0xffff {
        seq![(t + 25) as u8] + be_bytes(n, 2)
    } else if n <= 0xffff_ffff {
        seq![(t + 26) as u8] + be_bytes(n, 4)
    } else {
        seq![(t + 27) as u8] + be_bytes(n, 8)
    }
}

/// The `k` low-order bytes of `n`, most significant first.
pub open spec fn be_bytes(n: u64, k: nat) -> Seq<u8>
    decreases k,
{
    if k == 0 {
        seq![]
    } else {
        be_bytes(n / 256, (k - 1) as nat).push((n % 256) as u8)
    }
}

/// The encoding of a text string.
pub open spec fn cbor_text(s: Seq<char>) -> Seq<u8> {
    cbor_head(3, vstd::utf8::encode_utf8(s).len() as u64) + vstd::utf8::encode_utf8(s)
}

/// The encoding of a byte string.
pub open spec fn cbor_bytes(b: Seq<u8>) -> Seq<u8> {
    cbor_head(2, b.len() as u64) + b
}

/// The encoding of a single-precision float given by its bits.
pub open spec fn cbor_float_bits(bits: u32) -> Seq<u8> {
    seq![0xfau8] + be_bytes(bits as u64, 4)
}

/// Whether `buf` holds `enc` from position `pos` on.
pub open spec fn holds_at(buf: Seq<u8>, pos: int, enc: Seq<u8>) -> bool {
    &&& 0 <= pos
    &&& pos + enc.len() <= buf.len()
    &&& buf.subrange(pos, pos + enc.len()) == enc
}

/// Whether a skip succeeded, stopping at position `p`.
pub open spec fn skips_to(r: Result<usize, String>, p: int) -> bool {
    r matches Ok(q) && q == p
}

/// The characters of a text outcome.
pub open spec fn text_outcome(r: Result<String, String>) -> Result<Seq<char>, Seq<char>> {
    match r {
        Ok(t) => Ok(t@),
        Err(e) => Err(e@),
    }
}

/// Whether a type read reported the type displayed as `name`.
pub open spec fn reports(r: Result<String, String>, name: Seq<char>) -> bool {
    r matches Ok(t) && t@ == name
}

/// Whether a read succeeded with value `v`, stopping at position `p`.
pub open spec fn gives<T>(r: Result<(T, usize), String>, v: T, p: int) -> bool {
    r matches Ok((w, q)) && w == v && q == p
}

/// Whether a text read succeeded with text `v`, stopping at position `p`.
pub open spec fn gives_text(r: Result<(String, usize), String>, v: Seq<char>, p: int) -> bool {
    r matches Ok((w, q)) && w@ == v && q == p
}

/// Whether a byte-string read succeeded with bytes `v`, stopping at `p`.
pub open spec fn gives_bytes(r: Result<(Vec<u8>, usize), String>, v: Seq<u8>, p: int) -> bool {
    r matches Ok((w, q)) && w@ == v && q == p
}

/// A read outcome with its message taken as characters.
pub open spec fn read_outcome<T>(r: Result<(T, usize), String>) -> Result<(T, int), Seq<char>> {
    match r {
        Ok((v, p)) => Ok((v, p as int)),
        Err(e) => Err(e@),
    }
}

/// A text read outcome with the text and the message taken as characters.
pub open spec fn str_outcome(r: Result<(String, usize), String>) -> Result<(Seq<char>, int), Seq<char>> {
    match r {
        Ok((v, p)) => Ok((v@, p as int)),
        Err(e) => Err(e@),
    }
}

/// A byte-string read outcome with the bytes taken as a sequence.
pub open spec fn bytes_outcome(r: Result<(Vec<u8>, usize), String>) -> Result<(Seq<u8>, int), Seq<char>> {
    match r {
        Ok((v, p)) => Ok((v@, p as int)),
        Err(e) => Err(e@),
    }
}

/// Whether a read that started at `pos` stopped inside the input after
/// consuming at least one byte.
pub open spec fn advanced<T>(r: Result<(T, usize), String>, pos: int, len: int) -> bool {
    r matches Ok((_, p)) ==> pos < p <= len
}

/// The number that four bytes denote, most significant first.
pub open spec fn be_u32(b0: u8, b1: u8, b2: u8, b3: u8) -> u32 {
    (((b0 as int * 256 + b1 as int) * 256 + b2 as int) * 256 + b3 as int) as u32
}

/// The message of a failed float read where the item at position `pos` has
/// another type, as `minicbor` words it.
pub open spec fn float_mismatch(t: Result<Seq<char>, Seq<char>>, pos: nat) -> Seq<char> {
    match t {
        Ok(name) => "unexpected type "@ + name + " at position "@ + decimal(pos) + ": expected f32"@,
        Err(e) => e,
    }
}

/// Reading a single-precision float at `pos`: the marker byte 0xfa followed
/// by the four bytes of the float, most significant first; the float is
/// given by its bits.
pub open spec fn spec_read_float(buf: Seq<u8>, pos: int) -> Result<(u32, int), Seq<char>> {
    if pos < 0 || pos >= buf.len() {
        Err("end of input bytes"@)
    } else if buf[pos] != 0xfa {
        Err(float_mismatch(cbor_datatype_at(buf, pos), pos as nat))
    } else if pos + 5 > buf.len() {
        Err("end of input bytes"@)
    } else {
        Ok((be_u32(buf[pos + 1], buf[pos + 2], buf[pos + 3], buf[pos + 4]), pos + 5))
    }
}

/// Outcome of `minicbor`'s `Decoder::datatype` at `pos`: the name under
/// which the type of the item there is displayed, or the error message.
pub uninterp spec fn cbor_datatype_at(buf: Seq<u8>, pos: int) -> Result<Seq<char>, Seq<char>>;

/// Outcome of `minicbor`'s `Decoder::array` at `pos`.
pub uninterp spec fn cbor_array_at(buf: Seq<u8>, pos: int) -> Result<(Option<u64>, int), Seq<char>>;

/// Outcome of `minicbor`'s `Decoder::map` at `pos`.
pub uninterp spec fn cbor_map_at(buf: Seq<u8>, pos: int) -> Result<(Option<u64>, int), Seq<char>>;

/// Outcome of `minicbor`'s `Decoder::str` at `pos`.
pub uninterp spec fn cbor_str_at(buf: Seq<u8>, pos: int) -> Result<(Seq<char>, int), Seq<char>>;

/// Outcome of `minicbor`'s `Decoder::bytes` at `pos`.
pub uninterp spec fn cbor_bytes_at(buf: Seq<u8>, pos: int) -> Result<(Seq<u8>, int), Seq<char>>;

/// Outcome of `minicbor`'s `Decoder::u16` at `pos`.
pub uninterp spec fn cbor_u16_at(buf: Seq<u8>, pos: int) -> Result<(u16, int), Seq<char>>;

/// Outcome of `minicbor`'s `Decoder::skip` at `pos`: the position after the
/// skipped item.
pub uninterp spec fn cbor_skip_at(buf: Seq<u8>, pos: int) -> Result<int, Seq<char>>;

/// The name under which `minicbor` displays the type of an item with the
/// initial byte `b`, where that byte alone decides the type (it does not for
/// the negative integers with a following argument, 0x38..=0x3b, nor for
/// bytes that start no item).
pub open spec fn initial_byte_type(b: u8) -> Option<Seq<char>> {
    if b <= 0x18 {
        Some("u8"@)
    } else if b == 0x19 {
        Some("u16"@)
    } else if b == 0x1a {
        Some("u32"@)
    } else if b == 0x1b {
        Some("u64"@)
    } else if 0x20 <= b <= 0x37 {
        Some("i8"@)
    } else if 0x40 <= b <= 0x5b {
        Some("bytes"@)
    } else if b == 0x5f {
        Some("indefinite bytes"@)
    } else if 0x60 <= b <= 0x7b {
        Some("string"@)
    } else if b == 0x7f {
        Some("indefinite string"@)
    } else if 0x80 <= b <= 0x9b {
        Some("array"@)
    } else if b == 0x9f {
        Some("indefinite array"@)
    } else if 0xa0 <= b <= 0xbb {
        Some("map"@)
    } else if b == 0xbf {
        Some("indefinite map"@)
    } else if 0xc0 <= b <= 0xdb {
        Some("tag"@)
    } else if (0xe0 <= b <= 0xf3) || b == 0xf8 {
        Some("simple"@)
    } else if b == 0xf4 || b == 0xf5 {
        Some("bool"@)
    } else if b == 0xf6 {
        Some("null"@)
    } else if b == 0xf7 {
        Some("undefined"@)
    } else if b == 0xf9 {
        Some("f16"@)
    } else if b == 0xfa {
        Some("f32"@)
    } else if b == 0xfb {
        Some("f64"@)
    } else if b == 0xff {
        Some("break"@)
    } else {
        None
    }
}

/// Reads the type of the item at `pos` without consuming it.
///
/// Calls `minicbor::Decoder::datatype` and hands back the displayed name of
/// the type (such as "array" or "map"). Claimed: the result is the named
/// outcome; a type is only reported inside the input; and an initial byte
/// that alone decides the type reports the type that `minicbor` maps it to,
/// under its displayed name (`initial_byte_type`).
#[verifier::external_body]
pub(crate) fn read_datatype(buf: &[u8], pos: usize) -> (res: Result<String, String>)
    ensures
        text_outcome(res) == cbor_datatype_at(buf@, pos as int),
        res is Ok ==> pos < buf@.len(),
        pos < buf@.len() && initial_byte_type(buf@[pos as int]) is Some ==> reports(
            res,
            initial_byte_type(buf@[pos as int])->0,
        ),
{
    let mut d = Decoder::new(buf);
    d.set_position(pos);
    match d.datatype() {
        Ok(t) => Ok(t.to_string()),
        Err(e) => Err(e.to_string()),
    }
}

/// Reads the header of an array at `pos`: its length, or `None` for an
/// array of indefinite length.
///
/// Calls `minicbor::Decoder::array`. Claimed: the result is the named
/// outcome; a successful read consumes at least one byte and stays inside
/// the input; the head that `write_array` writes for `n` reads back as `n`;
/// the head 0x9f of an indefinite array reads as `None`.
#[verifier::external_body]
pub(crate) fn read_array(buf: &[u8], pos: usize) -> (res: Result<(Option<u64>, usize), String>)
    ensures
        read_outcome(res) == cbor_array_at(buf@, pos as int),
        advanced(res, pos as int, buf@.len() as int),
        forall|n: u64|
            holds_at(buf@, pos as int, #[trigger] cbor_head(4, n)) ==> gives(
                res,
                Some(n),
                pos + cbor_head(4, n).len(),
            ),
        pos < buf@.len() && buf@[pos as int] == 0x9f ==> gives(res, None, pos + 1),
{
    let mut d = Decoder::new(buf);
    d.set_position(pos);
    match d.array() {
        Ok(n) => Ok((n, d.position())),
        Err(e) => Err(e.to_string()),
    }
}

/// Reads the header of a map at `pos`: its number of entries, or `None`
/// for a map of indefinite length.
///
/// Calls `minicbor::Decoder::map`. Claimed: the result is the named
/// outcome; a successful read consumes at least one byte and stays inside
/// the input; a map head of `n` entries reads back as `n`; the head 0xbf of
/// an indefinite map reads as `None`.
#[verifier::external_body]
pub(crate) fn read_map(buf: &[u8], pos: usize) -> (res: Result<(Option<u64>, usize), String>)
    ensures
        read_outcome(res) == cbor_map_at(buf@, pos as int),
        advanced(res, pos as int, buf@.len() as int),
        forall|n: u64|
            holds_at(buf@, pos as int, #[trigger] cbor_head(5, n)) ==> gives(
                res,
                Some(n),
                pos + cbor_head(5, n).len(),
            ),
        pos < buf@.len() && buf@[pos as int] == 0xbf ==> gives(res, None, pos + 1),
{
    let mut d = Decoder::new(buf);
    d.set_position(pos);
    match d.map() {
        Ok(n) => Ok((n, d.position())),
        Err(e) => Err(e.to_string()),
    }
}

/// Reads a text string of definite length at `pos`.
///
/// Calls `minicbor::Decoder::str` and copies the text. Claimed: the result
/// is the named outcome; a successful read consumes at least one byte and
/// stays inside the input; the encoding that `write_str` writes reads back as
/// the same text.
#[verifier::external_body]
pub(crate) fn read_str(buf: &[u8], pos: usize) -> (res: Result<(String, usize), String>)
    ensures
        str_outcome(res) == cbor_str_at(buf@, pos as int),
        advanced(res, pos as int, buf@.len() as int),
        forall|s: Seq<char>|
            holds_at(buf@, pos as int, #[trigger] cbor_text(s)) ==> gives_text(
                res,
                s,
                pos + cbor_text(s).len(),
            ),
{
    let mut d = Decoder::new(buf);
    d.set_position(pos);
    match d.str() {
        Ok(s) => Ok((s.to_string(), d.position())),
        Err(e) => Err(e.to_string()),
    }
}

/// Reads a byte string of definite length at `pos`.
///
/// Calls `minicbor::Decoder::bytes` and copies the bytes. Claimed: the
/// result is the named outcome; a successful read consumes at least one
/// byte and stays inside the input; the encoding that `write_bytes` writes
/// reads back as the same bytes.
#[verifier::external_body]
pub(crate) fn read_bytes(buf: &[u8], pos: usize) -> (res: Result<(Vec<u8>, usize), String>)
    ensures
        bytes_outcome(res) == cbor_bytes_at(buf@, pos as int),
        advanced(res, pos as int, buf@.len() as int),
        forall|b: Seq<u8>|
            holds_at(buf@, pos as int, #[trigger] cbor_bytes(b)) ==> gives_bytes(
                res,
                b,
                pos + cbor_bytes(b).len(),
            ),
{
    let mut d = Decoder::new(buf);
    d.set_position(pos);
    match d.bytes() {
        Ok(b) => Ok((b.to_vec(), d.position())),
        Err(e) => Err(e.to_string()),
    }
}

/// Reads an unsigned integer that fits 16 bits at `pos`.
///
/// Calls `minicbor::Decoder::u16`. Claimed: the result is the named
/// outcome; a successful read consumes at least one byte and stays inside
/// the input; the encoding that `write_u16` writes reads back as the same
/// number.
#[verifier::external_body]
pub(crate) fn read_u16(buf: &[u8], pos: usize) -> (res: Result<(u16, usize), String>)
    ensures
        read_outcome(res) == cbor_u16_at(buf@, pos as int),
        advanced(res, pos as int, buf@.len() as int),
        forall|x: u16|
            holds_at(buf@, pos as int, #[trigger] cbor_head(0, x as u64)) ==> gives(
                res,
                x,
                pos + cbor_head(0, x as u64).len(),
            ),
{
    let mut d = Decoder::new(buf);
    d.set_position(pos);
    match d.u16() {
        Ok(x) => Ok((x, d.position())),
        Err(e) => Err(e.to_string()),
    }
}

/// Skips over the item at `pos`, handing back the position after it.
///
/// Calls `minicbor::Decoder::skip`. Claimed: the result is the named
/// outcome; a successful skip consumes at least one byte and stays inside
/// the input; an unsigned integer below 24, a single byte, is skipped by
/// that byte.
#[verifier::external_body]
pub(crate) fn skip_item(buf: &[u8], pos: usize) -> (res: Result<usize, String>)
    ensures
        match res {
            Ok(p) => cbor_skip_at(buf@, pos as int) == Ok::<int, Seq<char>>(p as int) && pos < p
                <= buf@.len(),
            Err(e) => cbor_skip_at(buf@, pos as int) == Err::<int, Seq<char>>(e@),
        },
        pos < buf@.len() && buf@[pos as int] <= 0x17 ==> skips_to(res, pos + 1),
{
    let mut d = Decoder::new(buf);
    d.set_position(pos);
    match d.skip() {
        Ok(()) => Ok(d.position()),
        Err(e) => Err(e.to_string()),
    }
}

/// Appends the head of an array of `len` items.
///
/// Calls `minicbor::Encoder::array` on the vector; writing into a vector
/// cannot fail. Claimed: exactly the shortest head is appended.
#[verifier::external_body]
pub(crate) fn write_array(out: &mut Vec<u8>, len: u64)
    ensures
        final(out)@ == old(out)@ + cbor_head(4, len),
{
    let _ = Encoder::new(out).array(len);
}

/// Appends a text string.
///
/// Calls `minicbor::Encoder::str` on the vector; writing into a vector
/// cannot fail. Claimed: exactly the head and the UTF-8 bytes of `s` are
/// appended.
#[verifier::external_body]
pub(crate) fn write_str(out: &mut Vec<u8>, s: &str)
    ensures
        final(out)@ == old(out)@ + cbor_text(s@),
{
    let _ = Encoder::new(out).str(s);
}

/// Appends a byte string.
///
/// Calls `minicbor::Encoder::bytes` on the vector; writing into a vector
/// cannot fail. Claimed: exactly the head and the bytes are appended.
#[verifier::external_body]
pub(crate) fn write_bytes(out: &mut Vec<u8>, b: &[u8])
    ensures
        final(out)@ == old(out)@ + cbor_bytes(b@),
{
    let _ = Encoder::new(out).bytes(b);
}

/// Appends an unsigned integer.
///
/// Calls `minicbor::Encoder::u16` on the vector; writing into a vector
/// cannot fail. Claimed: exactly the shortest encoding is appended.
#[verifier::external_body]
pub(crate) fn write_u16(out: &mut Vec<u8>, x: u16)
    ensures
        final(out)@ == old(out)@ + cbor_head(0, x as u64),
{
    let _ = Encoder::new(out).u16(x);
}

/// Reads a single-precision float at `pos`, handing back its bits and the
/// position after it.
pub fn read_float_bits(buf: &[u8], pos: usize) -> (res: Result<(u32, usize), String>)
    ensures
        read_outcome(res) == spec_read_float(buf@, pos as int),
        advanced(res, pos as int, buf@.len() as int),
{
    if pos >= buf.len() {
        return Err(String::from_str("end of input bytes"));
    }
    if buf[pos] != 0xfa {
        let t = read_datatype(buf, pos);
        return match t {
            Ok(name) => {
                let at = decimal_text(pos as u64);
                let m = String::from_str("unexpected type ").concat(name.as_str()).concat(
                    " at position ",
                ).concat(at.as_str()).concat(": expected f32");
                Err(m)
            },
            Err(e) => Err(e),
        };
    }
    if buf.len() - pos < 5 {
        return Err(String::from_str("end of input bytes"));
    }
    let b0 = buf[pos + 1] as u32;
    let b1 = buf[pos + 2] as u32;
    let b2 = buf[pos + 3] as u32;
    let b3 = buf[pos + 4] as u32;
    let bits = ((b0 * 256 + b1) * 256 + b2) * 256 + b3;
    Ok((bits, pos + 5))
}

/// Appends a single-precision float given by its bits: the marker byte 0xfa
/// and the four bytes of the float, most significant first.
pub fn write_float_bits(out: &mut Vec<u8>, bits: u32)
    ensures
        final(out)@ == old(out)@ + cbor_float_bits(bits),
{
    let b3 = (bits % 256) as u8;
    let n1 = bits / 256;
    let b2 = (n1 % 256) as u8;
    let n2 = n1 / 256;
    let b1 = (n2 % 256) as u8;
    let n3 = n2 / 256;
    let b0 = (n3 % 256) as u8;
    out.push(0xfa);
    out.push(b0);
    out.push(b1);
    out.push(b2);
    out.push(b3);
    proof {
        reveal_with_fuel(be_bytes, 5);
        assert(cbor_float_bits(bits) =~= seq![0xfau8, b0, b1, b2, b3]);
    }
}

/// The bits that `write_float_bits` writes read back as the same bits.
pub proof fn lemma_float_roundtrip(buf: Seq<u8>, pos: int, bits: u32)
    requires
        holds_at(buf, pos, cbor_float_bits(bits)),
    ensures
        spec_read_float(buf, pos) == Ok::<(u32, int), Seq<char>>((bits, pos + 5)),
{
    reveal_with_fuel(be_bytes, 5);
    let enc = cbor_float_bits(bits);
    assert(buf[pos] == enc[0]);
    assert(buf[pos + 1] == enc[1]);
    assert(buf[pos + 2] == enc[2]);
    assert(buf[pos + 3] == enc[3]);
    assert(buf[pos + 4] == enc[4]);
    let n = bits as u64;
    assert(be_u32(enc[1], enc[2], enc[3], enc[4]) == bits) by (nonlinear_arith)
        requires
            enc[1] == ((n / 256 / 256 / 256) % 256) as u8,
            enc[2] == ((n / 256 / 256) % 256) as u8,
            enc[3] == ((n / 256) % 256) as u8,
            enc[4] == (n % 256) as u8,
            n == bits as u64,
            n < 0x1_0000_0000,
    ;
}

} // verus!
