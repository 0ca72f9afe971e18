//! Errors of message handling, and the reading of the CBOR items that the
//! message encodings are built from, with failures turned into those errors.

use vstd::prelude::*;
use crate::cbor::{
    initial_byte_type, cbor_array_at, cbor_datatype_at, cbor_head, cbor_map_at, holds_at, read_array, read_datatype,
    read_map,
};
use crate::text::str_eq;

verus! {

/// Errors of decoding, validating and dispatching messages.
#[derive(Debug)]
pub enum RpcError {
    /// The message does not have the expected shape.
    Deser(String),
    /// A request parameter is not acceptable.
    InvalidParameter(String),
    /// The requested operation is not offered.
    MethodNotHandled(String),
    /// Any other failure, such as a malformed CBOR item.
    Other(String),
    /// A failure while decoding an item nested in a larger one; the text
    /// names the shape of the nested item.
    Nested(String, Box<RpcError>),
}

/// The mathematical counterpart of [`RpcError`].
pub enum RpcErrorView {
    Deser(Seq<char>),
    InvalidParameter(Seq<char>),
    MethodNotHandled(Seq<char>),
    Other(Seq<char>),
    Nested(Seq<char>, Box<RpcErrorView>),
}

impl View for RpcError {
    type V = RpcErrorView;

    open spec fn view(&self) -> RpcErrorView
        decreases self,
    {
        match self {
            RpcError::Deser(m) => RpcErrorView::Deser(m@),
            RpcError::InvalidParameter(m) => RpcErrorView::InvalidParameter(m@),
            RpcError::MethodNotHandled(m) => RpcErrorView::MethodNotHandled(m@),
            RpcError::Other(m) => RpcErrorView::Other(m@),
            RpcError::Nested(s, inner) => RpcErrorView::Nested(s@, Box::new((**inner).view())),
        }
    }
}

/// The error that a failed CBOR read turns into.
pub open spec fn cbor_failure(msg: Seq<char>) -> RpcErrorView {
    RpcErrorView::Other("decode: "@ + msg)
}

/// The error for a failed CBOR read with message `msg`.
pub fn cbor_error(msg: String) -> (e: RpcError)
    ensures
        e@ == cbor_failure(msg@),
{
    RpcError::Other(String::from_str("decode: ").concat(msg.as_str()))
}

/// The shape of the item at a position, as far as a message decoder tells
/// shapes apart.
pub enum Shape {
    Array,
    /// A map, keyed by field names.
    Dict,
    Other,
}

/// The shape that a displayed type name stands for.
pub open spec fn shape_of(name: Seq<char>) -> Shape {
    if name == "array"@ {
        Shape::Array
    } else if name == "map"@ {
        Shape::Dict
    } else {
        Shape::Other
    }
}

/// Looking at the shape of the item at `pos`.
pub open spec fn spec_shape_at(buf: Seq<u8>, pos: int) -> Result<Shape, RpcErrorView> {
    match cbor_datatype_at(buf, pos) {
        Ok(name) => Ok(shape_of(name)),
        Err(e) => Err(cbor_failure(e)),
    }
}

/// The type names of initial bytes other than those of arrays and maps of
/// definite length are neither "array" nor "map".
proof fn lemma_other_type_names(b: u8)
    requires
        initial_byte_type(b) is Some,
        !(0x80 <= b <= 0x9b),
        !(0xa0 <= b <= 0xbb),
    ensures
        shape_of(initial_byte_type(b)->0) == Shape::Other,
{
    reveal_strlit("array");
    reveal_strlit("map");
    reveal_strlit("u8");
    reveal_strlit("u16");
    reveal_strlit("u32");
    reveal_strlit("u64");
    reveal_strlit("i8");
    reveal_strlit("bytes");
    reveal_strlit("indefinite bytes");
    reveal_strlit("string");
    reveal_strlit("indefinite string");
    reveal_strlit("indefinite array");
    reveal_strlit("indefinite map");
    reveal_strlit("tag");
    reveal_strlit("simple");
    reveal_strlit("bool");
    reveal_strlit("null");
    reveal_strlit("undefined");
    reveal_strlit("f16");
    reveal_strlit("f32");
    reveal_strlit("f64");
    reveal_strlit("break");
    let n = initial_byte_type(b)->0;
    assert(n != "array"@ && n != "map"@) by {
        assert("array"@[0] == 'a' && "map"@[0] == 'm');
        assert("array"@.len() == 5 && "map"@.len() == 3);
    }
}

/// Looks at the shape of the item at `pos` without consuming it.
pub fn shape_at(buf: &[u8], pos: usize) -> (res: Result<Shape, RpcError>)
    ensures
        match res {
            Ok(s) => spec_shape_at(buf@, pos as int) == Ok::<Shape, RpcErrorView>(s),
            Err(e) => spec_shape_at(buf@, pos as int) == Err::<Shape, RpcErrorView>(e@),
        },
        pos < buf@.len() && 0x80 <= buf@[pos as int] <= 0x9b ==> res matches Ok(Shape::Array),
        pos < buf@.len() && 0xa0 <= buf@[pos as int] <= 0xbb ==> res matches Ok(Shape::Dict),
        pos < buf@.len() && initial_byte_type(buf@[pos as int]) is Some && !(0x80 <= buf@[pos as int]
            <= 0x9b) && !(0xa0 <= buf@[pos as int] <= 0xbb) ==> res matches Ok(Shape::Other),
{
    proof {
        reveal_strlit("array");
        reveal_strlit("map");
        assert("map"@.len() == 3);
        assert("array"@.len() == 5);
        assert("map"@ != "array"@);
        if pos < buf@.len() && initial_byte_type(buf@[pos as int]) is Some && !(0x80 <= buf@[pos as int]
            <= 0x9b) && !(0xa0 <= buf@[pos as int] <= 0xbb) {
            lemma_other_type_names(buf@[pos as int]);
        }
    }
    match read_datatype(buf, pos) {
        Ok(name) => {
            if str_eq(name.as_str(), "array") {
                Ok(Shape::Array)
            } else if str_eq(name.as_str(), "map") {
                Ok(Shape::Dict)
            } else {
                Ok(Shape::Other)
            }
        },
        Err(e) => Err(cbor_error(e)),
    }
}

/// Reading the header of an array of definite length at `pos`.
pub open spec fn spec_fixed_array(buf: Seq<u8>, pos: int) -> Result<(u64, int), RpcErrorView> {
    match cbor_array_at(buf, pos) {
        Ok((Some(n), p)) => Ok((n, p)),
        Ok((None, _)) => Err(RpcErrorView::Deser("indefinite array not expected"@)),
        Err(e) => Err(cbor_failure(e)),
    }
}

/// Reading the header of a map of definite size at `pos`.
pub open spec fn spec_fixed_map(buf: Seq<u8>, pos: int) -> Result<(u64, int), RpcErrorView> {
    match cbor_map_at(buf, pos) {
        Ok((Some(n), p)) => Ok((n, p)),
        Ok((None, _)) => Err(RpcErrorView::Deser("indefinite map not expected"@)),
        Err(e) => Err(cbor_failure(e)),
    }
}

/// An outcome of a positioned read with the error taken by its view.
pub open spec fn outcome<T>(r: Result<(T, usize), RpcError>) -> Result<(T, int), RpcErrorView> {
    match r {
        Ok((v, p)) => Ok((v, p as int)),
        Err(e) => Err(e@),
    }
}

/// Whether a positioned read that started at `pos` stopped inside the input
/// after consuming at least one byte.
pub open spec fn progressed<T>(r: Result<(T, usize), RpcError>, pos: int, len: int) -> bool {
    r matches Ok((_, p)) ==> pos < p <= len
}

/// Reads the header of an array of definite length at `pos`.
pub fn fixed_array(buf: &[u8], pos: usize) -> (res: Result<(u64, usize), RpcError>)
    ensures
        outcome(res) == spec_fixed_array(buf@, pos as int),
        progressed(res, pos as int, buf@.len() as int),
        forall|n: u64|
            holds_at(buf@, pos as int, #[trigger] cbor_head(4, n)) ==> (res matches Ok((m, p))
                && m == n && p == pos + cbor_head(4, n).len()),
{
    match read_array(buf, pos) {
        Ok((Some(n), p)) => Ok((n, p)),
        Ok((None, _)) => Err(RpcError::Deser(String::from_str("indefinite array not expected"))),
        Err(e) => Err(cbor_error(e)),
    }
}

/// Reads the header of a map of definite size at `pos`.
pub fn fixed_map(buf: &[u8], pos: usize) -> (res: Result<(u64, usize), RpcError>)
    ensures
        outcome(res) == spec_fixed_map(buf@, pos as int),
        progressed(res, pos as int, buf@.len() as int),
        forall|n: u64|
            holds_at(buf@, pos as int, #[trigger] cbor_head(5, n)) ==> (res matches Ok((m, p))
                && m == n && p == pos + cbor_head(5, n).len()),
{
    match read_map(buf, pos) {
        Ok((Some(n), p)) => Ok((n, p)),
        Ok((None, _)) => Err(RpcError::Deser(String::from_str("indefinite map not expected"))),
        Err(e) => Err(cbor_error(e)),
    }
}

} // verus!
