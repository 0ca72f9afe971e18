//! Messages of the pre-processing interface, which turns raw input such as
//! an image file into a tensor, with their CBOR encodings.

use vstd::prelude::*;
use crate::cbor::{
    cbor_bytes, cbor_bytes_at, cbor_head, cbor_skip_at, cbor_str_at, cbor_text, cbor_u16_at,
    holds_at, read_bytes, read_str, read_u16, skip_item, write_array, write_bytes, write_str,
    write_u16,
};
use crate::imagenet::lemma_holds_split;
use crate::mlinference_types::{Status, Tensor};
use crate::rpc::{
    cbor_error, cbor_failure, fixed_array, fixed_map, shape_at, spec_fixed_array, spec_fixed_map,
    spec_shape_at, RpcError, RpcErrorView, Shape,
};
use crate::text::{decimal, decimal_text, str_eq};

verus! {

/// The tensor that pre-processing produced, with its status.
#[derive(Clone, Debug)]
pub struct ConversionOutput {
    pub result: Status,
    pub tensor: Tensor,
}

/// Raw input to be turned into a tensor.
#[derive(Clone, Debug)]
pub struct ConversionRequest {
    pub data: Vec<u8>,
}

/// Errors of pre-processing.
#[derive(Clone, Debug)]
pub enum MlPError {
    RuntimeError(String),
    NotSupported(String),
}

/// The mathematical counterpart of an [`MlPError`].
pub enum MlPErrorView {
    RuntimeError(Seq<char>),
    NotSupported(Seq<char>),
}

impl View for MlPError {
    type V = MlPErrorView;

    open spec fn view(&self) -> MlPErrorView {
        match self {
            MlPError::RuntimeError(m) => MlPErrorView::RuntimeError(m@),
            MlPError::NotSupported(m) => MlPErrorView::NotSupported(m@),
        }
    }
}

/// The encoding of a conversion request: an array of its data.
pub open spec fn spec_encode_conversion_request(data: Seq<u8>) -> Seq<u8> {
    cbor_head(4, 1) + cbor_bytes(data)
}

/// Appends the encoding of `val`.
pub fn encode_conversion_request(out: &mut Vec<u8>, val: &ConversionRequest)
    ensures
        final(out)@ == old(out)@ + spec_encode_conversion_request(val.data@),
{
    write_array(out, 1);
    write_bytes(out, val.data.as_slice());
    proof {
        assert(out@ =~= old(out)@ + spec_encode_conversion_request(val.data@));
    }
}

/// The bytes of optional data.
pub open spec fn opt_bytes(o: Option<Vec<u8>>) -> Option<Seq<u8>> {
    match o {
        Some(v) => Some(v@),
        None => None,
    }
}

/// Decoding the fields of a request written as an array, from item `i` of
/// `len` on: the first item is the data, the rest are skipped.
pub open spec fn req_array_fields(buf: Seq<u8>, p: int, i: nat, len: nat, data: Option<Seq<u8>>) -> Result<
    (Option<Seq<u8>>, int),
    RpcErrorView,
>
    decreases len - i,
{
    if i >= len {
        Ok((data, p))
    } else if i == 0 {
        match cbor_bytes_at(buf, p) {
            Ok((b, q)) => req_array_fields(buf, q, i + 1, len, Some(b)),
            Err(e) => Err(cbor_failure(e)),
        }
    } else {
        match cbor_skip_at(buf, p) {
            Ok(q) => req_array_fields(buf, q, i + 1, len, data),
            Err(e) => Err(cbor_failure(e)),
        }
    }
}

/// Decoding the entries of a request written as a map, from entry `i` of
/// `len` on: the value under "data" is the data, other values are skipped.
pub open spec fn req_map_fields(buf: Seq<u8>, p: int, i: nat, len: nat, data: Option<Seq<u8>>) -> Result<
    (Option<Seq<u8>>, int),
    RpcErrorView,
>
    decreases len - i,
{
    if i >= len {
        Ok((data, p))
    } else {
        match cbor_str_at(buf, p) {
            Err(e) => Err(cbor_failure(e)),
            Ok((key, q)) => if key == "data"@ {
                match cbor_bytes_at(buf, q) {
                    Ok((b, r)) => req_map_fields(buf, r, i + 1, len, Some(b)),
                    Err(e) => Err(cbor_failure(e)),
                }
            } else {
                match cbor_skip_at(buf, q) {
                    Ok(r) => req_map_fields(buf, r, i + 1, len, data),
                    Err(e) => Err(cbor_failure(e)),
                }
            },
        }
    }
}

/// A request from the fields found, or the error for the missing data.
pub open spec fn req_finish(r: Result<(Option<Seq<u8>>, int), RpcErrorView>) -> Result<
    (Seq<u8>, int),
    RpcErrorView,
> {
    match r {
        Err(e) => Err(e),
        Ok((None, _)) => Err(RpcErrorView::Deser("missing field ConversionRequest.data (#0)"@)),
        Ok((Some(d), q)) => Ok((d, q)),
    }
}

/// Decoding a conversion request at `pos`, the result being its data: an
/// array of the data, or a map with the entry "data".
pub open spec fn spec_decode_conversion_request(buf: Seq<u8>, pos: int) -> Result<
    (Seq<u8>, int),
    RpcErrorView,
> {
    match spec_shape_at(buf, pos) {
        Err(e) => Err(e),
        Ok(Shape::Array) => match spec_fixed_array(buf, pos) {
            Err(e) => Err(e),
            Ok((n, q)) => req_finish(req_array_fields(buf, q, 0, n as nat, None)),
        },
        Ok(Shape::Dict) => match spec_fixed_map(buf, pos) {
            Err(e) => Err(e),
            Ok((n, q)) => req_finish(req_map_fields(buf, q, 0, n as nat, None)),
        },
        Ok(Shape::Other) => Err(
            RpcErrorView::Deser("decoding struct ConversionRequest, expected array or map"@),
        ),
    }
}

/// A decoded request with its position, taken by views.
pub open spec fn req_outcome(r: Result<(ConversionRequest, usize), RpcError>) -> Result<
    (Seq<u8>, int),
    RpcErrorView,
> {
    match r {
        Ok((v, p)) => Ok((v.data@, p as int)),
        Err(e) => Err(e@),
    }
}

/// Decodes a conversion request at `pos`, handing it back with the position
/// after it. What `encode_conversion_request` writes decodes to the same
/// request.
pub fn decode_conversion_request(buf: &[u8], pos: usize) -> (res: Result<
    (ConversionRequest, usize),
    RpcError,
>)
    ensures
        req_outcome(res) == spec_decode_conversion_request(buf@, pos as int),
        res matches Ok((_, p)) ==> pos < p <= buf@.len(),
        forall|d: Seq<u8>|
            holds_at(buf@, pos as int, #[trigger] spec_encode_conversion_request(d)) ==> (res matches Ok(
                (v, p),
            ) && v.data@ == d && p == pos + spec_encode_conversion_request(d).len()),
{
    proof {
        reveal_strlit("data");
        assert forall|d: Seq<u8>|
            holds_at(buf@, pos as int, #[trigger] spec_encode_conversion_request(d)) implies holds_at(
            buf@,
            pos as int,
            cbor_head(4, 1),
        ) && holds_at(buf@, pos + 1, cbor_bytes(d)) && buf@[pos as int] == 0x81 by {
            lemma_holds_split(buf@, pos as int, cbor_head(4, 1), cbor_bytes(d));
            assert(buf@[pos as int] == buf@.subrange(pos as int, pos + 1)[0]);
        }
    }
    let shape = match shape_at(buf, pos) {
        Ok(s) => s,
        Err(e) => return Err(e),
    };
    let mut data: Option<Vec<u8>> = None;
    let mut p: usize;
    match shape {
        Shape::Array => {
            let (len, p1) = match fixed_array(buf, pos) {
                Ok(x) => x,
                Err(e) => return Err(e),
            };
            p = p1;
            let mut i: u64 = 0;
            while i < len
                invariant
                    pos < p1 <= p <= buf@.len(),
                    i <= len,
                    spec_fixed_array(buf@, pos as int) == Ok::<(u64, int), RpcErrorView>(
                        (len, p1 as int),
                    ),
                    spec_shape_at(buf@, pos as int) == Ok::<Shape, RpcErrorView>(Shape::Array),
                    req_array_fields(buf@, p as int, i as nat, len as nat, opt_bytes(data))
                        == req_array_fields(buf@, p1 as int, 0, len as nat, None),
                    forall|d: Seq<u8>|
                        holds_at(buf@, pos as int, #[trigger] spec_encode_conversion_request(d)) ==> {
                            &&& len == 1
                            &&& p1 == pos + 1
                            &&& i == 0 ==> p == p1 && data is None
                            &&& i == 1 ==> p == p1 + cbor_bytes(d).len() && opt_bytes(data) == Some(d)
                        },
                decreases len - i,
            {
                if i == 0 {
                    match read_bytes(buf, p) {
                        Ok((b, q)) => {
                            proof {
                                assert forall|d: Seq<u8>|
                                    holds_at(buf@, pos as int, #[trigger] spec_encode_conversion_request(d))
                                    implies q == p1 + cbor_bytes(d).len() && b@ == d by {
                                    lemma_holds_split(buf@, pos as int, cbor_head(4, 1), cbor_bytes(d));
                                }
                            }
                            data = Some(b);
                            p = q;
                        },
                        Err(e) => {
                            proof {
                                assert forall|d: Seq<u8>|
                                    !holds_at(buf@, pos as int, #[trigger] spec_encode_conversion_request(d)) by {
                                    if holds_at(buf@, pos as int, spec_encode_conversion_request(d)) {
                                        lemma_holds_split(buf@, pos as int, cbor_head(4, 1), cbor_bytes(d));
                                    }
                                }
                            }
                            return Err(cbor_error(e));
                        },
                    }
                } else {
                    match skip_item(buf, p) {
                        Ok(q) => {
                            p = q;
                        },
                        Err(e) => return Err(cbor_error(e)),
                    }
                }
                i = i + 1;
            }
        },
        Shape::Dict => {
            let (len, p1) = match fixed_map(buf, pos) {
                Ok(x) => x,
                Err(e) => return Err(e),
            };
            p = p1;
            let mut i: u64 = 0;
            while i < len
                invariant
                    pos < p1 <= p <= buf@.len(),
                    i <= len,
                    spec_fixed_map(buf@, pos as int) == Ok::<(u64, int), RpcErrorView>(
                        (len, p1 as int),
                    ),
                    spec_shape_at(buf@, pos as int) == Ok::<Shape, RpcErrorView>(Shape::Dict),
                    req_map_fields(buf@, p as int, i as nat, len as nat, opt_bytes(data))
                        == req_map_fields(buf@, p1 as int, 0, len as nat, None),
                    forall|d: Seq<u8>|
                        !holds_at(buf@, pos as int, #[trigger] spec_encode_conversion_request(d)),
                decreases len - i,
            {
                let (key, q) = match read_str(buf, p) {
                    Ok(x) => x,
                    Err(e) => return Err(cbor_error(e)),
                };
                if str_eq(key.as_str(), "data") {
                    match read_bytes(buf, q) {
                        Ok((b, r)) => {
                            data = Some(b);
                            p = r;
                        },
                        Err(e) => return Err(cbor_error(e)),
                    }
                } else {
                    match skip_item(buf, q) {
                        Ok(r) => {
                            p = r;
                        },
                        Err(e) => return Err(cbor_error(e)),
                    }
                }
                i = i + 1;
            }
        },
        Shape::Other => {
            return Err(
                RpcError::Deser(
                    String::from_str("decoding struct ConversionRequest, expected array or map"),
                ),
            );
        },
    }
    match data {
        Some(d) => Ok((ConversionRequest { data: d }, p)),
        None => Err(RpcError::Deser(String::from_str("missing field ConversionRequest.data (#0)"))),
    }
}

/// The field number under which a pre-processing error variant is encoded.
pub open spec fn ml_p_error_tag(e: MlPErrorView) -> u16 {
    match e {
        MlPErrorView::RuntimeError(_) => 0,
        MlPErrorView::NotSupported(_) => 1,
    }
}

/// The message of a pre-processing error.
pub open spec fn ml_p_error_text(e: MlPErrorView) -> Seq<char> {
    match e {
        MlPErrorView::RuntimeError(m) => m,
        MlPErrorView::NotSupported(m) => m,
    }
}

/// The encoding of a pre-processing error: an array of its field number and
/// its message.
pub open spec fn spec_encode_ml_p_error(e: MlPErrorView) -> Seq<u8> {
    cbor_head(4, 2) + cbor_head(0, ml_p_error_tag(e) as u64) + cbor_text(ml_p_error_text(e))
}

/// Appends the encoding of `val`.
pub fn encode_ml_p_error(out: &mut Vec<u8>, val: &MlPError)
    ensures
        final(out)@ == old(out)@ + spec_encode_ml_p_error(val@),
{
    write_array(out, 2);
    match val {
        MlPError::RuntimeError(v) => {
            write_u16(out, 0);
            write_str(out, v.as_str());
        },
        MlPError::NotSupported(v) => {
            write_u16(out, 1);
            write_str(out, v.as_str());
        },
    }
    proof {
        assert(out@ =~= old(out)@ + spec_encode_ml_p_error(val@));
    }
}

/// Decoding a pre-processing error at `pos`: an array of exactly two items,
/// a field number and the message of the variant it selects.
pub open spec fn spec_decode_ml_p_error(buf: Seq<u8>, pos: int) -> Result<
    (MlPErrorView, int),
    RpcErrorView,
> {
    match spec_fixed_array(buf, pos) {
        Err(e) => Err(e),
        Ok((len, q)) => if len != 2 {
            Err(RpcErrorView::Deser("decoding union 'MlPError': expected 2-array"@))
        } else {
            match cbor_u16_at(buf, q) {
                Err(e) => Err(cbor_failure(e)),
                Ok((n, r)) => if n == 0 || n == 1 {
                    match cbor_str_at(buf, r) {
                        Err(e) => Err(cbor_failure(e)),
                        Ok((s, t)) => Ok(
                            (
                                if n == 0 {
                                    MlPErrorView::RuntimeError(s)
                                } else {
                                    MlPErrorView::NotSupported(s)
                                },
                                t,
                            ),
                        ),
                    }
                } else {
                    Err(
                        RpcErrorView::Deser(
                            "invalid field number for union 'org.wasmcloud.interface.mlpreprocessing#MlPError':"@
                                + decimal(n as nat),
                        ),
                    )
                },
            }
        },
    }
}

/// A decoded pre-processing error with its position, taken by views.
pub open spec fn ml_p_outcome(r: Result<(MlPError, usize), RpcError>) -> Result<
    (MlPErrorView, int),
    RpcErrorView,
> {
    match r {
        Ok((v, p)) => Ok((v@, p as int)),
        Err(e) => Err(e@),
    }
}

/// Decodes a pre-processing error at `pos`, handing it back with the
/// position after it. What `encode_ml_p_error` writes decodes to the same
/// error.
pub fn decode_ml_p_error(buf: &[u8], pos: usize) -> (res: Result<(MlPError, usize), RpcError>)
    ensures
        ml_p_outcome(res) == spec_decode_ml_p_error(buf@, pos as int),
        forall|e: MlPErrorView|
            holds_at(buf@, pos as int, #[trigger] spec_encode_ml_p_error(e)) ==> (res matches Ok(
                (v, p),
            ) && v@ == e && p == pos + spec_encode_ml_p_error(e).len()),
{
    proof {
        assert forall|e: MlPErrorView|
            holds_at(buf@, pos as int, #[trigger] spec_encode_ml_p_error(e)) implies holds_at(
            buf@,
            pos as int,
            cbor_head(4, 2),
        ) by {
            let h = cbor_head(4, 2);
            let t = cbor_head(0, ml_p_error_tag(e) as u64);
            let m = cbor_text(ml_p_error_text(e));
            assert(spec_encode_ml_p_error(e) == h + t + m);
            lemma_holds_split(buf@, pos as int, h + t, m);
            lemma_holds_split(buf@, pos as int, h, t);
        }
    }
    let (len, q) = match fixed_array(buf, pos) {
        Ok(x) => x,
        Err(e) => return Err(e),
    };
    proof {
        assert forall|e: MlPErrorView|
            holds_at(buf@, pos as int, #[trigger] spec_encode_ml_p_error(e)) implies len == 2 && q
            == pos + 1 && holds_at(buf@, pos + 1, cbor_head(0, ml_p_error_tag(e) as u64)) && holds_at(
            buf@,
            pos + 1 + cbor_head(0, ml_p_error_tag(e) as u64).len(),
            cbor_text(ml_p_error_text(e)),
        ) by {
            let h = cbor_head(4, 2);
            let t = cbor_head(0, ml_p_error_tag(e) as u64);
            let m = cbor_text(ml_p_error_text(e));
            assert(spec_encode_ml_p_error(e) == h + t + m);
            lemma_holds_split(buf@, pos as int, h + t, m);
            lemma_holds_split(buf@, pos as int, h, t);
        }
    }
    if len != 2 {
        return Err(RpcError::Deser(String::from_str("decoding union 'MlPError': expected 2-array")));
    }
    let (n, r) = match read_u16(buf, q) {
        Ok(x) => x,
        Err(e) => return Err(cbor_error(e)),
    };
    if n == 0 {
        match read_str(buf, r) {
            Ok((s, t)) => Ok((MlPError::RuntimeError(s), t)),
            Err(e) => Err(cbor_error(e)),
        }
    } else if n == 1 {
        match read_str(buf, r) {
            Ok((s, t)) => Ok((MlPError::NotSupported(s), t)),
            Err(e) => Err(cbor_error(e)),
        }
    } else {
        let msg = String::from_str(
            "invalid field number for union 'org.wasmcloud.interface.mlpreprocessing#MlPError':",
        ).concat(decimal_text(n as u64).as_str());
        Err(RpcError::Deser(msg))
    }
}

/// The shape name under which a failure in the nested status is reported.
pub open spec fn status_shape() -> Seq<char> {
    "org.wasmcloud.interface.mlinference#Status"@
}

/// The shape name under which a failure in the nested tensor is reported.
pub open spec fn tensor_shape() -> Seq<char> {
    "org.wasmcloud.interface.mlinference#Tensor"@
}

/// A conversion output from the fields found, or the error for the first
/// missing one.
pub open spec fn conv_finish(result: Option<Status>, tensor: Option<Tensor>, p: usize) -> Result<
    (ConversionOutput, usize),
    RpcErrorView,
> {
    match result {
        None => Err(RpcErrorView::Deser("missing field ConversionOutput.result (#0)"@)),
        Some(s) => match tensor {
            None => Err(RpcErrorView::Deser("missing field ConversionOutput.tensor (#1)"@)),
            Some(t) => Ok((ConversionOutput { result: s, tensor: t }, p)),
        },
    }
}

/// The error for a failure in a nested item of the shape named `shape`.
pub open spec fn nested(shape: Seq<char>, e: RpcError) -> Result<(ConversionOutput, usize), RpcErrorView> {
    Err(RpcErrorView::Nested(shape, Box::new(e@)))
}

/// Whether `out` is a possible outcome of decoding the fields of a
/// conversion output from item `i` of `len` on, at position `p`, having
/// found `result` and `tensor` so far. Written as an array, the first item
/// is the status and the second the tensor; written as a map, the values
/// under "result" and "tensor" are. The status and the tensor are read with
/// the given decoders; any other item is skipped.
pub open spec fn conv_fields<FS, FT>(
    decode_status: FS,
    decode_tensor: FT,
    buf: &[u8],
    as_array: bool,
    p: usize,
    i: nat,
    len: nat,
    result: Option<Status>,
    tensor: Option<Tensor>,
    out: Result<(ConversionOutput, usize), RpcErrorView>,
) -> bool where
    FS: Fn(&[u8], usize) -> Result<(Status, usize), RpcError>,
    FT: Fn(&[u8], usize) -> Result<(Tensor, usize), RpcError>,
    decreases len - i,
{
    if i >= len {
        out == conv_finish(result, tensor, p)
    } else {
        let status_at = |q: usize|
            exists|r: Result<(Status, usize), RpcError>|
                #[trigger] call_ensures(decode_status, (buf, q), r) && match r {
                    Ok((s, t)) => conv_fields(decode_status, decode_tensor, buf, as_array, t, i + 1, len, Some(s), tensor, out),
                    Err(e) => out == nested(status_shape(), e),
                };
        let tensor_at = |q: usize|
            exists|r: Result<(Tensor, usize), RpcError>|
                #[trigger] call_ensures(decode_tensor, (buf, q), r) && match r {
                    Ok((v, t)) => conv_fields(decode_status, decode_tensor, buf, as_array, t, i + 1, len, result, Some(v), out),
                    Err(e) => out == nested(tensor_shape(), e),
                };
        let skip_at = |q: int|
            match cbor_skip_at(buf@, q) {
                Ok(t) => conv_fields(decode_status, decode_tensor, buf, as_array, t as usize, i + 1, len, result, tensor, out),
                Err(e) => out == Err::<(ConversionOutput, usize), RpcErrorView>(cbor_failure(e)),
            };
        if as_array {
            if i == 0 {
                status_at(p)
            } else if i == 1 {
                tensor_at(p)
            } else {
                skip_at(p as int)
            }
        } else {
            match cbor_str_at(buf@, p as int) {
                Err(e) => out == Err::<(ConversionOutput, usize), RpcErrorView>(cbor_failure(e)),
                Ok((key, q)) => if key == "result"@ {
                    status_at(q as usize)
                } else if key == "tensor"@ {
                    tensor_at(q as usize)
                } else {
                    skip_at(q)
                },
            }
        }
    }
}

/// Appends the encoding of `val`: an array of its status and its tensor,
/// each written by the given encoder.
pub fn encode_conversion_output<FS, FT>(
    out: &mut Vec<u8>,
    val: &ConversionOutput,
    encode_status: FS,
    encode_tensor: FT,
) where
    FS: Fn(&Status) -> Vec<u8>,
    FT: Fn(&Tensor) -> Vec<u8>,

    requires
        call_requires(encode_status, (&val.result,)),
        call_requires(encode_tensor, (&val.tensor,)),
    ensures
        exists|a: Vec<u8>, b: Vec<u8>|
            #[trigger] call_ensures(encode_status, (&val.result,), a) && #[trigger] call_ensures(
                encode_tensor,
                (&val.tensor,),
                b,
            ) && final(out)@ == old(out)@ + cbor_head(4, 2) + a@ + b@,
{
    write_array(out, 2);
    let mut a = encode_status(&val.result);
    let ghost a0 = a;
    let mut b = encode_tensor(&val.tensor);
    let ghost b0 = b;
    out.append(&mut a);
    out.append(&mut b);
    proof {
        assert(out@ =~= old(out)@ + cbor_head(4, 2) + a0@ + b0@);
    }
}

/// Whether `out` is a possible outcome of decoding a conversion output at
/// `pos`, with the status and the tensor read by the given decoders: an
/// array of status and tensor, or a map with the entries "result" and
/// "tensor".
pub open spec fn spec_decode_conversion_output<FS, FT>(
    decode_status: FS,
    decode_tensor: FT,
    buf: &[u8],
    pos: usize,
    out: Result<(ConversionOutput, usize), RpcErrorView>,
) -> bool where
    FS: Fn(&[u8], usize) -> Result<(Status, usize), RpcError>,
    FT: Fn(&[u8], usize) -> Result<(Tensor, usize), RpcError>,
{
    match spec_shape_at(buf@, pos as int) {
        Err(e) => out == Err::<(ConversionOutput, usize), RpcErrorView>(e),
        Ok(Shape::Array) => match spec_fixed_array(buf@, pos as int) {
            Err(e) => out == Err::<(ConversionOutput, usize), RpcErrorView>(e),
            Ok((n, q)) => conv_fields(decode_status, decode_tensor, buf, true, q as usize, 0, n as nat, None, None, out),
        },
        Ok(Shape::Dict) => match spec_fixed_map(buf@, pos as int) {
            Err(e) => out == Err::<(ConversionOutput, usize), RpcErrorView>(e),
            Ok((n, q)) => conv_fields(decode_status, decode_tensor, buf, false, q as usize, 0, n as nat, None, None, out),
        },
        Ok(Shape::Other) => out == Err::<(ConversionOutput, usize), RpcErrorView>(
            RpcErrorView::Deser("decoding struct ConversionOutput, expected array or map"@),
        ),
    }
}

/// A decoded conversion output with its position, the error taken by its
/// view.
pub open spec fn conv_outcome(r: Result<(ConversionOutput, usize), RpcError>) -> Result<
    (ConversionOutput, usize),
    RpcErrorView,
> {
    match r {
        Ok(x) => Ok(x),
        Err(e) => Err(e@),
    }
}

fn nested_error(shape: &str, e: RpcError) -> (r: RpcError)
    ensures
        r@ == RpcErrorView::Nested(shape@, Box::new(e@)),
{
    RpcError::Nested(String::from_str(shape), Box::new(e))
}

/// Whether `decode_status` reads the status `s` at `q`, stopping at `end`,
/// whatever else it may do.
pub open spec fn status_reads_as<FS>(decode_status: FS, buf: &[u8], q: usize, s: Status, end: usize) -> bool where
    FS: Fn(&[u8], usize) -> Result<(Status, usize), RpcError>,
 {
    forall|r: Result<(Status, usize), RpcError>|
        #[trigger] call_ensures(decode_status, (buf, q), r) ==> r == Ok::<(Status, usize), RpcError>((s, end))
}

/// Whether `decode_tensor` reads the tensor `t` at `q`, stopping at `end`.
pub open spec fn tensor_reads_as<FT>(decode_tensor: FT, buf: &[u8], q: usize, t: Tensor, end: usize) -> bool where
    FT: Fn(&[u8], usize) -> Result<(Tensor, usize), RpcError>,
 {
    forall|r: Result<(Tensor, usize), RpcError>|
        #[trigger] call_ensures(decode_tensor, (buf, q), r) ==> r == Ok::<(Tensor, usize), RpcError>((t, end))
}

/// An array of two items that the decoders read as a status and a tensor
/// decodes to the output of that status and tensor.
pub proof fn lemma_two_fields<FS, FT>(
    decode_status: FS,
    decode_tensor: FT,
    buf: &[u8],
    q: usize,
    s: Status,
    t: Tensor,
    q1: usize,
    q2: usize,
    out: Result<(ConversionOutput, usize), RpcErrorView>,
) where
    FS: Fn(&[u8], usize) -> Result<(Status, usize), RpcError>,
    FT: Fn(&[u8], usize) -> Result<(Tensor, usize), RpcError>,

    requires
        status_reads_as(decode_status, buf, q, s, q1),
        tensor_reads_as(decode_tensor, buf, q1, t, q2),
        conv_fields(decode_status, decode_tensor, buf, true, q, 0, 2, None, None, out),
    ensures
        out == Ok::<(ConversionOutput, usize), RpcErrorView>((ConversionOutput { result: s, tensor: t }, q2)),
{
    let r = choose|r: Result<(Status, usize), RpcError>|
        #[trigger] call_ensures(decode_status, (buf, q), r) && match r {
            Ok((s2, e2)) => conv_fields(decode_status, decode_tensor, buf, true, e2, 1, 2, Some(s2), None, out),
            Err(e) => out == nested(status_shape(), e),
        };
    assert(r == Ok::<(Status, usize), RpcError>((s, q1)));
    let r2 = choose|r2: Result<(Tensor, usize), RpcError>|
        #[trigger] call_ensures(decode_tensor, (buf, q1), r2) && match r2 {
            Ok((v, e2)) => conv_fields(decode_status, decode_tensor, buf, true, e2, 2, 2, Some(s), Some(v), out),
            Err(e) => out == nested(tensor_shape(), e),
        };
    assert(r2 == Ok::<(Tensor, usize), RpcError>((t, q2)));
}

/// Whether `decode_status` reads back what `encode_status` writes: wherever
/// a buffer holds the encoding of a status, the decoder reads that status
/// there and stops right after the encoding.
pub open spec fn status_codec_inverts<ES, DS>(encode_status: ES, decode_status: DS) -> bool where
    ES: Fn(&Status) -> Vec<u8>,
    DS: Fn(&[u8], usize) -> Result<(Status, usize), RpcError>,
 {
    forall|s: Status, a: Vec<u8>, buf: &[u8], q: usize|
        #![trigger call_ensures(encode_status, (&s,), a), status_reads_as(decode_status, buf, q, s, (q + a@.len()) as usize)]
        call_ensures(encode_status, (&s,), a) && holds_at(buf@, q as int, a@) && q + a@.len() <= usize::MAX
            ==> status_reads_as(decode_status, buf, q, s, (q + a@.len()) as usize)
}

/// Whether `decode_tensor` reads back what `encode_tensor` writes.
pub open spec fn tensor_codec_inverts<ET, DT>(encode_tensor: ET, decode_tensor: DT) -> bool where
    ET: Fn(&Tensor) -> Vec<u8>,
    DT: Fn(&[u8], usize) -> Result<(Tensor, usize), RpcError>,
 {
    forall|t: Tensor, b: Vec<u8>, buf: &[u8], q: usize|
        #![trigger call_ensures(encode_tensor, (&t,), b), tensor_reads_as(decode_tensor, buf, q, t, (q + b@.len()) as usize)]
        call_ensures(encode_tensor, (&t,), b) && holds_at(buf@, q as int, b@) && q + b@.len() <= usize::MAX
            ==> tensor_reads_as(decode_tensor, buf, q, t, (q + b@.len()) as usize)
}

/// A conversion output that `encode_conversion_output` wrote is read back by
/// `decode_conversion_output`, where the status and tensor decoders read
/// back what the status and tensor encoders write: the buffer starts with
/// the head of a two-item array, the decoders read the output's status and
/// tensor from the two items, and decoding the fields gives the output
/// back, ending right after the encoding.
pub proof fn law_conversion_output_round_trip<ES, ET, DS, DT>(
    encode_status: ES,
    encode_tensor: ET,
    decode_status: DS,
    decode_tensor: DT,
    o: ConversionOutput,
    a: Vec<u8>,
    b: Vec<u8>,
    buf: &[u8],
    pos: usize,
) where
    ES: Fn(&Status) -> Vec<u8>,
    ET: Fn(&Tensor) -> Vec<u8>,
    DS: Fn(&[u8], usize) -> Result<(Status, usize), RpcError>,
    DT: Fn(&[u8], usize) -> Result<(Tensor, usize), RpcError>,

    requires
        call_ensures(encode_status, (&o.result,), a),
        call_ensures(encode_tensor, (&o.tensor,), b),
        holds_at(buf@, pos as int, cbor_head(4, 2) + a@ + b@),
        buf@.len() <= usize::MAX,
        status_codec_inverts(encode_status, decode_status),
        tensor_codec_inverts(encode_tensor, decode_tensor),
    ensures
        pos < buf@.len() && buf@[pos as int] == 0x82,
        status_reads_as(decode_status, buf, (pos + 1) as usize, o.result, (pos + 1 + a@.len()) as usize),
        tensor_reads_as(
            decode_tensor,
            buf,
            (pos + 1 + a@.len()) as usize,
            o.tensor,
            (pos + 1 + a@.len() + b@.len()) as usize,
        ),
        forall|out: Result<(ConversionOutput, usize), RpcErrorView>|
            #[trigger] conv_fields(decode_status, decode_tensor, buf, true, (pos + 1) as usize, 0, 2, None, None, out)
                ==> out == Ok::<(ConversionOutput, usize), RpcErrorView>(
                (o, (pos + 1 + a@.len() + b@.len()) as usize),
            ),
{
    let h = cbor_head(4, 2);
    assert(h =~= seq![0x82u8]);
    lemma_holds_split(buf@, pos as int, h + a@, b@);
    lemma_holds_split(buf@, pos as int, h, a@);
    assert(buf@[pos as int] == buf@.subrange(pos as int, pos + 1)[0]);
    let q1 = (pos + 1) as usize;
    let q2 = (pos + 1 + a@.len()) as usize;
    let q3 = (pos + 1 + a@.len() + b@.len()) as usize;
    assert(status_reads_as(decode_status, buf, q1, o.result, (q1 + a@.len()) as usize));
    assert(tensor_reads_as(decode_tensor, buf, q2, o.tensor, (q2 + b@.len()) as usize));
    assert forall|out: Result<(ConversionOutput, usize), RpcErrorView>|
        #[trigger] conv_fields(decode_status, decode_tensor, buf, true, q1, 0, 2, None, None, out)
            implies out == Ok::<(ConversionOutput, usize), RpcErrorView>((o, q3)) by {
        lemma_two_fields(decode_status, decode_tensor, buf, q1, o.result, o.tensor, q2, q3, out);
        assert(ConversionOutput { result: o.result, tensor: o.tensor } == o);
    }
}

/// Decodes a conversion output at `pos`, reading its status with
/// `decode_status` and its tensor with `decode_tensor`, and hands it back
/// with the position after it. An array of two items that the decoders read
/// as a status and a tensor decodes to the output of that status and tensor.
pub fn decode_conversion_output<FS, FT>(
    buf: &[u8],
    pos: usize,
    decode_status: FS,
    decode_tensor: FT,
) -> (res: Result<(ConversionOutput, usize), RpcError>) where
    FS: Fn(&[u8], usize) -> Result<(Status, usize), RpcError>,
    FT: Fn(&[u8], usize) -> Result<(Tensor, usize), RpcError>,

    requires
        forall|q: usize| #[trigger] call_requires(decode_status, (buf, q)),
        forall|q: usize| #[trigger] call_requires(decode_tensor, (buf, q)),
    ensures
        spec_decode_conversion_output(decode_status, decode_tensor, buf, pos, conv_outcome(res)),
        forall|s: Status, t: Tensor, q1: usize, q2: usize|
            #![trigger status_reads_as(decode_status, buf, (pos + 1) as usize, s, q1), tensor_reads_as(decode_tensor, buf, q1, t, q2)]
            pos < buf@.len() && buf@[pos as int] == 0x82 && status_reads_as(
                decode_status,
                buf,
                (pos + 1) as usize,
                s,
                q1,
            ) && tensor_reads_as(decode_tensor, buf, q1, t, q2) ==> (res matches Ok((o, p)) && o.result == s
                && o.tensor == t && p == q2),
{
    let res = decode_output_fields(buf, pos, decode_status, decode_tensor);
    proof {
        assert forall|s: Status, t: Tensor, q1: usize, q2: usize|
            pos < buf@.len() && buf@[pos as int] == 0x82 && #[trigger] status_reads_as(
                decode_status,
                buf,
                (pos + 1) as usize,
                s,
                q1,
            ) && #[trigger] tensor_reads_as(decode_tensor, buf, q1, t, q2) implies (res matches Ok((o, p))
            && o.result == s && o.tensor == t && p == q2) by {
            lemma_two_fields(decode_status, decode_tensor, buf, (pos + 1) as usize, s, t, q1, q2, conv_outcome(res));
        }
    }
    res
}

fn decode_output_fields<FS, FT>(
    buf: &[u8],
    pos: usize,
    decode_status: FS,
    decode_tensor: FT,
) -> (res: Result<(ConversionOutput, usize), RpcError>) where
    FS: Fn(&[u8], usize) -> Result<(Status, usize), RpcError>,
    FT: Fn(&[u8], usize) -> Result<(Tensor, usize), RpcError>,

    requires
        forall|q: usize| #[trigger] call_requires(decode_status, (buf, q)),
        forall|q: usize| #[trigger] call_requires(decode_tensor, (buf, q)),
    ensures
        spec_decode_conversion_output(decode_status, decode_tensor, buf, pos, conv_outcome(res)),
        pos < buf@.len() && buf@[pos as int] == 0x82 ==> spec_shape_at(buf@, pos as int) == Ok::<
            Shape,
            RpcErrorView,
        >(Shape::Array) && spec_fixed_array(buf@, pos as int) == Ok::<(u64, int), RpcErrorView>(
            (2, pos + 1),
        ),
{
    proof {
        if pos < buf@.len() && buf@[pos as int] == 0x82 {
            assert(buf@.subrange(pos as int, pos + 1) =~= cbor_head(4, 2));
        }
    }
    proof {
        reveal_strlit("org.wasmcloud.interface.mlinference#Status");
        reveal_strlit("org.wasmcloud.interface.mlinference#Tensor");
    }
    let status_name = "org.wasmcloud.interface.mlinference#Status";
    let tensor_name = "org.wasmcloud.interface.mlinference#Tensor";
    let shape = match shape_at(buf, pos) {
        Ok(s) => s,
        Err(e) => return Err(e),
    };
    let as_array = match shape {
        Shape::Array => true,
        Shape::Dict => false,
        Shape::Other => {
            return Err(
                RpcError::Deser(
                    String::from_str("decoding struct ConversionOutput, expected array or map"),
                ),
            );
        },
    };
    let head = if as_array {
        fixed_array(buf, pos)
    } else {
        fixed_map(buf, pos)
    };
    let (len, p1) = match head {
        Ok(x) => x,
        Err(e) => return Err(e),
    };
    let mut result: Option<Status> = None;
    let mut tensor: Option<Tensor> = None;
    let mut p: usize = p1;
    let mut i: u64 = 0;
    while i < len
        invariant
            forall|q: usize| #[trigger] call_requires(decode_status, (buf, q)),
            forall|q: usize| #[trigger] call_requires(decode_tensor, (buf, q)),
            i <= len,
            status_name@ == status_shape(),
            tensor_name@ == tensor_shape(),
            pos < buf@.len() && buf@[pos as int] == 0x82 ==> as_array && len == 2 && p1 == pos + 1,
            as_array ==> spec_shape_at(buf@, pos as int) == Ok::<Shape, RpcErrorView>(Shape::Array)
                && spec_fixed_array(buf@, pos as int) == Ok::<(u64, int), RpcErrorView>((len, p1 as int)),
            !as_array ==> spec_shape_at(buf@, pos as int) == Ok::<Shape, RpcErrorView>(Shape::Dict)
                && spec_fixed_map(buf@, pos as int) == Ok::<(u64, int), RpcErrorView>((len, p1 as int)),
            forall|o: Result<(ConversionOutput, usize), RpcErrorView>|
                #[trigger] conv_fields(decode_status, decode_tensor, buf, as_array, p, i as nat, len as nat, result, tensor, o)
                    ==> conv_fields(decode_status, decode_tensor, buf, as_array, p1, 0, len as nat, None, None, o),
        decreases len - i,
    {
        let ghost p0 = p;
        let ghost result0 = result;
        let ghost tensor0 = tensor;
        // the field that the value at `q` holds: 0 the status, 1 the tensor, 2 none (skipped)
        let mut which: u8 = 2;
        let mut q: usize = p;
        if as_array {
            if i == 0 {
                which = 0;
            } else if i == 1 {
                which = 1;
            }
        } else {
            match read_str(buf, p) {
                Ok((key, after)) => {
                    q = after;
                    if str_eq(key.as_str(), "result") {
                        which = 0;
                    } else if str_eq(key.as_str(), "tensor") {
                        which = 1;
                    }
                },
                Err(e) => {
                    let err = cbor_error(e);
                    proof {
                        assert(conv_fields(decode_status, decode_tensor, buf, as_array, p0, i as nat, len as nat, result0, tensor0, conv_outcome(Err::<(ConversionOutput, usize), RpcError>(err))));
                    }
                    return Err(err);
                },
            }
        }
        if which == 0 {
            let r = decode_status(buf, q);
            let ghost r0 = r;
            match r {
                Ok((s, t)) => {
                    result = Some(s);
                    p = t;
                },
                Err(e) => {
                    let err = nested_error(status_name, e);
                    proof {
                        assert(conv_fields(decode_status, decode_tensor, buf, as_array, p0, i as nat, len as nat, result0, tensor0, conv_outcome(Err::<(ConversionOutput, usize), RpcError>(err))));
                    }
                    return Err(err);
                },
            }
        } else if which == 1 {
            let r = decode_tensor(buf, q);
            let ghost r0 = r;
            match r {
                Ok((v, t)) => {
                    tensor = Some(v);
                    p = t;
                },
                Err(e) => {
                    let err = nested_error(tensor_name, e);
                    proof {
                        assert(conv_fields(decode_status, decode_tensor, buf, as_array, p0, i as nat, len as nat, result0, tensor0, conv_outcome(Err::<(ConversionOutput, usize), RpcError>(err))));
                    }
                    return Err(err);
                },
            }
        } else {
            match skip_item(buf, q) {
                Ok(t) => {
                    p = t;
                },
                Err(e) => {
                    let err = cbor_error(e);
                    proof {
                        assert(conv_fields(decode_status, decode_tensor, buf, as_array, p0, i as nat, len as nat, result0, tensor0, conv_outcome(Err::<(ConversionOutput, usize), RpcError>(err))));
                    }
                    return Err(err);
                },
            }
        }
        let ghost i0 = i;
        i = i + 1;
        proof {
            assert forall|o: Result<(ConversionOutput, usize), RpcErrorView>|
                #[trigger] conv_fields(decode_status, decode_tensor, buf, as_array, p, i as nat, len as nat, result, tensor, o)
                    implies conv_fields(decode_status, decode_tensor, buf, as_array, p1, 0, len as nat, None, None, o) by {
                assert(conv_fields(decode_status, decode_tensor, buf, as_array, p0, i0 as nat, len as nat, result0, tensor0, o));
            }
        }
    }
    proof {
        assert(conv_fields(decode_status, decode_tensor, buf, as_array, p, i as nat, len as nat, result, tensor, conv_finish(result, tensor, p)));
    }
    match result {
        None => Err(RpcError::Deser(String::from_str("missing field ConversionOutput.result (#0)"))),
        Some(s) => match tensor {
            None => Err(RpcError::Deser(String::from_str("missing field ConversionOutput.tensor (#1)"))),
            Some(t) => Ok((ConversionOutput { result: s, tensor: t }, p)),
        },
    }
}

/// The operations of the pre-processing service.
#[derive(Debug, PartialEq, Eq, Structural)]
pub enum MlPreprocessingOperation {
    /// Turns raw input into a tensor.
    Convert,
}

/// The method name under which the reply to a conversion request is sent.
pub const MLPREPROCESSING_CONVERT_REPLY: &'static str = "MlPreprocessing.Convert";

/// The operation that a message to the pre-processing service asks for:
/// "Convert", or no operation, which is an error naming the method.
pub fn mlpreprocessing_operation(method: &str) -> (r: Result<MlPreprocessingOperation, RpcError>)
    ensures
        method@ == "Convert"@ ==> r == Ok::<MlPreprocessingOperation, RpcError>(
            MlPreprocessingOperation::Convert,
        ),
        method@ != "Convert"@ ==> (r matches Err(e) && e@ == RpcErrorView::MethodNotHandled(
            "MlPreprocessing::"@ + method@,
        )),
{
    if str_eq(method, "Convert") {
        Ok(MlPreprocessingOperation::Convert)
    } else {
        Err(RpcError::MethodNotHandled(String::from_str("MlPreprocessing::").concat(method)))
    }
}

} // verus!
