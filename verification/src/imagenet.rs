//! Messages of the image-classification post-processing interface: the
//! classification of an image into a labelled class with a probability, and
//! the list of such matches, with their CBOR encodings.

use vstd::prelude::*;
use crate::cbor::{
    be_bytes, cbor_float_bits, cbor_head, cbor_skip_at, cbor_str_at, cbor_text, holds_at, read_float_bits,
    read_array, read_datatype, read_str, skip_item, cbor_datatype_at, cbor_array_at, spec_read_float, write_array, write_float_bits, write_str,
    lemma_float_roundtrip, gives,
};
use crate::rpc::{
    cbor_error, cbor_failure, fixed_array, fixed_map, shape_at, spec_fixed_array, spec_fixed_map,
    spec_shape_at, RpcError, RpcErrorView, Shape,
};
use crate::text::str_eq;

verus! {

/// A class that an image was matched to, with the probability of the match.
///
/// The probability is a single-precision float, held here by its IEEE 754
/// bits.
#[derive(Debug)]
pub struct Classification {
    pub label: String,
    pub probability_bits: u32,
}

/// The mathematical counterpart of a [`Classification`].
pub struct ClassificationView {
    pub label: Seq<char>,
    pub probability_bits: u32,
}

impl View for Classification {
    type V = ClassificationView;

    open spec fn view(&self) -> ClassificationView {
        ClassificationView { label: self.label@, probability_bits: self.probability_bits }
    }
}

/// The classifications of an image, best first.
pub type Matches = Vec<Classification>;

/// The encoding of a classification: an array of its label and its
/// probability.
pub open spec fn spec_encode_classification(c: ClassificationView) -> Seq<u8> {
    cbor_head(4, 2) + cbor_text(c.label) + cbor_float_bits(c.probability_bits)
}

/// Appends the encoding of `val`.
pub fn encode_classification(out: &mut Vec<u8>, val: &Classification)
    ensures
        final(out)@ == old(out)@ + spec_encode_classification(val@),
{
    write_array(out, 2);
    write_str(out, val.label.as_str());
    write_float_bits(out, val.probability_bits);
    proof {
        assert(out@ =~= old(out)@ + spec_encode_classification(val@));
    }
}

/// The characters of an optional text.
pub open spec fn opt_text(o: Option<String>) -> Option<Seq<char>> {
    match o {
        Some(s) => Some(s@),
        None => None,
    }
}

/// Decoding the fields of a classification written as an array, from item
/// `i` of `len` on: the first item is the label, the second the
/// probability, the rest are skipped.
pub open spec fn cls_array_fields(
    buf: Seq<u8>,
    p: int,
    i: nat,
    len: nat,
    label: Option<Seq<char>>,
    prob: Option<u32>,
) -> Result<(Option<Seq<char>>, Option<u32>, int), RpcErrorView>
    decreases len - i,
{
    if i >= len {
        Ok((label, prob, p))
    } else if i == 0 {
        match cbor_str_at(buf, p) {
            Ok((s, q)) => cls_array_fields(buf, q, i + 1, len, Some(s), prob),
            Err(e) => Err(cbor_failure(e)),
        }
    } else if i == 1 {
        match spec_read_float(buf, p) {
            Ok((b, q)) => cls_array_fields(buf, q, i + 1, len, label, Some(b)),
            Err(e) => Err(cbor_failure(e)),
        }
    } else {
        match cbor_skip_at(buf, p) {
            Ok(q) => cls_array_fields(buf, q, i + 1, len, label, prob),
            Err(e) => Err(cbor_failure(e)),
        }
    }
}

/// Decoding the entries of a classification written as a map, from entry
/// `i` of `len` on: the value under "label" is the label, the value under
/// "probability" the probability, other values are skipped.
pub open spec fn cls_map_fields(
    buf: Seq<u8>,
    p: int,
    i: nat,
    len: nat,
    label: Option<Seq<char>>,
    prob: Option<u32>,
) -> Result<(Option<Seq<char>>, Option<u32>, int), RpcErrorView>
    decreases len - i,
{
    if i >= len {
        Ok((label, prob, p))
    } else {
        match cbor_str_at(buf, p) {
            Err(e) => Err(cbor_failure(e)),
            Ok((key, q)) => if key == "label"@ {
                match cbor_str_at(buf, q) {
                    Ok((s, r)) => cls_map_fields(buf, r, i + 1, len, Some(s), prob),
                    Err(e) => Err(cbor_failure(e)),
                }
            } else if key == "probability"@ {
                match spec_read_float(buf, q) {
                    Ok((b, r)) => cls_map_fields(buf, r, i + 1, len, label, Some(b)),
                    Err(e) => Err(cbor_failure(e)),
                }
            } else {
                match cbor_skip_at(buf, q) {
                    Ok(r) => cls_map_fields(buf, r, i + 1, len, label, prob),
                    Err(e) => Err(cbor_failure(e)),
                }
            },
        }
    }
}

/// A classification from the fields found, or the error for the first
/// missing one.
pub open spec fn cls_finish(
    r: Result<(Option<Seq<char>>, Option<u32>, int), RpcErrorView>,
) -> Result<(ClassificationView, int), RpcErrorView> {
    match r {
        Err(e) => Err(e),
        Ok((label, prob, q)) => match label {
            None => Err(RpcErrorView::Deser("missing field Classification.label (#0)"@)),
            Some(l) => match prob {
                None => Err(RpcErrorView::Deser("missing field Classification.probability (#1)"@)),
                Some(b) => Ok((ClassificationView { label: l, probability_bits: b }, q)),
            },
        },
    }
}

/// Decoding a classification at `pos`: an array of label and probability,
/// or a map with the entries "label" and "probability".
pub open spec fn spec_decode_classification(buf: Seq<u8>, pos: int) -> Result<
    (ClassificationView, int),
    RpcErrorView,
> {
    match spec_shape_at(buf, pos) {
        Err(e) => Err(e),
        Ok(Shape::Array) => match spec_fixed_array(buf, pos) {
            Err(e) => Err(e),
            Ok((n, q)) => cls_finish(cls_array_fields(buf, q, 0, n as nat, None, None)),
        },
        Ok(Shape::Dict) => match spec_fixed_map(buf, pos) {
            Err(e) => Err(e),
            Ok((n, q)) => cls_finish(cls_map_fields(buf, q, 0, n as nat, None, None)),
        },
        Ok(Shape::Other) => Err(
            RpcErrorView::Deser("decoding struct Classification, expected array or map"@),
        ),
    }
}

/// A decoded classification with its position, taken by views.
pub open spec fn cls_outcome(r: Result<(Classification, usize), RpcError>) -> Result<
    (ClassificationView, int),
    RpcErrorView,
> {
    match r {
        Ok((c, p)) => Ok((c@, p as int)),
        Err(e) => Err(e@),
    }
}

/// `buf` holds `a` followed by `b` at `pos`: it holds each of them there.
pub proof fn lemma_holds_split(buf: Seq<u8>, pos: int, a: Seq<u8>, b: Seq<u8>)
    requires
        holds_at(buf, pos, a + b),
    ensures
        holds_at(buf, pos, a),
        holds_at(buf, pos + a.len(), b),
{
    let whole = buf.subrange(pos, pos + a.len() + b.len());
    assert(whole =~= a + b);
    assert(buf.subrange(pos, pos + a.len()) =~= whole.subrange(0, a.len() as int));
    assert(whole.subrange(0, a.len() as int) =~= a);
    assert(buf.subrange(pos + a.len(), pos + a.len() + b.len()) =~= whole.subrange(
        a.len() as int,
        whole.len() as int,
    ));
    assert(whole.subrange(a.len() as int, whole.len() as int) =~= b);
}

/// The first byte of a head of major type `major`.
pub proof fn lemma_head_first_byte(major: u8, n: u64)
    requires
        major < 8,
    ensures
        cbor_head(major, n).len() >= 1,
        major * 32 <= cbor_head(major, n)[0] <= major * 32 + 27,
{
}

/// Decodes a classification at `pos`, handing it back with the position
/// after it. What `encode_classification` writes decodes to the same
/// classification.
pub fn decode_classification(buf: &[u8], pos: usize) -> (res: Result<(Classification, usize), RpcError>)
    ensures
        cls_outcome(res) == spec_decode_classification(buf@, pos as int),
        res matches Ok((_, p)) ==> pos < p <= buf@.len(),
        forall|c: ClassificationView|
            holds_at(buf@, pos as int, #[trigger] spec_encode_classification(c)) ==> (res matches Ok(
                (v, p),
            ) && v@ == c && p == pos + spec_encode_classification(c).len()),
{
    proof {
        reveal_strlit("label");
        reveal_strlit("probability");
        assert forall|c: ClassificationView|
            holds_at(buf@, pos as int, #[trigger] spec_encode_classification(c)) implies holds_at(
            buf@,
            pos as int,
            cbor_head(4, 2),
        ) && buf@[pos as int] == 0x82 by {
            lemma_holds_split(buf@, pos as int, cbor_head(4, 2) + cbor_text(c.label), cbor_float_bits(c.probability_bits));
            lemma_holds_split(buf@, pos as int, cbor_head(4, 2), cbor_text(c.label));
            assert(buf@[pos as int] == buf@.subrange(pos as int, pos + 1)[0]);
        }
    }
    let shape = match shape_at(buf, pos) {
        Ok(s) => s,
        Err(e) => return Err(e),
    };
    let mut label: Option<String> = None;
    let mut probability: Option<u32> = None;
    let mut p: usize;
    match shape {
        Shape::Array => {
            let (len, p1) = match fixed_array(buf, pos) {
                Ok(x) => x,
                Err(e) => return Err(e),
            };
            p = p1;
            let mut i: u64 = 0;
            while i < len
                invariant
                    pos < p1 <= p <= buf@.len(),
                    i <= len,
                    spec_fixed_array(buf@, pos as int) == Ok::<(u64, int), RpcErrorView>(
                        (len, p1 as int),
                    ),
                    spec_shape_at(buf@, pos as int) == Ok::<Shape, RpcErrorView>(Shape::Array),
                    cls_array_fields(buf@, p as int, i as nat, len as nat, opt_text(label), probability)
                        == cls_array_fields(buf@, p1 as int, 0, len as nat, None, None),
                    forall|c: ClassificationView|
                        holds_at(buf@, pos as int, #[trigger] spec_encode_classification(c)) ==> {
                            &&& len == 2
                            &&& p1 == pos + 1
                            &&& i == 0 ==> p == p1 && label is None && probability is None
                            &&& i == 1 ==> p == p1 + cbor_text(c.label).len() && opt_text(label)
                                == Some(c.label) && probability is None
                            &&& i == 2 ==> p == p1 + cbor_text(c.label).len() + 5 && opt_text(
                                label,
                            ) == Some(c.label) && probability == Some(c.probability_bits)
                        },
                decreases len - i,
            {
                if i == 0 {
                    match read_str(buf, p) {
                        Ok((s, q)) => {
                            proof {
                                assert forall|c: ClassificationView|
                                    holds_at(buf@, pos as int, #[trigger] spec_encode_classification(c))
                                    implies q == p1 + cbor_text(c.label).len() && s@ == c.label by {
                                    lemma_holds_split(buf@, pos as int, cbor_head(4, 2) + cbor_text(c.label), cbor_float_bits(c.probability_bits));
                                    lemma_holds_split(buf@, pos as int, cbor_head(4, 2), cbor_text(c.label));
                                }
                            }
                            label = Some(s);
                            p = q;
                        },
                        Err(e) => {
                            proof {
                                assert forall|c: ClassificationView|
                                    !holds_at(buf@, pos as int, #[trigger] spec_encode_classification(c)) by {
                                    if holds_at(buf@, pos as int, spec_encode_classification(c)) {
                                        lemma_holds_split(buf@, pos as int, cbor_head(4, 2) + cbor_text(c.label), cbor_float_bits(c.probability_bits));
                                        lemma_holds_split(buf@, pos as int, cbor_head(4, 2), cbor_text(c.label));
                                    }
                                }
                            }
                            return Err(cbor_error(e));
                        },
                    }
                } else if i == 1 {
                    match read_float_bits(buf, p) {
                        Ok((b, q)) => {
                            proof {
                                assert forall|c: ClassificationView|
                                    holds_at(buf@, pos as int, #[trigger] spec_encode_classification(c))
                                    implies q == p + 5 && b == c.probability_bits by {
                                    lemma_holds_split(buf@, pos as int, cbor_head(4, 2) + cbor_text(c.label), cbor_float_bits(c.probability_bits));
                                    lemma_float_roundtrip(buf@, p as int, c.probability_bits);
                                }
                            }
                            probability = Some(b);
                            p = q;
                        },
                        Err(e) => {
                            proof {
                                assert forall|c: ClassificationView|
                                    !holds_at(buf@, pos as int, #[trigger] spec_encode_classification(c)) by {
                                    if holds_at(buf@, pos as int, spec_encode_classification(c)) {
                                        lemma_holds_split(buf@, pos as int, cbor_head(4, 2) + cbor_text(c.label), cbor_float_bits(c.probability_bits));
                                        lemma_float_roundtrip(buf@, p as int, c.probability_bits);
                                    }
                                }
                            }
                            return Err(cbor_error(e));
                        },
                    }
                } else {
                    match skip_item(buf, p) {
                        Ok(q) => {
                            p = q;
                        },
                        Err(e) => return Err(cbor_error(e)),
                    }
                }
                i = i + 1;
            }
        },
        Shape::Dict => {
            proof {
                assert forall|c: ClassificationView|
                    !holds_at(buf@, pos as int, #[trigger] spec_encode_classification(c)) by {
                    if holds_at(buf@, pos as int, spec_encode_classification(c)) {
                        lemma_head_first_byte(4, 2);
                    }
                }
            }
            let (len, p1) = match fixed_map(buf, pos) {
                Ok(x) => x,
                Err(e) => return Err(e),
            };
            p = p1;
            let mut i: u64 = 0;
            while i < len
                invariant
                    pos < p1 <= p <= buf@.len(),
                    i <= len,
                    spec_fixed_map(buf@, pos as int) == Ok::<(u64, int), RpcErrorView>(
                        (len, p1 as int),
                    ),
                    spec_shape_at(buf@, pos as int) == Ok::<Shape, RpcErrorView>(Shape::Dict),
                    cls_map_fields(buf@, p as int, i as nat, len as nat, opt_text(label), probability)
                        == cls_map_fields(buf@, p1 as int, 0, len as nat, None, None),
                    forall|c: ClassificationView|
                        !holds_at(buf@, pos as int, #[trigger] spec_encode_classification(c)),
                decreases len - i,
            {
                let (key, q) = match read_str(buf, p) {
                    Ok(x) => x,
                    Err(e) => return Err(cbor_error(e)),
                };
                if str_eq(key.as_str(), "label") {
                    match read_str(buf, q) {
                        Ok((s, r)) => {
                            label = Some(s);
                            p = r;
                        },
                        Err(e) => return Err(cbor_error(e)),
                    }
                } else if str_eq(key.as_str(), "probability") {
                    match read_float_bits(buf, q) {
                        Ok((b, r)) => {
                            probability = Some(b);
                            p = r;
                        },
                        Err(e) => return Err(cbor_error(e)),
                    }
                } else {
                    match skip_item(buf, q) {
                        Ok(r) => {
                            p = r;
                        },
                        Err(e) => return Err(cbor_error(e)),
                    }
                }
                i = i + 1;
            }
        },
        Shape::Other => {
            return Err(
                RpcError::Deser(
                    String::from_str("decoding struct Classification, expected array or map"),
                ),
            );
        },
    }
    let label = match label {
        Some(l) => l,
        None => {
            return Err(RpcError::Deser(String::from_str("missing field Classification.label (#0)")));
        },
    };
    let probability_bits = match probability {
        Some(b) => b,
        None => {
            return Err(
                RpcError::Deser(String::from_str("missing field Classification.probability (#1)")),
            );
        },
    };
    proof {
        reveal_with_fuel(be_bytes, 5);
        assert forall|c: ClassificationView|
            holds_at(buf@, pos as int, #[trigger] spec_encode_classification(c)) implies label@
            == c.label && probability_bits == c.probability_bits && p == pos
            + spec_encode_classification(c).len() by {
            assert(cbor_float_bits(c.probability_bits).len() == 5);
            assert(cbor_head(4, 2).len() == 1);
        }
    }
    Ok((Classification { label, probability_bits }, p))
}

/// The classifications of a sequence, taken by views.
pub open spec fn matches_view(v: Seq<Classification>) -> Seq<ClassificationView> {
    v.map_values(|c: Classification| c@)
}

/// The encodings of a sequence of classifications, one after the other.
pub open spec fn spec_encode_items(cs: Seq<ClassificationView>) -> Seq<u8>
    decreases cs.len(),
{
    if cs.len() == 0 {
        seq![]
    } else {
        spec_encode_items(cs.drop_last()) + spec_encode_classification(cs.last())
    }
}

/// The encoding of a list of matches: an array of their encodings.
pub open spec fn spec_encode_matches(cs: Seq<ClassificationView>) -> Seq<u8> {
    cbor_head(4, cs.len() as u64) + spec_encode_items(cs)
}

/// Encoding a concatenation encodes the parts one after the other.
pub proof fn lemma_encode_items_concat(a: Seq<ClassificationView>, b: Seq<ClassificationView>)
    ensures
        spec_encode_items(a + b) == spec_encode_items(a) + spec_encode_items(b),
    decreases b.len(),
{
    if b.len() == 0 {
        assert(a + b =~= a);
        assert(spec_encode_items(a) + spec_encode_items(b) =~= spec_encode_items(a));
    } else {
        lemma_encode_items_concat(a, b.drop_last());
        assert((a + b).drop_last() =~= a + b.drop_last());
        assert((a + b).last() == b.last());
        assert(spec_encode_items(a + b) =~= spec_encode_items(a) + spec_encode_items(b));
    }
}

/// Every classification takes at least one byte.
pub proof fn lemma_encode_items_len(cs: Seq<ClassificationView>)
    ensures
        spec_encode_items(cs).len() >= cs.len(),
    decreases cs.len(),
{
    if cs.len() > 0 {
        lemma_encode_items_len(cs.drop_last());
    }
}

/// Where `buf` holds the encodings of `cs` at `pos`, it holds the encoding
/// of item `i` right after those of the items before it.
pub proof fn lemma_item_at(buf: Seq<u8>, pos: int, cs: Seq<ClassificationView>, i: int)
    requires
        holds_at(buf, pos, spec_encode_items(cs)),
        0 <= i < cs.len(),
    ensures
        holds_at(buf, pos + spec_encode_items(cs.take(i)).len(), spec_encode_classification(cs[i])),
        spec_encode_items(cs.take(i + 1)) == spec_encode_items(cs.take(i))
            + spec_encode_classification(cs[i]),
{
    let a = cs.take(i);
    let one = seq![cs[i]];
    let rest = cs.skip(i + 1);
    assert(cs =~= a + one + rest);
    assert(cs.take(i + 1) =~= a + one);
    lemma_encode_items_concat(a + one, rest);
    lemma_encode_items_concat(a, one);
    assert(one.drop_last() =~= Seq::<ClassificationView>::empty());
    assert(spec_encode_items(Seq::<ClassificationView>::empty()) =~= Seq::<u8>::empty());
    assert(one.last() == cs[i]);
    assert(spec_encode_items(one) =~= spec_encode_classification(cs[i]));
    lemma_holds_split(buf, pos, spec_encode_items(a + one), spec_encode_items(rest));
    lemma_holds_split(buf, pos, spec_encode_items(a), spec_encode_classification(cs[i]));
}

/// Appends the encoding of `val`.
pub fn encode_matches(out: &mut Vec<u8>, val: &Matches)
    ensures
        final(out)@ == old(out)@ + spec_encode_matches(matches_view(val@)),
{
    write_array(out, val.len() as u64);
    let ghost start = out@;
    let n = val.len();
    let mut i: usize = 0;
    while i < n
        invariant
            n == val@.len(),
            0 <= i <= n,
            out@ == start + spec_encode_items(matches_view(val@).take(i as int)),
        decreases n - i,
    {
        encode_classification(out, &val[i]);
        proof {
            let cs = matches_view(val@);
            assert(cs.take(i + 1).drop_last() =~= cs.take(i as int));
            assert(cs.take(i + 1).last() == val@[i as int]@);
        }
        i = i + 1;
    }
    proof {
        assert(matches_view(val@).take(n as int) =~= matches_view(val@));
    }
}

/// The shape name under which a failure in a nested classification is
/// reported.
pub open spec fn classification_shape() -> Seq<char> {
    "org.wasmcloud.interface.mlimagenet#Classification"@
}

/// The error for a failure in a nested classification.
pub open spec fn nested_failure(e: RpcErrorView) -> RpcErrorView {
    RpcErrorView::Nested(classification_shape(), Box::new(e))
}

/// Decoding `n` classifications from `p` on, appending them to `acc`.
pub open spec fn matches_definite(
    buf: Seq<u8>,
    p: int,
    i: nat,
    n: nat,
    acc: Seq<ClassificationView>,
) -> Result<(Seq<ClassificationView>, int), RpcErrorView>
    decreases n - i,
{
    if i >= n {
        Ok((acc, p))
    } else {
        match spec_decode_classification(buf, p) {
            Ok((c, q)) => matches_definite(buf, q, i + 1, n, acc.push(c)),
            Err(e) => Err(nested_failure(e)),
        }
    }
}

/// Decoding classifications from `p` on until the input ends or a break
/// item comes, appending them to `acc`. The break item is not consumed.
pub open spec fn matches_indefinite(buf: Seq<u8>, p: int, acc: Seq<ClassificationView>) -> Result<
    (Seq<ClassificationView>, int),
    RpcErrorView,
>
    decreases buf.len() - p,
{
    match cbor_datatype_at(buf, p) {
        Err(_) => Ok((acc, p)),
        Ok(t) => if t == "break"@ {
            Ok((acc, p))
        } else {
            match spec_decode_classification(buf, p) {
                Ok((c, q)) => if p < q <= buf.len() {
                    matches_indefinite(buf, q, acc.push(c))
                } else {
                    Ok((acc, p))
                },
                Err(e) => Err(nested_failure(e)),
            }
        },
    }
}

/// Decoding a list of matches at `pos`: an array of classifications, of
/// definite or indefinite length.
pub open spec fn spec_decode_matches(buf: Seq<u8>, pos: int) -> Result<
    (Seq<ClassificationView>, int),
    RpcErrorView,
> {
    match cbor_array_at(buf, pos) {
        Err(e) => Err(cbor_failure(e)),
        Ok((Some(n), q)) => matches_definite(buf, q, 0, n as nat, Seq::empty()),
        Ok((None, q)) => matches_indefinite(buf, q, Seq::empty()),
    }
}

/// Decoded matches with their position, taken by views.
pub open spec fn matches_outcome(r: Result<(Matches, usize), RpcError>) -> Result<
    (Seq<ClassificationView>, int),
    RpcErrorView,
> {
    match r {
        Ok((v, p)) => Ok((matches_view(v@), p as int)),
        Err(e) => Err(e@),
    }
}

fn nested_error(e: RpcError) -> (r: RpcError)
    ensures
        r@ == nested_failure(e@),
{
    RpcError::Nested(String::from_str("org.wasmcloud.interface.mlimagenet#Classification"), Box::new(e))
}

/// Decodes a list of matches at `pos`, handing it back with the position
/// after it. What `encode_matches` writes decodes to the same matches.
pub fn decode_matches(buf: &[u8], pos: usize) -> (res: Result<(Matches, usize), RpcError>)
    ensures
        matches_outcome(res) == spec_decode_matches(buf@, pos as int),
        forall|cs: Seq<ClassificationView>|
            holds_at(buf@, pos as int, #[trigger] spec_encode_matches(cs)) ==> (res matches Ok(
                (v, p),
            ) && matches_view(v@) == cs && p == pos + spec_encode_matches(cs).len()),
{
    proof {
        assert forall|cs: Seq<ClassificationView>|
            holds_at(buf@, pos as int, #[trigger] spec_encode_matches(cs)) implies holds_at(
            buf@,
            pos as int,
            cbor_head(4, cs.len() as u64),
        ) && holds_at(buf@, pos + cbor_head(4, cs.len() as u64).len(), spec_encode_items(cs))
            && cs.len() <= buf@.len() by {
            lemma_holds_split(buf@, pos as int, cbor_head(4, cs.len() as u64), spec_encode_items(cs));
            lemma_encode_items_len(cs);
        }
    }
    let blen = buf.len();
    let mut arr: Vec<Classification> = Vec::new();
    let ra = read_array(buf, pos);
    let ghost read_array_res = ra;
    match ra {
        Err(e) => {
            return Err(cbor_error(e));
        },
        Ok((Some(n), p1)) => {
            proof {
                assert(matches_view(arr@) =~= Seq::<ClassificationView>::empty());
                assert forall|cs: Seq<ClassificationView>|
                    holds_at(buf@, pos as int, #[trigger] spec_encode_matches(cs)) implies n
                    == cs.len() && p1 == pos + cbor_head(4, cs.len() as u64).len()
                    && cs.take(0) =~= Seq::<ClassificationView>::empty() by {
                    lemma_holds_split(buf@, pos as int, cbor_head(4, cs.len() as u64), spec_encode_items(cs));
                    lemma_encode_items_len(cs);
                    assert(cs.len() <= blen);
                    assert(gives(read_array_res, Some(cs.len() as u64), pos + cbor_head(4, cs.len() as u64).len()));
                }
            }
            let mut p = p1;
            let mut i: u64 = 0;
            while i < n
                invariant
                    pos < p1 <= p <= buf@.len(),
                    i <= n,
                    cbor_array_at(buf@, pos as int) == Ok::<(Option<u64>, int), Seq<char>>(
                        (Some(n), p1 as int),
                    ),
                    matches_definite(buf@, p as int, i as nat, n as nat, matches_view(arr@))
                        == matches_definite(buf@, p1 as int, 0, n as nat, Seq::empty()),
                    forall|cs: Seq<ClassificationView>|
                        holds_at(buf@, pos as int, #[trigger] spec_encode_matches(cs)) ==> {
                            &&& n == cs.len()
                            &&& matches_view(arr@) == cs.take(i as int)
                            &&& p == p1 + spec_encode_items(cs.take(i as int)).len()
                            &&& holds_at(buf@, p1 as int, spec_encode_items(cs))
                        },
                decreases n - i,
            {
                proof {
                    assert forall|cs: Seq<ClassificationView>|
                        holds_at(buf@, pos as int, #[trigger] spec_encode_matches(cs)) implies holds_at(
                        buf@,
                        p as int,
                        spec_encode_classification(cs[i as int]),
                    ) by {
                        lemma_item_at(buf@, p1 as int, cs, i as int);
                    }
                }
                match decode_classification(buf, p) {
                    Ok((c, q)) => {
                        proof {
                            assert(matches_view(arr@.push(c)) =~= matches_view(arr@).push(c@));
                            assert forall|cs: Seq<ClassificationView>|
                                holds_at(buf@, pos as int, #[trigger] spec_encode_matches(cs)) implies
                                matches_view(arr@).push(c@) == cs.take(i + 1) && q == p1
                                + spec_encode_items(cs.take(i + 1)).len() by {
                                lemma_item_at(buf@, p1 as int, cs, i as int);
                                assert(cs.take(i + 1) =~= cs.take(i as int).push(cs[i as int]));
                            }
                        }
                        arr.push(c);
                        p = q;
                    },
                    Err(e) => {
                        proof {
                            assert forall|cs: Seq<ClassificationView>|
                                !holds_at(buf@, pos as int, #[trigger] spec_encode_matches(cs)) by {
                                if holds_at(buf@, pos as int, spec_encode_matches(cs)) {
                                    lemma_item_at(buf@, p1 as int, cs, i as int);
                                }
                            }
                        }
                        return Err(nested_error(e));
                    },
                }
                i = i + 1;
            }
            proof {
                assert forall|cs: Seq<ClassificationView>|
                    holds_at(buf@, pos as int, #[trigger] spec_encode_matches(cs)) implies p == pos
                    + spec_encode_matches(cs).len() && matches_view(arr@) == cs by {
                    assert(cs.take(n as int) =~= cs);
                }
            }
            Ok((arr, p))
        },
        Ok((None, p1)) => {
            proof {
                assert(matches_view(arr@) =~= Seq::<ClassificationView>::empty());
                assert forall|cs: Seq<ClassificationView>|
                    !holds_at(buf@, pos as int, #[trigger] spec_encode_matches(cs)) by {
                    if holds_at(buf@, pos as int, spec_encode_matches(cs)) {
                        lemma_holds_split(buf@, pos as int, cbor_head(4, cs.len() as u64), spec_encode_items(cs));
                        lemma_encode_items_len(cs);
                    }
                }
            }
            let mut p = p1;
            loop
                invariant
                    pos < p1 <= p <= buf@.len(),
                    cbor_array_at(buf@, pos as int) == Ok::<(Option<u64>, int), Seq<char>>(
                        (None, p1 as int),
                    ),
                    matches_indefinite(buf@, p as int, matches_view(arr@)) == matches_indefinite(
                        buf@,
                        p1 as int,
                        Seq::empty(),
                    ),
                    forall|cs: Seq<ClassificationView>|
                        !holds_at(buf@, pos as int, #[trigger] spec_encode_matches(cs)),
                decreases buf@.len() - p,
            {
                match read_datatype(buf, p) {
                    Err(_) => {
                        return Ok((arr, p));
                    },
                    Ok(t) => {
                        if str_eq(t.as_str(), "break") {
                            return Ok((arr, p));
                        }
                        match decode_classification(buf, p) {
                            Ok((c, q)) => {
                                proof {
                                    assert(matches_view(arr@.push(c)) =~= matches_view(arr@).push(c@));
                                }
                                arr.push(c);
                                p = q;
                            },
                            Err(e) => {
                                return Err(nested_error(e));
                            },
                        }
                    },
                }
            }
        },
    }
}

/// The operations of the post-processing service.
#[derive(Debug, PartialEq, Eq, Structural)]
pub enum ImagenetOperation {
    /// Turns the output of an inference into matches.
    Postprocess,
}

/// The method name under which the reply to a post-processing request is
/// sent.
pub const IMAGENET_POSTPROCESS_REPLY: &'static str = "Imagenet.Postprocess";

/// The operation that a message to the post-processing service asks for:
/// "Postprocess", or no operation, which is an error naming the method.
pub fn imagenet_operation(method: &str) -> (r: Result<ImagenetOperation, RpcError>)
    ensures
        method@ == "Postprocess"@ ==> r == Ok::<ImagenetOperation, RpcError>(ImagenetOperation::Postprocess),
        method@ != "Postprocess"@ ==> (r matches Err(e) && e@ == RpcErrorView::MethodNotHandled(
            "Imagenet::"@ + method@,
        )),
{
    if str_eq(method, "Postprocess") {
        Ok(ImagenetOperation::Postprocess)
    } else {
        Err(RpcError::MethodNotHandled(String::from_str("Imagenet::").concat(method)))
    }
}

} // verus!
