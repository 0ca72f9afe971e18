//! Bookkeeping of the TensorFlow Lite inference engine: the loaded models,
//! the execution sessions created from them, and the output tensors of the
//! last computation of each session. The interpreter of a session is held
//! as an opaque value.

use vstd::prelude::*;
use std::collections::BTreeMap;
use crate::inference::{ExecutionTarget, Graph, GraphEncoding, GraphExecutionContext};
use crate::mlinference_types::{
    InferenceOutput, Status, Tensor, TensorView, ValueType, TENSOR_FLAG_ROW_MAJOR,
};

verus! {

/// The key that follows the keys of a map: one more than the greatest key,
/// or 0 for an empty map.
pub open spec fn is_next_key(dom: Set<u32>, k: u32) -> bool {
    &&& dom.is_empty() ==> k == 0
    &&& !dom.is_empty() ==> dom.contains((k - 1) as u32) && k >= 1
    &&& forall|j: u32| dom.contains(j) ==> j < k
}

/// Whether every key of a map leaves room for a successor.
pub open spec fn keys_below_max(dom: Set<u32>) -> bool {
    forall|j: u32| dom.contains(j) ==> j < u32::MAX
}

/// The key under which the next entry of `map` is inserted: one more than
/// its greatest key, or 0 where it is empty.
pub fn next_key<V>(map: &BTreeMap<u32, V>) -> (k: u32)
    requires
        keys_below_max(map@.dom()),
    ensures
        is_next_key(map@.dom(), k),
{
    broadcast use vstd::std_specs::btree::group_btree_axioms;
    let mut best: Option<u32> = None;
    let ghost mut seen: Set<u32> = Set::empty();
    for key in it: map.keys()
        invariant
            keys_below_max(map@.dom()),
            it.seq().unref().to_set() == map@.dom(),
            forall|j: u32| seen.contains(j) ==> (best matches Some(b) && j <= b),
            best matches Some(b) ==> map@.dom().contains(b),
            best is None ==> seen.is_empty(),
            forall|j: u32|
                #![trigger map@.dom().contains(j)]
                map@.dom().contains(j) ==> seen.contains(j) || exists|i: int|
                    it.index() <= i < it.seq().len() && *it.seq()[i] == j,
    {
        proof {
            assert(it.seq().unref()[it.index()] == *key);
            assert(it.seq().unref().to_set().contains(*key));
        }
        let ghost old_seen = seen;
        match best {
            None => {
                best = Some(*key);
            },
            Some(b) => {
                if *key > b {
                    best = Some(*key);
                }
            },
        }
        proof {
            seen = seen.insert(*key);
            assert forall|j: u32| #[trigger] map@.dom().contains(j) implies seen.contains(j) || exists|i: int|
                it.index() + 1 <= i < it.seq().len() && *it.seq()[i] == j by {
                if !old_seen.contains(j) {
                    let i = choose|i: int| it.index() <= i < it.seq().len() && *it.seq()[i] == j;
                    if i != it.index() {
                        assert(it.index() + 1 <= i);
                    }
                }
            }
        }
    }
    match best {
        None => {
            proof {
                if !map@.dom().is_empty() {
                    let j = map@.dom().choose();
                    assert(map@.dom().contains(j));
                }
            }
            0
        },
        Some(b) => b + 1,
    }
}

/// Failures of the inference engine.
#[derive(Debug, PartialEq, Eq, Structural)]
pub enum InferenceError {
    /// The engine does not run models on the requested execution target.
    UnsupportedExecutionTarget,
    /// The model, session or output asked for does not exist.
    RuntimeError,
    /// The model could not be built from its bytes.
    FailedToBuildModelFromBuffer,
    /// The engine does not read models of the requested encoding.
    InvalidEncodingError,
    /// No interpreter builder could be made for the model.
    InterpreterBuilderError,
    /// No interpreter could be built for the model.
    InterpreterBuildError,
    /// The interpreter could not allocate its tensors.
    TensorAllocationError,
    /// Running the interpreter failed.
    InterpreterInvocationError,
}

/// A result of the inference engine.
pub type InferenceResult<T> = Result<T, InferenceError>;

/// An execution session: the interpreter of a model, the encoding of that
/// model, and the tensors of the session's last computation.
pub struct TfLiteSession<G> {
    pub graph: G,
    pub encoding: GraphEncoding,
    pub input_tensors: Option<Vec<u8>>,
    pub output_tensors: Option<Vec<Tensor>>,
}

/// The tensors of a sequence, taken by views.
pub open spec fn tensors_view(ts: Seq<Tensor>) -> Seq<TensorView> {
    ts.map_values(|t: Tensor| t@)
}

/// The output tensors of a session, taken by views.
pub open spec fn outputs_view<G>(s: TfLiteSession<G>) -> Option<Seq<TensorView>> {
    match s.output_tensors {
        Some(v) => Some(tensors_view(v@)),
        None => None,
    }
}

impl<G> TfLiteSession<G> {
    /// A session of the interpreter `graph` for a model of `encoding`, with
    /// no tensors yet.
    pub fn with_graph(graph: G, encoding: GraphEncoding) -> (s: Self)
        ensures
            s.graph == graph,
            s.encoding == encoding,
            s.input_tensors is None,
            s.output_tensors is None,
    {
        TfLiteSession { graph, encoding, input_tensors: None, output_tensors: None }
    }
}

/// The loaded models by handle, and the sessions by handle.
pub struct ModelState<G> {
    executions: BTreeMap<GraphExecutionContext, TfLiteSession<G>>,
    models: BTreeMap<Graph, Vec<u8>>,
}

/// The bytes of the loaded models, by handle.
pub open spec fn bytes_view(m: Map<Graph, Vec<u8>>) -> Map<Graph, Seq<u8>> {
    m.map_values(|v: Vec<u8>| v@)
}

/// Loading a model: only for a TPU target, under the next free handle.
pub open spec fn spec_load(models: Map<Graph, Seq<u8>>, bytes: Seq<u8>, target: ExecutionTarget, g: Graph) -> (
    Map<Graph, Seq<u8>>,
    InferenceResult<Graph>,
) {
    if target != ExecutionTarget::Tpu {
        (models, Err(InferenceError::UnsupportedExecutionTarget))
    } else {
        (models.insert(g, bytes), Ok(g))
    }
}

/// The model that a session of `encoding` is built from: the bytes loaded
/// under `graph`, for TensorFlow Lite models only.
pub open spec fn spec_model_to_build(models: Map<Graph, Seq<u8>>, graph: Graph, encoding: GraphEncoding) -> InferenceResult<
    Seq<u8>,
> {
    if !models.contains_key(graph) {
        Err(InferenceError::RuntimeError)
    } else if encoding != GraphEncoding::TfLite {
        Err(InferenceError::InvalidEncodingError)
    } else {
        Ok(models[graph])
    }
}

/// The output of a session: output tensor `index` of its last computation,
/// with a success status.
pub open spec fn spec_get_output<G>(
    sessions: Map<GraphExecutionContext, TfLiteSession<G>>,
    context: GraphExecutionContext,
    index: u32,
) -> InferenceResult<TensorView> {
    if !sessions.contains_key(context) {
        Err(InferenceError::RuntimeError)
    } else {
        match outputs_view(sessions[context]) {
            None => Err(InferenceError::RuntimeError),
            Some(ts) => if index < ts.len() {
                Ok(ts[index as int])
            } else {
                Err(InferenceError::RuntimeError)
            },
        }
    }
}

/// Copies a vector element by element.
pub fn copy_vec<T: Copy>(v: &Vec<T>) -> (r: Vec<T>)
    ensures
        r@ == v@,
{
    let mut r: Vec<T> = Vec::new();
    let n = v.len();
    let mut i: usize = 0;
    while i < n
        invariant
            n == v@.len(),
            i <= n,
            r@ == v@.subrange(0, i as int),
        decreases n - i,
    {
        r.push(v[i]);
        proof {
            assert(v@.subrange(0, i + 1) =~= v@.subrange(0, i as int).push(v@[i as int]));
        }
        i = i + 1;
    }
    assert(v@.subrange(0, n as int) =~= v@);
    r
}

/// Copies a tensor.
pub fn copy_tensor(t: &Tensor) -> (r: Tensor)
    ensures
        r@ == t@,
{
    Tensor {
        value_types: copy_vec(&t.value_types),
        dimensions: copy_vec(&t.dimensions),
        flags: t.flags,
        data: copy_vec(&t.data),
    }
}

impl<G> ModelState<G> {
    /// The bytes of the loaded models, by handle.
    pub closed spec fn models_view(&self) -> Map<Graph, Seq<u8>> {
        bytes_view(self.models@)
    }

    /// The sessions, by handle.
    pub closed spec fn sessions(&self) -> Map<GraphExecutionContext, TfLiteSession<G>> {
        self.executions@
    }

    /// A state with no models and no sessions.
    pub fn new() -> (s: Self)
        ensures
            s.models_view() == Map::<Graph, Seq<u8>>::empty(),
            s.sessions() == Map::<GraphExecutionContext, TfLiteSession<G>>::empty(),
    {
        let s = ModelState { executions: BTreeMap::new(), models: BTreeMap::new() };
        proof {
            assert(bytes_view(s.models@) =~= Map::<Graph, Seq<u8>>::empty());
        }
        s
    }

    /// The key that is to be inserted next into `keys`: one more than its
    /// greatest key, or 0 where it is empty.
    pub fn key<V>(&self, keys: &BTreeMap<u32, V>) -> (k: u32)
        requires
            keys_below_max(keys@.dom()),
        ensures
            is_next_key(keys@.dom(), k),
    {
        next_key(keys)
    }

    /// Whether a model handle is left to be handed out.
    pub fn has_model_handle_left(&self) -> (r: bool)
        ensures
            r == keys_below_max(self.models_view().dom()),
    {
        broadcast use vstd::std_specs::btree::group_btree_axioms;
        proof {
            assert(self.models@.dom() == bytes_view(self.models@).dom());
        }
        !self.models.contains_key(&u32::MAX)
    }

    /// Whether a session handle is left to be handed out.
    pub fn has_session_handle_left(&self) -> (r: bool)
        ensures
            r == keys_below_max(self.sessions().dom()),
    {
        broadcast use vstd::std_specs::btree::group_btree_axioms;
        !self.executions.contains_key(&u32::MAX)
    }

    /// Stores a model under the next free handle, for a TPU target only.
    pub fn load(&mut self, builder: &[u8], target: ExecutionTarget) -> (r: InferenceResult<Graph>)
        requires
            target == ExecutionTarget::Tpu ==> keys_below_max(old(self).models_view().dom()),
        ensures
            final(self).sessions() == old(self).sessions(),
            match r {
                Ok(g) => is_next_key(old(self).models_view().dom(), g) && (final(self).models_view(), r)
                    == spec_load(old(self).models_view(), builder@, target, g),
                Err(e) => final(self).models_view() == old(self).models_view() && target
                    != ExecutionTarget::Tpu && e == InferenceError::UnsupportedExecutionTarget,
            },
    {
        match target {
            ExecutionTarget::Tpu => {},
            _ => {
                return Err(InferenceError::UnsupportedExecutionTarget);
            },
        }
        let model_bytes = copy_vec_slice(builder);
        proof {
            assert(self.models@.dom() == bytes_view(self.models@).dom());
        }
        let graph = next_key(&self.models);
        self.models.insert(graph, model_bytes);
        proof {
            assert(bytes_view(self.models@) =~= bytes_view(old(self).models@).insert(graph, builder@));
        }
        Ok(graph)
    }

    /// The bytes of the model that a session of `encoding` for `graph` is
    /// built from.
    pub fn model_to_build(&self, graph: Graph, encoding: GraphEncoding) -> (r: InferenceResult<&Vec<u8>>)
        ensures
            match r {
                Ok(b) => spec_model_to_build(self.models_view(), graph, encoding) == Ok::<Seq<u8>, InferenceError>(b@),
                Err(e) => spec_model_to_build(self.models_view(), graph, encoding) == Err::<Seq<u8>, InferenceError>(e),
            },
    {
        broadcast use vstd::std_specs::btree::group_btree_axioms;
        match self.models.get(&graph) {
            None => Err(InferenceError::RuntimeError),
            Some(b) => {
                match encoding {
                    GraphEncoding::TfLite => Ok(b),
                    _ => Err(InferenceError::InvalidEncodingError),
                }
            },
        }
    }

    /// Stores a session under the next free handle.
    pub fn add_execution(&mut self, session: TfLiteSession<G>) -> (gec: GraphExecutionContext)
        requires
            keys_below_max(old(self).sessions().dom()),
        ensures
            is_next_key(old(self).sessions().dom(), gec),
            final(self).sessions() == old(self).sessions().insert(gec, session),
            final(self).models_view() == old(self).models_view(),
    {
        let gec = next_key(&self.executions);
        self.executions.insert(gec, session);
        gec
    }

    /// Takes a session out, to work with its interpreter.
    pub fn take_session(&mut self, context: GraphExecutionContext) -> (r: InferenceResult<TfLiteSession<G>>)
        ensures
            final(self).models_view() == old(self).models_view(),
            match r {
                Ok(s) => old(self).sessions().contains_key(context) && s == old(self).sessions()[context]
                    && final(self).sessions() == old(self).sessions().remove(context),
                Err(e) => !old(self).sessions().contains_key(context) && e == InferenceError::RuntimeError
                    && final(self).sessions() == old(self).sessions(),
            },
    {
        broadcast use vstd::std_specs::btree::group_btree_axioms;
        match self.executions.remove(&context) {
            Some(s) => Ok(s),
            None => Err(InferenceError::RuntimeError),
        }
    }

    /// Puts a session back under its handle.
    pub fn restore_session(&mut self, context: GraphExecutionContext, session: TfLiteSession<G>)
        ensures
            final(self).models_view() == old(self).models_view(),
            final(self).sessions() == old(self).sessions().insert(context, session),
    {
        self.executions.insert(context, session);
    }

    /// Output tensor `index` of the last computation of session `context`,
    /// with a success status.
    pub fn get_output(&self, context: GraphExecutionContext, index: u32) -> (r: InferenceResult<InferenceOutput>)
        ensures
            match r {
                Ok(o) => o.result == Status::Success && spec_get_output(self.sessions(), context, index)
                    == Ok::<TensorView, InferenceError>(o.tensor@),
                Err(e) => spec_get_output(self.sessions(), context, index) == Err::<TensorView, InferenceError>(e),
            },
    {
        broadcast use vstd::std_specs::btree::group_btree_axioms;
        let execution = match self.executions.get(&context) {
            Some(s) => s,
            None => {
                return Err(InferenceError::RuntimeError);
            },
        };
        let output_tensors = match &execution.output_tensors {
            Some(oa) => oa,
            None => {
                return Err(InferenceError::RuntimeError);
            },
        };
        if (index as usize) < output_tensors.len() {
            let tensor = copy_tensor(&output_tensors[index as usize]);
            Ok(InferenceOutput { result: Status::Success, tensor })
        } else {
            Err(InferenceError::RuntimeError)
        }
    }

    /// Removes a model and a session.
    pub fn drop_model_state(&mut self, graph: &Graph, gec: &GraphExecutionContext)
        ensures
            final(self).models_view() == old(self).models_view().remove(*graph),
            final(self).sessions() == old(self).sessions().remove(*gec),
    {
        broadcast use vstd::std_specs::btree::group_btree_axioms;
        self.models.remove(graph);
        self.executions.remove(gec);
        proof {
            assert(bytes_view(self.models@) =~= bytes_view(old(self).models@).remove(*graph));
        }
    }
}

/// Copies a byte slice into a vector.
pub fn copy_vec_slice(b: &[u8]) -> (r: Vec<u8>)
    ensures
        r@ == b@,
{
    let mut r: Vec<u8> = Vec::new();
    let n = b.len();
    let mut i: usize = 0;
    while i < n
        invariant
            n == b@.len(),
            i <= n,
            r@ == b@.subrange(0, i as int),
        decreases n - i,
    {
        r.push(b[i]);
        proof {
            assert(b@.subrange(0, i + 1) =~= b@.subrange(0, i as int).push(b@[i as int]));
        }
        i = i + 1;
    }
    assert(b@.subrange(0, n as int) =~= b@);
    r
}

/// The four bytes of `x`, least significant first.
pub open spec fn le_bytes(x: u32) -> Seq<u8> {
    seq![(x % 256) as u8, ((x / 256) % 256) as u8, ((x / 65536) % 256) as u8, ((x / 16777216) % 256) as u8]
}

/// The bytes of a sequence of 32-bit values, each least significant byte
/// first, one value after the other.
pub open spec fn le_chunks(s: Seq<u32>) -> Seq<u8>
    decreases s.len(),
{
    if s.len() == 0 {
        seq![]
    } else {
        le_chunks(s.drop_last()) + le_bytes(s.last())
    }
}

/// Each value takes four bytes.
pub proof fn lemma_le_chunks_len(s: Seq<u32>)
    ensures
        le_chunks(s).len() == 4 * s.len(),
    decreases s.len(),
{
    if s.len() > 0 {
        lemma_le_chunks_len(s.drop_last());
    }
}

/// Byte `k` of value `i` sits at position `4 * i + k`.
pub proof fn lemma_le_chunks_index(s: Seq<u32>, i: int, k: int)
    requires
        0 <= i < s.len(),
        0 <= k < 4,
    ensures
        le_chunks(s).len() == 4 * s.len(),
        le_chunks(s)[4 * i + k] == le_bytes(s[i])[k],
    decreases s.len(),
{
    lemma_le_chunks_len(s);
    let init = s.drop_last();
    lemma_le_chunks_len(init);
    if i < s.len() - 1 {
        lemma_le_chunks_index(init, i, k);
        assert(init[i] == s[i]);
    } else {
        assert(le_chunks(s) == le_chunks(init) + le_bytes(s.last()));
    }
}

/// The four bytes of a value, read back least significant first, give the
/// value: no bit is lost, the sign bit of a float included.
pub proof fn lemma_le_bytes_value(x: u32)
    ensures
        le_bytes(x)[0] + 256 * le_bytes(x)[1] + 65536 * le_bytes(x)[2] + 16777216 * le_bytes(x)[3] == x,
        le_bytes(x)[3] == x / 16777216,
{
    let b0 = (x % 256) as u8;
    let b1 = ((x / 256) % 256) as u8;
    let b2 = ((x / 65536) % 256) as u8;
    let b3 = ((x / 16777216) % 256) as u8;
    assert(b0 + 256 * b1 + 65536 * b2 + 16777216 * b3 == x && b3 == x / 16777216) by (nonlinear_arith)
        requires
            b0 == x % 256,
            b1 == (x / 256) % 256,
            b2 == (x / 65536) % 256,
            b3 == (x / 16777216) % 256,
            x < 0x1_0000_0000,
    ;
}

/// The bytes of a sequence of 32-bit values read back, four at a time and
/// least significant first, as the values themselves.
pub proof fn law_float_bytes_read_back(data: Seq<u32>)
    ensures
        le_chunks(data).len() == 4 * data.len(),
        forall|i: int|
            0 <= i < data.len() ==> le_chunks(data)[4 * i] + 256 * le_chunks(data)[4 * i + 1] + 65536
                * le_chunks(data)[4 * i + 2] + 16777216 * le_chunks(data)[4 * i + 3] == #[trigger] data[i],
        forall|i: int| 0 <= i < data.len() ==> le_chunks(data)[4 * i + 3] == #[trigger] data[i] / 16777216,
{
    lemma_le_chunks_len(data);
    assert forall|i: int| 0 <= i < data.len() implies le_chunks(data)[4 * i] + 256 * le_chunks(data)[4 * i + 1]
        + 65536 * le_chunks(data)[4 * i + 2] + 16777216 * le_chunks(data)[4 * i + 3] == #[trigger] data[i]
        && le_chunks(data)[4 * i + 3] == data[i] / 16777216 by {
        lemma_le_chunks_index(data, i, 0);
        lemma_le_chunks_index(data, i, 1);
        lemma_le_chunks_index(data, i, 2);
        lemma_le_chunks_index(data, i, 3);
        lemma_le_bytes_value(data[i]);
    }
}

/// Lays out single-precision floats, given by their bits, as the bytes of
/// a tensor: each float's four bytes in little-endian order, one float after
/// the other.
pub fn float_bits_to_bytes(data: &[u32]) -> (r: Vec<u8>)
    ensures
        r@ == le_chunks(data@),
        r@.len() == 4 * data@.len(),
        forall|i: int|
            0 <= i < data@.len() ==> r@[4 * i] + 256 * r@[4 * i + 1] + 65536 * r@[4 * i + 2] + 16777216 * r@[4
                * i + 3] == #[trigger] data@[i],
{
    proof {
        law_float_bytes_read_back(data@);
    }
    let mut r: Vec<u8> = Vec::new();
    let n = data.len();
    let mut i: usize = 0;
    while i < n
        invariant
            n == data@.len(),
            i <= n,
            r@ == le_chunks(data@.subrange(0, i as int)),
        decreases n - i,
    {
        let x = data[i];
        r.push((x % 256) as u8);
        r.push(((x / 256) % 256) as u8);
        r.push(((x / 65536) % 256) as u8);
        r.push(((x / 16777216) % 256) as u8);
        proof {
            let next = data@.subrange(0, i + 1);
            assert(next.drop_last() =~= data@.subrange(0, i as int));
            assert(next.last() == x);
        }
        i = i + 1;
    }
    proof {
        assert(data@.subrange(0, n as int) =~= data@);
        lemma_le_chunks_len(data@);
    }
    r
}

/// The dimensions of a tensor, each taken modulo 2^32.
pub open spec fn dims_u32(dims: Seq<usize>) -> Seq<u32> {
    dims.map_values(|d: usize| d as u32)
}

/// The output tensor of a computation: single-precision floats in row-major
/// order with these dimensions and bytes.
pub fn output_tensor(dims: &[usize], data: Vec<u8>) -> (t: Tensor)
    ensures
        t@.value_types == seq![ValueType::ValueF32],
        t@.dimensions == dims_u32(dims@),
        t@.flags == TENSOR_FLAG_ROW_MAJOR,
        t@.data == data@,
{
    let mut dimensions: Vec<u32> = Vec::new();
    let n = dims.len();
    let mut i: usize = 0;
    while i < n
        invariant
            n == dims@.len(),
            i <= n,
            dimensions@ == dims_u32(dims@.subrange(0, i as int)),
        decreases n - i,
    {
        dimensions.push(dims[i] as u32);
        proof {
            assert(dims_u32(dims@.subrange(0, i + 1)) =~= dims_u32(dims@.subrange(0, i as int)).push(
                dims@[i as int] as u32,
            ));
        }
        i = i + 1;
    }
    proof {
        assert(dims@.subrange(0, n as int) =~= dims@);
    }
    let mut value_types: Vec<ValueType> = Vec::new();
    value_types.push(ValueType::ValueF32);
    proof {
        assert(value_types@ =~= seq![ValueType::ValueF32]);
    }
    Tensor { value_types, dimensions, flags: TENSOR_FLAG_ROW_MAJOR, data }
}

/// A model that is loaded is the model that a session is built from: after
/// loading `bytes` for a TPU under the handle `g`, the TensorFlow Lite model
/// to build for `g` is `bytes`.
pub proof fn law_load_then_build(models: Map<Graph, Seq<u8>>, bytes: Seq<u8>, g: Graph)
    ensures
        spec_load(models, bytes, ExecutionTarget::Tpu, g).1 == Ok::<Graph, InferenceError>(g),
        spec_model_to_build(spec_load(models, bytes, ExecutionTarget::Tpu, g).0, g, GraphEncoding::TfLite)
            == Ok::<Seq<u8>, InferenceError>(bytes),
{
}

/// A handle that is handed out is not in use: loading never replaces a
/// model that is already loaded.
pub proof fn law_next_key_fresh(dom: Set<u32>, k: u32)
    requires
        is_next_key(dom, k),
    ensures
        !dom.contains(k),
{
}

/// The outputs that a computation stores in a session are what the
/// session's output reads give back: tensor `index` where there is one, and
/// a runtime error past the last.
pub proof fn law_outputs_read_back<G>(
    sessions: Map<GraphExecutionContext, TfLiteSession<G>>,
    context: GraphExecutionContext,
    session: TfLiteSession<G>,
    index: u32,
)
    requires
        session.output_tensors is Some,
    ensures
        spec_get_output(sessions.insert(context, session), context, index) == if index < session.output_tensors->0@.len() {
            Ok::<TensorView, InferenceError>(session.output_tensors->0@[index as int]@)
        } else {
            Err::<TensorView, InferenceError>(InferenceError::RuntimeError)
        },
{
}

/// A dropped model and a dropped session are gone: building from the model
/// and reading the session's outputs both fail with a runtime error.
pub proof fn law_dropped_state_is_gone<G>(
    models: Map<Graph, Seq<u8>>,
    sessions: Map<GraphExecutionContext, TfLiteSession<G>>,
    graph: Graph,
    gec: GraphExecutionContext,
    encoding: GraphEncoding,
    index: u32,
)
    ensures
        spec_model_to_build(models.remove(graph), graph, encoding) == Err::<Seq<u8>, InferenceError>(
            InferenceError::RuntimeError,
        ),
        spec_get_output(sessions.remove(gec), gec, index) == Err::<TensorView, InferenceError>(
            InferenceError::RuntimeError,
        ),
{
}

/// A session that is taken out and put back under its handle leaves the
/// sessions as they were.
pub proof fn law_take_restore<G>(sessions: Map<GraphExecutionContext, TfLiteSession<G>>, context: GraphExecutionContext)
    requires
        sessions.contains_key(context),
    ensures
        sessions.remove(context).insert(context, sessions[context]) == sessions,
{
    assert(sessions.remove(context).insert(context, sessions[context]) =~= sessions);
}

/// Keeps the output tensors of a computation in a session.
pub fn store_outputs<G>(session: &mut TfLiteSession<G>, outputs: Vec<Tensor>)
    ensures
        final(session).graph == old(session).graph,
        final(session).encoding == old(session).encoding,
        final(session).input_tensors == old(session).input_tensors,
        final(session).output_tensors == Some(outputs),
{
    session.output_tensors = Some(outputs);
}

} // verus!
