//! The data of the inference interface: tensors, inference requests and
//! their outcomes.

use vstd::prelude::*;

verus! {

/// Element type of a tensor.
#[derive(Clone, Copy, Debug, PartialEq, Eq, Structural)]
pub enum ValueType {
    ValueU8,
    ValueU16,
    ValueU32,
    ValueU64,
    ValueU128,
    ValueS8,
    ValueS16,
    ValueS32,
    ValueS64,
    ValueS128,
    ValueF16,
    ValueF32,
    ValueF64,
    ValueBool,
    ValueC64,
    ValueC128,
}

/// Layout flag of a tensor whose elements are stored row by row.
pub const TENSOR_FLAG_ROW_MAJOR: u32 = 0;

/// A tensor: its element types, its shape, layout flags and the raw bytes
/// of its elements.
#[derive(Clone, Debug)]
pub struct Tensor {
    pub value_types: Vec<ValueType>,
    pub dimensions: Vec<u32>,
    pub flags: u32,
    pub data: Vec<u8>,
}

/// The mathematical counterpart of a [`Tensor`].
pub struct TensorView {
    pub value_types: Seq<ValueType>,
    pub dimensions: Seq<u32>,
    pub flags: u32,
    pub data: Seq<u8>,
}

impl View for Tensor {
    type V = TensorView;

    open spec fn view(&self) -> TensorView {
        TensorView {
            value_types: self.value_types@,
            dimensions: self.dimensions@,
            flags: self.flags,
            data: self.data@,
        }
    }
}

/// Failures reported by an inference engine.
#[derive(Clone, Debug)]
pub enum MlError {
    InvalidModel(String),
    InvalidEncoding(String),
    CorruptInputTensor(String),
    RuntimeError(String),
    NotSupported(String),
    ContextNotFound(String),
}

/// Whether an inference succeeded.
#[derive(Clone, Debug)]
pub enum Status {
    Success,
    Error(MlError),
}

/// Whether an inference failed, with its error.
#[derive(Clone, Debug)]
pub struct ResultStatus {
    pub has_error: bool,
    pub error: Option<MlError>,
}

/// A request to run a model on a tensor.
#[derive(Clone, Debug)]
pub struct InferenceInput {
    pub model: String,
    pub index: u32,
    pub tensor: Tensor,
}

/// The outcome of an inference and the tensor it produced.
#[derive(Clone, Debug)]
pub struct InferenceOutput {
    pub result: Status,
    pub tensor: Tensor,
}

} // verus!
