//! Identifiers of model graph encodings, execution targets and tensor
//! element types, and the handles under which models and execution
//! sessions are kept.

use vstd::prelude::*;

verus! {

/// Handle of a loaded model graph.
pub type Graph = u32;

/// Handle of an execution session created from a loaded graph.
pub type GraphExecutionContext = u32;

/// The serialization format of a model graph.
#[derive(Clone, Copy, Debug, PartialEq, Eq, Structural)]
pub enum GraphEncoding {
    Openvino,
    Onnx,
    Tensorflow,
    Pytorch,
    TfLite,
}

/// The device class on which a model is executed.
#[derive(Clone, Copy, Debug, PartialEq, Eq, Structural)]
pub enum ExecutionTarget {
    Cpu,
    Gpu,
    Tpu,
}

/// The element type of the tensors that a model consumes.
#[derive(Clone, Copy, Debug, PartialEq, Eq, Structural)]
pub enum TType {
    F16,
    F32,
    U8,
    I32,
}

impl Default for GraphEncoding {
    fn default() -> (r: Self)
        ensures
            r == GraphEncoding::Openvino,
    {
        GraphEncoding::Openvino
    }
}

impl Default for ExecutionTarget {
    fn default() -> (r: Self)
        ensures
            r == ExecutionTarget::Cpu,
    {
        ExecutionTarget::Cpu
    }
}

impl Default for TType {
    fn default() -> (r: Self)
        ensures
            r == TType::F16,
    {
        TType::F16
    }
}

} // verus!
