//! Verified core of a machine-learning inference service: model metadata
//! handling, the inference engine's model/session bookkeeping, message
//! encodings of the pre- and post-processing interfaces, and the request
//! routing of the HTTP front end.

use vstd::prelude::*;

pub mod text;
pub mod path;
pub mod mlinference_types;
pub mod cbor;
pub mod rpc;
pub mod imagenet;
pub mod mlpreprocessing;
pub mod inferenceapi;
pub mod image_ui;
pub mod tflite;
pub mod inference;
pub mod bindle_loader;
pub mod model_loader;

pub use bindle_loader::{BindleLoader, ModelMetadata};
pub use inference::{ExecutionTarget, Graph, GraphEncoding, GraphExecutionContext, TType};
use crate::text::str_eq;
use crate::mlinference_types::{InferenceOutput, MlError, ResultStatus, Status, Tensor};

verus! {

/// Path of a model bundle.
pub type BindlePath = String;

/// Name under which a model is served.
pub type ModelName = String;

/// Everything the service keeps about one configured model.
#[derive(Clone, Debug, PartialEq)]
pub struct ModelContext {
    pub bindle_url: BindlePath,
    pub graph_encoding: GraphEncoding,
    pub execution_target: ExecutionTarget,
    pub tensor_type: TType,
    pub graph_execution_context: GraphExecutionContext,
    pub graph: Graph,
}

/// Errors of model configuration.
#[derive(Debug)]
pub enum Error {
    InvalidParameter(String),
    Settings(String),
    Init(String),
}

/// The graph encoding that a metadata name denotes, where the service
/// supports it.
pub open spec fn spec_graph_encoding(name: Seq<char>) -> Option<GraphEncoding> {
    if name == "ONNX"@ {
        Some(GraphEncoding::Onnx)
    } else {
        None
    }
}

/// The tensor element type that a metadata name denotes.
pub open spec fn spec_tensor_type(name: Seq<char>) -> Option<TType> {
    if name == "F16"@ {
        Some(TType::F16)
    } else if name == "F32"@ {
        Some(TType::F32)
    } else if name == "U8"@ {
        Some(TType::U8)
    } else if name == "I32"@ {
        Some(TType::I32)
    } else {
        None
    }
}

/// The execution target that a metadata name denotes.
pub open spec fn spec_execution_target(name: Seq<char>) -> Option<ExecutionTarget> {
    if name == "CPU"@ {
        Some(ExecutionTarget::Cpu)
    } else if name == "GPU"@ {
        Some(ExecutionTarget::Gpu)
    } else if name == "TPU"@ {
        Some(ExecutionTarget::Tpu)
    } else {
        None
    }
}

/// The message that an error carries.
pub open spec fn error_message(e: Error) -> Seq<char> {
    match e {
        Error::InvalidParameter(m) => m@,
        Error::Settings(m) => m@,
        Error::Init(m) => m@,
    }
}

fn graph_encoding_of(name: &str) -> (r: Option<GraphEncoding>)
    ensures
        r == spec_graph_encoding(name@),
{
    if str_eq(name, "ONNX") {
        Some(GraphEncoding::Onnx)
    } else {
        None
    }
}

fn tensor_type_of(name: &str) -> (r: Option<TType>)
    ensures
        r == spec_tensor_type(name@),
{
    if str_eq(name, "F16") {
        Some(TType::F16)
    } else if str_eq(name, "F32") {
        Some(TType::F32)
    } else if str_eq(name, "U8") {
        Some(TType::U8)
    } else if str_eq(name, "I32") {
        Some(TType::I32)
    } else {
        None
    }
}

fn execution_target_of(name: &str) -> (r: Option<ExecutionTarget>)
    ensures
        r == spec_execution_target(name@),
{
    if str_eq(name, "CPU") {
        Some(ExecutionTarget::Cpu)
    } else if str_eq(name, "GPU") {
        Some(ExecutionTarget::Gpu)
    } else if str_eq(name, "TPU") {
        Some(ExecutionTarget::Tpu)
    } else {
        None
    }
}

/// The result status for an optional error: it has an error exactly when
/// one is given.
pub fn get_result_status(ml_error_option: Option<MlError>) -> (r: ResultStatus)
    ensures
        r.has_error == ml_error_option is Some,
        r.error == ml_error_option,
{
    let with_error = ml_error_option.is_some();
    ResultStatus { has_error: with_error, error: ml_error_option }
}

/// The outcome reported when no inference result is available: an empty
/// tensor, and the given error as the status (success where none is given).
pub fn get_default_inference_result(ml_error: Option<MlError>) -> (r: InferenceOutput)
    ensures
        match ml_error {
            Some(e) => r.result == Status::Error(e),
            None => r.result == Status::Success,
        },
        r.tensor@.value_types == Seq::<crate::mlinference_types::ValueType>::empty(),
        r.tensor@.dimensions == Seq::<u32>::empty(),
        r.tensor@.flags == 0,
        r.tensor@.data == Seq::<u8>::empty(),
{
    let status = get_result_status(ml_error);
    let result = match status.error {
        Some(e) => Status::Error(e),
        None => Status::Success,
    };
    InferenceOutput {
        result,
        tensor: Tensor { value_types: Vec::new(), dimensions: Vec::new(), flags: 0, data: Vec::new() },
    }
}

impl Default for ModelContext {
    /// A context with no bundle path, the default encoding, target and
    /// tensor type, and handle 0 for the graph and its execution context.
    fn default() -> (r: Self)
        ensures
            r.bindle_url@ == Seq::<char>::empty(),
            r.graph_encoding == GraphEncoding::Openvino,
            r.execution_target == ExecutionTarget::Cpu,
            r.tensor_type == TType::F16,
            r.graph_execution_context == 0,
            r.graph == 0,
    {
        ModelContext {
            bindle_url: String::new(),
            graph_encoding: GraphEncoding::Openvino,
            execution_target: ExecutionTarget::Cpu,
            tensor_type: TType::F16,
            graph_execution_context: 0,
            graph: 0,
        }
    }
}

impl ModelContext {
    /// Takes over the graph encoding, tensor type and execution target that
    /// `metadata` names. The three are checked in this order; each one that
    /// is accepted is stored before the next is checked, so a failure leaves
    /// the ones before it updated.
    pub fn load_metadata(&mut self, metadata: ModelMetadata) -> (r: Result<&ModelContext, Error>)
        ensures
            final(self).bindle_url == old(self).bindle_url,
            final(self).graph == old(self).graph,
            final(self).graph_execution_context == old(self).graph_execution_context,
            match spec_graph_encoding(metadata.graph_encoding@) {
                None => {
                    &&& r is Err
                    &&& r->Err_0 is InvalidParameter
                    &&& error_message(r->Err_0) == "invalid 'graph_encoding'"@
                    &&& final(self).graph_encoding == old(self).graph_encoding
                    &&& final(self).tensor_type == old(self).tensor_type
                    &&& final(self).execution_target == old(self).execution_target
                },
                Some(ge) => {
                    &&& final(self).graph_encoding == ge
                    &&& match spec_tensor_type(metadata.tensor_type@) {
                        None => {
                            &&& r is Err
                            &&& r->Err_0 is InvalidParameter
                            &&& error_message(r->Err_0) == "invalid 'tensor_type'"@
                            &&& final(self).tensor_type == old(self).tensor_type
                            &&& final(self).execution_target == old(self).execution_target
                        },
                        Some(tt) => {
                            &&& final(self).tensor_type == tt
                            &&& match spec_execution_target(metadata.execution_target@) {
                                None => {
                                    &&& r is Err
                                    &&& r->Err_0 is Settings
                                    &&& error_message(r->Err_0) == "invalid 'execution_target'"@
                                    &&& final(self).execution_target == old(self).execution_target
                                },
                                Some(et) => {
                                    &&& final(self).execution_target == et
                                    &&& r is Ok
                                    &&& *r->Ok_0 == *final(self)
                                },
                            }
                        },
                    }
                },
            },
    {
        match graph_encoding_of(metadata.graph_encoding.as_str()) {
            Some(ge) => {
                self.graph_encoding = ge;
            },
            None => {
                return Err(Error::InvalidParameter(String::from_str("invalid 'graph_encoding'")));
            },
        }
        match tensor_type_of(metadata.tensor_type.as_str()) {
            Some(tt) => {
                self.tensor_type = tt;
            },
            None => {
                return Err(Error::InvalidParameter(String::from_str("invalid 'tensor_type'")));
            },
        }
        match execution_target_of(metadata.execution_target.as_str()) {
            Some(et) => {
                self.execution_target = et;
            },
            None => {
                return Err(Error::Settings(String::from_str("invalid 'execution_target'")));
            },
        }
        Ok(self)
    }
}

} // verus!
