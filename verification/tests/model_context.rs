use mlinference::mlinference_types::{MlError, Status};
use mlinference::{get_default_inference_result, get_result_status, Error, ModelContext, ModelMetadata};
use mlinference::{ExecutionTarget, GraphEncoding, TType};

fn context() -> ModelContext {
    ModelContext {
        bindle_url: "bindle/model/1.0".to_string(),
        graph_encoding: GraphEncoding::Openvino,
        execution_target: ExecutionTarget::Gpu,
        tensor_type: TType::U8,
        graph_execution_context: 7,
        graph: 3,
    }
}

fn metadata(encoding: &str, tensor_type: &str, target: &str) -> ModelMetadata {
    ModelMetadata {
        model_name: Some("challenger".to_string()),
        graph_encoding: encoding.to_string(),
        execution_target: target.to_string(),
        tensor_type: tensor_type.to_string(),
        tensor_dimensions_in: Some(vec![1, 4]),
        tensor_dimensions_out: Some(vec![1, 4]),
    }
}

#[test]
fn load_metadata_takes_over_all_three_settings() {
    let mut ctx = context();
    let r = ctx.load_metadata(metadata("ONNX", "F32", "CPU"));
    let c = r.expect("metadata accepted");
    assert_eq!(c.graph_encoding, GraphEncoding::Onnx);
    assert_eq!(c.tensor_type, TType::F32);
    assert_eq!(c.execution_target, ExecutionTarget::Cpu);
    assert_eq!(c.bindle_url, "bindle/model/1.0");
    assert_eq!(c.graph, 3);
    assert_eq!(c.graph_execution_context, 7);
}

#[test]
fn load_metadata_reads_every_tensor_type_and_target() {
    for (name, tt) in [("F16", TType::F16), ("F32", TType::F32), ("U8", TType::U8), ("I32", TType::I32)] {
        for (tname, et) in [("CPU", ExecutionTarget::Cpu), ("GPU", ExecutionTarget::Gpu), ("TPU", ExecutionTarget::Tpu)] {
            let mut ctx = context();
            let ok = ctx.load_metadata(metadata("ONNX", name, tname)).is_ok();
            assert!(ok);
            assert_eq!(ctx.tensor_type, tt);
            assert_eq!(ctx.execution_target, et);
        }
    }
}

#[test]
fn load_metadata_rejects_unknown_graph_encoding_and_changes_nothing() {
    let mut ctx = context();
    match ctx.load_metadata(metadata("TFLITE", "F32", "CPU")) {
        Err(Error::InvalidParameter(m)) => assert_eq!(m, "invalid 'graph_encoding'"),
        other => panic!("unexpected {:?}", other),
    }
    assert_eq!(ctx.graph_encoding, GraphEncoding::Openvino);
    assert_eq!(ctx.tensor_type, TType::U8);
    assert_eq!(ctx.execution_target, ExecutionTarget::Gpu);
}

#[test]
fn load_metadata_is_case_sensitive() {
    let mut ctx = context();
    assert!(matches!(ctx.load_metadata(metadata("onnx", "F32", "CPU")), Err(Error::InvalidParameter(_))));
}

#[test]
fn load_metadata_rejects_unknown_tensor_type_after_taking_the_encoding() {
    let mut ctx = context();
    match ctx.load_metadata(metadata("ONNX", "F64", "CPU")) {
        Err(Error::InvalidParameter(m)) => assert_eq!(m, "invalid 'tensor_type'"),
        other => panic!("unexpected {:?}", other),
    }
    assert_eq!(ctx.graph_encoding, GraphEncoding::Onnx);
    assert_eq!(ctx.tensor_type, TType::U8);
    assert_eq!(ctx.execution_target, ExecutionTarget::Gpu);
}

#[test]
fn load_metadata_rejects_unknown_target_as_a_settings_error() {
    let mut ctx = context();
    match ctx.load_metadata(metadata("ONNX", "I32", "FPGA")) {
        Err(Error::Settings(m)) => assert_eq!(m, "invalid 'execution_target'"),
        other => panic!("unexpected {:?}", other),
    }
    assert_eq!(ctx.graph_encoding, GraphEncoding::Onnx);
    assert_eq!(ctx.tensor_type, TType::I32);
    assert_eq!(ctx.execution_target, ExecutionTarget::Gpu);
}

#[test]
fn result_status_without_error() {
    let s = get_result_status(None);
    assert!(!s.has_error);
    assert!(s.error.is_none());
}

#[test]
fn result_status_with_error() {
    let s = get_result_status(Some(MlError::RuntimeError("boom".to_string())));
    assert!(s.has_error);
    assert!(matches!(s.error, Some(MlError::RuntimeError(ref m)) if m == "boom"));
}

#[test]
fn default_inference_result_is_an_empty_tensor() {
    let out = get_default_inference_result(None);
    assert!(matches!(out.result, Status::Success));
    assert!(out.tensor.value_types.is_empty());
    assert!(out.tensor.dimensions.is_empty());
    assert_eq!(out.tensor.flags, 0);
    assert!(out.tensor.data.is_empty());
}

#[test]
fn default_inference_result_carries_the_error() {
    let out = get_default_inference_result(Some(MlError::ContextNotFound("ctx".to_string())));
    assert!(matches!(out.result, Status::Error(MlError::ContextNotFound(ref m)) if m == "ctx"));
    assert!(out.tensor.data.is_empty());
    assert!(out.tensor.dimensions.is_empty());
}

#[test]
fn defaults_of_the_enums() {
    assert_eq!(GraphEncoding::default(), GraphEncoding::Openvino);
    assert_eq!(ExecutionTarget::default(), ExecutionTarget::Cpu);
    assert_eq!(TType::default(), TType::F16);
}

#[test]
fn default_context() {
    let ctx = ModelContext::default();
    assert_eq!(ctx.bindle_url, "");
    assert_eq!(ctx.graph_encoding, GraphEncoding::Openvino);
    assert_eq!(ctx.execution_target, ExecutionTarget::Cpu);
    assert_eq!(ctx.tensor_type, TType::F16);
    assert_eq!(ctx.graph_execution_context, 0);
    assert_eq!(ctx.graph, 0);
    let copy = context().clone();
    assert_eq!(copy, context());
    assert_ne!(copy, ctx);
}
