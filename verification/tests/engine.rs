use std::collections::BTreeMap;

use mlinference::mlinference_types::{Status, Tensor, ValueType, TENSOR_FLAG_ROW_MAJOR};
use mlinference::tflite::{
    copy_tensor, copy_vec, copy_vec_slice, float_bits_to_bytes, next_key, output_tensor, store_outputs,
    InferenceError, ModelState, TfLiteSession,
};
use mlinference::{ExecutionTarget, GraphEncoding};

fn f32_bits(xs: &[f32]) -> Vec<u32> {
    xs.iter().map(|x| x.to_bits()).collect()
}

#[test]
fn floats_are_laid_out_little_endian() {
    let bytes = float_bits_to_bytes(&f32_bits(&[1.0, 2.0, 3.0, 4.0]));
    assert_eq!(bytes, vec![0, 0, 128, 63, 0, 0, 0, 64, 0, 0, 64, 64, 0, 0, 128, 64]);
    let bytes = float_bits_to_bytes(&f32_bits(&[4.0, 5.0, 6.0, 7.0]));
    assert_eq!(bytes, vec![0, 0, 128, 64, 0, 0, 160, 64, 0, 0, 192, 64, 0, 0, 224, 64]);
    assert!(float_bits_to_bytes(&[]).is_empty());
    assert_eq!(float_bits_to_bytes(&[0x0102_0304]), vec![4, 3, 2, 1]);
}

#[test]
fn output_tensor_is_row_major_f32() {
    let t = output_tensor(&[1, 1000], vec![1, 2, 3, 4]);
    assert_eq!(t.value_types, vec![ValueType::ValueF32]);
    assert_eq!(t.dimensions, vec![1, 1000]);
    assert_eq!(t.flags, TENSOR_FLAG_ROW_MAJOR);
    assert_eq!(t.data, vec![1, 2, 3, 4]);
    let t = output_tensor(&[], vec![]);
    assert!(t.dimensions.is_empty());
}

#[test]
fn next_key_follows_the_greatest_key() {
    let mut m: BTreeMap<u32, ()> = BTreeMap::new();
    assert_eq!(next_key(&m), 0);
    m.insert(0, ());
    assert_eq!(next_key(&m), 1);
    m.insert(7, ());
    m.insert(3, ());
    assert_eq!(next_key(&m), 8);
    m.remove(&7);
    assert_eq!(next_key(&m), 4);
    let state: ModelState<()> = ModelState::new();
    assert_eq!(state.key(&m), 4);
}

#[test]
fn loading_is_for_tpu_only() {
    let mut state: ModelState<()> = ModelState::new();
    assert_eq!(state.load(&[1, 2, 3], ExecutionTarget::Cpu), Err(InferenceError::UnsupportedExecutionTarget));
    assert_eq!(state.load(&[1, 2, 3], ExecutionTarget::Gpu), Err(InferenceError::UnsupportedExecutionTarget));
    assert_eq!(state.model_to_build(0, GraphEncoding::TfLite), Err(InferenceError::RuntimeError));
    assert_eq!(state.load(&[7], ExecutionTarget::Tpu), Ok(0));
    assert_eq!(state.load(&[8], ExecutionTarget::Cpu), Err(InferenceError::UnsupportedExecutionTarget));
    assert_eq!(state.model_to_build(0, GraphEncoding::TfLite), Ok(&vec![7]));
    assert_eq!(state.model_to_build(1, GraphEncoding::TfLite), Err(InferenceError::RuntimeError));
}

#[test]
fn loaded_models_get_fresh_handles_and_are_built_from() {
    let mut state: ModelState<()> = ModelState::new();
    assert!(state.has_model_handle_left());
    assert!(state.has_session_handle_left());
    assert_eq!(state.load(&[1, 2, 3], ExecutionTarget::Tpu), Ok(0));
    assert!(state.has_model_handle_left());
    assert_eq!(state.load(&[9], ExecutionTarget::Tpu), Ok(1));
    assert_eq!(state.model_to_build(0, GraphEncoding::TfLite), Ok(&vec![1, 2, 3]));
    assert_eq!(state.model_to_build(1, GraphEncoding::TfLite), Ok(&vec![9]));
    assert_eq!(state.model_to_build(0, GraphEncoding::Onnx), Err(InferenceError::InvalidEncodingError));
    assert_eq!(state.model_to_build(2, GraphEncoding::TfLite), Err(InferenceError::RuntimeError));
}

#[test]
fn outputs_that_are_stored_are_read_back() {
    let mut state: ModelState<&str> = ModelState::new();
    let gec = state.add_execution(TfLiteSession::with_graph("interp", GraphEncoding::TfLite));
    assert_eq!(gec, 0);
    assert_eq!(state.get_output(gec, 0).err(), Some(InferenceError::RuntimeError));
    let mut session = state.take_session(gec).ok().expect("session");
    assert_eq!(session.graph, "interp");
    assert_eq!(session.encoding, GraphEncoding::TfLite);
    assert!(session.input_tensors.is_none());
    assert!(state.take_session(gec).is_err());
    let data = float_bits_to_bytes(&f32_bits(&[1.0, 2.0, 3.0, 4.0]));
    store_outputs(&mut session, vec![output_tensor(&[1, 4], data.clone())]);
    state.restore_session(gec, session);
    let out = state.get_output(gec, 0).ok().expect("output");
    assert!(matches!(out.result, Status::Success));
    assert_eq!(out.tensor.data, data);
    assert_eq!(out.tensor.dimensions, vec![1, 4]);
    assert_eq!(state.get_output(gec, 1).err(), Some(InferenceError::RuntimeError));
    assert_eq!(state.get_output(gec + 1, 0).err(), Some(InferenceError::RuntimeError));
    let second = state.add_execution(TfLiteSession::with_graph("other", GraphEncoding::TfLite));
    assert_eq!(second, 1);
}

#[test]
fn dropped_state_is_gone() {
    let mut state: ModelState<u8> = ModelState::new();
    let g = state.load(&[5, 5], ExecutionTarget::Tpu).unwrap();
    let gec = state.add_execution(TfLiteSession::with_graph(1, GraphEncoding::TfLite));
    let mut s = state.take_session(gec).ok().unwrap();
    store_outputs(&mut s, vec![output_tensor(&[1], vec![0, 0, 0, 0])]);
    state.restore_session(gec, s);
    state.drop_model_state(&g, &gec);
    assert_eq!(state.model_to_build(g, GraphEncoding::TfLite), Err(InferenceError::RuntimeError));
    assert_eq!(state.get_output(gec, 0).err(), Some(InferenceError::RuntimeError));
    assert!(state.take_session(gec).is_err());
    assert_eq!(state.load(&[6], ExecutionTarget::Tpu), Ok(0));
}

#[test]
fn copies_are_equal() {
    assert_eq!(copy_vec(&vec![3u32, 1, 2]), vec![3, 1, 2]);
    assert_eq!(copy_vec_slice(&[7, 8]), vec![7, 8]);
    let t = Tensor { value_types: vec![ValueType::ValueU8], dimensions: vec![2], flags: 1, data: vec![1, 2] };
    let c = copy_tensor(&t);
    assert_eq!(c.value_types, t.value_types);
    assert_eq!(c.dimensions, t.dimensions);
    assert_eq!(c.flags, 1);
    assert_eq!(c.data, t.data);
}
