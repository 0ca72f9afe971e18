use mlinference::image_ui::{char_is_white_space, ui_action, UiAction, INFERENCE_API_ACTOR};
use mlinference::inferenceapi::{
    choose_model_and_link, inference_input, plan_request, reply_status, validate, InferencePlan,
    RequestPlan, TensorSource, DEFAULT_LINK, IMAGENET_POSTPROCESS_ACTOR, IMAGENET_PREPROCESS_ACTOR,
    IMAGENET_PREPROCRGB8_ACTOR, MNIST_POSTPROCESS_ACTOR, MNIST_PREPROCESS_ACTOR,
};
use mlinference::mlinference_types::{MlError, Status, Tensor, ValueType};
use mlinference::path::path_segments;
use mlinference::rpc::RpcError;
use mlinference::text::{bytes_eq, decimal_text, str_eq};

fn tensor(dims: Vec<u32>, data: Vec<u8>) -> Tensor {
    Tensor { value_types: vec![ValueType::ValueF32], dimensions: dims, flags: 0, data }
}

fn infer(plan: RequestPlan) -> InferencePlan {
    match plan {
        RequestPlan::Infer(p) => p,
        other => panic!("unexpected {:?}", other),
    }
}

fn source_actor(p: &InferencePlan) -> Option<&str> {
    match &p.source {
        TensorSource::RequestBody => None,
        TensorSource::Preprocessor(a) => Some(a.as_str()),
    }
}

#[test]
fn model_hints_stand_for_models() {
    assert_eq!(choose_model_and_link("privacy"), ("mobilenetv27", "default"));
    assert_eq!(choose_model_and_link("latency"), ("mobilenetv27", "default"));
    assert_eq!(choose_model_and_link("default"), ("mobilenetv27", "default"));
    assert_eq!(choose_model_and_link("accuracy"), ("resnet152v27", "default"));
    assert_eq!(choose_model_and_link("squeezenetv117"), ("squeezenetv117", "default"));
    assert_eq!(choose_model_and_link(""), ("", "default"));
    assert_eq!(DEFAULT_LINK, "default");
}

#[test]
fn validation_checks_name_then_data_then_dimensions() {
    let good = tensor(vec![1, 4], vec![0, 0, 128, 63]);
    assert!(validate("identity", &good).is_ok());
    match validate("", &tensor(vec![], vec![])) {
        Err(RpcError::InvalidParameter(m)) => assert_eq!(m, "The name of a model MUST be provided!"),
        other => panic!("unexpected {:?}", other),
    }
    match validate("identity", &tensor(vec![], vec![])) {
        Err(RpcError::InvalidParameter(m)) => assert_eq!(m, "The input tensor MUST NOT be empty!"),
        other => panic!("unexpected {:?}", other),
    }
    match validate("identity", &tensor(vec![], vec![1])) {
        Err(RpcError::InvalidParameter(m)) => assert_eq!(m, "Tensor dimensions MUST be provided!"),
        other => panic!("unexpected {:?}", other),
    }
}

#[test]
fn inference_input_runs_index_zero() {
    let t = tensor(vec![1, 4], vec![1, 2, 3, 4]);
    let input = inference_input("plus3", t);
    assert_eq!(input.model, "plus3");
    assert_eq!(input.index, 0);
    assert_eq!(input.tensor.data, vec![1, 2, 3, 4]);
    assert_eq!(input.tensor.dimensions, vec![1, 4]);
}

#[test]
fn reply_status_by_result() {
    assert_eq!(reply_status(&Status::Success), 200);
    assert_eq!(reply_status(&Status::Error(MlError::InvalidModel("m".to_string()))), 500);
}

#[test]
fn post_of_a_tensor_to_a_model() {
    let p = infer(plan_request("POST", "/identity"));
    assert_eq!(source_actor(&p), None);
    assert_eq!(p.model, "identity");
    assert_eq!(p.link, "default");
    assert!(p.postprocessor.is_none());
}

#[test]
fn put_of_a_tensor_chooses_the_model() {
    let p = infer(plan_request("PUT", "privacy/"));
    assert_eq!(source_actor(&p), None);
    assert_eq!(p.model, "mobilenetv27");
    assert!(p.postprocessor.is_none());
}

#[test]
fn preprocess_endpoint() {
    let p = infer(plan_request("PUT", "/squeezenetv117/preprocess"));
    assert_eq!(source_actor(&p), Some(IMAGENET_PREPROCESS_ACTOR));
    assert_eq!(p.model, "squeezenetv117");
    assert!(p.postprocessor.is_none());
    let p = infer(plan_request("PUT", "/accuracy/preprocess"));
    assert_eq!(p.model, "resnet152v27");
}

#[test]
fn preprocess_rgb8_endpoint_names_the_model_itself() {
    let p = infer(plan_request("PUT", "/accuracy/preprocess/rgb8"));
    assert_eq!(source_actor(&p), Some(IMAGENET_PREPROCRGB8_ACTOR));
    assert_eq!(p.model, "accuracy");
    assert_eq!(p.link, "default");
    assert!(p.postprocessor.is_none());
}

#[test]
fn matches_endpoint() {
    let p = infer(plan_request("PUT", "/mobilenetv27/matches"));
    assert_eq!(source_actor(&p), Some(IMAGENET_PREPROCESS_ACTOR));
    assert_eq!(p.model, "mobilenetv27");
    assert_eq!(p.postprocessor.as_deref(), Some(IMAGENET_POSTPROCESS_ACTOR));
    let p = infer(plan_request("PUT", "/latency/matches"));
    assert_eq!(p.model, "mobilenetv27");
}

#[test]
fn matches_rgb8_endpoint() {
    let p = infer(plan_request("PUT", "//squeezenetv117/matches/rgb8//"));
    assert_eq!(source_actor(&p), Some(IMAGENET_PREPROCRGB8_ACTOR));
    assert_eq!(p.model, "squeezenetv117");
    assert_eq!(p.postprocessor.as_deref(), Some(IMAGENET_POSTPROCESS_ACTOR));
}

#[test]
fn mnist_endpoint() {
    let p = infer(plan_request("PUT", "/mnist/mnist/matches"));
    assert_eq!(source_actor(&p), Some(MNIST_PREPROCESS_ACTOR));
    assert_eq!(p.model, "mnist");
    assert_eq!(p.postprocessor.as_deref(), Some(MNIST_POSTPROCESS_ACTOR));
}

#[test]
fn everything_else_is_not_served() {
    for (m, path) in [
        ("GET", "/identity"),
        ("GET", "/identity/preprocess"),
        ("DELETE", "/identity/matches"),
        ("PUT", "/identity/other"),
        ("PUT", "/a/b/c/d"),
        ("PUT", "/a/mnist/rgb8"),
        ("DELETE", "/"),
    ] {
        match plan_request(m, path) {
            RequestPlan::Unsupported(body) => assert_eq!(body, "----N/A-----"),
            other => panic!("unexpected {:?} for {} {}", other, m, path),
        }
    }
}

#[test]
fn empty_path_is_one_empty_model_name() {
    let p = infer(plan_request("POST", "/"));
    assert_eq!(p.model, "");
}

#[test]
fn path_segments_between_slashes() {
    assert_eq!(path_segments("/a/b/"), vec!["a".to_string(), "b".to_string()]);
    assert_eq!(path_segments("a//b"), vec!["a".to_string(), "".to_string(), "b".to_string()]);
    assert_eq!(path_segments("///"), vec!["".to_string()]);
    assert_eq!(path_segments(""), vec!["".to_string()]);
    assert_eq!(path_segments("/ü/ß"), vec!["ü".to_string(), "ß".to_string()]);
}

#[test]
fn page_is_served_for_get_of_the_root() {
    assert_eq!(ui_action("GET", "/"), UiAction::ServePage);
    assert_eq!(ui_action("GET", ""), UiAction::ServePage);
    assert_eq!(ui_action("GET", "  ///  "), UiAction::ServePage);
    assert_eq!(ui_action("GET", "\t/\n"), UiAction::ServePage);
}

#[test]
fn other_requests_go_to_the_inference_api() {
    let fwd = UiAction::Forward(INFERENCE_API_ACTOR.to_string());
    assert_eq!(ui_action("GET", "/mobilenetv27/matches"), fwd);
    assert_eq!(ui_action("PUT", "/"), fwd);
    assert_eq!(ui_action("get", "/"), fwd);
    assert_eq!(ui_action("GET", "/ a"), fwd);
    assert_eq!(INFERENCE_API_ACTOR, "inferenceapi");
}

#[test]
fn white_space_characters() {
    for c in [' ', '\t', '\n', '\r', '\u{0b}', '\u{0c}', '\u{85}', '\u{a0}', '\u{2003}', '\u{3000}'] {
        assert!(char_is_white_space(c), "{:?}", c);
        assert_eq!(char_is_white_space(c), c.is_whitespace());
    }
    for c in ['a', '/', '0', '\u{200b}', '\u{feff}'] {
        assert!(!char_is_white_space(c), "{:?}", c);
        assert_eq!(char_is_white_space(c), c.is_whitespace());
    }
}

#[test]
fn text_helpers() {
    assert!(str_eq("abc", "abc"));
    assert!(!str_eq("abc", "abd"));
    assert!(!str_eq("abc", "ab"));
    assert!(bytes_eq(&[1, 2], &[1, 2]));
    assert!(!bytes_eq(&[1, 2], &[2, 1]));
    assert_eq!(decimal_text(0), "0");
    assert_eq!(decimal_text(7), "7");
    assert_eq!(decimal_text(42), "42");
    assert_eq!(decimal_text(1000), "1000");
    assert_eq!(decimal_text(u64::MAX), "18446744073709551615");
}

#[test]
fn readme_posts_images_to_preprocess_and_matches() {
    let p = infer(plan_request("POST", "/squeezenetv117/preprocess"));
    assert_eq!(source_actor(&p), Some(IMAGENET_PREPROCESS_ACTOR));
    assert_eq!(p.model, "squeezenetv117");
    assert!(p.postprocessor.is_none());
    let p = infer(plan_request("POST", "/mobilenetv27/matches"));
    assert_eq!(source_actor(&p), Some(IMAGENET_PREPROCESS_ACTOR));
    assert_eq!(p.model, "mobilenetv27");
    assert_eq!(p.postprocessor.as_deref(), Some(IMAGENET_POSTPROCESS_ACTOR));
}

#[test]
fn rgb8_and_mnist_routes_are_put_only() {
    for path in ["/squeezenetv117/matches/rgb8", "/mnist/mnist/matches", "/accuracy/preprocess/rgb8"] {
        match plan_request("POST", path) {
            RequestPlan::Unsupported(body) => assert_eq!(body, "----N/A-----"),
            other => panic!("unexpected {:?} for POST {}", other, path),
        }
        assert!(matches!(plan_request("PUT", path), RequestPlan::Infer(_)));
    }
}
