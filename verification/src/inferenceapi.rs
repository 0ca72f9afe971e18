//! Decisions of the HTTP inference front end: which pipeline a request
//! runs (pre-processing, model, post-processing), which model and link a
//! user-facing model hint stands for, whether an input tensor is acceptable,
//! and the status of the reply.

use vstd::prelude::*;
use crate::mlinference_types::{InferenceInput, Status, Tensor, TensorView};
use crate::path::{path_segments, split_slashes, trim_slashes, lemma_split_nonempty};
use crate::rpc::{RpcError, RpcErrorView};
use crate::text::str_eq;

verus! {

/// Actor that turns an image into the input tensor of an image classifier.
pub const IMAGENET_PREPROCESS_ACTOR: &'static str = "mlinference/imagenetpreprocessor";

/// Actor that turns an image into an 8-bit RGB input tensor.
pub const IMAGENET_PREPROCRGB8_ACTOR: &'static str = "mlinference/imagenetpreprocrgb8";

/// Actor that turns the output of an image classifier into matches.
pub const IMAGENET_POSTPROCESS_ACTOR: &'static str = "mlinference/imagenetpostprocessor";

/// Actor that turns an image into the input tensor of a digit recognizer.
pub const MNIST_PREPROCESS_ACTOR: &'static str = "mlinference/mnistpreprocessor";

/// Actor that turns the output of a digit recognizer into matches.
pub const MNIST_POSTPROCESS_ACTOR: &'static str = "mlinference/mnistpostprocessor";

/// The link over which the inference provider is reached by default.
pub const DEFAULT_LINK: &'static str = "default";

/// The model and link that a model hint stands for: "privacy", "latency"
/// and "default" stand for the fast local model, "accuracy" for the accurate
/// server model, and any other hint names a model itself.
pub open spec fn spec_choose_model_and_link(hint: Seq<char>) -> (Seq<char>, Seq<char>) {
    if hint == "privacy"@ || hint == "latency"@ || hint == "default"@ {
        ("mobilenetv27"@, "default"@)
    } else if hint == "accuracy"@ {
        ("resnet152v27"@, "default"@)
    } else {
        (hint, "default"@)
    }
}

/// Maps a user preference label to a model and the link to its provider, so
/// that the front end need not know the names of the actual models.
pub fn choose_model_and_link<'a>(model_hint: &'a str) -> (r: (&'a str, &'a str))
    ensures
        (r.0@, r.1@) == spec_choose_model_and_link(model_hint@),
{
    proof {
        reveal_strlit("accuracy");
        reveal_strlit("default");
        assert("accuracy"@ != "default"@) by {
            assert("accuracy"@[0] != "default"@[0]);
        }
    }
    let local_fast: &'a str = "mobilenetv27";
    let server_accurate: &'a str = "resnet152v27";
    let link: &'a str = DEFAULT_LINK;
    if str_eq(model_hint, "privacy") {
        (local_fast, link)
    } else if str_eq(model_hint, "latency") {
        (local_fast, link)
    } else if str_eq(model_hint, "accuracy") {
        (server_accurate, link)
    } else if str_eq(model_hint, "default") {
        (local_fast, link)
    } else {
        (model_hint, link)
    }
}

/// The error for an unacceptable request, if any: the model name must be
/// given, and the tensor must have data and dimensions, checked in this
/// order.
pub open spec fn spec_validate(model_name: Seq<char>, tensor: TensorView) -> Option<RpcErrorView> {
    if model_name.len() == 0 {
        Some(RpcErrorView::InvalidParameter("The name of a model MUST be provided!"@))
    } else if tensor.data.len() == 0 {
        Some(RpcErrorView::InvalidParameter("The input tensor MUST NOT be empty!"@))
    } else if tensor.dimensions.len() == 0 {
        Some(RpcErrorView::InvalidParameter("Tensor dimensions MUST be provided!"@))
    } else {
        None
    }
}

/// Checks that a model is named and that the input tensor has data and
/// dimensions.
pub fn validate(model_name: &str, tensor: &Tensor) -> (r: Result<(), RpcError>)
    ensures
        match spec_validate(model_name@, tensor@) {
            None => r is Ok,
            Some(e) => r matches Err(err) && err@ == e,
        },
        r is Ok <==> (model_name@.len() > 0 && tensor.data@.len() > 0 && tensor.dimensions@.len() > 0),
{
    proof {
        law_validate_accepts_exactly_complete_requests(model_name@, tensor@);
    }
    if model_name.is_empty() {
        return Err(RpcError::InvalidParameter(String::from_str("The name of a model MUST be provided!")));
    }
    if tensor.data.len() == 0 {
        return Err(RpcError::InvalidParameter(String::from_str("The input tensor MUST NOT be empty!")));
    }
    if tensor.dimensions.len() == 0 {
        return Err(RpcError::InvalidParameter(String::from_str("Tensor dimensions MUST be provided!")));
    }
    Ok(())
}

/// The request that runs `model_name` on `tensor`, at input index 0.
pub fn inference_input(model_name: &str, tensor: Tensor) -> (r: InferenceInput)
    ensures
        r.model@ == model_name@,
        r.index == 0,
        r.tensor == tensor,
{
    InferenceInput { model: String::from_str(model_name), index: 0, tensor }
}

/// The HTTP status of the reply to a prediction: 500 where the inference
/// failed, 200 otherwise.
pub fn reply_status(result: &Status) -> (code: u16)
    ensures
        code == (if result is Error { 500u16 } else { 200u16 }),
{
    match result {
        Status::Error(_) => 500,
        Status::Success => 200,
    }
}

/// Where the input tensor of a pipeline comes from.
#[derive(Debug)]
pub enum TensorSource {
    /// The request body holds the tensor as JSON.
    RequestBody,
    /// The request body goes to this pre-processing actor.
    Preprocessor(String),
}

/// The steps of an inference pipeline: the source of the tensor, the model
/// and the link to its provider, and the post-processing actor, if any.
#[derive(Debug)]
pub struct InferencePlan {
    pub source: TensorSource,
    pub model: String,
    pub link: String,
    pub postprocessor: Option<String>,
}

/// What a request to the front end asks for.
#[derive(Debug)]
pub enum RequestPlan {
    Infer(InferencePlan),
    /// No pipeline serves the request; the reply is a server error with
    /// this body.
    Unsupported(String),
}

/// The mathematical counterpart of a [`TensorSource`].
pub enum SourceView {
    RequestBody,
    Preprocessor(Seq<char>),
}

/// The mathematical counterpart of a [`RequestPlan`].
pub enum PlanView {
    Infer {
        source: SourceView,
        model: Seq<char>,
        link: Seq<char>,
        postprocessor: Option<Seq<char>>,
    },
    Unsupported(Seq<char>),
}

impl View for RequestPlan {
    type V = PlanView;

    open spec fn view(&self) -> PlanView {
        match self {
            RequestPlan::Infer(p) => PlanView::Infer {
                source: match p.source {
                    TensorSource::RequestBody => SourceView::RequestBody,
                    TensorSource::Preprocessor(a) => SourceView::Preprocessor(a@),
                },
                model: p.model@,
                link: p.link@,
                postprocessor: match p.postprocessor {
                    Some(a) => Some(a@),
                    None => None,
                },
            },
            RequestPlan::Unsupported(b) => PlanView::Unsupported(b@),
        }
    }
}

/// A pipeline whose model is chosen from the hint.
pub open spec fn chosen(source: SourceView, hint: Seq<char>, post: Option<Seq<char>>) -> PlanView {
    PlanView::Infer {
        source,
        model: spec_choose_model_and_link(hint).0,
        link: spec_choose_model_and_link(hint).1,
        postprocessor: post,
    }
}

/// A pipeline that runs the named model over the default link.
pub open spec fn direct(source: SourceView, model: Seq<char>, post: Option<Seq<char>>) -> PlanView {
    PlanView::Infer { source, model, link: "default"@, postprocessor: post }
}

/// The pipeline for a request, by its method and the segments of its path
/// without leading and trailing slashes:
/// - POST or PUT `<model>`: the tensor in the body, the chosen model;
/// - POST or PUT `<model>/preprocess`: image pre-processing, the chosen
///   model;
/// - PUT `<model>/preprocess/rgb8`: RGB8 pre-processing, the named model;
/// - POST or PUT `<model>/matches`: image pre-processing, the chosen model,
///   image post-processing;
/// - PUT `<model>/matches/rgb8`: RGB8 pre-processing, the named model, image
///   post-processing;
/// - PUT `<model>/mnist/matches`: digit pre-processing, the named model,
///   digit post-processing;
/// - anything else is not served.
pub open spec fn spec_plan_request(method: Seq<char>, path: Seq<char>) -> PlanView {
    let s = split_slashes(trim_slashes(path));
    let image_pre = SourceView::Preprocessor("mlinference/imagenetpreprocessor"@);
    let rgb8_pre = SourceView::Preprocessor("mlinference/imagenetpreprocrgb8"@);
    let image_post = Some("mlinference/imagenetpostprocessor"@);
    let served = method == "POST"@ || method == "PUT"@;
    let put = method == "PUT"@;
    if served && s.len() == 1 {
        chosen(SourceView::RequestBody, s[0], None)
    } else if served && s.len() == 2 && s[1] == "preprocess"@ {
        chosen(image_pre, s[0], None)
    } else if put && s.len() == 3 && s[1] == "preprocess"@ && s[2] == "rgb8"@ {
        direct(rgb8_pre, s[0], None)
    } else if served && s.len() == 2 && s[1] == "matches"@ {
        chosen(image_pre, s[0], image_post)
    } else if put && s.len() == 3 && s[1] == "matches"@ && s[2] == "rgb8"@ {
        direct(rgb8_pre, s[0], image_post)
    } else if put && s.len() == 3 && s[1] == "mnist"@ && s[2] == "matches"@ {
        direct(
            SourceView::Preprocessor("mlinference/mnistpreprocessor"@),
            s[0],
            Some("mlinference/mnistpostprocessor"@),
        )
    } else {
        PlanView::Unsupported("----N/A-----"@)
    }
}

fn chosen_plan(source: TensorSource, hint: &str, post: Option<String>) -> (r: RequestPlan)
    ensures
        r@ == chosen(
            match source {
                TensorSource::RequestBody => SourceView::RequestBody,
                TensorSource::Preprocessor(a) => SourceView::Preprocessor(a@),
            },
            hint@,
            match post {
                Some(a) => Some(a@),
                None => None,
            },
        ),
{
    let (model, link) = choose_model_and_link(hint);
    RequestPlan::Infer(
        InferencePlan {
            source,
            model: String::from_str(model),
            link: String::from_str(link),
            postprocessor: post,
        },
    )
}

fn direct_plan(source: TensorSource, model: &str, post: Option<String>) -> (r: RequestPlan)
    ensures
        r@ == direct(
            match source {
                TensorSource::RequestBody => SourceView::RequestBody,
                TensorSource::Preprocessor(a) => SourceView::Preprocessor(a@),
            },
            model@,
            match post {
                Some(a) => Some(a@),
                None => None,
            },
        ),
{
    RequestPlan::Infer(
        InferencePlan {
            source,
            model: String::from_str(model),
            link: String::from_str(DEFAULT_LINK),
            postprocessor: post,
        },
    )
}

/// Decides which pipeline serves a request with this method and path.
pub fn plan_request(method: &str, path: &str) -> (r: RequestPlan)
    ensures
        r@ == spec_plan_request(method@, path@),
        r@ matches PlanView::Infer { link, .. } ==> link == "default"@,
{
    proof {
        law_served_plans_use_default_link(method@, path@);
    }
    let segs = path_segments(path);
    proof {
        lemma_split_nonempty(trim_slashes(path@));
    }
    let n = segs.len();
    let put = str_eq(method, "PUT");
    let served = str_eq(method, "POST") || put;
    let model = segs[0].as_str();
    if served && n == 1 {
        return chosen_plan(TensorSource::RequestBody, model, None);
    }
    if served && n == 2 && str_eq(segs[1].as_str(), "preprocess") {
        return chosen_plan(
            TensorSource::Preprocessor(String::from_str(IMAGENET_PREPROCESS_ACTOR)),
            model,
            None,
        );
    }
    if put && n == 3 && str_eq(segs[1].as_str(), "preprocess") && str_eq(segs[2].as_str(), "rgb8") {
        return direct_plan(
            TensorSource::Preprocessor(String::from_str(IMAGENET_PREPROCRGB8_ACTOR)),
            model,
            None,
        );
    }
    if served && n == 2 && str_eq(segs[1].as_str(), "matches") {
        return chosen_plan(
            TensorSource::Preprocessor(String::from_str(IMAGENET_PREPROCESS_ACTOR)),
            model,
            Some(String::from_str(IMAGENET_POSTPROCESS_ACTOR)),
        );
    }
    if put && n == 3 && str_eq(segs[1].as_str(), "matches") && str_eq(segs[2].as_str(), "rgb8") {
        return direct_plan(
            TensorSource::Preprocessor(String::from_str(IMAGENET_PREPROCRGB8_ACTOR)),
            model,
            Some(String::from_str(IMAGENET_POSTPROCESS_ACTOR)),
        );
    }
    if put && n == 3 && str_eq(segs[1].as_str(), "mnist") && str_eq(segs[2].as_str(), "matches") {
        return direct_plan(
            TensorSource::Preprocessor(String::from_str(MNIST_PREPROCESS_ACTOR)),
            model,
            Some(String::from_str(MNIST_POSTPROCESS_ACTOR)),
        );
    }
    RequestPlan::Unsupported(String::from_str("----N/A-----"))
}

/// A request is accepted exactly when it names a model and its tensor has
/// data and at least one dimension, whatever the number of dimensions; each
/// missing part has its own error, the name checked first, then the data,
/// then the dimensions.
pub proof fn law_validate_accepts_exactly_complete_requests(model_name: Seq<char>, tensor: TensorView)
    ensures
        spec_validate(model_name, tensor) is None <==> (model_name.len() > 0 && tensor.data.len() > 0
            && tensor.dimensions.len() > 0),
        model_name.len() == 0 ==> spec_validate(model_name, tensor) == Some(
            RpcErrorView::InvalidParameter("The name of a model MUST be provided!"@),
        ),
        model_name.len() > 0 && tensor.data.len() == 0 ==> spec_validate(model_name, tensor) == Some(
            RpcErrorView::InvalidParameter("The input tensor MUST NOT be empty!"@),
        ),
        model_name.len() > 0 && tensor.data.len() > 0 && tensor.dimensions.len() == 0 ==> spec_validate(
            model_name,
            tensor,
        ) == Some(RpcErrorView::InvalidParameter("Tensor dimensions MUST be provided!"@)),
{
}

/// Every hint reaches its model over the default link; "privacy", "latency"
/// and "default" stand for the fast local model, "accuracy" for the accurate
/// server model, and any other hint is the model's own name.
pub proof fn law_model_hints(hint: Seq<char>)
    ensures
        spec_choose_model_and_link(hint).1 == "default"@,
        hint == "privacy"@ || hint == "latency"@ || hint == "default"@ ==> spec_choose_model_and_link(hint).0
            == "mobilenetv27"@,
        hint == "accuracy"@ ==> spec_choose_model_and_link(hint).0 == "resnet152v27"@,
        hint != "privacy"@ && hint != "latency"@ && hint != "default"@ && hint != "accuracy"@
            ==> spec_choose_model_and_link(hint).0 == hint,
{
    reveal_strlit("privacy");
    reveal_strlit("latency");
    reveal_strlit("default");
    reveal_strlit("accuracy");
    assert("accuracy"@[0] != "privacy"@[0] && "accuracy"@[0] != "latency"@[0] && "accuracy"@[0]
        != "default"@[0]);
}

/// Every request that is served reaches its model over the default link,
/// whatever the method, the path, the model or the pre-processing actor.
pub proof fn law_served_plans_use_default_link(method: Seq<char>, path: Seq<char>)
    ensures
        spec_plan_request(method, path) matches PlanView::Infer { link, .. } ==> link == "default"@,
{
}

/// The model that a route with a chosen model runs: the model that the hint
/// in the first segment stands for.
pub open spec fn hinted(hint: Seq<char>) -> Seq<char> {
    if hint == "privacy"@ || hint == "latency"@ || hint == "default"@ {
        "mobilenetv27"@
    } else if hint == "accuracy"@ {
        "resnet152v27"@
    } else {
        hint
    }
}

/// What each route does, for a path whose segments are a model (or hint)
/// followed by the route's name: the tensor in the body or the actor that
/// pre-processes the body, the model, the default link, and the actor that
/// post-processes the prediction.
pub proof fn law_routes(method: Seq<char>, path: Seq<char>, m: Seq<char>)
    ensures
        (method == "POST"@ || method == "PUT"@) && split_slashes(trim_slashes(path)) == seq![m]
            ==> spec_plan_request(method, path) == (PlanView::Infer {
            source: SourceView::RequestBody,
            model: hinted(m),
            link: "default"@,
            postprocessor: None,
        }),
        (method == "POST"@ || method == "PUT"@) && split_slashes(trim_slashes(path)) == seq![m, "preprocess"@]
            ==> spec_plan_request(method, path) == (PlanView::Infer {
            source: SourceView::Preprocessor("mlinference/imagenetpreprocessor"@),
            model: hinted(m),
            link: "default"@,
            postprocessor: None,
        }),
        (method == "POST"@ || method == "PUT"@) && split_slashes(trim_slashes(path)) == seq![m, "matches"@]
            ==> spec_plan_request(method, path) == (PlanView::Infer {
            source: SourceView::Preprocessor("mlinference/imagenetpreprocessor"@),
            model: hinted(m),
            link: "default"@,
            postprocessor: Some("mlinference/imagenetpostprocessor"@),
        }),
        method == "PUT"@ && split_slashes(trim_slashes(path)) == seq![m, "preprocess"@, "rgb8"@]
            ==> spec_plan_request(method, path) == (PlanView::Infer {
            source: SourceView::Preprocessor("mlinference/imagenetpreprocrgb8"@),
            model: m,
            link: "default"@,
            postprocessor: None,
        }),
        method == "PUT"@ && split_slashes(trim_slashes(path)) == seq![m, "matches"@, "rgb8"@]
            ==> spec_plan_request(method, path) == (PlanView::Infer {
            source: SourceView::Preprocessor("mlinference/imagenetpreprocrgb8"@),
            model: m,
            link: "default"@,
            postprocessor: Some("mlinference/imagenetpostprocessor"@),
        }),
        method == "PUT"@ && split_slashes(trim_slashes(path)) == seq![m, "mnist"@, "matches"@]
            ==> spec_plan_request(method, path) == (PlanView::Infer {
            source: SourceView::Preprocessor("mlinference/mnistpreprocessor"@),
            model: m,
            link: "default"@,
            postprocessor: Some("mlinference/mnistpostprocessor"@),
        }),
        method != "POST"@ && method != "PUT"@ ==> spec_plan_request(method, path) == PlanView::Unsupported(
            "----N/A-----"@,
        ),
{
    reveal_strlit("POST");
    reveal_strlit("PUT");
    reveal_strlit("preprocess");
    reveal_strlit("matches");
    reveal_strlit("rgb8");
    reveal_strlit("mnist");
    reveal_strlit("privacy");
    reveal_strlit("latency");
    reveal_strlit("default");
    reveal_strlit("accuracy");
    assert("preprocess"@[0] != "matches"@[0]);
    assert("preprocess"@[0] != "mnist"@[0]);
    assert("matches"@[1] != "mnist"@[1]);
    assert("POST"@ != "PUT"@) by {
        assert("POST"@[1] != "PUT"@[1]);
    }
}

} // verus!
