//! Download of a model and its metadata from the model host: where they
//! are fetched from, and whether a model is one that the service runs.

use vstd::prelude::*;

pub use crate::bindle_loader::ModelMetadata;
use crate::spec_graph_encoding;
use crate::text::str_eq;

verus! {

/// Loads models and their metadata over HTTPS.
pub struct ModelLoader {}

/// The address of a file on the model host.
pub open spec fn spec_model_host_url(path: Seq<char>) -> Seq<char> {
    "https://ml-demo.cosmonic.app/"@ + path
}

/// Whether the service runs models of the graph encoding with this name:
/// those whose encoding it accepts in model metadata, which is ONNX alone.
/// Which encodings are enabled is an assumption of this library: the
/// decision is not written down anywhere else, and the TensorFlow Lite
/// engine of the provider builds TensorFlow Lite models only.
pub open spec fn spec_model_encoding_enabled(graph_encoding: Seq<char>) -> bool {
    spec_graph_encoding(graph_encoding) is Some
}

/// The name under which a model is reported: its name from the metadata,
/// or "UNKNOWN".
pub open spec fn spec_reported_name(model_name: Option<String>) -> Seq<char> {
    match model_name {
        Some(n) => n@,
        None => "UNKNOWN"@,
    }
}

/// Whether a model described by metadata is to be fetched.
#[derive(Debug)]
pub enum MetadataCheck {
    /// The model is run by the service; it is reported under this name.
    Enabled(String),
    /// The service does not run models of this graph encoding; the model,
    /// reported under this name, is skipped.
    NotEnabled(String),
}

/// Tells whether the service runs models of the graph encoding with this
/// name.
pub fn model_encoding_enabled(graph_encoding: &str) -> (r: bool)
    ensures
        r == spec_model_encoding_enabled(graph_encoding@),
{
    str_eq(graph_encoding, "ONNX")
}

impl ModelLoader {
    /// The address of a file on the model host.
    pub fn model_host_url(path: &str) -> (url: String)
        ensures
            url@ == spec_model_host_url(path@),
            url@.len() == 29 + path@.len(),
            url@.subrange(0, 29) == "https://ml-demo.cosmonic.app/"@,
            url@.subrange(29, url@.len() as int) == path@,
    {
        proof {
            law_model_host_url_keeps_the_path(path@);
        }
        String::from_str("https://ml-demo.cosmonic.app/").concat(path)
    }

    /// Decides, from the metadata of a model, whether the model is fetched,
    /// and under which name it is reported.
    pub fn check_metadata(metadata: &ModelMetadata) -> (r: MetadataCheck)
        ensures
            spec_model_encoding_enabled(metadata.graph_encoding@) ==> (r matches MetadataCheck::Enabled(
                n,
            ) && n@ == spec_reported_name(metadata.model_name)),
            !spec_model_encoding_enabled(metadata.graph_encoding@) ==> (r matches MetadataCheck::NotEnabled(
                n,
            ) && n@ == spec_reported_name(metadata.model_name)),
    {
        let name = match &metadata.model_name {
            Some(n) => n.clone(),
            None => String::from_str("UNKNOWN"),
        };
        if model_encoding_enabled(metadata.graph_encoding.as_str()) {
            MetadataCheck::Enabled(name)
        } else {
            MetadataCheck::NotEnabled(name)
        }
    }
}

/// The address of a file on the model host is the host's address followed
/// by the whole path, unchanged: nothing of the path is dropped or altered.
pub proof fn law_model_host_url_keeps_the_path(path: Seq<char>)
    ensures
        spec_model_host_url(path).len() == 29 + path.len(),
        spec_model_host_url(path).subrange(0, 29) == "https://ml-demo.cosmonic.app/"@,
        spec_model_host_url(path).subrange(29, spec_model_host_url(path).len() as int) == path,
        forall|i: int| 0 <= i < path.len() ==> #[trigger] spec_model_host_url(path)[29 + i] == path[i],
{
    reveal_strlit("https://ml-demo.cosmonic.app/");
    let u = spec_model_host_url(path);
    assert(u.subrange(0, 29) =~= "https://ml-demo.cosmonic.app/"@);
    assert(u.subrange(29, u.len() as int) =~= path);
}

} // verus!
