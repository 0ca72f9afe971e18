use mlinference::bindle_loader::{BindleError, Parcel};
use mlinference::model_loader::{model_encoding_enabled, MetadataCheck, ModelLoader};
use mlinference::{BindleLoader, ModelMetadata};

fn parcel(name: &str, groups: Option<&[&str]>) -> Parcel {
    Parcel {
        name: name.to_string(),
        sha256: format!("sha-{}", name),
        member_of: groups.map(|gs| gs.iter().map(|g| g.to_string()).collect()),
    }
}

fn metadata(name: Option<&str>, encoding: &str) -> ModelMetadata {
    ModelMetadata {
        model_name: name.map(|n| n.to_string()),
        graph_encoding: encoding.to_string(),
        execution_target: "CPU".to_string(),
        tensor_type: "F32".to_string(),
        tensor_dimensions_in: None,
        tensor_dimensions_out: None,
    }
}

#[test]
fn first_member_of_a_group() {
    let parcels = vec![
        parcel("readme", None),
        parcel("meta.json", Some(&["metadata"])),
        parcel("model.onnx", Some(&["extra", "model"])),
        parcel("model2.onnx", Some(&["model"])),
    ];
    let p = BindleLoader::get_first_member_of(&parcels, "model").expect("found");
    assert_eq!(p.name, "model.onnx");
    let p = BindleLoader::get_first_member_of(&parcels, "metadata").expect("found");
    assert_eq!(p.sha256, "sha-meta.json");
    assert!(matches!(
        BindleLoader::get_first_member_of(&parcels, "weights"),
        Err(BindleError::BindleNoParcelOfGroupModelError)
    ));
    assert!(matches!(
        BindleLoader::get_first_member_of(&[], "model"),
        Err(BindleError::BindleNoParcelOfGroupModelError)
    ));
}

#[test]
fn parcels_of_a_model_bindle() {
    let parcels = Some(vec![
        parcel("meta.json", Some(&["metadata"])),
        parcel("model.onnx", Some(&["model"])),
    ]);
    assert!(matches!(BindleLoader::select_parcels(&parcels, "mobilenet/1.0"), Ok((1, 0))));
}

#[test]
fn bindle_without_parcels() {
    match BindleLoader::select_parcels(&None, "identity/0.1") {
        Err(BindleError::BindleParcelNotFoundError(u)) => assert_eq!(u, "identity/0.1"),
        other => panic!("unexpected {:?}", other),
    }
}

#[test]
fn bindle_without_model_or_metadata() {
    let only_meta = Some(vec![parcel("meta.json", Some(&["metadata"]))]);
    assert!(matches!(
        BindleLoader::select_parcels(&only_meta, "x"),
        Err(BindleError::BindleNoParcelOfGroupModelError)
    ));
    let only_model = Some(vec![parcel("m", Some(&["model"])), parcel("n", None)]);
    assert!(matches!(
        BindleLoader::select_parcels(&only_model, "x"),
        Err(BindleError::BindleNoParcelOfGroupMetadataError)
    ));
    let neither = Some(Vec::new());
    assert!(matches!(
        BindleLoader::select_parcels(&neither, "x"),
        Err(BindleError::BindleNoParcelOfGroupModelError)
    ));
}

#[test]
fn model_host_addresses() {
    assert_eq!(ModelLoader::model_host_url("mobilenetv27.onnx"), "https://ml-demo.cosmonic.app/mobilenetv27.onnx");
    assert_eq!(ModelLoader::model_host_url(""), "https://ml-demo.cosmonic.app/");
}

#[test]
fn onnx_models_are_enabled() {
    assert!(model_encoding_enabled("ONNX"));
    assert!(!model_encoding_enabled("TFLITE"));
    assert!(!model_encoding_enabled("onnx"));
    match ModelLoader::check_metadata(&metadata(Some("identity"), "ONNX")) {
        MetadataCheck::Enabled(n) => assert_eq!(n, "identity"),
        other => panic!("unexpected {:?}", other),
    }
}

#[test]
fn other_models_are_skipped_under_their_name() {
    match ModelLoader::check_metadata(&metadata(Some("edge"), "TFLITE")) {
        MetadataCheck::NotEnabled(n) => assert_eq!(n, "edge"),
        other => panic!("unexpected {:?}", other),
    }
    match ModelLoader::check_metadata(&metadata(None, "OPENVINO")) {
        MetadataCheck::NotEnabled(n) => assert_eq!(n, "UNKNOWN"),
        other => panic!("unexpected {:?}", other),
    }
    match ModelLoader::check_metadata(&metadata(None, "ONNX")) {
        MetadataCheck::Enabled(n) => assert_eq!(n, "UNKNOWN"),
        other => panic!("unexpected {:?}", other),
    }
}
