use mlinference::cbor::{read_float_bits, write_float_bits};
use mlinference::imagenet::{
    decode_classification, decode_matches, encode_classification, encode_matches, imagenet_operation,
    Classification, ImagenetOperation, IMAGENET_POSTPROCESS_REPLY,
};
use mlinference::mlinference_types::{MlError, Status, Tensor, ValueType};
use mlinference::mlpreprocessing::{
    decode_conversion_output, decode_conversion_request, decode_ml_p_error, encode_conversion_output,
    encode_conversion_request, encode_ml_p_error, mlpreprocessing_operation, ConversionOutput,
    ConversionRequest, MlPError, MlPreprocessingOperation, MLPREPROCESSING_CONVERT_REPLY,
};
use mlinference::rpc::{cbor_error, fixed_array, fixed_map, shape_at, RpcError, Shape};

fn cls(label: &str, p: f32) -> Classification {
    Classification { label: label.to_string(), probability_bits: p.to_bits() }
}

#[test]
fn classification_encodes_as_array_of_label_and_float() {
    let mut out = Vec::new();
    encode_classification(&mut out, &cls("cat", 0.5));
    assert_eq!(out, vec![0x82, 0x63, b'c', b'a', b't', 0xfa, 0x3f, 0x00, 0x00, 0x00]);
}

#[test]
fn classification_encoding_appends() {
    let mut out = vec![0xff];
    encode_classification(&mut out, &cls("", 1.0));
    assert_eq!(out, vec![0xff, 0x82, 0x60, 0xfa, 0x3f, 0x80, 0x00, 0x00]);
}

#[test]
fn classification_round_trip() {
    let c = cls("n04350905 suit, suit of clothes", 0.14194612);
    let mut out = vec![0x00, 0x00];
    encode_classification(&mut out, &c);
    let (d, p) = decode_classification(&out, 2).expect("decodes");
    assert_eq!(d.label, c.label);
    assert_eq!(d.probability_bits, c.probability_bits);
    assert_eq!(f32::from_bits(d.probability_bits), 0.14194612);
    assert_eq!(p, out.len());
}

#[test]
fn classification_decodes_from_a_map() {
    let mut buf = vec![0xa2, 0x65];
    buf.extend_from_slice(b"label");
    buf.extend_from_slice(&[0x63, b'd', b'o', b'g', 0x6b]);
    buf.extend_from_slice(b"probability");
    buf.extend_from_slice(&[0xfa, 0x3e, 0x80, 0x00, 0x00]);
    let (d, p) = decode_classification(&buf, 0).expect("decodes");
    assert_eq!(d.label, "dog");
    assert_eq!(f32::from_bits(d.probability_bits), 0.25);
    assert_eq!(p, buf.len());
}

#[test]
fn classification_map_skips_unknown_keys() {
    let mut buf = vec![0xa3, 0x63];
    buf.extend_from_slice(b"xyz");
    buf.push(0x18);
    buf.push(0x64);
    buf.push(0x65);
    buf.extend_from_slice(b"label");
    buf.extend_from_slice(&[0x61, b'a', 0x6b]);
    buf.extend_from_slice(b"probability");
    buf.extend_from_slice(&[0xfa, 0x00, 0x00, 0x00, 0x00]);
    let (d, p) = decode_classification(&buf, 0).expect("decodes");
    assert_eq!(d.label, "a");
    assert_eq!(d.probability_bits, 0);
    assert_eq!(p, buf.len());
}

#[test]
fn classification_array_skips_extra_items() {
    let buf = vec![0x83, 0x61, b'x', 0xfa, 0x3f, 0x80, 0x00, 0x00, 0x82, 0x01, 0x02, 0x07];
    let (d, p) = decode_classification(&buf, 0).expect("decodes");
    assert_eq!(d.label, "x");
    assert_eq!(f32::from_bits(d.probability_bits), 1.0);
    assert_eq!(p, 11);
}

#[test]
fn classification_missing_probability() {
    let buf = vec![0x81, 0x61, b'x'];
    match decode_classification(&buf, 0) {
        Err(RpcError::Deser(m)) => assert_eq!(m, "missing field Classification.probability (#1)"),
        other => panic!("unexpected {:?}", other),
    }
}

#[test]
fn classification_missing_label() {
    let buf = vec![0xa0];
    match decode_classification(&buf, 0) {
        Err(RpcError::Deser(m)) => assert_eq!(m, "missing field Classification.label (#0)"),
        other => panic!("unexpected {:?}", other),
    }
}

#[test]
fn classification_of_wrong_shape() {
    let buf = vec![0x05];
    match decode_classification(&buf, 0) {
        Err(RpcError::Deser(m)) => assert_eq!(m, "decoding struct Classification, expected array or map"),
        other => panic!("unexpected {:?}", other),
    }
}

#[test]
fn classification_with_a_non_float_probability() {
    let buf = vec![0x82, 0x61, b'x', 0x01];
    match decode_classification(&buf, 0) {
        Err(RpcError::Other(m)) => assert_eq!(m, "decode: unexpected type u8 at position 3: expected f32"),
        other => panic!("unexpected {:?}", other),
    }
}

#[test]
fn classification_past_the_end() {
    let buf = vec![0x82];
    assert!(matches!(decode_classification(&buf, 1), Err(RpcError::Other(ref m)) if m.starts_with("decode: ")));
}

#[test]
fn matches_round_trip() {
    let ms = vec![cls("n02883205 bow tie, bow-tie, bowtie", 0.16806115), cls("n03763968 military uniform", 0.11412828)];
    let mut out = Vec::new();
    encode_matches(&mut out, &ms);
    assert_eq!(out[0], 0x82);
    let (d, p) = decode_matches(&out, 0).expect("decodes");
    assert_eq!(d.len(), 2);
    for (a, b) in d.iter().zip(ms.iter()) {
        assert_eq!(a.label, b.label);
        assert_eq!(a.probability_bits, b.probability_bits);
    }
    assert_eq!(p, out.len());
}

#[test]
fn empty_matches() {
    let mut out = Vec::new();
    encode_matches(&mut out, &Vec::new());
    assert_eq!(out, vec![0x80]);
    let (d, p) = decode_matches(&out, 0).expect("decodes");
    assert!(d.is_empty());
    assert_eq!(p, 1);
}

#[test]
fn matches_of_indefinite_length() {
    let mut buf = vec![0x9f];
    encode_classification(&mut buf, &cls("a", 1.0));
    encode_classification(&mut buf, &cls("b", 2.0));
    buf.push(0xff);
    let (d, p) = decode_matches(&buf, 0).expect("decodes");
    assert_eq!(d.len(), 2);
    assert_eq!(d[0].label, "a");
    assert_eq!(d[1].label, "b");
    assert_eq!(p, buf.len() - 1);
}

#[test]
fn matches_with_a_bad_item_report_the_nested_shape() {
    let buf = vec![0x81, 0x05];
    match decode_matches(&buf, 0) {
        Err(RpcError::Nested(shape, inner)) => {
            assert_eq!(shape, "org.wasmcloud.interface.mlimagenet#Classification");
            assert!(matches!(*inner, RpcError::Deser(_)));
        }
        other => panic!("unexpected {:?}", other),
    }
}

#[test]
fn matches_that_are_not_an_array() {
    let buf = vec![0x61, b'x'];
    assert!(matches!(decode_matches(&buf, 0), Err(RpcError::Other(ref m)) if m.starts_with("decode: ")));
}

#[test]
fn conversion_request_bytes_and_round_trip() {
    let req = ConversionRequest { data: vec![1, 2, 3] };
    let mut out = Vec::new();
    encode_conversion_request(&mut out, &req);
    assert_eq!(out, vec![0x81, 0x43, 1, 2, 3]);
    let (d, p) = decode_conversion_request(&out, 0).expect("decodes");
    assert_eq!(d.data, vec![1, 2, 3]);
    assert_eq!(p, 5);
}

#[test]
fn conversion_request_of_a_long_image() {
    let data: Vec<u8> = (0..300u32).map(|i| (i % 251) as u8).collect();
    let mut out = Vec::new();
    encode_conversion_request(&mut out, &ConversionRequest { data: data.clone() });
    assert_eq!(&out[..4], &[0x81, 0x59, 0x01, 0x2c]);
    let (d, p) = decode_conversion_request(&out, 0).expect("decodes");
    assert_eq!(d.data, data);
    assert_eq!(p, out.len());
}

#[test]
fn conversion_request_from_a_map() {
    let mut buf = vec![0xa1, 0x64];
    buf.extend_from_slice(b"data");
    buf.extend_from_slice(&[0x42, 9, 8]);
    let (d, p) = decode_conversion_request(&buf, 0).expect("decodes");
    assert_eq!(d.data, vec![9, 8]);
    assert_eq!(p, buf.len());
}

#[test]
fn conversion_request_without_data() {
    let buf = vec![0x80];
    match decode_conversion_request(&buf, 0) {
        Err(RpcError::Deser(m)) => assert_eq!(m, "missing field ConversionRequest.data (#0)"),
        other => panic!("unexpected {:?}", other),
    }
}

#[test]
fn conversion_request_of_wrong_shape() {
    let buf = vec![0x40];
    match decode_conversion_request(&buf, 0) {
        Err(RpcError::Deser(m)) => assert_eq!(m, "decoding struct ConversionRequest, expected array or map"),
        other => panic!("unexpected {:?}", other),
    }
}

#[test]
fn ml_p_error_bytes_and_round_trip() {
    let mut out = Vec::new();
    encode_ml_p_error(&mut out, &MlPError::NotSupported("png".to_string()));
    assert_eq!(out, vec![0x82, 0x01, 0x63, b'p', b'n', b'g']);
    match decode_ml_p_error(&out, 0) {
        Ok((MlPError::NotSupported(m), p)) => {
            assert_eq!(m, "png");
            assert_eq!(p, 6);
        }
        other => panic!("unexpected {:?}", other),
    }
    let mut out = Vec::new();
    encode_ml_p_error(&mut out, &MlPError::RuntimeError("x".to_string()));
    assert_eq!(out, vec![0x82, 0x00, 0x61, b'x']);
    assert!(matches!(decode_ml_p_error(&out, 0), Ok((MlPError::RuntimeError(ref m), 4)) if m == "x"));
}

#[test]
fn ml_p_error_with_an_unknown_field_number() {
    let buf = vec![0x82, 0x18, 0x2a, 0x61, b'x'];
    match decode_ml_p_error(&buf, 0) {
        Err(RpcError::Deser(m)) => {
            assert_eq!(m, "invalid field number for union 'org.wasmcloud.interface.mlpreprocessing#MlPError':42")
        }
        other => panic!("unexpected {:?}", other),
    }
}

#[test]
fn ml_p_error_of_the_wrong_length() {
    let buf = vec![0x81, 0x00];
    match decode_ml_p_error(&buf, 0) {
        Err(RpcError::Deser(m)) => assert_eq!(m, "decoding union 'MlPError': expected 2-array"),
        other => panic!("unexpected {:?}", other),
    }
}

#[test]
fn ml_p_error_in_an_indefinite_array() {
    let buf = vec![0x9f, 0x00, 0x61, b'x', 0xff];
    match decode_ml_p_error(&buf, 0) {
        Err(RpcError::Deser(m)) => assert_eq!(m, "indefinite array not expected"),
        other => panic!("unexpected {:?}", other),
    }
}

#[test]
fn shapes_and_fixed_headers() {
    assert!(matches!(shape_at(&[0x83], 0), Ok(Shape::Array)));
    assert!(matches!(shape_at(&[0xa1], 0), Ok(Shape::Dict)));
    assert!(matches!(shape_at(&[0x01], 0), Ok(Shape::Other)));
    assert!(matches!(shape_at(&[], 0), Err(RpcError::Other(_))));
    assert!(matches!(fixed_array(&[0x00, 0x98, 0x20], 1), Ok((32, 3))));
    assert!(matches!(fixed_map(&[0xa2], 0), Ok((2, 1))));
    assert!(matches!(fixed_map(&[0xbf], 0), Err(RpcError::Deser(ref m)) if m == "indefinite map not expected"));
    assert!(matches!(fixed_array(&[0xa2], 0), Err(RpcError::Other(_))));
}

#[test]
fn cbor_errors_are_prefixed() {
    assert!(matches!(cbor_error("bad".to_string()), RpcError::Other(ref m) if m == "decode: bad"));
}

#[test]
fn float_bits_round_trip() {
    let mut out = Vec::new();
    write_float_bits(&mut out, 0.16806115f32.to_bits());
    assert_eq!(out.len(), 5);
    assert_eq!(out[0], 0xfa);
    assert_eq!(read_float_bits(&out, 0), Ok((0.16806115f32.to_bits(), 5)));
    assert_eq!(read_float_bits(&[0xfa, 0x3f], 0), Err("end of input bytes".to_string()));
    assert_eq!(read_float_bits(&[], 0), Err("end of input bytes".to_string()));
    assert_eq!(read_float_bits(&[0x61, b'a'], 0), Err("unexpected type string at position 0: expected f32".to_string()));
}

#[test]
fn operations_of_the_services() {
    assert_eq!(imagenet_operation("Postprocess").ok(), Some(ImagenetOperation::Postprocess));
    match imagenet_operation("Convert") {
        Err(RpcError::MethodNotHandled(m)) => assert_eq!(m, "Imagenet::Convert"),
        other => panic!("unexpected {:?}", other),
    }
    assert_eq!(mlpreprocessing_operation("Convert").ok(), Some(MlPreprocessingOperation::Convert));
    match mlpreprocessing_operation("Postprocess") {
        Err(RpcError::MethodNotHandled(m)) => assert_eq!(m, "MlPreprocessing::Postprocess"),
        other => panic!("unexpected {:?}", other),
    }
    assert_eq!(IMAGENET_POSTPROCESS_REPLY, "Imagenet.Postprocess");
    assert_eq!(MLPREPROCESSING_CONVERT_REPLY, "MlPreprocessing.Convert");
}

// Field codecs of a toy format: a status is one byte (0 success, 1 an error),
// a tensor is one byte that becomes its only data byte.
fn toy_status(buf: &[u8], pos: usize) -> Result<(Status, usize), RpcError> {
    match buf.get(pos) {
        Some(0) => Ok((Status::Success, pos + 1)),
        Some(1) => Ok((Status::Error(MlError::RuntimeError("toy".to_string())), pos + 1)),
        _ => Err(RpcError::Deser("bad status".to_string())),
    }
}

fn toy_tensor(buf: &[u8], pos: usize) -> Result<(Tensor, usize), RpcError> {
    match buf.get(pos) {
        Some(b) => Ok((
            Tensor { value_types: vec![ValueType::ValueU8], dimensions: vec![1], flags: 0, data: vec![*b] },
            pos + 1,
        )),
        None => Err(RpcError::Deser("bad tensor".to_string())),
    }
}

#[test]
fn conversion_output_from_an_array() {
    let buf = vec![0x82, 0x00, 0x05];
    let (o, p) = decode_conversion_output(&buf, 0, toy_status, toy_tensor).expect("decodes");
    assert!(matches!(o.result, Status::Success));
    assert_eq!(o.tensor.data, vec![5]);
    assert_eq!(p, 3);
}

#[test]
fn conversion_output_from_a_map_with_an_extra_entry() {
    let mut buf = vec![0xa3, 0x66];
    buf.extend_from_slice(b"tensor");
    buf.push(0x07);
    buf.extend_from_slice(&[0x61, b'z', 0x82, 0x01, 0x02, 0x66]);
    buf.extend_from_slice(b"result");
    buf.push(0x01);
    let (o, p) = decode_conversion_output(&buf, 0, toy_status, toy_tensor).expect("decodes");
    assert!(matches!(o.result, Status::Error(MlError::RuntimeError(ref m)) if m == "toy"));
    assert_eq!(o.tensor.data, vec![7]);
    assert_eq!(p, buf.len());
}

#[test]
fn conversion_output_missing_fields() {
    match decode_conversion_output(&[0x81, 0x00], 0, toy_status, toy_tensor) {
        Err(RpcError::Deser(m)) => assert_eq!(m, "missing field ConversionOutput.tensor (#1)"),
        other => panic!("unexpected {:?}", other),
    }
    match decode_conversion_output(&[0x80], 0, toy_status, toy_tensor) {
        Err(RpcError::Deser(m)) => assert_eq!(m, "missing field ConversionOutput.result (#0)"),
        other => panic!("unexpected {:?}", other),
    }
    match decode_conversion_output(&[0x00], 0, toy_status, toy_tensor) {
        Err(RpcError::Deser(m)) => assert_eq!(m, "decoding struct ConversionOutput, expected array or map"),
        other => panic!("unexpected {:?}", other),
    }
}

#[test]
fn conversion_output_with_a_bad_nested_item() {
    match decode_conversion_output(&[0x82, 0x09, 0x05], 0, toy_status, toy_tensor) {
        Err(RpcError::Nested(shape, inner)) => {
            assert_eq!(shape, "org.wasmcloud.interface.mlinference#Status");
            assert!(matches!(*inner, RpcError::Deser(ref m) if m == "bad status"));
        }
        other => panic!("unexpected {:?}", other),
    }
    match decode_conversion_output(&[0x82, 0x00], 0, toy_status, toy_tensor) {
        Err(RpcError::Nested(shape, inner)) => {
            assert_eq!(shape, "org.wasmcloud.interface.mlinference#Tensor");
            assert!(matches!(*inner, RpcError::Deser(ref m) if m == "bad tensor"));
        }
        other => panic!("unexpected {:?}", other),
    }
}

#[test]
fn conversion_output_encoding() {
    let val = ConversionOutput {
        result: Status::Success,
        tensor: Tensor { value_types: vec![], dimensions: vec![], flags: 0, data: vec![9] },
    };
    let mut out = vec![0xee];
    encode_conversion_output(&mut out, &val, |s: &Status| match s {
        Status::Success => vec![0],
        Status::Error(_) => vec![1],
    }, |t: &Tensor| t.data.clone());
    assert_eq!(out, vec![0xee, 0x82, 0x00, 0x09]);
    let (o, p) = decode_conversion_output(&out, 1, toy_status, toy_tensor).expect("decodes");
    assert!(matches!(o.result, Status::Success));
    assert_eq!(o.tensor.data, vec![9]);
    assert_eq!(p, 4);
}

#[test]
fn indefinite_heads_and_other_shapes() {
    assert!(matches!(fixed_array(&[0x9f, 0xff], 0), Err(RpcError::Deser(ref m)) if m == "indefinite array not expected"));
    assert!(matches!(fixed_map(&[0xbf, 0xff], 0), Err(RpcError::Deser(ref m)) if m == "indefinite map not expected"));
    for b in [0x00u8, 0x19, 0x20, 0x40, 0x5f, 0x60, 0x7f, 0x9f, 0xbf, 0xc1, 0xf4, 0xf6, 0xf7, 0xfa, 0xfb, 0xff] {
        assert!(matches!(shape_at(&[b, 0, 0, 0, 0, 0, 0, 0, 0], 0), Ok(Shape::Other)), "{:#x}", b);
    }
}
