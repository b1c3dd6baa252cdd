//! Tests of the job-description record and its wire codec, cross-checked
//! against the postcard serializer that produces the same format.

use tflite_inference::descriptor::decode_job;
use tflite_inference::descriptor::TfLiteInferenceService;

fn make(input: &str, model: &str, output: &str, threads: i32) -> TfLiteInferenceService {
    TfLiteInferenceService {
        input_tensor_path: input.as_bytes().to_vec(),
        model_path: model.as_bytes().to_vec(),
        output_tensor_path: output.as_bytes().to_vec(),
        num_threads: threads,
    }
}

fn postcard_bytes(input: &str, model: &str, output: &str, threads: i32) -> Vec<u8> {
    postcard::to_stdvec(&(
        input.to_string(),
        model.to_string(),
        output.to_string(),
        threads,
    ))
    .unwrap()
}

fn fields(d: &TfLiteInferenceService) -> (Vec<u8>, Vec<u8>, Vec<u8>, i32) {
    (
        d.input_tensor_path.clone(),
        d.model_path.clone(),
        d.output_tensor_path.clone(),
        d.num_threads,
    )
}

#[test]
fn new_record_is_default() {
    let d = TfLiteInferenceService::new();
    assert!(d.input_tensor_path.is_empty());
    assert!(d.model_path.is_empty());
    assert!(d.output_tensor_path.is_empty());
    assert_eq!(d.num_threads, -1);
}

#[test]
fn parse_roundtrip() {
    let d = make("in.bin", "model.tflite", "out.bin", 4);
    let bytes = d.encode();
    let mut p = TfLiteInferenceService::new();
    assert!(p.try_parse(&bytes));
    assert_eq!(fields(&p), fields(&d));
}

#[test]
fn parse_roundtrip_empty_paths() {
    let d = make("", "", "", -1);
    let bytes = d.encode();
    let mut p = make("x", "y", "z", 7);
    assert!(p.try_parse(&bytes));
    assert_eq!(fields(&p), fields(&d));
}

#[test]
fn parse_roundtrip_extreme_threads() {
    for threads in [i32::MIN, -1, 0, 1, i32::MAX] {
        let d = make("a", "b", "c", threads);
        let mut p = TfLiteInferenceService::new();
        assert!(p.try_parse(&d.encode()));
        assert_eq!(p.num_threads, threads);
    }
}

#[test]
fn encode_matches_postcard() {
    for threads in [i32::MIN, -17, -1, 0, 1, 4, 300, i32::MAX] {
        let d = make("input/tensor.bin", "models/net.tflite", "results/out.bin", threads);
        assert_eq!(
            d.encode(),
            postcard_bytes("input/tensor.bin", "models/net.tflite", "results/out.bin", threads),
        );
    }
}

#[test]
fn encode_matches_postcard_long_path() {
    let long = "d/".repeat(100) + "tensor.bin";
    let d = make(&long, "m", "", -1);
    assert_eq!(d.encode(), postcard_bytes(&long, "m", "", -1));
}

#[test]
fn encode_matches_postcard_non_ascii() {
    let d = make("数据/入力.bin", "modèle.tflite", "résultat→out.bin", 2);
    assert_eq!(
        d.encode(),
        postcard_bytes("数据/入力.bin", "modèle.tflite", "résultat→out.bin", 2),
    );
}

#[test]
fn parse_accepts_postcard_bytes() {
    let bytes = postcard_bytes("数据/入力.bin", "m.tflite", "out", -1);
    let mut p = TfLiteInferenceService::new();
    assert!(p.try_parse(&bytes));
    assert_eq!(p.input_tensor_path, "数据/入力.bin".as_bytes());
    assert_eq!(p.model_path, "m.tflite".as_bytes());
    assert_eq!(p.output_tensor_path, "out".as_bytes());
    assert_eq!(p.num_threads, -1);
}

#[test]
fn postcard_decodes_our_encoding() {
    let d = make("in.bin", "model.tflite", "out.bin", 4);
    let decoded: (String, String, String, i32) = postcard::from_bytes(&d.encode()).unwrap();
    assert_eq!(
        decoded,
        (
            "in.bin".to_string(),
            "model.tflite".to_string(),
            "out.bin".to_string(),
            4,
        ),
    );
}

#[test]
fn parse_rejects_every_truncation() {
    let full = make("in.bin", "model.tflite", "out.bin", -123456).encode();
    for cut in 0..full.len() {
        let prefix = &full[..cut];
        let mut p = make("keep", "these", "fields", 9);
        assert!(!p.try_parse(prefix), "prefix of length {} parsed", cut);
        assert_eq!(fields(&p), fields(&make("keep", "these", "fields", 9)));
        assert!(postcard::from_bytes::<(String, String, String, i32)>(prefix).is_err());
    }
}

#[test]
fn parse_rejects_garbage() {
    let cases: Vec<Vec<u8>> = vec![
        vec![],
        vec![0xff; 20],
        vec![0x80; 64],
        vec![0x05, 0x01, 0x02],
        vec![0x02, 0xff, 0xfe, 0x00, 0x00, 0x00],
        vec![0xc0, 0xaf, 0x00, 0x00, 0x00],
    ];
    for bytes in cases {
        let mut p = make("a", "b", "c", 1);
        assert!(!p.try_parse(&bytes), "garbage {:?} parsed", bytes);
        assert_eq!(fields(&p), fields(&make("a", "b", "c", 1)));
        assert!(postcard::from_bytes::<(String, String, String, i32)>(&bytes).is_err());
    }
}

#[test]
fn parse_rejects_invalid_utf8_field() {
    // First field "ok", then a two-byte second field holding 0xFF 0xFE,
    // which is not UTF-8, then an empty third field and a zero thread
    // count.
    let bytes = vec![0x02, b'o', b'k', 0x02, 0xff, 0xfe, 0x00, 0x00];
    let mut p = TfLiteInferenceService::new();
    assert!(!p.try_parse(&bytes));
    assert!(postcard::from_bytes::<(String, String, String, i32)>(&bytes).is_err());
}

#[test]
fn parse_rejects_utf8_boundary_violations() {
    // Each case is a first field holding bytes just outside valid UTF-8:
    // an unpaired surrogate, a value above U+10FFFF, an impossible leading
    // byte, overlong two- and three-byte forms, and a missing
    // continuation byte.
    let cases: Vec<Vec<u8>> = vec![
        vec![0x03, 0xed, 0xa0, 0x80, 0x00, 0x00, 0x00],
        vec![0x04, 0xf4, 0x90, 0x80, 0x80, 0x00, 0x00, 0x00],
        vec![0x01, 0xf5, 0x00, 0x00, 0x00],
        vec![0x02, 0xc1, 0xbf, 0x00, 0x00, 0x00],
        vec![0x03, 0xe0, 0x80, 0x80, 0x00, 0x00, 0x00],
        vec![0x02, 0xc2, 0x00, 0x00, 0x00, 0x00],
    ];
    for bytes in cases {
        let mut p = TfLiteInferenceService::new();
        assert!(!p.try_parse(&bytes), "bytes {:?} parsed", bytes);
        assert!(postcard::from_bytes::<(String, String, String, i32)>(&bytes).is_err());
    }
}

#[test]
fn parse_accepts_utf8_boundary_values() {
    // The code points on either side of the surrogate gap and the largest
    // one, each as a first field; an empty second and third field and a
    // zero thread count follow.
    let cases: Vec<Vec<u8>> = vec![
        vec![0x03, 0xed, 0x9f, 0xbf, 0x00, 0x00, 0x00],
        vec![0x03, 0xee, 0x80, 0x80, 0x00, 0x00, 0x00],
        vec![0x04, 0xf4, 0x8f, 0xbf, 0xbf, 0x00, 0x00, 0x00],
    ];
    for bytes in cases {
        let mut p = TfLiteInferenceService::new();
        assert!(p.try_parse(&bytes), "bytes {:?} rejected", bytes);
        let decoded: (String, String, String, i32) = postcard::from_bytes(&bytes).unwrap();
        assert_eq!(p.input_tensor_path, decoded.0.as_bytes());
        assert_eq!(p.num_threads, decoded.3);
    }
}

#[test]
fn parse_ignores_trailing_bytes() {
    let mut bytes = make("in", "m", "out", 3).encode();
    bytes.extend_from_slice(&[0xde, 0xad, 0xbe, 0xef]);
    let mut p = TfLiteInferenceService::new();
    assert!(p.try_parse(&bytes));
    assert_eq!(p.num_threads, 3);
    assert!(postcard::from_bytes::<(String, String, String, i32)>(&bytes).is_ok());
}

#[test]
fn parse_rejects_overlong_length() {
    // A length prefix far beyond the buffer.
    let bytes = vec![0xff, 0xff, 0xff, 0xff, 0x0f, b'a', b'b'];
    let mut p = TfLiteInferenceService::new();
    assert!(!p.try_parse(&bytes));
    assert!(postcard::from_bytes::<(String, String, String, i32)>(&bytes).is_err());
}

#[test]
fn decode_job_matches_try_parse() {
    let good = make("x", "y", "z", 1).encode();
    assert!(decode_job(&good).is_some());
    assert!(decode_job(&good[..good.len() - 1]).is_none());
}
