use std::io::Cursor;

use image::{DynamicImage, ImageBuffer, ImageFormat, Rgb};
use unbg::backend::{
    blank_image, decoded_input, infer_fallback, input_source, load_image, placeholder_fallback_allowed,
    placeholder_mask, placeholder_result, InputSource, LocalOrtBackend, RgbPixels,
    PLACEHOLDER_PROVIDER,
};
use unbg::inference::{
    CoreError, ExecutionProvider, GpuBackendPreference, InferenceRequest, ModelKind, OnnxVariant,
};

fn sample_png() -> Vec<u8> {
    let img = ImageBuffer::from_fn(8, 8, |x, y| {
        if (x + y) % 2 == 0 {
            Rgb([255u8, 255, 255])
        } else {
            Rgb([10u8, 10, 10])
        }
    });
    let mut out = Vec::new();
    DynamicImage::ImageRgb8(img)
        .write_to(&mut Cursor::new(&mut out), ImageFormat::Png)
        .expect("sample png");
    out
}

#[test]
fn default_backend_describes_the_processor() {
    let backend = LocalOrtBackend::default();
    assert_eq!(backend.descriptor().execution_provider, "cpu");
}

#[test]
fn image_is_decoded_to_rgb() {
    let image = load_image(&sample_png()).expect("a valid png decodes");
    assert_eq!(image.width, 8);
    assert_eq!(image.height, 8);
    assert_eq!(image.data.len(), 8 * 8 * 3);
    assert_eq!(&image.data[0..3], &[255, 255, 255]);
    assert_eq!(&image.data[3..6], &[10, 10, 10]);
    assert_eq!(&image.data[24..27], &[10, 10, 10]);
}

#[test]
fn undecodable_bytes_are_a_backend_error() {
    match load_image(&[1, 2, 3]) {
        Err(CoreError::Backend(text)) => assert!(!text.is_empty()),
        _ => panic!("expected a backend error"),
    }
    match decoded_input(Err("bad header".to_string())) {
        Err(CoreError::Backend(text)) => assert_eq!(text, "bad header"),
        _ => panic!("expected a backend error"),
    }
}

#[test]
fn source_of_the_input() {
    let mut request = InferenceRequest {
        requested_model: ModelKind::Auto,
        onnx_variant: OnnxVariant::Fp16,
        execution_provider: ExecutionProvider::Auto,
        gpu_backend: GpuBackendPreference::Auto,
        benchmark_provider: true,
        emit_mask_png: true,
        input_path: Some("a.png".to_string()),
        input_bytes: Some(vec![1]),
        model_dir: None,
        width: 1,
        height: 1,
    };
    assert_eq!(input_source(&request), InputSource::Bytes);
    request.input_bytes = None;
    assert_eq!(input_source(&request), InputSource::File);
    request.input_path = None;
    assert_eq!(input_source(&request), InputSource::Missing);
}

#[test]
fn placeholder_switch() {
    assert!(placeholder_fallback_allowed(Some("1")));
    assert!(placeholder_fallback_allowed(Some("true")));
    assert!(placeholder_fallback_allowed(Some(" YES \n")));
    assert!(placeholder_fallback_allowed(Some("True")));
    assert!(!placeholder_fallback_allowed(Some("0")));
    assert!(!placeholder_fallback_allowed(Some("on")));
    assert!(!placeholder_fallback_allowed(Some("")));
    assert!(!placeholder_fallback_allowed(Some("y e s")));
    assert!(!placeholder_fallback_allowed(None));
}

#[test]
fn mask_by_brightness() {
    let image = RgbPixels {
        width: 3,
        height: 2,
        data: vec![
            25, 25, 25, // mean 25: clear
            26, 26, 26, // mean 26: opaque
            0, 0, 78, // mean 26: opaque
            0, 0, 77, // mean 25: clear
            255, 255, 255, //
            27, 26, 25, // mean 26: opaque
        ],
    };
    assert_eq!(placeholder_mask(&image), vec![0, 255, 255, 0, 255, 255]);
    let empty = RgbPixels { width: 0, height: 5, data: vec![] };
    assert!(placeholder_mask(&empty).is_empty());
}

#[test]
fn placeholder_answers_with_an_encoded_mask() {
    let image = load_image(&sample_png()).unwrap();
    let result = infer_fallback(ModelKind::Rmbg14, &image).expect("the mask encodes");
    assert_eq!(result.model_used, ModelKind::Rmbg14);
    assert_eq!(result.width, 8);
    assert_eq!(result.height, 8);
    assert_eq!(result.execution_provider_selected, "placeholder");
    assert_eq!(result.execution_provider_selected, PLACEHOLDER_PROVIDER);
    assert!(result.gpu_backend_selected.is_none());
    assert!(!result.fallback_used);
    assert_eq!(&result.mask_png[0..8], &[0x89, b'P', b'N', b'G', 0x0d, 0x0a, 0x1a, 0x0a]);
    let mask = image::load_from_memory(&result.mask_png).unwrap().to_luma8();
    assert_eq!(mask.dimensions(), (8, 8));
    for (x, y, pixel) in mask.enumerate_pixels() {
        let expected = if (x + y) % 2 == 0 { 255 } else { 0 };
        assert_eq!(pixel[0], expected);
    }
}

#[test]
fn placeholder_result_from_an_encoding() {
    let ok = placeholder_result(ModelKind::Rmbg20, 4, 2, Ok(vec![9, 9])).unwrap();
    assert_eq!(ok.model_used, ModelKind::Rmbg20);
    assert_eq!(ok.mask_png, vec![9, 9]);
    assert_eq!((ok.width, ok.height), (4, 2));
    assert_eq!(ok.execution_provider_selected, "placeholder");
    assert!(!ok.fallback_used);
    match placeholder_result(ModelKind::Rmbg20, 4, 2, Err("disk full".to_string())) {
        Err(CoreError::Backend(text)) => assert_eq!(text, "disk full"),
        _ => panic!("expected a backend error"),
    }
}

#[test]
fn blank_image_is_black_and_never_empty() {
    let image = blank_image(0, 0).unwrap();
    assert_eq!((image.width, image.height), (1, 1));
    assert_eq!(image.data, vec![0, 0, 0]);
    let image = blank_image(4, 0).unwrap();
    assert_eq!((image.width, image.height), (4, 1));
    assert_eq!(image.data, vec![0; 12]);
    let image = blank_image(2, 3).unwrap();
    assert_eq!(image.data.len(), 18);
    assert_eq!(placeholder_mask(&image), vec![0; 6]);
    if usize::BITS <= 64 {
        assert!(blank_image(u32::MAX, u32::MAX).is_none());
    }
}

#[test]
fn image_without_pixels_cannot_be_encoded() {
    let empty = RgbPixels { width: 0, height: 5, data: vec![] };
    match infer_fallback(ModelKind::Rmbg14, &empty) {
        Err(CoreError::Backend(text)) => assert!(!text.is_empty()),
        _ => panic!("expected a backend error"),
    }
}
