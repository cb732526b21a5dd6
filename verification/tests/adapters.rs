use std::io::Cursor;

use image::{DynamicImage, ImageBuffer, ImageFormat, Rgb};
use unbg::backend::{blank_image, infer_fallback, load_image};
use unbg::ffi::{
    error_code, error_json, map_core_error, supported_model_aliases, FfiError,
    FfiRemoveBackgroundRequest, UnbgApi,
};
use unbg::inference::{
    CoreError, ExecutionProvider, GpuBackendPreference, InferenceBackend, InferenceRequest,
    InferenceResult, ModelKind, OnnxVariant,
};
use unbg::ios::{parse_model_kind, process_image, process_image_v1, BridgeError, IosBridgeRequest};
use unbg::tauri_plugin::{
    inference_call, parse_execution_provider_opt, parse_gpu_backend_opt, parse_model_alias,
    parse_onnx_variant_opt, remove_background, remove_background_command, remove_background_v1,
    TauriCommandRequest, TauriRemoveRequest,
};
use unbg::v1::RemoveBackgroundRequest;

/// Answers every call with the placeholder mask, as the local backend does
/// where the placeholder is switched on and no model is installed.
struct PlaceholderBackend;

impl InferenceBackend for PlaceholderBackend {
    fn infer(
        &self,
        request: &InferenceRequest,
        selected_model: ModelKind,
    ) -> Result<InferenceResult, CoreError> {
        let image = match request.input_bytes.as_deref().map(load_image) {
            Some(Ok(image)) => image,
            _ => blank_image(request.width, request.height).expect("a small image"),
        };
        infer_fallback(selected_model, &image)
    }
}

/// Hands the call back as the result, so that a test can see what was asked.
struct EchoBackend;

impl InferenceBackend for EchoBackend {
    fn infer(
        &self,
        request: &InferenceRequest,
        selected_model: ModelKind,
    ) -> Result<InferenceResult, CoreError> {
        Ok(InferenceResult {
            model_used: selected_model,
            mask_png: request.input_bytes.clone().unwrap_or_default(),
            width: request.width,
            height: request.height,
            execution_provider_selected: format!(
                "{:?}/{:?}/{:?}/{}/{}",
                request.onnx_variant,
                request.execution_provider,
                request.gpu_backend,
                request.benchmark_provider,
                request.emit_mask_png
            ),
            gpu_backend_selected: request.model_dir.clone(),
            fallback_used: request.input_path.is_some(),
        })
    }
}

fn sample_png() -> Vec<u8> {
    let img = ImageBuffer::from_fn(8, 8, |x, y| {
        if (x + y) % 2 == 0 {
            Rgb([255u8, 255, 255])
        } else {
            Rgb([10u8, 10, 10])
        }
    });
    let mut out = Vec::new();
    DynamicImage::ImageRgb8(img)
        .write_to(&mut Cursor::new(&mut out), ImageFormat::Png)
        .expect("sample png");
    out
}

#[test]
fn command_maps_fast_alias() {
    let response = remove_background_command(
        &PlaceholderBackend,
        None,
        TauriCommandRequest {
            image_bytes: sample_png(),
            width: 8,
            height: 8,
            model: Some("fast".to_string()),
            max_inference_pixels: None,
            execution_provider: None,
            gpu_backend: None,
            benchmark_provider: None,
            onnx_variant: Some("fp16".to_string()),
            model_dir: None,
        },
    )
    .expect("command should succeed");

    assert_eq!(response.model_used, "rmbg-1.4");
    assert_eq!(response.width, 8);
    assert_eq!(response.height, 8);
    assert!(!response.mask_png.is_empty());
    assert!(!response.provider_selected.is_empty());
}

#[test]
fn command_rejects_invalid_model() {
    let error = remove_background_command(
        &PlaceholderBackend,
        None,
        TauriCommandRequest {
            image_bytes: vec![1, 2, 3],
            width: 1,
            height: 1,
            model: Some("bad-model".to_string()),
            max_inference_pixels: None,
            execution_provider: None,
            gpu_backend: None,
            benchmark_provider: None,
            onnx_variant: None,
            model_dir: None,
        },
    )
    .expect_err("should fail for invalid model");

    assert!(error.contains("unknown model"));
}

#[test]
fn adapters_produce_consistent_mask_shape() {
    let sample = sample_png();

    let tauri = remove_background(
        &PlaceholderBackend,
        None,
        TauriRemoveRequest {
            image_bytes: sample.clone(),
            width: 8,
            height: 8,
            model: ModelKind::Auto,
            max_inference_pixels: 2_000_000,
            execution_provider: None,
            gpu_backend: None,
            benchmark_provider: None,
            onnx_variant: None,
            model_dir: None,
        },
    )
    .unwrap();

    let ios = process_image(
        &PlaceholderBackend,
        None,
        IosBridgeRequest {
            image_bytes: sample,
            width: 8,
            height: 8,
            model: ModelKind::Auto,
            onnx_variant: None,
            model_dir: None,
            execution_provider: None,
            gpu_backend: None,
            benchmark_provider: None,
        },
    )
    .unwrap();

    assert_eq!(tauri.model_used, ModelKind::Rmbg20);
    assert_eq!(ios.model_used, ModelKind::Rmbg20);
    assert_eq!(tauri.mask_png.len(), ios.mask_png.len());
    assert!(!tauri.provider_selected.is_empty());
    assert!(!ios.provider_selected.is_empty());
}

#[test]
fn command_errors_name_what_was_wrong() {
    let command = |model: Option<&str>, mode: Option<&str>, gpu: Option<&str>, variant: Option<&str>| {
        remove_background_command(
            &EchoBackend,
            None,
            TauriCommandRequest {
                image_bytes: vec![1],
                width: 1,
                height: 1,
                model: model.map(str::to_string),
                max_inference_pixels: None,
                execution_provider: mode.map(str::to_string),
                gpu_backend: gpu.map(str::to_string),
                benchmark_provider: None,
                onnx_variant: variant.map(str::to_string),
                model_dir: None,
            },
        )
    };
    assert_eq!(
        command(Some("Bad-Model"), Some("x"), None, None).unwrap_err(),
        "unknown model 'bad-model'; expected one of: auto, fast, quality, rmbg-1.4, rmbg-2.0"
    );
    assert_eq!(
        command(None, Some("TPU"), Some("x"), None).unwrap_err(),
        "unknown execution provider 'tpu'; expected one of: auto, gpu, cpu"
    );
    assert_eq!(
        command(Some("quality"), None, Some("vulkan"), Some("x")).unwrap_err(),
        "unknown gpu backend 'vulkan'; expected one of: auto, directml, cuda, coreml, metal"
    );
    assert_eq!(
        command(Some("auto"), Some("cpu"), Some("metal"), Some("int4")).unwrap_err(),
        "unknown onnx variant 'int4'; expected one of: auto, fp16, fp32, quantized"
    );
    let ok = command(None, Some("GPU"), Some("Metal"), Some("Q8")).unwrap();
    assert_eq!(ok.model_used, "rmbg-2.0");
    assert_eq!(ok.provider_selected, "Quantized/Gpu/Metal/true/true");
}

#[test]
fn typed_request_becomes_a_call_with_defaults() {
    let (call, policy) = inference_call(TauriRemoveRequest {
        image_bytes: vec![5, 6],
        width: 3000,
        height: 2000,
        model: ModelKind::Rmbg14,
        max_inference_pixels: 123,
        execution_provider: None,
        gpu_backend: None,
        benchmark_provider: None,
        onnx_variant: None,
        model_dir: Some("/m".to_string()),
    });
    assert_eq!(call.requested_model, ModelKind::Rmbg14);
    assert_eq!(call.onnx_variant, OnnxVariant::Fp16);
    assert_eq!(call.execution_provider, ExecutionProvider::Auto);
    assert_eq!(call.gpu_backend, GpuBackendPreference::Auto);
    assert!(call.benchmark_provider);
    assert!(call.emit_mask_png);
    assert!(call.input_path.is_none());
    assert_eq!(call.input_bytes, Some(vec![5, 6]));
    assert_eq!(call.model_dir.as_deref(), Some("/m"));
    assert_eq!((call.width, call.height), (3000, 2000));
    assert_eq!(policy.max_inference_pixels, 123);
    assert_eq!(policy.max_latency_ms, 1_500);
    assert!(policy.allow_rmbg20);
}

#[test]
fn large_images_do_not_get_the_larger_model() {
    // 4096 x 4096 x 4 bytes is exactly the limit; one more row is above it.
    let at_limit = remove_background(
        &EchoBackend,
        None,
        TauriRemoveRequest {
            image_bytes: vec![],
            width: 4096,
            height: 4096,
            model: ModelKind::Rmbg20,
            max_inference_pixels: 1,
            execution_provider: None,
            gpu_backend: None,
            benchmark_provider: Some(false),
            onnx_variant: Some(OnnxVariant::Fp32),
            model_dir: None,
        },
    )
    .unwrap();
    assert_eq!(at_limit.model_used, ModelKind::Rmbg20);
    assert_eq!(at_limit.provider_selected, "Fp32/Auto/Auto/false/true");
    let above = remove_background(
        &EchoBackend,
        None,
        TauriRemoveRequest {
            image_bytes: vec![],
            width: 4096,
            height: 4097,
            model: ModelKind::Rmbg20,
            max_inference_pixels: u32::MAX,
            execution_provider: None,
            gpu_backend: None,
            benchmark_provider: None,
            onnx_variant: None,
            model_dir: None,
        },
    )
    .unwrap_err();
    assert_eq!(above, "rmbg-2.0 is disabled by runtime policy");
    let auto = remove_background(
        &EchoBackend,
        None,
        TauriRemoveRequest {
            image_bytes: vec![],
            width: 4096,
            height: 4097,
            model: ModelKind::Auto,
            max_inference_pixels: u32::MAX,
            execution_provider: None,
            gpu_backend: None,
            benchmark_provider: None,
            onnx_variant: None,
            model_dir: None,
        },
    )
    .unwrap();
    assert_eq!(auto.model_used, ModelKind::Rmbg14);
}

#[test]
fn tauri_names_are_read_in_any_case() {
    assert_eq!(parse_model_alias("AUTO"), Ok(ModelKind::Auto));
    assert_eq!(parse_model_alias("Fast"), Ok(ModelKind::Rmbg14));
    assert_eq!(parse_model_alias("rmbg-1.4"), Ok(ModelKind::Rmbg14));
    assert_eq!(parse_model_alias("quality"), Ok(ModelKind::Rmbg20));
    assert_eq!(parse_model_alias("RMBG-2.0"), Ok(ModelKind::Rmbg20));
    assert!(parse_model_alias("").is_err());
    assert!(parse_model_alias(" auto").is_err());
    assert_eq!(parse_execution_provider_opt(&None), Ok(None));
    assert_eq!(parse_execution_provider_opt(&Some("Cpu".to_string())), Ok(Some(ExecutionProvider::Cpu)));
    assert_eq!(parse_gpu_backend_opt(&Some("CUDA".to_string())), Ok(Some(GpuBackendPreference::Cuda)));
    assert_eq!(parse_gpu_backend_opt(&Some("coreml".to_string())), Ok(Some(GpuBackendPreference::CoreML)));
    assert_eq!(parse_gpu_backend_opt(&Some("directml".to_string())), Ok(Some(GpuBackendPreference::DirectML)));
    assert_eq!(parse_onnx_variant_opt(&Some("fp32".to_string())), Ok(Some(OnnxVariant::Fp32)));
    assert_eq!(parse_onnx_variant_opt(&Some("quantized".to_string())), Ok(Some(OnnxVariant::Quantized)));
    assert_eq!(parse_onnx_variant_opt(&None), Ok(None));
}

fn wire(model: &str, variant: Option<&str>, mode: Option<&str>, gpu: Option<&str>) -> RemoveBackgroundRequest {
    RemoveBackgroundRequest {
        image_bytes: vec![7],
        width: 2,
        height: 2,
        model: model.to_string(),
        onnx_variant: variant.map(str::to_string),
        execution_provider: mode.map(str::to_string),
        gpu_backend: gpu.map(str::to_string),
        benchmark_provider: Some(false),
        model_dir: Some("/m".to_string()),
        max_inference_pixels: None,
    }
}

#[test]
fn tauri_wire_request() {
    let response = remove_background_v1(&EchoBackend, None, wire("fast", Some("auto"), Some("gpu"), None)).unwrap();
    assert_eq!(response.model_used, "rmbg-1.4");
    assert_eq!(response.provider_selected, "Auto/Gpu/Auto/false/true");
    assert_eq!(response.backend_selected.as_deref(), Some("/m"));
    assert_eq!(response.mask_png, vec![7]);
    assert!(!response.fallback_used);
    let err = remove_background_v1(&EchoBackend, None, wire("", None, None, None)).unwrap_err();
    assert!(err.starts_with("unknown model ''"));
}

#[test]
fn bindings_treat_blank_names_as_defaults() {
    let request = |model: &str, variant: Option<&str>, mode: Option<&str>| FfiRemoveBackgroundRequest {
        image_bytes: vec![1],
        width: 10,
        height: 10,
        model: model.to_string(),
        onnx_variant: variant.map(str::to_string),
        execution_provider: mode.map(str::to_string),
        gpu_backend: Some("  ".to_string()),
        benchmark_provider: None,
        model_dir: None,
        max_inference_pixels: Some(99),
    };
    let response = unbg::ffi::remove_background(&EchoBackend, None, request(" ", Some(""), None)).unwrap();
    assert_eq!(response.model_used, "rmbg-1.4");
    assert_eq!(response.provider_selected, "Fp16/Auto/Auto/true/true");
    let response = unbg::ffi::remove_background(&EchoBackend, None, request("QUALITY", Some("q8"), Some("CPU"))).unwrap();
    assert_eq!(response.model_used, "rmbg-2.0");
    assert_eq!(response.provider_selected, "Quantized/Cpu/Auto/true/true");
    assert_eq!(
        unbg::ffi::remove_background(&EchoBackend, None, request("nope", None, None)).unwrap_err(),
        FfiError::InvalidArgument
    );
    assert_eq!(
        unbg::ffi::remove_background(&EchoBackend, None, request("auto", Some("fp8"), None)).unwrap_err(),
        FfiError::InvalidArgument
    );
    assert_eq!(
        unbg::ffi::remove_background(&EchoBackend, None, request("auto", None, Some(" cpu"))).unwrap_err(),
        FfiError::InvalidArgument
    );
    assert_eq!(
        unbg::ffi::remove_background_v1(&EchoBackend, None, wire("x", None, None, None)).unwrap_err(),
        FfiError::InvalidArgument
    );
    assert_eq!(
        unbg::ffi::remove_background_v1(&EchoBackend, None, wire("auto", None, None, None)).unwrap().model_used,
        "rmbg-2.0"
    );
}

struct FailingBackend;

impl InferenceBackend for FailingBackend {
    fn infer(&self, _: &InferenceRequest, _: ModelKind) -> Result<InferenceResult, CoreError> {
        Err(CoreError::Backend("boom".to_string()))
    }
}

#[test]
fn bindings_errors() {
    assert_eq!(error_code(&FfiError::InvalidArgument), "invalid-argument");
    assert_eq!(error_code(&FfiError::Inference), "inference");
    assert_eq!(map_core_error(CoreError::MissingInput), FfiError::InvalidArgument);
    assert_eq!(map_core_error(CoreError::Rmbg20Disabled), FfiError::Inference);
    assert_eq!(map_core_error(CoreError::Backend("x".to_string())), FfiError::Inference);
    assert_eq!(error_json(&FfiError::Inference), "{\"code\":\"inference\",\"message\":\"inference\"}");
    assert_eq!(
        error_json(&FfiError::InvalidArgument),
        "{\"code\":\"invalid-argument\",\"message\":\"invalid-argument\"}"
    );
    assert_eq!(
        unbg::ffi::remove_background_v1(&FailingBackend, None, wire("auto", None, None, None)).unwrap_err(),
        FfiError::Inference
    );
    assert_eq!(
        remove_background_v1(&FailingBackend, None, wire("auto", None, None, None)).unwrap_err(),
        "backend error: boom"
    );
}

#[test]
fn bindings_aliases_and_default_directory() {
    assert_eq!(supported_model_aliases(), vec!["auto", "fast", "quality", "rmbg-1.4", "rmbg-2.0"]);
    for alias in supported_model_aliases() {
        assert!(unbg::ffi::parse_model_alias(&alias).is_ok());
    }
    assert_eq!(unbg::ffi::parse_onnx_variant_opt(None), Ok(None));
    assert_eq!(unbg::ffi::parse_onnx_variant_opt(Some("FP16")), Ok(Some(OnnxVariant::Fp16)));
    assert_eq!(unbg::ffi::parse_execution_provider_opt(Some("x")), Err(FfiError::InvalidArgument));
    assert_eq!(unbg::ffi::parse_gpu_backend_opt(Some("metal")), Ok(Some(GpuBackendPreference::Metal)));
    let api = UnbgApi::new();
    match unbg::ffi::default_model_dir_string() {
        Ok(dir) => assert_eq!(api.default_model_dir_string(), dir),
        Err(e) => {
            assert_eq!(e, FfiError::Inference);
            assert_eq!(api.default_model_dir_string(), error_json(&FfiError::Inference));
        }
    }
}

#[test]
fn bridge_uses_its_own_pixel_budget() {
    // 1225 x 1225 = 1_500_625 pixels: above the budget of the bridge, below
    // that of the other adapters.
    let request = |model| IosBridgeRequest {
        image_bytes: vec![1],
        width: 1225,
        height: 1225,
        model,
        onnx_variant: Some("FP32".to_string()),
        model_dir: None,
        execution_provider: Some(ExecutionProvider::Gpu),
        gpu_backend: Some(GpuBackendPreference::CoreML),
        benchmark_provider: Some(false),
    };
    let response = process_image(&EchoBackend, None, request(ModelKind::Auto)).unwrap();
    assert_eq!(response.model_used, ModelKind::Rmbg14);
    assert_eq!(response.provider_selected, "Fp32/Gpu/CoreML/false/true");
    let response = process_image(&EchoBackend, None, request(ModelKind::Rmbg20)).unwrap();
    assert_eq!(response.model_used, ModelKind::Rmbg20);
    let mut w = wire("auto", None, None, None);
    w.width = 1225;
    w.height = 1225;
    assert_eq!(process_image_v1(&EchoBackend, None, w).unwrap().model_used, "rmbg-1.4");
    let mut w = wire("auto", None, None, None);
    w.width = 1225;
    w.height = 1225;
    w.max_inference_pixels = Some(1_500_625);
    assert_eq!(process_image_v1(&EchoBackend, None, w).unwrap().model_used, "rmbg-2.0");
}

#[test]
fn bridge_errors() {
    let bad = IosBridgeRequest {
        image_bytes: vec![1],
        width: 1,
        height: 1,
        model: ModelKind::Auto,
        onnx_variant: Some("int4".to_string()),
        model_dir: None,
        execution_provider: None,
        gpu_backend: None,
        benchmark_provider: None,
    };
    let err = process_image(&EchoBackend, None, bad).unwrap_err();
    assert!(matches!(err, BridgeError::Bindings(FfiError::InvalidArgument)));
    assert_eq!(err.message(), "invalid-argument");
    assert_eq!(BridgeError::Bindings(FfiError::Inference).message(), "inference");
    assert_eq!(parse_model_kind("rmbg-1.4").unwrap(), ModelKind::Rmbg14);
    assert_eq!(parse_model_kind("rmbg-2.0").unwrap(), ModelKind::Rmbg20);
    assert_eq!(parse_model_kind("auto").unwrap(), ModelKind::Auto);
    let err = parse_model_kind("Auto").unwrap_err();
    assert_eq!(err.message(), "unknown model label 'Auto'");
    assert!(parse_model_kind("fast").is_err());
}
