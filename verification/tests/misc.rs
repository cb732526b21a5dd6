use std::path::Path;

use unbg::bench::{default_cases, describe, BenchmarkCase};
use unbg::cli::{
    cutout_pixels,
    default_cutout_filename, default_cutout_path, default_mask_filename,
    has_required_models_for_exec, is_multi_input, is_png, is_supported, is_supported_image,
    model_kind_label,
    parse_execution_provider, parse_gpu_backend, parse_model_choice, parse_models_for_install,
    parse_onnx_variant, required_models, resolve_outputs_for_input, validate_cutout_extension,
    OutputArgs,
};
use unbg::inference::{
    ExecutionProvider, GpuBackendPreference, ModelKind, OnnxVariant, PlatformTarget,
    TelemetryEvent, TelemetryEventType,
};
use unbg::names::{
    execution_provider_label, gpu_backend_label, model_label, onnx_variant_label, read_accelerator,
    read_mode, read_model, read_variant,
};
use unbg::registry::{KnownModel, LockModel, ModelLock};
use unbg::sizing::{allows_large_model, estimate_rgba_bytes, keeps_its_size, ImageSize};
use unbg::telemetry::{choose_sink, envelope, SinkChoice};

#[test]
fn standard_benchmark_cases() {
    let cases = default_cases();
    assert_eq!(cases.len(), 3);
    assert_eq!((cases[0].name.as_str(), cases[0].width, cases[0].height), ("small", 512, 512));
    assert_eq!((cases[1].name.as_str(), cases[1].width, cases[1].height), ("medium", 1024, 1024));
    assert_eq!((cases[2].name.as_str(), cases[2].width, cases[2].height), ("large", 2048, 2048));
    assert_eq!(describe(&cases), "small:512x512, medium:1024x1024, large:2048x2048");
    assert_eq!(describe(&[]), "");
    let one = [BenchmarkCase { name: "w".to_string(), width: 0, height: u32::MAX }];
    assert_eq!(describe(&one), "w:0x4294967295");
}

#[test]
fn bytes_of_an_image() {
    assert_eq!(estimate_rgba_bytes(ImageSize { width: 0, height: 9 }), 0);
    assert_eq!(estimate_rgba_bytes(ImageSize { width: 8, height: 8 }), 256);
    assert_eq!(estimate_rgba_bytes(ImageSize { width: 4096, height: 4096 }), 67_108_864);
    assert_eq!(estimate_rgba_bytes(ImageSize { width: u32::MAX, height: u32::MAX }), u64::MAX);
    assert_eq!(
        estimate_rgba_bytes(ImageSize { width: 65_536, height: 65_536 }),
        4 * 65_536u64 * 65_536u64
    );
    assert!(allows_large_model(4096, 4096));
    assert!(!allows_large_model(4097, 4096));
    assert!(keeps_its_size(ImageSize { width: 10, height: 10 }, 100));
    assert!(!keeps_its_size(ImageSize { width: 10, height: 11 }, 100));
    assert!(keeps_its_size(ImageSize { width: 0, height: u32::MAX }, 0));
    assert!(keeps_its_size(ImageSize { width: 5, height: 0 }, 0));
    assert!(keeps_its_size(ImageSize { width: 65_536, height: 65_536 }, u32::MAX));
    assert!(!keeps_its_size(ImageSize { width: 65_536, height: 65_536 }, u32::MAX - 1));
}

#[test]
fn names_and_labels() {
    assert_eq!(model_label(ModelKind::Auto), "auto");
    assert_eq!(model_label(ModelKind::Rmbg14), "rmbg-1.4");
    assert_eq!(model_label(ModelKind::Rmbg20), "rmbg-2.0");
    assert_eq!(model_kind_label(ModelKind::Rmbg20), "rmbg-2.0");
    for m in [ModelKind::Auto, ModelKind::Rmbg14, ModelKind::Rmbg20] {
        assert_eq!(read_model(model_label(m)), Ok(m));
    }
    for v in [OnnxVariant::Auto, OnnxVariant::Fp16, OnnxVariant::Fp32, OnnxVariant::Quantized] {
        assert_eq!(read_variant(onnx_variant_label(v)), Ok(v));
    }
    for e in [ExecutionProvider::Auto, ExecutionProvider::Gpu, ExecutionProvider::Cpu] {
        assert_eq!(read_mode(execution_provider_label(e)), Ok(e));
    }
    for g in [
        GpuBackendPreference::Auto,
        GpuBackendPreference::DirectML,
        GpuBackendPreference::Cuda,
        GpuBackendPreference::CoreML,
        GpuBackendPreference::Metal,
    ] {
        assert_eq!(read_accelerator(gpu_backend_label(g)), Ok(g));
    }
    assert_eq!(read_model("Nope"), Err("nope".to_string()));
    assert_eq!(read_variant("Q8"), Ok(OnnxVariant::Quantized));
    assert_eq!(read_mode("GPU "), Err("gpu ".to_string()));
}

#[test]
fn command_line_names() {
    assert_eq!(parse_model_choice("FAST"), Ok(ModelKind::Rmbg14));
    assert_eq!(
        parse_model_choice("x").unwrap_err(),
        "unknown model 'x'; expected one of: auto, rmbg-1.4 (fast), rmbg-2.0 (quality)"
    );
    assert_eq!(parse_onnx_variant("q8"), Ok(OnnxVariant::Quantized));
    assert_eq!(
        parse_onnx_variant("FP8").unwrap_err(),
        "unknown onnx variant 'fp8'; expected one of: fp16, fp32, quantized, auto"
    );
    assert_eq!(parse_execution_provider("Auto"), Ok(ExecutionProvider::Auto));
    assert_eq!(
        parse_execution_provider("npu").unwrap_err(),
        "unknown execution provider 'npu'; expected one of: auto, gpu, cpu"
    );
    assert_eq!(parse_gpu_backend("metal"), Ok(GpuBackendPreference::Metal));
    assert_eq!(
        parse_gpu_backend("rocm").unwrap_err(),
        "unknown gpu backend 'rocm'; expected one of: auto, directml, cuda, coreml, metal"
    );
}

#[test]
fn models_to_install() {
    let names = |items: &[&str]| items.iter().map(|s| s.to_string()).collect::<Vec<_>>();
    assert_eq!(
        parse_models_for_install(&names(&["fast", "ALL", "rmbg-2.0", "Quality", "rmbg-1.4"])),
        Ok(vec![KnownModel::Rmbg14, KnownModel::Rmbg20, KnownModel::Rmbg20, KnownModel::Rmbg14])
    );
    assert_eq!(parse_models_for_install(&names(&["all"])), Ok(vec![]));
    assert_eq!(parse_models_for_install(&vec![]), Ok(vec![]));
    assert_eq!(
        parse_models_for_install(&names(&["fast", "Auto", "bogus"])).unwrap_err(),
        "unknown model 'auto'; expected one of: rmbg-1.4 (fast), rmbg-2.0 (quality), all"
    );
}

#[test]
fn supported_images_and_cutout_extension() {
    assert!(is_supported_image("a/b/photo.PNG"));
    assert!(is_supported_image("photo.jpg"));
    assert!(is_supported_image("photo.JpEg"));
    assert!(!is_supported_image("photo.gif"));
    assert!(!is_supported_image("photo"));
    assert!(!is_supported_image(".png"));
    assert!(validate_cutout_extension("out/cut.PNG").is_ok());
    assert_eq!(
        validate_cutout_extension("out/cut.jpg").unwrap_err(),
        "output cutout must be a .png file (received: 'out/cut.jpg')"
    );
    assert!(validate_cutout_extension("out").is_err());
    assert!(is_supported(Some("JPG")));
    assert!(!is_supported(Some("webp")));
    assert!(!is_supported(None));
    assert!(is_png(Some("Png")));
    assert!(!is_png(Some("pn")));
    assert!(!is_png(None));
}

#[test]
fn output_names_beside_the_input() {
    assert_eq!(default_cutout_filename("/in/photo.jpg").unwrap(), "photo_cutout.png");
    assert_eq!(default_mask_filename("/in/photo.tar.gz").unwrap(), "photo.tar_mask.png");
    assert_eq!(default_cutout_filename("/").unwrap_err(), "input file must include a valid file name");
    assert_eq!(default_mask_filename("..").unwrap_err(), "input file must include a valid file name");
    let path = default_cutout_path("/in/photo.jpg").unwrap();
    assert_eq!(Path::new(&path), Path::new("/in").join("photo_cutout.png"));
    let path = default_cutout_path("photo.jpg").unwrap();
    assert_eq!(Path::new(&path), Path::new("photo_cutout.png"));
}

fn args(multi: bool, dir: Option<&str>, cutout: Option<&str>, mask: Option<&str>) -> OutputArgs {
    OutputArgs {
        inference_only: false,
        multi_input: multi,
        output_dir: dir.map(str::to_string),
        output_cutout: cutout.map(str::to_string),
        output_mask: mask.map(str::to_string),
    }
}

fn same(path: &Option<String>, expected: &Path) -> bool {
    path.as_deref().map(Path::new) == Some(expected)
}

#[test]
fn where_outputs_go() {
    assert!(is_multi_input(true, true));
    assert!(is_multi_input(false, false));
    assert!(!is_multi_input(true, false));

    let mut only = args(true, Some("/out"), Some("c.png"), Some("m.png"));
    only.inference_only = true;
    assert_eq!(resolve_outputs_for_input(&only, "/in/a.jpg"), Ok((None, None)));

    let (cutout, mask) = resolve_outputs_for_input(&args(false, None, None, None), "/in/a.jpg").unwrap();
    assert!(same(&cutout, &Path::new("/in").join("a_cutout.png")));
    assert!(mask.is_none());

    let (cutout, mask) =
        resolve_outputs_for_input(&args(false, Some("/out"), Some("/x/c.png"), Some("/x/m.bin")), "/in/a.jpg").unwrap();
    assert_eq!(cutout.as_deref(), Some("/x/c.png"));
    assert_eq!(mask.as_deref(), Some("/x/m.bin"));

    assert_eq!(
        resolve_outputs_for_input(&args(false, None, Some("/x/c.jpg"), None), "/in/a.jpg").unwrap_err(),
        "output cutout must be a .png file (received: '/x/c.jpg')"
    );

    let (cutout, mask) = resolve_outputs_for_input(&args(false, None, None, Some("/x/m.png")), "/in/a.jpg").unwrap();
    assert!(cutout.is_none());
    assert_eq!(mask.as_deref(), Some("/x/m.png"));

    let (cutout, mask) =
        resolve_outputs_for_input(&args(true, None, Some("/cuts"), Some("/masks")), "/in/a.jpg").unwrap();
    assert!(same(&cutout, &Path::new("/cuts").join("a_cutout.png")));
    assert!(same(&mask, &Path::new("/masks").join("a_mask.png")));

    let (cutout, mask) =
        resolve_outputs_for_input(&args(true, Some("/out"), Some("/cuts"), Some("/masks")), "/in/a.jpg").unwrap();
    assert!(same(&cutout, &Path::new("/out").join("a_cutout.png")));
    assert!(same(&mask, &Path::new("/out").join("a_mask.png")));

    let (cutout, mask) = resolve_outputs_for_input(&args(true, Some("/out"), None, None), "/in/a.jpg").unwrap();
    assert!(same(&cutout, &Path::new("/out").join("a_cutout.png")));
    assert!(mask.is_none());

    let (cutout, _) = resolve_outputs_for_input(&args(true, None, None, None), "/in/a.jpg").unwrap();
    assert!(same(&cutout, &Path::new("/in").join("a_cutout.png")));

    assert_eq!(
        resolve_outputs_for_input(&args(true, None, Some("/cuts"), None), "/").unwrap_err(),
        "input file must include a valid file name"
    );
}

#[test]
fn models_a_run_needs() {
    assert_eq!(required_models(ModelKind::Auto), vec![KnownModel::Rmbg14]);
    assert_eq!(required_models(ModelKind::Rmbg14), vec![KnownModel::Rmbg14]);
    assert_eq!(required_models(ModelKind::Rmbg20), vec![KnownModel::Rmbg20]);
    let lock = |rev: &str| ModelLock {
        schema_version: 1,
        generated_at: "t".to_string(),
        models: vec![LockModel {
            model_id: "briaai/RMBG-1.4".to_string(),
            revision: rev.to_string(),
            source: "huggingface".to_string(),
            files: vec![],
        }],
    };
    let with_weights = vec![vec!["onnx/model.onnx".to_string()]];
    let without = vec![vec!["config.json".to_string()]];
    let small = vec![KnownModel::Rmbg14];
    assert!(has_required_models_for_exec(Some(&lock("main")), &small, &with_weights));
    assert!(!has_required_models_for_exec(None, &small, &with_weights));
    assert!(!has_required_models_for_exec(Some(&lock("v1")), &small, &with_weights));
    assert!(!has_required_models_for_exec(Some(&lock("main")), &small, &without));
    assert!(!has_required_models_for_exec(Some(&lock("main")), &small, &vec![]));
    assert!(!has_required_models_for_exec(Some(&lock("main")), &vec![KnownModel::Rmbg20], &with_weights));
    assert!(has_required_models_for_exec(Some(&lock("main")), &vec![], &vec![]));
}

#[test]
fn telemetry_envelope_and_sinks() {
    let e = envelope(&TelemetryEvent {
        event_type: TelemetryEventType::InferenceSuccess,
        model: ModelKind::Rmbg14,
        platform: PlatformTarget::Android,
        duration_ms: Some(12),
        detail: Some("d".to_string()),
    });
    assert_eq!(e.event_type, format!("{:?}", TelemetryEventType::InferenceSuccess));
    assert_eq!(e.model, format!("{:?}", ModelKind::Rmbg14));
    assert_eq!(e.platform, format!("{:?}", PlatformTarget::Android));
    assert_eq!(e.duration_ms, Some(12));
    assert_eq!(e.detail.as_deref(), Some("d"));
    for t in [
        TelemetryEventType::LoadStart,
        TelemetryEventType::LoadSuccess,
        TelemetryEventType::LoadError,
        TelemetryEventType::InferenceStart,
        TelemetryEventType::InferenceError,
    ] {
        for (m, p) in [(ModelKind::Auto, PlatformTarget::Cli), (ModelKind::Rmbg20, PlatformTarget::Tauri), (ModelKind::Auto, PlatformTarget::Ios)] {
            let e = envelope(&TelemetryEvent { event_type: t, model: m, platform: p, duration_ms: None, detail: None });
            assert_eq!(e.event_type, format!("{:?}", t));
            assert_eq!(e.model, format!("{:?}", m));
            assert_eq!(e.platform, format!("{:?}", p));
        }
    }

    let s = |v: &str| Some(v.to_string());
    assert!(choose_sink(&None, &s("f"), &s("u")).is_none());
    assert!(matches!(choose_sink(&s(" StdOut\n"), &None, &None), Some(SinkChoice::Stdout)));
    match choose_sink(&s("FILE"), &s("/var/log/t.jsonl"), &None) {
        Some(SinkChoice::File(path)) => assert_eq!(path, "/var/log/t.jsonl"),
        _ => panic!("expected the file sink"),
    }
    assert!(choose_sink(&s("file"), &s("  "), &None).is_none());
    assert!(choose_sink(&s("file"), &None, &s("u")).is_none());
    match choose_sink(&s("http"), &None, &s("https://t.example/e")) {
        Some(SinkChoice::Http(url)) => assert_eq!(url, "https://t.example/e"),
        _ => panic!("expected the endpoint sink"),
    }
    assert!(choose_sink(&s("http"), &s("f"), &s("")).is_none());
    assert!(choose_sink(&s("syslog"), &s("f"), &s("u")).is_none());
    assert!(choose_sink(&s(""), &s("f"), &s("u")).is_none());
}

#[test]
fn mask_becomes_the_opacity_of_the_cutout() {
    let source = vec![1, 2, 3, 255, 4, 5, 6, 255, 7, 8, 9, 0];
    let cutout = cutout_pixels(source.clone(), (3, 1), &vec![0, 128, 255], (3, 1)).unwrap();
    assert_eq!(cutout, vec![1, 2, 3, 0, 4, 5, 6, 128, 7, 8, 9, 255]);
    assert_eq!(
        cutout_pixels(source.clone(), (3, 1), &vec![0, 128, 255], (1, 3)).unwrap_err(),
        "mask dimensions do not match source dimensions"
    );
    assert!(cutout_pixels(source, (3, 1), &vec![0, 128], (3, 1)).is_err());
    assert_eq!(cutout_pixels(vec![], (0, 0), &vec![], (0, 0)).unwrap(), Vec::<u8>::new());
}
