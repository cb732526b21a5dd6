use unbg::backend::RgbPixels;
use unbg::call::{CallStep, InferenceCall};
use unbg::inference::{
    CoreError, ExecutionProvider, GpuBackendPreference, InferenceRequest, InferenceResult,
    ModelKind, OnnxVariant,
};
use unbg::provider::ProviderChoice::{Cpu, Cuda, DirectML};
use unbg::provider::ProviderChoice;
use unbg::selection::Attempted;

fn request(mode: ExecutionProvider, benchmark: bool) -> InferenceRequest {
    InferenceRequest {
        requested_model: ModelKind::Rmbg14,
        onnx_variant: OnnxVariant::Fp16,
        execution_provider: mode,
        gpu_backend: GpuBackendPreference::Auto,
        benchmark_provider: benchmark,
        emit_mask_png: true,
        input_path: None,
        input_bytes: Some(vec![]),
        model_dir: None,
        width: 3,
        height: 0,
    }
}

fn image() -> RgbPixels {
    RgbPixels { width: 2, height: 1, data: vec![200, 200, 200, 1, 2, 3] }
}

fn ok(tag: u8, elapsed_ms: u128) -> Result<Attempted, String> {
    Ok(Attempted {
        result: InferenceResult {
            model_used: ModelKind::Rmbg14,
            mask_png: vec![tag],
            width: 2,
            height: 1,
            execution_provider_selected: "gpu".to_string(),
            gpu_backend_selected: None,
            fallback_used: false,
        },
        elapsed_ms,
    })
}

fn backend_text(result: Result<InferenceResult, CoreError>) -> String {
    match result {
        Err(CoreError::Backend(text)) => text,
        _ => panic!("expected a backend error"),
    }
}

/// A call as it begins; `begin_call` below also answers the look for the
/// remembered path, where the call asks for it.
fn begin(mode: ExecutionProvider, benchmark: bool, allowed: bool, candidates: Vec<ProviderChoice>) -> InferenceCall {
    InferenceCall::begin(&request(mode, benchmark), ModelKind::Rmbg14, allowed, candidates)
}

/// Loads the image and resolves the weights, and answers the look for the
/// remembered path with `cached` where the call asks for it.
fn ready(call: &mut InferenceCall, cached: Option<ProviderChoice>) {
    assert_eq!(call.next(), CallStep::LoadImage);
    call.image_loaded(Ok(image()));
    assert_eq!(call.next(), CallStep::ResolveWeights);
    call.weights_resolved(Ok(()));
    if call.next() == CallStep::Recall {
        call.recalled(cached);
    }
}

#[test]
fn steps_of_a_call_that_succeeds() {
    let mut call = begin(ExecutionProvider::Gpu, false, false, vec![Cuda, Cpu]);
    assert_eq!(call.next(), CallStep::LoadImage);
    call.image_loaded(Ok(image()));
    assert_eq!(call.next(), CallStep::ResolveWeights);
    call.weights_resolved(Ok(()));
    // in an explicit mode nothing is recalled
    assert_eq!(call.next(), CallStep::Attempt(Cuda));
    call.attempted(Err("no driver".to_string()));
    assert_eq!(call.next(), CallStep::Attempt(Cpu));
    call.attempted(ok(7, 3));
    assert_eq!(call.next(), CallStep::Done);
    let end = call.finish();
    let result = end.result.unwrap();
    assert_eq!(result.mask_png, vec![7]);
    assert!(result.fallback_used);
    assert_eq!(end.persist, None);
}

#[test]
fn remembered_path_is_looked_up_only_when_attempts_begin() {
    let mut call = begin(ExecutionProvider::Auto, false, false, vec![DirectML, Cpu]);
    assert_eq!(call.next(), CallStep::LoadImage);
    call.image_loaded(Ok(image()));
    assert_eq!(call.next(), CallStep::ResolveWeights);
    call.weights_resolved(Ok(()));
    assert_eq!(call.next(), CallStep::Recall);
    call.recalled(Some(Cpu));
    assert_eq!(call.next(), CallStep::Attempt(Cpu));
    call.attempted(ok(4, 1));
    assert_eq!(call.next(), CallStep::Done);
    let end = call.finish();
    assert_eq!(end.result.unwrap().mask_png, vec![4]);
    assert_eq!(end.persist, None);

    // a call that ends before its attempts never asks
    let mut call = begin(ExecutionProvider::Auto, true, false, vec![DirectML, Cpu]);
    call.image_loaded(Ok(image()));
    call.weights_resolved(Err(CoreError::Backend("no lockfile".to_string())));
    assert_eq!(call.next(), CallStep::Done);
}

#[test]
fn call_in_auto_mode_remembers_its_path() {
    let mut call = begin(ExecutionProvider::Auto, false, true, vec![DirectML, Cpu]);
    ready(&mut call, None);
    assert_eq!(call.next(), CallStep::Attempt(DirectML));
    call.attempted(ok(1, 9));
    let end = call.finish();
    assert_eq!(end.result.unwrap().mask_png, vec![1]);
    assert_eq!(end.persist, Some(DirectML));

    let mut call = begin(ExecutionProvider::Auto, true, false, vec![DirectML, Cpu]);
    ready(&mut call, Some(Cpu));
    assert_eq!(call.next(), CallStep::Attempt(Cpu));
    call.attempted(Err("cold".to_string()));
    assert_eq!(call.next(), CallStep::Attempt(DirectML));
    call.attempted(ok(1, 9));
    assert_eq!(call.next(), CallStep::Attempt(Cpu));
    call.attempted(ok(2, 4));
    assert_eq!(call.next(), CallStep::Done);
    let end = call.finish();
    assert_eq!(end.result.unwrap().mask_png, vec![2]);
    assert_eq!(end.persist, Some(Cpu));
}

#[test]
fn failures_surface_when_the_placeholder_is_off() {
    let mut call = begin(ExecutionProvider::Cpu, false, false, vec![Cpu]);
    call.image_loaded(Err(CoreError::MissingInput));
    assert_eq!(call.next(), CallStep::Done);
    assert!(matches!(call.finish().result, Err(CoreError::MissingInput)));

    let mut call = begin(ExecutionProvider::Cpu, false, false, vec![Cpu]);
    call.image_loaded(Ok(image()));
    call.weights_resolved(Err(CoreError::Backend("model not found in lockfile: x".to_string())));
    assert_eq!(call.next(), CallStep::Done);
    assert_eq!(backend_text(call.finish().result), "model not found in lockfile: x");

    let mut call = begin(ExecutionProvider::Cpu, false, false, vec![Cpu]);
    ready(&mut call, None);
    call.attempted(Err("boom".to_string()));
    let end = call.finish();
    assert_eq!(backend_text(end.result), "provider-exhausted: all providers failed: cpu: boom");
    assert_eq!(end.persist, None);
}

#[test]
fn placeholder_answers_when_switched_on() {
    // no image: a black image of the stated size, at least one pixel each way
    let mut call = begin(ExecutionProvider::Cpu, false, true, vec![Cpu]);
    call.image_loaded(Err(CoreError::Backend("not an image".to_string())));
    assert_eq!(call.next(), CallStep::Done);
    let result = call.finish().result.unwrap();
    assert_eq!((result.width, result.height), (3, 1));
    assert_eq!(result.execution_provider_selected, "placeholder");
    let mask = image::load_from_memory(&result.mask_png).unwrap().to_luma8();
    assert_eq!(mask.into_raw(), vec![0, 0, 0]);

    // no weights: the mask of the image
    let mut call = begin(ExecutionProvider::Cpu, false, true, vec![Cpu]);
    call.image_loaded(Ok(image()));
    call.weights_resolved(Err(CoreError::Backend("no lockfile".to_string())));
    let result = call.finish().result.unwrap();
    assert_eq!(result.model_used, ModelKind::Rmbg14);
    assert_eq!((result.width, result.height), (2, 1));
    assert_eq!(result.execution_provider_selected, "placeholder");
    assert!(result.gpu_backend_selected.is_none());
    assert!(!result.fallback_used);
    let mask = image::load_from_memory(&result.mask_png).unwrap().to_luma8();
    assert_eq!(mask.into_raw(), vec![255, 0]);

    // every candidate failed: the mask of the image
    let mut call = begin(ExecutionProvider::Gpu, false, true, vec![Cuda, Cpu]);
    ready(&mut call, None);
    call.attempted(Err("a".to_string()));
    call.attempted(Err("b".to_string()));
    assert_eq!(call.next(), CallStep::Done);
    let end = call.finish();
    assert_eq!(end.result.unwrap().execution_provider_selected, "placeholder");
    assert_eq!(end.persist, None);
}

#[test]
fn answer_of_a_model_never_names_the_placeholder() {
    for provider in [Cpu, Cuda, DirectML, ProviderChoice::CoreML] {
        let (path, _) = unbg::provider::selected_labels(provider);
        assert_ne!(path, unbg::backend::PLACEHOLDER_PROVIDER);
    }
}

#[test]
fn no_candidates_fail_the_call_even_with_the_placeholder() {
    for allowed in [false, true] {
        for mode in [ExecutionProvider::Gpu, ExecutionProvider::Auto] {
            let mut call = begin(mode, false, allowed, vec![]);
            call.image_loaded(Ok(image()));
            call.weights_resolved(Ok(()));
            assert_eq!(call.next(), CallStep::Done);
            assert_eq!(backend_text(call.finish().result), "no execution providers available");
        }
    }
}
