//! The adapter for the desktop shell: requests with typed or with textual
//! fields, mapped to an inference call and back.

use vstd::prelude::*;
use crate::inference::{
    is_run, run_inference_with_telemetry, CoreError, ExecutionProvider, GpuBackendPreference,
    InferenceBackend, InferenceRequest, InferenceResult, ModelKind, OnnxVariant, PlatformTarget,
    RuntimePolicy, TelemetrySink,
};
use crate::names::{
    accelerator_named, mode_named, model_label, model_label_text, model_named, read_accelerator,
    read_mode, read_model, read_variant, variant_named,
};
use crate::sizing::{allows_large_model, rgba_bytes, ImageSize, LARGE_MODEL_BYTE_LIMIT};
use crate::text::ascii_lower;
use crate::v1::{RemoveBackgroundRequest, RemoveBackgroundResponse};

verus! {

#[derive(Debug)]
pub struct TauriRemoveRequest {
    pub image_bytes: Vec<u8>,
    pub width: u32,
    pub height: u32,
    pub model: ModelKind,
    pub max_inference_pixels: u32,
    pub execution_provider: Option<ExecutionProvider>,
    pub gpu_backend: Option<GpuBackendPreference>,
    pub benchmark_provider: Option<bool>,
    pub onnx_variant: Option<OnnxVariant>,
    pub model_dir: Option<String>,
}

#[derive(Debug)]
pub struct TauriRemoveResponse {
    pub model_used: ModelKind,
    pub mask_png: Vec<u8>,
    pub width: u32,
    pub height: u32,
    pub provider_selected: String,
    pub backend_selected: Option<String>,
    pub fallback_used: bool,
}

#[derive(Debug)]
pub struct TauriCommandRequest {
    pub image_bytes: Vec<u8>,
    pub width: u32,
    pub height: u32,
    pub model: Option<String>,
    pub max_inference_pixels: Option<u32>,
    pub execution_provider: Option<String>,
    pub gpu_backend: Option<String>,
    pub benchmark_provider: Option<bool>,
    pub onnx_variant: Option<String>,
    pub model_dir: Option<String>,
}

#[derive(Debug)]
pub struct TauriCommandResponse {
    pub model_used: String,
    pub width: u32,
    pub height: u32,
    pub mask_png: Vec<u8>,
    pub provider_selected: String,
    pub backend_selected: Option<String>,
    pub fallback_used: bool,
}

/// The pixel budget where a request names none.
pub const DEFAULT_MAX_INFERENCE_PIXELS: u32 = 2_000_000;

/// The inference call that a typed request stands for: the image travels
/// as bytes, a mask is asked for, and what the request leaves open is half
/// precision, the `Auto` mode, the `Auto` accelerator and a benchmark.
pub open spec fn is_call_for(call: InferenceRequest, request: TauriRemoveRequest) -> bool {
    &&& call.requested_model == request.model
    &&& call.onnx_variant == request.onnx_variant.unwrap_or(OnnxVariant::Fp16)
    &&& call.execution_provider == request.execution_provider.unwrap_or(ExecutionProvider::Auto)
    &&& call.gpu_backend == request.gpu_backend.unwrap_or(GpuBackendPreference::Auto)
    &&& call.benchmark_provider == request.benchmark_provider.unwrap_or(true)
    &&& call.emit_mask_png
    &&& call.input_path is None
    &&& call.input_bytes == Some(request.image_bytes)
    &&& call.model_dir == request.model_dir
    &&& call.width == request.width
    &&& call.height == request.height
}

/// The policy for an image: the pixel budget of the request, and the larger
/// model only where the image stays within the byte limit.
pub open spec fn is_policy_for(
    policy: RuntimePolicy,
    max_inference_pixels: u32,
    width: u32,
    height: u32,
) -> bool {
    &&& policy.max_inference_pixels == max_inference_pixels
    &&& policy.max_latency_ms == 1_500
    &&& policy.allow_rmbg20 == (rgba_bytes(ImageSize { width, height }) <= LARGE_MODEL_BYTE_LIMIT)
}

/// The policy for an image.
pub fn policy_for(max_inference_pixels: u32, width: u32, height: u32) -> (policy: RuntimePolicy)
    ensures
        is_policy_for(policy, max_inference_pixels, width, height),
{
    RuntimePolicy {
        max_inference_pixels,
        max_latency_ms: 1_500,
        allow_rmbg20: allows_large_model(width, height),
    }
}

/// The inference call and the policy that a typed request stands for.
pub fn inference_call(request: TauriRemoveRequest) -> (r: (InferenceRequest, RuntimePolicy))
    ensures
        is_call_for(r.0, request),
        is_policy_for(r.1, request.max_inference_pixels, request.width, request.height),
{
    let policy: RuntimePolicy = policy_for(
        request.max_inference_pixels,
        request.width,
        request.height,
    );
    let call = InferenceRequest {
        requested_model: request.model,
        onnx_variant: match request.onnx_variant {
            Some(v) => v,
            None => OnnxVariant::Fp16,
        },
        execution_provider: match request.execution_provider {
            Some(v) => v,
            None => ExecutionProvider::Auto,
        },
        gpu_backend: match request.gpu_backend {
            Some(v) => v,
            None => GpuBackendPreference::Auto,
        },
        benchmark_provider: match request.benchmark_provider {
            Some(v) => v,
            None => true,
        },
        emit_mask_png: true,
        input_path: None,
        input_bytes: Some(request.image_bytes),
        model_dir: request.model_dir,
        width: request.width,
        height: request.height,
    };
    (call, policy)
}

/// The typed response for what the backend returned.
pub fn typed_response(inference: InferenceResult) -> (response: TauriRemoveResponse)
    ensures
        response.model_used == inference.model_used,
        response.mask_png == inference.mask_png,
        response.width == inference.width,
        response.height == inference.height,
        response.provider_selected == inference.execution_provider_selected,
        response.backend_selected == inference.gpu_backend_selected,
        response.fallback_used == inference.fallback_used,
{
    TauriRemoveResponse {
        model_used: inference.model_used,
        mask_png: inference.mask_png,
        width: inference.width,
        height: inference.height,
        provider_selected: inference.execution_provider_selected,
        backend_selected: inference.gpu_backend_selected,
        fallback_used: inference.fallback_used,
    }
}

/// `r` is the typed response to what a run returned: the answer field by
/// field, or the error as text.
pub open spec fn is_typed_answer(
    r: Result<TauriRemoveResponse, String>,
    run: Result<InferenceResult, CoreError>,
) -> bool {
    match run {
        Ok(inference) => {
            &&& r is Ok
            &&& r->Ok_0.model_used == inference.model_used
            &&& r->Ok_0.mask_png == inference.mask_png
            &&& r->Ok_0.width == inference.width
            &&& r->Ok_0.height == inference.height
            &&& r->Ok_0.provider_selected == inference.execution_provider_selected
            &&& r->Ok_0.backend_selected == inference.gpu_backend_selected
            &&& r->Ok_0.fallback_used == inference.fallback_used
        },
        Err(error) => r is Err && r->Err_0@ == error.message_text(),
    }
}

/// `r` is what serving a typed request through a backend gives: the typed
/// response to the run of the call that the request stands for, under the
/// policy for its image.
pub open spec fn is_served<B: InferenceBackend + ?Sized>(
    backend: &B,
    request: TauriRemoveRequest,
    r: Result<TauriRemoveResponse, String>,
) -> bool {
    exists|call: InferenceRequest, policy: RuntimePolicy, run: Result<InferenceResult, CoreError>|
        #![trigger is_run(backend, call, policy, run)]
        {
            &&& is_call_for(call, request)
            &&& is_policy_for(policy, request.max_inference_pixels, request.width, request.height)
            &&& is_run(backend, call, policy, run)
            &&& is_typed_answer(r, run)
        }
}

/// Serves a typed request through a backend. A request that the policy
/// refuses fails with the text of that error before the backend is asked;
/// what the backend answers to any other comes back field by field, and its
/// error as text.
pub fn remove_background<B: InferenceBackend + ?Sized>(
    backend: &B,
    telemetry: Option<&dyn TelemetrySink>,
    request: TauriRemoveRequest,
) -> (r: Result<TauriRemoveResponse, String>)
    ensures
        is_served(backend, request, r),
        request.model == ModelKind::Rmbg20 && rgba_bytes(
            ImageSize { width: request.width, height: request.height },
        ) > LARGE_MODEL_BYTE_LIMIT ==> r is Err && r->Err_0@
            == CoreError::Rmbg20Disabled.message_text(),
{
    let (call, policy) = inference_call(request);
    let run: Result<InferenceResult, CoreError> = run_inference_with_telemetry(
        backend,
        &call,
        &policy,
        PlatformTarget::Tauri,
        telemetry,
    );
    let r: Result<TauriRemoveResponse, String> = match run {
        Ok(inference) => Ok(typed_response(inference)),
        Err(e) => Err(e.message()),
    };
    assert(is_run(backend, call, policy, run) && is_typed_answer(r, run));
    r
}

/// Why a model name cannot be read.
pub open spec fn unknown_model_text(name: Seq<char>) -> Seq<char> {
    "unknown model '"@ + name + "'; expected one of: auto, fast, quality, rmbg-1.4, rmbg-2.0"@
}

/// Why the name of an execution mode cannot be read.
pub open spec fn unknown_mode_text(name: Seq<char>) -> Seq<char> {
    "unknown execution provider '"@ + name + "'; expected one of: auto, gpu, cpu"@
}

/// Why the name of an accelerator cannot be read.
pub open spec fn unknown_accelerator_text(name: Seq<char>) -> Seq<char> {
    "unknown gpu backend '"@ + name + "'; expected one of: auto, directml, cuda, coreml, metal"@
}

/// Why a variant name cannot be read.
pub open spec fn unknown_variant_text(name: Seq<char>) -> Seq<char> {
    "unknown onnx variant '"@ + name + "'; expected one of: auto, fp16, fp32, quantized"@
}

/// What a model name or alias reads as.
pub open spec fn model_reading(raw: Seq<char>) -> Result<ModelKind, Seq<char>> {
    match model_named(ascii_lower(raw)) {
        Some(model) => Ok(model),
        None => Err(unknown_model_text(ascii_lower(raw))),
    }
}

/// What the name of an execution mode reads as, where one is given.
pub open spec fn mode_reading(raw: Option<String>) -> Result<Option<ExecutionProvider>, Seq<char>> {
    match raw {
        None => Ok(None),
        Some(name) => match mode_named(ascii_lower(name@)) {
            Some(mode) => Ok(Some(mode)),
            None => Err(unknown_mode_text(ascii_lower(name@))),
        },
    }
}

/// What the name of an accelerator reads as, where one is given.
pub open spec fn accelerator_reading(raw: Option<String>) -> Result<
    Option<GpuBackendPreference>,
    Seq<char>,
> {
    match raw {
        None => Ok(None),
        Some(name) => match accelerator_named(ascii_lower(name@)) {
            Some(preference) => Ok(Some(preference)),
            None => Err(unknown_accelerator_text(ascii_lower(name@))),
        },
    }
}

/// What a variant name reads as, where one is given.
pub open spec fn variant_reading(raw: Option<String>) -> Result<Option<OnnxVariant>, Seq<char>> {
    match raw {
        None => Ok(None),
        Some(name) => match variant_named(ascii_lower(name@)) {
            Some(variant) => Ok(Some(variant)),
            None => Err(unknown_variant_text(ascii_lower(name@))),
        },
    }
}

pub fn parse_model_alias(raw: &str) -> (r: Result<ModelKind, String>)
    ensures
        match r {
            Ok(model) => model_reading(raw@) == Ok::<ModelKind, Seq<char>>(model),
            Err(text) => model_reading(raw@) == Err::<ModelKind, Seq<char>>(text@),
        },
{
    match read_model(raw) {
        Ok(model) => Ok(model),
        Err(name) => {
            let mut text: String = "unknown model '".to_string();
            text.append(name.as_str());
            text.append("'; expected one of: auto, fast, quality, rmbg-1.4, rmbg-2.0");
            Err(text)
        },
    }
}

pub fn parse_execution_provider_opt(raw: &Option<String>) -> (r: Result<
    Option<ExecutionProvider>,
    String,
>)
    ensures
        match r {
            Ok(mode) => mode_reading(*raw) == Ok::<Option<ExecutionProvider>, Seq<char>>(mode),
            Err(text) => mode_reading(*raw) == Err::<Option<ExecutionProvider>, Seq<char>>(text@),
        },
{
    match raw {
        None => Ok(None),
        Some(value) => match read_mode(value.as_str()) {
            Ok(mode) => Ok(Some(mode)),
            Err(name) => {
                let mut text: String = "unknown execution provider '".to_string();
                text.append(name.as_str());
                text.append("'; expected one of: auto, gpu, cpu");
                Err(text)
            },
        },
    }
}

pub fn parse_gpu_backend_opt(raw: &Option<String>) -> (r: Result<
    Option<GpuBackendPreference>,
    String,
>)
    ensures
        match r {
            Ok(preference) => accelerator_reading(*raw) == Ok::<
                Option<GpuBackendPreference>,
                Seq<char>,
            >(preference),
            Err(text) => accelerator_reading(*raw) == Err::<
                Option<GpuBackendPreference>,
                Seq<char>,
            >(text@),
        },
{
    match raw {
        None => Ok(None),
        Some(value) => match read_accelerator(value.as_str()) {
            Ok(preference) => Ok(Some(preference)),
            Err(name) => {
                let mut text: String = "unknown gpu backend '".to_string();
                text.append(name.as_str());
                text.append("'; expected one of: auto, directml, cuda, coreml, metal");
                Err(text)
            },
        },
    }
}

pub fn parse_onnx_variant_opt(raw: &Option<String>) -> (r: Result<Option<OnnxVariant>, String>)
    ensures
        match r {
            Ok(variant) => variant_reading(*raw) == Ok::<Option<OnnxVariant>, Seq<char>>(variant),
            Err(text) => variant_reading(*raw) == Err::<Option<OnnxVariant>, Seq<char>>(text@),
        },
{
    match raw {
        None => Ok(None),
        Some(value) => match read_variant(value.as_str()) {
            Ok(variant) => Ok(Some(variant)),
            Err(name) => {
                let mut text: String = "unknown onnx variant '".to_string();
                text.append(name.as_str());
                text.append("'; expected one of: auto, fp16, fp32, quantized");
                Err(text)
            },
        },
    }
}

/// Why a textual request cannot be read, if it cannot: the first of its
/// names, in the order model, execution mode, accelerator, variant, that
/// stands for nothing.
pub open spec fn reading_error(request: RemoveBackgroundRequest) -> Option<Seq<char>> {
    if model_reading(request.model@) is Err {
        Some(model_reading(request.model@)->Err_0)
    } else if mode_reading(request.execution_provider) is Err {
        Some(mode_reading(request.execution_provider)->Err_0)
    } else if accelerator_reading(request.gpu_backend) is Err {
        Some(accelerator_reading(request.gpu_backend)->Err_0)
    } else if variant_reading(request.onnx_variant) is Err {
        Some(variant_reading(request.onnx_variant)->Err_0)
    } else {
        None
    }
}

/// `typed` is the typed request that a textual request reads as: every
/// name read, the default pixel budget where none is given, and the rest as
/// it is.
pub open spec fn is_typed_for(typed: TauriRemoveRequest, request: RemoveBackgroundRequest) -> bool {
    &&& typed.image_bytes == request.image_bytes
    &&& typed.width == request.width
    &&& typed.height == request.height
    &&& model_reading(request.model@) == Ok::<ModelKind, Seq<char>>(typed.model)
    &&& typed.max_inference_pixels == request.max_inference_pixels.unwrap_or(
        DEFAULT_MAX_INFERENCE_PIXELS,
    )
    &&& mode_reading(request.execution_provider) == Ok::<Option<ExecutionProvider>, Seq<char>>(
        typed.execution_provider,
    )
    &&& accelerator_reading(request.gpu_backend) == Ok::<Option<GpuBackendPreference>, Seq<char>>(
        typed.gpu_backend,
    )
    &&& typed.benchmark_provider == request.benchmark_provider
    &&& variant_reading(request.onnx_variant) == Ok::<Option<OnnxVariant>, Seq<char>>(
        typed.onnx_variant,
    )
    &&& typed.model_dir == request.model_dir
}

/// Reads a textual request into a typed one.
pub fn typed_request(request: RemoveBackgroundRequest) -> (r: Result<TauriRemoveRequest, String>)
    ensures
        match r {
            Ok(typed) => reading_error(request) is None && is_typed_for(typed, request),
            Err(text) => reading_error(request) == Some(text@),
        },
{
    let model: ModelKind = match parse_model_alias(request.model.as_str()) {
        Ok(model) => model,
        Err(text) => {
            return Err(text);
        },
    };
    let execution_provider: Option<ExecutionProvider> = match parse_execution_provider_opt(
        &request.execution_provider,
    ) {
        Ok(mode) => mode,
        Err(text) => {
            return Err(text);
        },
    };
    let gpu_backend: Option<GpuBackendPreference> = match parse_gpu_backend_opt(
        &request.gpu_backend,
    ) {
        Ok(preference) => preference,
        Err(text) => {
            return Err(text);
        },
    };
    let onnx_variant: Option<OnnxVariant> = match parse_onnx_variant_opt(&request.onnx_variant) {
        Ok(variant) => variant,
        Err(text) => {
            return Err(text);
        },
    };
    Ok(
        TauriRemoveRequest {
            image_bytes: request.image_bytes,
            width: request.width,
            height: request.height,
            model,
            max_inference_pixels: match request.max_inference_pixels {
                Some(n) => n,
                None => DEFAULT_MAX_INFERENCE_PIXELS,
            },
            execution_provider,
            gpu_backend,
            benchmark_provider: request.benchmark_provider,
            onnx_variant,
            model_dir: request.model_dir,
        },
    )
}

/// The textual response for a typed one.
pub fn wire_response(response: TauriRemoveResponse) -> (wire: RemoveBackgroundResponse)
    ensures
        wire.model_used@ == model_label_text(response.model_used),
        wire.width == response.width,
        wire.height == response.height,
        wire.mask_png == response.mask_png,
        wire.provider_selected == response.provider_selected,
        wire.backend_selected == response.backend_selected,
        wire.fallback_used == response.fallback_used,
{
    RemoveBackgroundResponse {
        model_used: model_label(response.model_used).to_string(),
        width: response.width,
        height: response.height,
        mask_png: response.mask_png,
        provider_selected: response.provider_selected,
        backend_selected: response.backend_selected,
        fallback_used: response.fallback_used,
    }
}

/// `r` is the textual response to a typed one: the model under its name
/// and the rest as it is; an error is passed on.
pub open spec fn is_wire_answer(
    r: Result<RemoveBackgroundResponse, String>,
    served: Result<TauriRemoveResponse, String>,
) -> bool {
    match served {
        Ok(response) => {
            &&& r is Ok
            &&& r->Ok_0.model_used@ == model_label_text(response.model_used)
            &&& r->Ok_0.width == response.width
            &&& r->Ok_0.height == response.height
            &&& r->Ok_0.mask_png == response.mask_png
            &&& r->Ok_0.provider_selected == response.provider_selected
            &&& r->Ok_0.backend_selected == response.backend_selected
            &&& r->Ok_0.fallback_used == response.fallback_used
        },
        Err(text) => r == Err::<RemoveBackgroundResponse, String>(text),
    }
}

/// `r` is what serving a textual request through a backend gives: the text
/// that says which name stands for nothing, or else the textual response to
/// what serving the typed request gives.
pub open spec fn is_served_v1<B: InferenceBackend + ?Sized>(
    backend: &B,
    request: RemoveBackgroundRequest,
    r: Result<RemoveBackgroundResponse, String>,
) -> bool {
    match reading_error(request) {
        Some(text) => r is Err && r->Err_0@ == text,
        None => exists|typed: TauriRemoveRequest, served: Result<TauriRemoveResponse, String>|
            #![trigger is_served(backend, typed, served)]
            is_typed_for(typed, request) && is_served(backend, typed, served) && is_wire_answer(
                r,
                served,
            ),
    }
}

/// Serves a textual request through a backend. A request with a name that
/// stands for nothing fails with the text that says so, before anything
/// else is done.
pub fn remove_background_v1<B: InferenceBackend + ?Sized>(
    backend: &B,
    telemetry: Option<&dyn TelemetrySink>,
    request: RemoveBackgroundRequest,
) -> (r: Result<RemoveBackgroundResponse, String>)
    ensures
        is_served_v1(backend, request, r),
{
    let typed: TauriRemoveRequest = match typed_request(request) {
        Ok(typed) => typed,
        Err(text) => {
            return Err(text);
        },
    };
    let served: Result<TauriRemoveResponse, String> = remove_background(backend, telemetry, typed);
    let r: Result<RemoveBackgroundResponse, String> = match served {
        Ok(response) => Ok(wire_response(response)),
        Err(text) => Err(text),
    };
    assert(is_typed_for(typed, request) && is_served(backend, typed, served) && is_wire_answer(
        r,
        served,
    ));
    r
}

/// `wire` is the textual request that a command stands for: the model is
/// `auto` and the pixel budget the default where the command names none.
pub open spec fn is_command_wire(wire: RemoveBackgroundRequest, request: TauriCommandRequest) -> bool {
    &&& wire.image_bytes == request.image_bytes
    &&& wire.width == request.width
    &&& wire.height == request.height
    &&& match request.model {
        Some(model) => wire.model == model,
        None => wire.model@ == "auto"@,
    }
    &&& wire.max_inference_pixels == Some(
        request.max_inference_pixels.unwrap_or(DEFAULT_MAX_INFERENCE_PIXELS),
    )
    &&& wire.execution_provider == request.execution_provider
    &&& wire.gpu_backend == request.gpu_backend
    &&& wire.benchmark_provider == request.benchmark_provider
    &&& wire.onnx_variant == request.onnx_variant
    &&& wire.model_dir == request.model_dir
}

/// The textual request that a command stands for.
pub fn command_request(request: TauriCommandRequest) -> (wire: RemoveBackgroundRequest)
    ensures
        is_command_wire(wire, request),
{
    RemoveBackgroundRequest {
        image_bytes: request.image_bytes,
        width: request.width,
        height: request.height,
        model: match request.model {
            Some(model) => model,
            None => "auto".to_string(),
        },
        max_inference_pixels: match request.max_inference_pixels {
            Some(n) => Some(n),
            None => Some(DEFAULT_MAX_INFERENCE_PIXELS),
        },
        execution_provider: request.execution_provider,
        gpu_backend: request.gpu_backend,
        benchmark_provider: request.benchmark_provider,
        onnx_variant: request.onnx_variant,
        model_dir: request.model_dir,
    }
}

/// Why a command cannot be read, if it cannot: as for a textual request,
/// with `auto` for the model where the command names none.
pub open spec fn command_reading_error(request: TauriCommandRequest) -> Option<Seq<char>> {
    let model = match request.model {
        Some(model) => model@,
        None => "auto"@,
    };
    if model_reading(model) is Err {
        Some(model_reading(model)->Err_0)
    } else if mode_reading(request.execution_provider) is Err {
        Some(mode_reading(request.execution_provider)->Err_0)
    } else if accelerator_reading(request.gpu_backend) is Err {
        Some(accelerator_reading(request.gpu_backend)->Err_0)
    } else if variant_reading(request.onnx_variant) is Err {
        Some(variant_reading(request.onnx_variant)->Err_0)
    } else {
        None
    }
}

/// Serves a command through a backend. A command with a name that stands
/// for nothing fails with the text that says so, before anything else is
/// done.
pub fn remove_background_command<B: InferenceBackend + ?Sized>(
    backend: &B,
    telemetry: Option<&dyn TelemetrySink>,
    request: TauriCommandRequest,
) -> (r: Result<TauriCommandResponse, String>)
    ensures
        command_reading_error(request) is Some ==> r is Err && r->Err_0@ == command_reading_error(
            request,
        )->0,
        exists|wire: RemoveBackgroundRequest, served: Result<RemoveBackgroundResponse, String>|
            #![trigger is_served_v1(backend, wire, served)]
            is_command_wire(wire, request) && is_served_v1(backend, wire, served)
                && is_command_answer(r, served),
{
    let wire: RemoveBackgroundRequest = command_request(request);
    assert(reading_error(wire) == command_reading_error(request));
    let served: Result<RemoveBackgroundResponse, String> = remove_background_v1(
        backend,
        telemetry,
        wire,
    );
    let r: Result<TauriCommandResponse, String> = match served {
        Ok(response) => Ok(
            TauriCommandResponse {
                model_used: response.model_used,
                width: response.width,
                height: response.height,
                mask_png: response.mask_png,
                provider_selected: response.provider_selected,
                backend_selected: response.backend_selected,
                fallback_used: response.fallback_used,
            },
        ),
        Err(text) => Err(text),
    };
    assert(is_command_wire(wire, request) && is_served_v1(backend, wire, served)
        && is_command_answer(r, served));
    r
}

/// `r` is the response of a command to a textual response: field by field
/// the same; an error is passed on.
pub open spec fn is_command_answer(
    r: Result<TauriCommandResponse, String>,
    served: Result<RemoveBackgroundResponse, String>,
) -> bool {
    match served {
        Ok(response) => {
            &&& r is Ok
            &&& r->Ok_0.model_used == response.model_used
            &&& r->Ok_0.width == response.width
            &&& r->Ok_0.height == response.height
            &&& r->Ok_0.mask_png == response.mask_png
            &&& r->Ok_0.provider_selected == response.provider_selected
            &&& r->Ok_0.backend_selected == response.backend_selected
            &&& r->Ok_0.fallback_used == response.fallback_used
        },
        Err(text) => r == Err::<TauriCommandResponse, String>(text),
    }
}

} // verus!
