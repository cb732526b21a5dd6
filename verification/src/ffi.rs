//! The adapter for foreign-language bindings: textual requests, a two-way
//! error, and the default model directory as text.

use vstd::prelude::*;
use crate::inference::{
    is_run, resolve_runtime_config, run_inference_with_telemetry, setting_or, CoreError, ErrorCode,
    ExecutionProvider, GpuBackendPreference, InferenceBackend, InferenceRequest, InferenceResult,
    ModelKind, OnnxVariant, PlatformTarget, RuntimeConfig, RuntimePolicy, TelemetrySink,
};
use crate::names::{
    accelerator_named, mode_named, model_label, model_label_text, model_named, read_accelerator,
    read_mode, read_model, read_variant, variant_named,
};
use crate::registry::{default_model_dir, default_root};
use crate::tauri_plugin::{is_policy_for, policy_for, DEFAULT_MAX_INFERENCE_PIXELS};
use crate::text::ascii_lower;
use crate::v1::{RemoveBackgroundRequest, RemoveBackgroundResponse};

verus! {

#[derive(Debug)]
pub struct FfiRemoveBackgroundRequest {
    pub image_bytes: Vec<u8>,
    pub width: u32,
    pub height: u32,
    pub model: String,
    pub onnx_variant: Option<String>,
    pub execution_provider: Option<String>,
    pub gpu_backend: Option<String>,
    pub benchmark_provider: Option<bool>,
    pub model_dir: Option<String>,
    pub max_inference_pixels: Option<u32>,
}

#[derive(Debug)]
pub struct FfiRemoveBackgroundResponse {
    pub model_used: String,
    pub width: u32,
    pub height: u32,
    pub mask_png: Vec<u8>,
    pub provider_selected: String,
    pub backend_selected: Option<String>,
    pub fallback_used: bool,
}

/// The two errors a foreign caller can tell apart.
#[derive(Debug, Clone, Copy, PartialEq, Eq, Structural)]
pub enum FfiError {
    InvalidArgument,
    Inference,
}

pub fn error_code(err: &FfiError) -> (code: &'static str)
    ensures
        code@ == match *err {
            FfiError::InvalidArgument => "invalid-argument"@,
            FfiError::Inference => "inference"@,
        },
{
    match err {
        FfiError::InvalidArgument => "invalid-argument",
        FfiError::Inference => "inference",
    }
}

/// A request without input is the caller's fault; anything else went wrong
/// in the inference.
pub fn map_core_error(err: CoreError) -> (r: FfiError)
    ensures
        r == if err is MissingInput {
            FfiError::InvalidArgument
        } else {
            FfiError::Inference
        },
{
    match err.as_error_info().code {
        ErrorCode::MissingInput => FfiError::InvalidArgument,
        _ => FfiError::Inference,
    }
}

pub fn parse_model_alias(raw: &str) -> (r: Result<ModelKind, FfiError>)
    ensures
        r == match model_named(ascii_lower(raw@)) {
            Some(model) => Ok::<ModelKind, FfiError>(model),
            None => Err::<ModelKind, FfiError>(FfiError::InvalidArgument),
        },
{
    match read_model(raw) {
        Ok(model) => Ok(model),
        Err(_) => Err(FfiError::InvalidArgument),
    }
}

pub fn parse_onnx_variant_opt(raw: Option<&str>) -> (r: Result<Option<OnnxVariant>, FfiError>)
    ensures
        r == match raw {
            None => Ok::<Option<OnnxVariant>, FfiError>(None),
            Some(name) => match variant_named(ascii_lower(name@)) {
                Some(variant) => Ok::<Option<OnnxVariant>, FfiError>(Some(variant)),
                None => Err::<Option<OnnxVariant>, FfiError>(FfiError::InvalidArgument),
            },
        },
{
    match raw {
        None => Ok(None),
        Some(name) => match read_variant(name) {
            Ok(variant) => Ok(Some(variant)),
            Err(_) => Err(FfiError::InvalidArgument),
        },
    }
}

pub fn parse_execution_provider_opt(raw: Option<&str>) -> (r: Result<
    Option<ExecutionProvider>,
    FfiError,
>)
    ensures
        r == match raw {
            None => Ok::<Option<ExecutionProvider>, FfiError>(None),
            Some(name) => match mode_named(ascii_lower(name@)) {
                Some(mode) => Ok::<Option<ExecutionProvider>, FfiError>(Some(mode)),
                None => Err::<Option<ExecutionProvider>, FfiError>(FfiError::InvalidArgument),
            },
        },
{
    match raw {
        None => Ok(None),
        Some(name) => match read_mode(name) {
            Ok(mode) => Ok(Some(mode)),
            Err(_) => Err(FfiError::InvalidArgument),
        },
    }
}

pub fn parse_gpu_backend_opt(raw: Option<&str>) -> (r: Result<
    Option<GpuBackendPreference>,
    FfiError,
>)
    ensures
        r == match raw {
            None => Ok::<Option<GpuBackendPreference>, FfiError>(None),
            Some(name) => match accelerator_named(ascii_lower(name@)) {
                Some(preference) => Ok::<Option<GpuBackendPreference>, FfiError>(Some(preference)),
                None => Err::<Option<GpuBackendPreference>, FfiError>(FfiError::InvalidArgument),
            },
        },
{
    match raw {
        None => Ok(None),
        Some(name) => match read_accelerator(name) {
            Ok(preference) => Ok(Some(preference)),
            Err(_) => Err(FfiError::InvalidArgument),
        },
    }
}

/// The text of an optional setting.
pub open spec fn opt_text(value: Option<String>) -> Option<Seq<char>> {
    match value {
        Some(v) => Some(v@),
        None => None,
    }
}

/// A textual setting of a request as it takes effect, in lower case: the
/// default where the request leaves it out or blank.
pub open spec fn effective(value: Option<Seq<char>>, default: Seq<char>) -> Seq<char> {
    ascii_lower(
        setting_or(
            match value {
                Some(v) => v,
                None => default,
            },
            default,
        ),
    )
}

/// Whether the four names of a request all stand for something.
pub open spec fn names_readable(
    model: Seq<char>,
    onnx_variant: Option<Seq<char>>,
    execution_provider: Option<Seq<char>>,
    gpu_backend: Option<Seq<char>>,
) -> bool {
    &&& model_named(effective(Some(model), "auto"@)) is Some
    &&& variant_named(effective(onnx_variant, "fp16"@)) is Some
    &&& mode_named(effective(execution_provider, "auto"@)) is Some
    &&& accelerator_named(effective(gpu_backend, "auto"@)) is Some
}

/// Whether every name of a request stands for something.
pub open spec fn is_readable(request: FfiRemoveBackgroundRequest) -> bool {
    names_readable(
        request.model@,
        opt_text(request.onnx_variant),
        opt_text(request.execution_provider),
        opt_text(request.gpu_backend),
    )
}

/// The inference call that a request stands for: the image travels as
/// bytes, a mask is asked for, and what the request leaves out or blank is
/// the `auto` model, half precision, the `Auto` mode, the `Auto`
/// accelerator and a benchmark.
pub open spec fn is_call_for(call: InferenceRequest, request: FfiRemoveBackgroundRequest) -> bool {
    &&& Some(call.requested_model) == model_named(effective(Some(request.model@), "auto"@))
    &&& Some(call.onnx_variant) == variant_named(
        effective(opt_text(request.onnx_variant), "fp16"@),
    )
    &&& Some(call.execution_provider) == mode_named(
        effective(opt_text(request.execution_provider), "auto"@),
    )
    &&& Some(call.gpu_backend) == accelerator_named(
        effective(opt_text(request.gpu_backend), "auto"@),
    )
    &&& call.benchmark_provider == request.benchmark_provider.unwrap_or(true)
    &&& call.emit_mask_png
    &&& call.input_path is None
    &&& call.input_bytes == Some(request.image_bytes)
    &&& call.model_dir == request.model_dir
    &&& call.width == request.width
    &&& call.height == request.height
}

/// The inference call and the policy that a request stands for; a name that
/// stands for nothing makes the request an invalid argument.
pub fn inference_call(request: FfiRemoveBackgroundRequest) -> (r: Result<
    (InferenceRequest, RuntimePolicy),
    FfiError,
>)
    ensures
        match r {
            Ok(planned) => {
                &&& is_readable(request)
                &&& is_call_for(planned.0, request)
                &&& is_policy_for(
                    planned.1,
                    request.max_inference_pixels.unwrap_or(DEFAULT_MAX_INFERENCE_PIXELS),
                    request.width,
                    request.height,
                )
            },
            Err(e) => !is_readable(request) && e == FfiError::InvalidArgument,
        },
{
    let policy: RuntimePolicy = policy_for(
        match request.max_inference_pixels {
            Some(n) => n,
            None => DEFAULT_MAX_INFERENCE_PIXELS,
        },
        request.width,
        request.height,
    );
    let cfg: RuntimeConfig = resolve_runtime_config(
        RuntimeConfig {
            model: request.model,
            onnx_variant: match request.onnx_variant {
                Some(v) => v,
                None => "fp16".to_string(),
            },
            execution_provider: match request.execution_provider {
                Some(v) => v,
                None => "auto".to_string(),
            },
            gpu_backend: match request.gpu_backend {
                Some(v) => v,
                None => "auto".to_string(),
            },
            benchmark_provider: match request.benchmark_provider {
                Some(v) => v,
                None => true,
            },
            model_dir: request.model_dir,
        },
    );
    let requested_model: ModelKind = match parse_model_alias(cfg.model.as_str()) {
        Ok(v) => v,
        Err(e) => {
            return Err(e);
        },
    };
    let onnx_variant: OnnxVariant = match parse_onnx_variant_opt(Some(cfg.onnx_variant.as_str())) {
        Ok(Some(v)) => v,
        Ok(None) => OnnxVariant::Fp16,
        Err(e) => {
            return Err(e);
        },
    };
    let execution_provider: ExecutionProvider = match parse_execution_provider_opt(
        Some(cfg.execution_provider.as_str()),
    ) {
        Ok(Some(v)) => v,
        Ok(None) => ExecutionProvider::Auto,
        Err(e) => {
            return Err(e);
        },
    };
    let gpu_backend: GpuBackendPreference = match parse_gpu_backend_opt(
        Some(cfg.gpu_backend.as_str()),
    ) {
        Ok(Some(v)) => v,
        Ok(None) => GpuBackendPreference::Auto,
        Err(e) => {
            return Err(e);
        },
    };
    let call = InferenceRequest {
        requested_model,
        onnx_variant,
        execution_provider,
        gpu_backend,
        benchmark_provider: cfg.benchmark_provider,
        emit_mask_png: true,
        input_path: None,
        input_bytes: Some(request.image_bytes),
        model_dir: cfg.model_dir,
        width: request.width,
        height: request.height,
    };
    Ok((call, policy))
}

/// The response for what the backend returned.
pub fn response_for(inference: InferenceResult) -> (response: FfiRemoveBackgroundResponse)
    ensures
        response.model_used@ == model_label_text(inference.model_used),
        response.width == inference.width,
        response.height == inference.height,
        response.mask_png == inference.mask_png,
        response.provider_selected == inference.execution_provider_selected,
        response.backend_selected == inference.gpu_backend_selected,
        response.fallback_used == inference.fallback_used,
{
    FfiRemoveBackgroundResponse {
        model_used: model_label(inference.model_used).to_string(),
        width: inference.width,
        height: inference.height,
        mask_png: inference.mask_png,
        provider_selected: inference.execution_provider_selected,
        backend_selected: inference.gpu_backend_selected,
        fallback_used: inference.fallback_used,
    }
}

/// `r` is the response of the bindings to what a run returned: the answer
/// with the model under its name, or the error as one of the two that a
/// foreign caller can tell apart.
pub open spec fn is_bindings_answer(
    r: Result<FfiRemoveBackgroundResponse, FfiError>,
    run: Result<InferenceResult, CoreError>,
) -> bool {
    match run {
        Ok(inference) => {
            &&& r is Ok
            &&& r->Ok_0.model_used@ == model_label_text(inference.model_used)
            &&& r->Ok_0.width == inference.width
            &&& r->Ok_0.height == inference.height
            &&& r->Ok_0.mask_png == inference.mask_png
            &&& r->Ok_0.provider_selected == inference.execution_provider_selected
            &&& r->Ok_0.backend_selected == inference.gpu_backend_selected
            &&& r->Ok_0.fallback_used == inference.fallback_used
        },
        Err(error) => r == Err::<FfiRemoveBackgroundResponse, FfiError>(
            if error is MissingInput {
                FfiError::InvalidArgument
            } else {
                FfiError::Inference
            },
        ),
    }
}

/// `r` is what serving a request through a backend gives: an invalid
/// argument where a name stands for nothing, and else the response to the
/// run of the call that the request stands for, under the policy for its
/// image.
pub open spec fn is_served<B: InferenceBackend + ?Sized>(
    backend: &B,
    request: FfiRemoveBackgroundRequest,
    r: Result<FfiRemoveBackgroundResponse, FfiError>,
) -> bool {
    if !is_readable(request) {
        r == Err::<FfiRemoveBackgroundResponse, FfiError>(FfiError::InvalidArgument)
    } else {
        exists|call: InferenceRequest, policy: RuntimePolicy, run: Result<InferenceResult, CoreError>|
            #![trigger is_run(backend, call, policy, run)]
            {
                &&& is_call_for(call, request)
                &&& is_policy_for(
                    policy,
                    request.max_inference_pixels.unwrap_or(DEFAULT_MAX_INFERENCE_PIXELS),
                    request.width,
                    request.height,
                )
                &&& is_run(backend, call, policy, run)
                &&& is_bindings_answer(r, run)
            }
    }
}

/// Serves a request through a backend. A request with a name that stands
/// for nothing is an invalid argument, before the backend is asked.
pub fn remove_background<B: InferenceBackend + ?Sized>(
    backend: &B,
    telemetry: Option<&dyn TelemetrySink>,
    request: FfiRemoveBackgroundRequest,
) -> (r: Result<FfiRemoveBackgroundResponse, FfiError>)
    ensures
        is_served(backend, request, r),
{
    let (call, policy) = match inference_call(request) {
        Ok(planned) => planned,
        Err(e) => {
            return Err(e);
        },
    };
    let run: Result<InferenceResult, CoreError> = run_inference_with_telemetry(
        backend,
        &call,
        &policy,
        PlatformTarget::Cli,
        telemetry,
    );
    let r: Result<FfiRemoveBackgroundResponse, FfiError> = match run {
        Ok(inference) => Ok(response_for(inference)),
        Err(e) => Err(map_core_error(e)),
    };
    assert(is_run(backend, call, policy, run) && is_bindings_answer(r, run));
    r
}

/// The model names and aliases a request may use.
pub fn supported_model_aliases() -> (aliases: Vec<String>)
    ensures
        aliases.len() == 5,
        aliases[0]@ == "auto"@,
        aliases[1]@ == "fast"@,
        aliases[2]@ == "quality"@,
        aliases[3]@ == "rmbg-1.4"@,
        aliases[4]@ == "rmbg-2.0"@,
{
    let mut aliases: Vec<String> = Vec::new();
    aliases.push("auto".to_string());
    aliases.push("fast".to_string());
    aliases.push("quality".to_string());
    aliases.push("rmbg-1.4".to_string());
    aliases.push("rmbg-2.0".to_string());
    aliases
}

/// The request of the bindings with the fields of a request of the wire
/// contract.
pub open spec fn bindings_of(request: RemoveBackgroundRequest) -> FfiRemoveBackgroundRequest {
    FfiRemoveBackgroundRequest {
        image_bytes: request.image_bytes,
        width: request.width,
        height: request.height,
        model: request.model,
        onnx_variant: request.onnx_variant,
        execution_provider: request.execution_provider,
        gpu_backend: request.gpu_backend,
        benchmark_provider: request.benchmark_provider,
        model_dir: request.model_dir,
        max_inference_pixels: request.max_inference_pixels,
    }
}

/// The response of the wire contract with the fields of a response of the
/// bindings.
pub open spec fn wire_of(out: FfiRemoveBackgroundResponse) -> RemoveBackgroundResponse {
    RemoveBackgroundResponse {
        model_used: out.model_used,
        width: out.width,
        height: out.height,
        mask_png: out.mask_png,
        provider_selected: out.provider_selected,
        backend_selected: out.backend_selected,
        fallback_used: out.fallback_used,
    }
}

/// The request of the bindings for a request of the wire contract.
pub fn from_wire(request: RemoveBackgroundRequest) -> (r: FfiRemoveBackgroundRequest)
    ensures
        r == bindings_of(request),
{
    FfiRemoveBackgroundRequest {
        image_bytes: request.image_bytes,
        width: request.width,
        height: request.height,
        model: request.model,
        onnx_variant: request.onnx_variant,
        execution_provider: request.execution_provider,
        gpu_backend: request.gpu_backend,
        benchmark_provider: request.benchmark_provider,
        model_dir: request.model_dir,
        max_inference_pixels: request.max_inference_pixels,
    }
}

/// The response of the wire contract for a response of the bindings.
pub fn to_wire(out: FfiRemoveBackgroundResponse) -> (r: RemoveBackgroundResponse)
    ensures
        r == wire_of(out),
{
    RemoveBackgroundResponse {
        model_used: out.model_used,
        width: out.width,
        height: out.height,
        mask_png: out.mask_png,
        provider_selected: out.provider_selected,
        backend_selected: out.backend_selected,
        fallback_used: out.fallback_used,
    }
}

/// The response of the wire contract to what the bindings gave.
pub open spec fn wire_answer(served: Result<FfiRemoveBackgroundResponse, FfiError>) -> Result<
    RemoveBackgroundResponse,
    FfiError,
> {
    match served {
        Ok(out) => Ok(wire_of(out)),
        Err(e) => Err(e),
    }
}

/// Serves a request of the wire contract through a backend: what the
/// bindings give for the request with the same fields, as a response of the
/// wire contract.
pub fn remove_background_v1<B: InferenceBackend + ?Sized>(
    backend: &B,
    telemetry: Option<&dyn TelemetrySink>,
    request: RemoveBackgroundRequest,
) -> (r: Result<RemoveBackgroundResponse, FfiError>)
    ensures
        exists|served: Result<FfiRemoveBackgroundResponse, FfiError>|
            #![trigger is_served(backend, bindings_of(request), served)]
            is_served(backend, bindings_of(request), served) && r == wire_answer(served),
        !names_readable(
            request.model@,
            opt_text(request.onnx_variant),
            opt_text(request.execution_provider),
            opt_text(request.gpu_backend),
        ) ==> r == Err::<RemoveBackgroundResponse, FfiError>(FfiError::InvalidArgument),
{
    let inner: FfiRemoveBackgroundRequest = from_wire(request);
    let served: Result<FfiRemoveBackgroundResponse, FfiError> = remove_background(
        backend,
        telemetry,
        inner,
    );
    let r: Result<RemoveBackgroundResponse, FfiError> = match served {
        Ok(out) => Ok(to_wire(out)),
        Err(e) => Err(e),
    };
    assert(is_served(backend, bindings_of(request), served) && r == wire_answer(served));
    r
}

/// The default model directory as text; that there is none is an inference
/// error.
pub fn default_model_dir_string() -> (r: Result<String, FfiError>)
    ensures
        match r {
            Ok(dir) => exists|home: Seq<char>| dir@ == default_root(home),
            Err(e) => e == FfiError::Inference,
        },
{
    match default_model_dir() {
        Ok(dir) => Ok(dir),
        Err(_) => Err(FfiError::Inference),
    }
}

/// An error as the JSON text the bindings hand out: code and message, which
/// for these errors are the same word.
pub open spec fn error_json_text(err: FfiError) -> Seq<char> {
    let word = match err {
        FfiError::InvalidArgument => "invalid-argument"@,
        FfiError::Inference => "inference"@,
    };
    "{\"code\":\""@ + word + "\",\"message\":\""@ + word + "\"}"@
}

pub fn error_json(err: &FfiError) -> (text: String)
    ensures
        text@ == error_json_text(*err),
{
    let mut text: String = "{\"code\":\"".to_string();
    text.append(error_code(err));
    text.append("\",\"message\":\"");
    text.append(error_code(err));
    text.append("\"}");
    text
}

/// The object the bindings export.
#[derive(Debug)]
pub struct UnbgApi;

impl UnbgApi {
    pub fn new() -> Self {
        UnbgApi
    }

    /// The default model directory, or the error as JSON text.
    pub fn default_model_dir_string(&self) -> (text: String)
        ensures
            (exists|home: Seq<char>| text@ == default_root(home)) || text@ == error_json_text(
                FfiError::Inference,
            ),
    {
        match default_model_dir_string() {
            Ok(path) => path,
            Err(err) => error_json(&err),
        }
    }
}

} // verus!
