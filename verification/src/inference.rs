//! Request and result types of an inference call, the model-selection policy,
//! and the entry point that hands a request to a backend.

use vstd::prelude::*;
use crate::text::{is_blank, is_blank_text};
use std::time::Instant;

verus! {

/// Which segmentation model a caller asks for, or was given.
#[derive(Debug, Clone, Copy, PartialEq, Eq, Structural)]
pub enum ModelKind {
    Auto,
    Rmbg14,
    Rmbg20,
}

/// Which numeric-precision encoding of the weights to prefer.
#[derive(Debug, Clone, Copy, PartialEq, Eq, Structural)]
pub enum OnnxVariant {
    Fp16,
    Fp32,
    Quantized,
    Auto,
}

/// The requested execution mode.
#[derive(Debug, Clone, Copy, PartialEq, Eq, Structural)]
pub enum ExecutionProvider {
    Auto,
    Gpu,
    Cpu,
}

/// Which accelerator family to prefer when a GPU path is wanted.
#[derive(Debug, Clone, Copy, PartialEq, Eq, Structural)]
pub enum GpuBackendPreference {
    Auto,
    DirectML,
    Cuda,
    CoreML,
    Metal,
}

/// The host surface a request came through.
#[derive(Debug, Clone, Copy, PartialEq, Eq, Structural)]
pub enum PlatformTarget {
    Cli,
    Tauri,
    Android,
    Ios,
}

/// Limits that decide which model an `Auto` request resolves to.
#[derive(Debug, Clone)]
pub struct RuntimePolicy {
    pub max_inference_pixels: u32,
    pub max_latency_ms: u32,
    pub allow_rmbg20: bool,
}

impl Default for RuntimePolicy {
    fn default() -> (r: Self)
        ensures
            r.max_inference_pixels == 2_000_000,
            r.max_latency_ms == 1_500,
            r.allow_rmbg20,
    {
        Self { max_inference_pixels: 2_000_000, max_latency_ms: 1_500, allow_rmbg20: true }
    }
}

/// One inference call as the backend sees it.
#[derive(Debug, Clone)]
pub struct InferenceRequest {
    pub requested_model: ModelKind,
    pub onnx_variant: OnnxVariant,
    pub execution_provider: ExecutionProvider,
    pub gpu_backend: GpuBackendPreference,
    pub benchmark_provider: bool,
    pub emit_mask_png: bool,
    pub input_path: Option<String>,
    pub input_bytes: Option<Vec<u8>>,
    pub model_dir: Option<String>,
    pub width: u32,
    pub height: u32,
}

/// What a backend hands back for one call.
#[derive(Debug, Clone)]
pub struct InferenceResult {
    pub model_used: ModelKind,
    pub mask_png: Vec<u8>,
    pub width: u32,
    pub height: u32,
    pub execution_provider_selected: String,
    pub gpu_backend_selected: Option<String>,
    pub fallback_used: bool,
}

#[derive(Debug, Clone, Copy, PartialEq, Eq, Structural)]
pub enum TelemetryEventType {
    LoadStart,
    LoadSuccess,
    LoadError,
    InferenceStart,
    InferenceSuccess,
    InferenceError,
}

#[derive(Debug, Clone)]
pub struct TelemetryEvent {
    pub event_type: TelemetryEventType,
    pub model: ModelKind,
    pub platform: PlatformTarget,
    pub duration_ms: Option<u64>,
    pub detail: Option<String>,
}

/// Receives the events of a call. Nothing is assumed of an implementation.
pub trait TelemetrySink: Send + Sync {
    fn emit(&self, event: TelemetryEvent);
}

/// Runs a resolved model on a request. Nothing is assumed of what an
/// implementation returns; `answers` only gives a name to it, so that a
/// caller can say which call an answer belongs to.
pub trait InferenceBackend: Send + Sync {
    /// `answer` is one that this backend gives to `request` with
    /// `selected_model`. A backend that says nothing of its answers leaves
    /// this as it is: any answer may be its own.
    open spec fn answers(
        &self,
        request: InferenceRequest,
        selected_model: ModelKind,
        answer: Result<InferenceResult, CoreError>,
    ) -> bool {
        true
    }

    fn infer(&self, request: &InferenceRequest, selected_model: ModelKind) -> (answer: Result<
        InferenceResult,
        CoreError,
    >)
        ensures
            self.answers(*request, selected_model, answer),
    ;
}

#[derive(Debug, Clone)]
pub enum CoreError {
    Rmbg20Disabled,
    MissingInput,
    Backend(String),
}

pub enum CoreErrorView {
    Rmbg20Disabled,
    MissingInput,
    Backend(Seq<char>),
}

impl View for CoreError {
    type V = CoreErrorView;

    open spec fn view(&self) -> CoreErrorView {
        match *self {
            CoreError::Rmbg20Disabled => CoreErrorView::Rmbg20Disabled,
            CoreError::MissingInput => CoreErrorView::MissingInput,
            CoreError::Backend(detail) => CoreErrorView::Backend(detail@),
        }
    }
}

#[derive(Debug, Clone, Copy, PartialEq, Eq, Structural)]
pub enum ErrorCode {
    Rmbg20Disabled,
    MissingInput,
    BackendError,
}

#[derive(Debug, Clone)]
pub struct ErrorInfo {
    pub code: ErrorCode,
    pub message: String,
}

impl CoreError {
    /// The text shown for this error.
    pub open spec fn message_text(self) -> Seq<char> {
        match self {
            CoreError::Rmbg20Disabled => "rmbg-2.0 is disabled by runtime policy"@,
            CoreError::MissingInput => "missing input bytes and input path"@,
            CoreError::Backend(detail) => "backend error: "@ + detail@,
        }
    }

    /// The machine-readable code of this error.
    pub open spec fn code(self) -> ErrorCode {
        match self {
            CoreError::Rmbg20Disabled => ErrorCode::Rmbg20Disabled,
            CoreError::MissingInput => ErrorCode::MissingInput,
            CoreError::Backend(_) => ErrorCode::BackendError,
        }
    }

    /// The text shown for this error.
    pub fn message(&self) -> (r: String)
        ensures
            r@ == self.message_text(),
    {
        match self {
            CoreError::Rmbg20Disabled => "rmbg-2.0 is disabled by runtime policy".to_string(),
            CoreError::MissingInput => "missing input bytes and input path".to_string(),
            CoreError::Backend(detail) => {
                let mut out: String = "backend error: ".to_string();
                out.append(detail.as_str());
                out
            },
        }
    }

    /// Code and message for a caller across a language boundary. A backend
    /// error carries its detail alone, the other two their full text.
    pub fn as_error_info(&self) -> (info: ErrorInfo)
        ensures
            info.code == self.code(),
            info.message@ == match *self {
                CoreError::Backend(detail) => detail@,
                _ => self.message_text(),
            },
    {
        match self {
            CoreError::Rmbg20Disabled => ErrorInfo {
                code: ErrorCode::Rmbg20Disabled,
                message: self.message(),
            },
            CoreError::MissingInput => ErrorInfo {
                code: ErrorCode::MissingInput,
                message: self.message(),
            },
            CoreError::Backend(message) => ErrorInfo {
                code: ErrorCode::BackendError,
                message: message.clone(),
            },
        }
    }
}

/// Textual runtime settings, as adapters receive them.
#[derive(Debug, Clone)]
pub struct RuntimeConfig {
    pub model: String,
    pub onnx_variant: String,
    pub execution_provider: String,
    pub gpu_backend: String,
    pub benchmark_provider: bool,
    pub model_dir: Option<String>,
}

impl Default for RuntimeConfig {
    fn default() -> (r: Self)
        ensures
            r.model@ == "auto"@,
            r.onnx_variant@ == "fp16"@,
            r.execution_provider@ == "auto"@,
            r.gpu_backend@ == "auto"@,
            r.benchmark_provider,
            r.model_dir is None,
    {
        Self {
            model: "auto".to_string(),
            onnx_variant: "fp16".to_string(),
            execution_provider: "auto".to_string(),
            gpu_backend: "auto".to_string(),
            benchmark_provider: true,
            model_dir: None,
        }
    }
}

/// A textual setting, or its default where the setting is blank.
pub open spec fn setting_or(value: Seq<char>, default: Seq<char>) -> Seq<char> {
    if is_blank_text(value) {
        default
    } else {
        value
    }
}

/// Fills blank textual settings with the defaults; the two remaining fields
/// are taken from `overrides` as they are.
pub fn resolve_runtime_config(overrides: RuntimeConfig) -> (cfg: RuntimeConfig)
    ensures
        cfg.model@ == setting_or(overrides.model@, "auto"@),
        cfg.onnx_variant@ == setting_or(overrides.onnx_variant@, "fp16"@),
        cfg.execution_provider@ == setting_or(overrides.execution_provider@, "auto"@),
        cfg.gpu_backend@ == setting_or(overrides.gpu_backend@, "auto"@),
        cfg.benchmark_provider == overrides.benchmark_provider,
        cfg.model_dir == overrides.model_dir,
{
    let mut cfg: RuntimeConfig = RuntimeConfig::default();
    if !is_blank(overrides.model.as_str()) {
        cfg.model = overrides.model;
    }
    if !is_blank(overrides.onnx_variant.as_str()) {
        cfg.onnx_variant = overrides.onnx_variant;
    }
    if !is_blank(overrides.execution_provider.as_str()) {
        cfg.execution_provider = overrides.execution_provider;
    }
    if !is_blank(overrides.gpu_backend.as_str()) {
        cfg.gpu_backend = overrides.gpu_backend;
    }
    cfg.benchmark_provider = overrides.benchmark_provider;
    cfg.model_dir = overrides.model_dir;
    cfg
}

/// The pixel count of a `width` by `height` image, capped at `u32::MAX`.
pub open spec fn pixel_count(width: u32, height: u32) -> int {
    if width * height > u32::MAX {
        u32::MAX as int
    } else {
        width * height
    }
}

/// The model a request resolves to under a policy: an explicit choice is
/// kept (the larger model only where the policy allows it), and `Auto` takes
/// the larger model where it is allowed and the image fits the pixel budget.
pub open spec fn model_choice(
    requested: ModelKind,
    width: u32,
    height: u32,
    policy: RuntimePolicy,
) -> Result<ModelKind, CoreError> {
    match requested {
        ModelKind::Rmbg20 => if policy.allow_rmbg20 {
            Ok(ModelKind::Rmbg20)
        } else {
            Err(CoreError::Rmbg20Disabled)
        },
        ModelKind::Rmbg14 => Ok(ModelKind::Rmbg14),
        ModelKind::Auto => if policy.allow_rmbg20 && pixel_count(width, height)
            <= policy.max_inference_pixels {
            Ok(ModelKind::Rmbg20)
        } else {
            Ok(ModelKind::Rmbg14)
        },
    }
}

pub fn resolve_model(request: &InferenceRequest, policy: &RuntimePolicy) -> (r: Result<
    ModelKind,
    CoreError,
>)
    ensures
        r == model_choice(request.requested_model, request.width, request.height, *policy),
{
    let pixels: u32 = match request.width.checked_mul(request.height) {
        Some(p) => p,
        None => u32::MAX,
    };
    match request.requested_model {
        ModelKind::Rmbg20 => if !policy.allow_rmbg20 {
            Err(CoreError::Rmbg20Disabled)
        } else {
            Ok(ModelKind::Rmbg20)
        },
        ModelKind::Rmbg14 => Ok(ModelKind::Rmbg14),
        ModelKind::Auto => {
            if policy.allow_rmbg20 && pixels <= policy.max_inference_pixels {
                Ok(ModelKind::Rmbg20)
            } else {
                Ok(ModelKind::Rmbg14)
            }
        },
    }
}

/// Whether a request names any input at all.
pub open spec fn has_input(request: InferenceRequest) -> bool {
    request.input_bytes is Some || request.input_path is Some
}

/// What is decided before the backend is asked: the missing-input error, the
/// policy error, or the model to run.
pub open spec fn admission(request: InferenceRequest, policy: RuntimePolicy) -> Result<
    ModelKind,
    CoreError,
> {
    if !has_input(request) {
        Err(CoreError::MissingInput)
    } else {
        model_choice(request.requested_model, request.width, request.height, policy)
    }
}

/// Decides whether a request reaches the backend, and with which model.
pub fn admit_request(request: &InferenceRequest, policy: &RuntimePolicy) -> (r: Result<
    ModelKind,
    CoreError,
>)
    ensures
        r == admission(*request, *policy),
{
    if request.input_bytes.is_none() && request.input_path.is_none() {
        return Err(CoreError::MissingInput);
    }
    resolve_model(request, policy)
}

/// The event sent before the backend is asked.
pub fn start_event(request: &InferenceRequest, platform: PlatformTarget) -> (e: TelemetryEvent)
    ensures
        e.event_type == TelemetryEventType::InferenceStart,
        e.model == request.requested_model,
        e.platform == platform,
        e.duration_ms is None,
        e.detail is None,
{
    TelemetryEvent {
        event_type: TelemetryEventType::InferenceStart,
        model: request.requested_model,
        platform,
        duration_ms: None,
        detail: None,
    }
}

/// The detail line of a success event.
pub open spec fn success_detail(result: InferenceResult) -> Seq<char> {
    "provider="@ + result.execution_provider_selected@ + ",backend="@ + (
    match result.gpu_backend_selected {
        Some(b) => b@,
        None => "none"@,
    }) + ",fallback="@ + (if result.fallback_used {
        "true"@
    } else {
        "false"@
    })
}

/// The event that closes a call, built from what the backend returned.
pub fn outcome_event(
    outcome: &Result<InferenceResult, CoreError>,
    selected_model: ModelKind,
    platform: PlatformTarget,
    elapsed_ms: u64,
) -> (e: TelemetryEvent)
    ensures
        e.platform == platform,
        e.duration_ms == Some(elapsed_ms),
        match *outcome {
            Ok(result) => {
                &&& e.event_type == TelemetryEventType::InferenceSuccess
                &&& e.model == result.model_used
                &&& e.detail is Some
                &&& e.detail->0@ == success_detail(result)
            },
            Err(err) => {
                &&& e.event_type == TelemetryEventType::InferenceError
                &&& e.model == selected_model
                &&& e.detail is Some
                &&& e.detail->0@ == err.message_text()
            },
        },
{
    match outcome {
        Ok(result) => {
            let mut detail: String = "provider=".to_string();
            detail.append(result.execution_provider_selected.as_str());
            detail.append(",backend=");
            match &result.gpu_backend_selected {
                Some(b) => detail.append(b.as_str()),
                None => detail.append("none"),
            }
            detail.append(",fallback=");
            if result.fallback_used {
                detail.append("true");
            } else {
                detail.append("false");
            }
            TelemetryEvent {
                event_type: TelemetryEventType::InferenceSuccess,
                model: result.model_used,
                platform,
                duration_ms: Some(elapsed_ms),
                detail: Some(detail),
            }
        },
        Err(err) => TelemetryEvent {
            event_type: TelemetryEventType::InferenceError,
            model: selected_model,
            platform,
            duration_ms: Some(elapsed_ms),
            detail: Some(err.message()),
        },
    }
}

/// A reading of the monotonic clock; opaque here.
#[verifier::external_type_specification]
#[verifier::external_body]
pub struct ExInstant(Instant);

/// `Instant::now`: the current reading of the monotonic clock. Nothing is
/// claimed of the value.
#[verifier::external_body]
fn clock_now() -> Instant {
    Instant::now()
}

/// `Instant::elapsed`, in whole milliseconds. Nothing is claimed of the value.
#[verifier::external_body]
fn elapsed_ms(start: &Instant) -> u64 {
    start.elapsed().as_millis() as u64
}

/// `r` is the result of running a request through a backend: the error of
/// a request that is not admitted, and else an answer that the backend
/// gives to the request with the model it resolves to, as it came.
pub open spec fn is_run<B: InferenceBackend + ?Sized>(
    backend: &B,
    request: InferenceRequest,
    policy: RuntimePolicy,
    r: Result<InferenceResult, CoreError>,
) -> bool {
    match admission(request, policy) {
        Err(error) => r == Err::<InferenceResult, CoreError>(error),
        Ok(selected_model) => backend.answers(request, selected_model, r),
    }
}

/// Runs one request without telemetry, as a command-line call: a request
/// without input, or one the policy refuses, fails before the backend is
/// asked; any other is handed to the backend with the model it resolves to,
/// and the answer of the backend to that call is returned as it came.
pub fn run_inference<B: InferenceBackend + ?Sized>(
    backend: &B,
    request: &InferenceRequest,
    policy: &RuntimePolicy,
) -> (r: Result<InferenceResult, CoreError>)
    ensures
        is_run(backend, *request, *policy, r),
{
    run_inference_with_telemetry(backend, request, policy, PlatformTarget::Cli, None)
}

/// Runs one request: a request without input, or one the policy refuses,
/// fails before the backend is asked; any other is handed to the backend
/// with the model it resolves to, and the answer of the backend to that call
/// is returned as it came. The sink, if any, receives the start event and
/// then the closing event.
pub fn run_inference_with_telemetry<B: InferenceBackend + ?Sized>(
    backend: &B,
    request: &InferenceRequest,
    policy: &RuntimePolicy,
    platform: PlatformTarget,
    telemetry: Option<&dyn TelemetrySink>,
) -> (r: Result<InferenceResult, CoreError>)
    ensures
        is_run(backend, *request, *policy, r),
{
    if request.input_bytes.is_none() && request.input_path.is_none() {
        return Err(CoreError::MissingInput);
    }
    let start: Instant = clock_now();
    if let Some(sink) = telemetry {
        sink.emit(start_event(request, platform));
    }
    let selected_model: ModelKind = match resolve_model(request, policy) {
        Ok(model) => model,
        Err(err) => {
            return Err(err);
        },
    };
    let outcome: Result<InferenceResult, CoreError> = backend.infer(request, selected_model);
    if let Some(sink) = telemetry {
        sink.emit(outcome_event(&outcome, selected_model, platform, elapsed_ms(&start)));
    }
    outcome
}

} // verus!
