//! The adapter for the mobile bridge: typed requests over the textual
//! bindings, with a smaller default pixel budget.

use vstd::prelude::*;
use crate::ffi::{
    effective, error_code, is_served, names_readable, opt_text, remove_background, to_wire,
    wire_of, FfiError, FfiRemoveBackgroundRequest, FfiRemoveBackgroundResponse,
};
use crate::inference::{
    ExecutionProvider, GpuBackendPreference, InferenceBackend, ModelKind, TelemetrySink,
};
use crate::names::{
    accelerator_label_text, execution_provider_label, gpu_backend_label, lemma_labels_read_back,
    mode_label_text, model_label, model_label_text, variant_named,
};
use crate::text::text_eq;
use crate::v1::{RemoveBackgroundRequest, RemoveBackgroundResponse};

verus! {

#[derive(Debug)]
pub struct IosBridgeRequest {
    pub image_bytes: Vec<u8>,
    pub width: u32,
    pub height: u32,
    pub model: ModelKind,
    pub onnx_variant: Option<String>,
    pub model_dir: Option<String>,
    pub execution_provider: Option<ExecutionProvider>,
    pub gpu_backend: Option<GpuBackendPreference>,
    pub benchmark_provider: Option<bool>,
}

#[derive(Debug)]
pub struct IosBridgeResponse {
    pub model_used: ModelKind,
    pub mask_png: Vec<u8>,
    pub provider_selected: String,
    pub backend_selected: Option<String>,
    pub fallback_used: bool,
}

/// The pixel budget of the bridge where a request names none.
pub const BRIDGE_MAX_INFERENCE_PIXELS: u32 = 1_500_000;

/// Why the bridge failed.
#[derive(Debug)]
pub enum BridgeError {
    /// The bindings refused or failed.
    Bindings(FfiError),
    /// The bindings named a model that the bridge does not know.
    UnknownModelLabel(String),
}

impl BridgeError {
    pub open spec fn message_text(self) -> Seq<char> {
        match self {
            BridgeError::Bindings(FfiError::InvalidArgument) => "invalid-argument"@,
            BridgeError::Bindings(FfiError::Inference) => "inference"@,
            BridgeError::UnknownModelLabel(label) => "unknown model label '"@ + label@ + "'"@,
        }
    }

    /// The text shown for this error.
    pub fn message(&self) -> (text: String)
        ensures
            text@ == self.message_text(),
    {
        match self {
            BridgeError::Bindings(e) => error_code(e).to_string(),
            BridgeError::UnknownModelLabel(label) => {
                let mut text: String = "unknown model label '".to_string();
                text.append(label.as_str());
                text.append("'");
                text
            },
        }
    }
}

/// The model that a label stands for, read to the letter.
pub open spec fn model_labelled(label: Seq<char>) -> Option<ModelKind> {
    if label == "rmbg-1.4"@ {
        Some(ModelKind::Rmbg14)
    } else if label == "rmbg-2.0"@ {
        Some(ModelKind::Rmbg20)
    } else if label == "auto"@ {
        Some(ModelKind::Auto)
    } else {
        None
    }
}

pub fn parse_model_kind(raw: &str) -> (r: Result<ModelKind, BridgeError>)
    ensures
        match r {
            Ok(model) => model_labelled(raw@) == Some(model),
            Err(e) => model_labelled(raw@) is None && e is UnknownModelLabel
                && e->UnknownModelLabel_0@ == raw@,
        },
{
    if text_eq(raw, "rmbg-1.4") {
        Ok(ModelKind::Rmbg14)
    } else if text_eq(raw, "rmbg-2.0") {
        Ok(ModelKind::Rmbg20)
    } else if text_eq(raw, "auto") {
        Ok(ModelKind::Auto)
    } else {
        Err(BridgeError::UnknownModelLabel(raw.to_string()))
    }
}

/// The request of the bindings for a request of the wire contract, with the
/// pixel budget of the bridge where the request names none.
pub open spec fn bridged(request: RemoveBackgroundRequest) -> FfiRemoveBackgroundRequest {
    FfiRemoveBackgroundRequest {
        image_bytes: request.image_bytes,
        width: request.width,
        height: request.height,
        model: request.model,
        onnx_variant: request.onnx_variant,
        execution_provider: request.execution_provider,
        gpu_backend: request.gpu_backend,
        benchmark_provider: request.benchmark_provider,
        model_dir: request.model_dir,
        max_inference_pixels: Some(
            request.max_inference_pixels.unwrap_or(BRIDGE_MAX_INFERENCE_PIXELS),
        ),
    }
}

/// The request of the bindings for a request of the wire contract, with the
/// pixel budget of the bridge where the request names none.
pub fn bindings_request(request: RemoveBackgroundRequest) -> (r: FfiRemoveBackgroundRequest)
    ensures
        r == bridged(request),
{
    FfiRemoveBackgroundRequest {
        image_bytes: request.image_bytes,
        width: request.width,
        height: request.height,
        model: request.model,
        onnx_variant: request.onnx_variant,
        execution_provider: request.execution_provider,
        gpu_backend: request.gpu_backend,
        benchmark_provider: request.benchmark_provider,
        model_dir: request.model_dir,
        max_inference_pixels: match request.max_inference_pixels {
            Some(n) => Some(n),
            None => Some(BRIDGE_MAX_INFERENCE_PIXELS),
        },
    }
}

/// Serves a request of the wire contract through a backend, by way of the
/// bindings.
pub fn process_image_v1<B: InferenceBackend + ?Sized>(
    backend: &B,
    telemetry: Option<&dyn TelemetrySink>,
    request: RemoveBackgroundRequest,
) -> (r: Result<RemoveBackgroundResponse, BridgeError>)
    ensures
        is_bridged_v1(backend, request, r),
        r is Err ==> r->Err_0 is Bindings,
        !names_readable(
            request.model@,
            opt_text(request.onnx_variant),
            opt_text(request.execution_provider),
            opt_text(request.gpu_backend),
        ) ==> r is Err && r->Err_0->Bindings_0 == FfiError::InvalidArgument,
{
    let served: Result<FfiRemoveBackgroundResponse, FfiError> = remove_background(
        backend,
        telemetry,
        bindings_request(request),
    );
    let r: Result<RemoveBackgroundResponse, BridgeError> = match served {
        Ok(out) => Ok(to_wire(out)),
        Err(e) => Err(BridgeError::Bindings(e)),
    };
    assert(is_served(backend, bridged(request), served) && r == bridge_answer(served));
    r
}

/// The response of the bridge to what the bindings gave.
pub open spec fn bridge_answer(served: Result<FfiRemoveBackgroundResponse, FfiError>) -> Result<
    RemoveBackgroundResponse,
    BridgeError,
> {
    match served {
        Ok(out) => Ok(wire_of(out)),
        Err(e) => Err(BridgeError::Bindings(e)),
    }
}

/// `r` is what serving a request of the wire contract through the bridge
/// gives: what the bindings give for the request under the pixel budget of
/// the bridge, as a response of the wire contract.
pub open spec fn is_bridged_v1<B: InferenceBackend + ?Sized>(
    backend: &B,
    request: RemoveBackgroundRequest,
    r: Result<RemoveBackgroundResponse, BridgeError>,
) -> bool {
    exists|served: Result<FfiRemoveBackgroundResponse, FfiError>|
        #![trigger is_served(backend, bridged(request), served)]
        is_served(backend, bridged(request), served) && r == bridge_answer(served)
}

/// `wire` is the request of the wire contract for a typed request: every
/// typed field under its name, and the pixel budget of the bridge.
pub open spec fn is_wire_for(wire: RemoveBackgroundRequest, request: IosBridgeRequest) -> bool {
    &&& wire.image_bytes == request.image_bytes
    &&& wire.width == request.width
    &&& wire.height == request.height
    &&& wire.model@ == model_label_text(request.model)
    &&& wire.onnx_variant == request.onnx_variant
    &&& match request.execution_provider {
        Some(mode) => wire.execution_provider is Some && wire.execution_provider->0@
            == mode_label_text(mode),
        None => wire.execution_provider is None,
    }
    &&& match request.gpu_backend {
        Some(preference) => wire.gpu_backend is Some && wire.gpu_backend->0@
            == accelerator_label_text(preference),
        None => wire.gpu_backend is None,
    }
    &&& wire.benchmark_provider == request.benchmark_provider
    &&& wire.model_dir == request.model_dir
    &&& wire.max_inference_pixels == Some(BRIDGE_MAX_INFERENCE_PIXELS)
}

/// The request of the wire contract for a typed request.
pub fn wire_request(request: IosBridgeRequest) -> (wire: RemoveBackgroundRequest)
    ensures
        is_wire_for(wire, request),
        names_readable(
            wire.model@,
            opt_text(wire.onnx_variant),
            opt_text(wire.execution_provider),
            opt_text(wire.gpu_backend),
        ) == (variant_named(effective(opt_text(request.onnx_variant), "fp16"@)) is Some),
{
    proof {
        lemma_labels_read_back(
            request.model,
            crate::inference::OnnxVariant::Fp16,
            request.execution_provider.unwrap_or(ExecutionProvider::Auto),
            request.gpu_backend.unwrap_or(GpuBackendPreference::Auto),
        );
        lemma_labels_read_back(
            ModelKind::Auto,
            crate::inference::OnnxVariant::Fp16,
            ExecutionProvider::Auto,
            GpuBackendPreference::Auto,
        );
    }
    RemoveBackgroundRequest {
        image_bytes: request.image_bytes,
        width: request.width,
        height: request.height,
        model: model_label(request.model).to_string(),
        onnx_variant: request.onnx_variant,
        execution_provider: match request.execution_provider {
            Some(mode) => Some(execution_provider_label(mode).to_string()),
            None => None,
        },
        gpu_backend: match request.gpu_backend {
            Some(preference) => Some(gpu_backend_label(preference).to_string()),
            None => None,
        },
        benchmark_provider: request.benchmark_provider,
        model_dir: request.model_dir,
        max_inference_pixels: Some(BRIDGE_MAX_INFERENCE_PIXELS),
    }
}

/// `r` is the typed response for a response of the wire contract: the
/// model that its label stands for and the rest as it is, or the error for
/// a label that stands for nothing.
pub open spec fn is_typed_response(
    r: Result<IosBridgeResponse, BridgeError>,
    output: RemoveBackgroundResponse,
) -> bool {
    match r {
        Ok(response) => {
            &&& model_labelled(output.model_used@) == Some(response.model_used)
            &&& response.mask_png == output.mask_png
            &&& response.provider_selected == output.provider_selected
            &&& response.backend_selected == output.backend_selected
            &&& response.fallback_used == output.fallback_used
        },
        Err(e) => model_labelled(output.model_used@) is None && e is UnknownModelLabel
            && e->UnknownModelLabel_0@ == output.model_used@,
    }
}

/// The typed response for a response of the wire contract; a model label
/// that stands for nothing is an error.
pub fn bridge_response(output: RemoveBackgroundResponse) -> (r: Result<
    IosBridgeResponse,
    BridgeError,
>)
    ensures
        is_typed_response(r, output),
{
    let model_used: ModelKind = match parse_model_kind(output.model_used.as_str()) {
        Ok(model) => model,
        Err(e) => {
            return Err(e);
        },
    };
    Ok(
        IosBridgeResponse {
            model_used,
            mask_png: output.mask_png,
            provider_selected: output.provider_selected,
            backend_selected: output.backend_selected,
            fallback_used: output.fallback_used,
        },
    )
}

/// Serves a typed request through a backend. Of the names of a typed
/// request only the variant can stand for nothing, and a request where it
/// does is an invalid argument, before the backend is asked.
pub fn process_image<B: InferenceBackend + ?Sized>(
    backend: &B,
    telemetry: Option<&dyn TelemetrySink>,
    request: IosBridgeRequest,
) -> (r: Result<IosBridgeResponse, BridgeError>)
    ensures
        exists|wire: RemoveBackgroundRequest, served: Result<RemoveBackgroundResponse, BridgeError>|
            #![trigger is_bridged_v1(backend, wire, served)]
            {
                &&& is_wire_for(wire, request)
                &&& is_bridged_v1(backend, wire, served)
                &&& match served {
                    Ok(output) => is_typed_response(r, output),
                    Err(e) => r == Err::<IosBridgeResponse, BridgeError>(e),
                }
            },
        variant_named(effective(opt_text(request.onnx_variant), "fp16"@)) is None ==> r is Err
            && r->Err_0 is Bindings && r->Err_0->Bindings_0 == FfiError::InvalidArgument,
{
    let wire: RemoveBackgroundRequest = wire_request(request);
    let served: Result<RemoveBackgroundResponse, BridgeError> = process_image_v1(
        backend,
        telemetry,
        wire,
    );
    let r: Result<IosBridgeResponse, BridgeError> = match served {
        Ok(output) => bridge_response(output),
        Err(e) => Err(e),
    };
    assert(is_wire_for(wire, request) && is_bridged_v1(backend, wire, served));
    r
}

} // verus!
