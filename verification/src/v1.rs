//! The first version of the wire contract that adapters share.

use vstd::prelude::*;

verus! {

#[derive(Debug)]
pub struct RemoveBackgroundRequest {
    pub image_bytes: Vec<u8>,
    pub width: u32,
    pub height: u32,
    pub model: String,
    pub onnx_variant: Option<String>,
    pub execution_provider: Option<String>,
    pub gpu_backend: Option<String>,
    pub benchmark_provider: Option<bool>,
    pub model_dir: Option<String>,
    pub max_inference_pixels: Option<u32>,
}

#[derive(Debug)]
pub struct RemoveBackgroundResponse {
    pub model_used: String,
    pub width: u32,
    pub height: u32,
    pub mask_png: Vec<u8>,
    pub provider_selected: String,
    pub backend_selected: Option<String>,
    pub fallback_used: bool,
}

} // verus!
