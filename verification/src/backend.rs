//! The local backend: its descriptor, reading the input image, recovery
//! from a failed call, and the placeholder mask that stands in for a model
//! where the caller has opted in to it.

use vstd::prelude::*;
use crate::inference::{CoreError, CoreErrorView, InferenceRequest, InferenceResult, ModelKind};
use crate::text::{ascii_lower, text_eq, to_ascii_lowercase, trim, trimmed};
use std::io::Cursor;

verus! {

/// What a backend says of itself.
#[derive(Debug)]
pub struct RuntimeDescriptor {
    pub execution_provider: String,
}

/// The backend that runs models on this machine.
#[derive(Debug)]
pub struct LocalOrtBackend {
    descriptor: RuntimeDescriptor,
}

impl Default for LocalOrtBackend {
    fn default() -> (backend: Self)
        ensures
            backend.name() == "cpu"@,
    {
        Self { descriptor: RuntimeDescriptor { execution_provider: "cpu".to_string() } }
    }
}

impl LocalOrtBackend {
    /// The execution provider that the descriptor names.
    pub closed spec fn name(self) -> Seq<char> {
        self.descriptor.execution_provider@
    }

    pub fn descriptor(&self) -> (d: &RuntimeDescriptor)
        ensures
            d.execution_provider@ == self.name(),
    {
        &self.descriptor
    }
}

/// A decoded image: eight-bit red, green and blue for each pixel, row by
/// row.
#[derive(Debug)]
pub struct RgbPixels {
    pub width: u32,
    pub height: u32,
    pub data: Vec<u8>,
}

pub struct RgbPixelsView {
    pub width: u32,
    pub height: u32,
    pub data: Seq<u8>,
}

impl View for RgbPixels {
    type V = RgbPixelsView;

    open spec fn view(&self) -> RgbPixelsView {
        RgbPixelsView { width: self.width, height: self.height, data: self.data@ }
    }
}

impl RgbPixels {
    /// The data holds three bytes for every pixel.
    pub open spec fn well_formed(self) -> bool {
        self@.well_formed()
    }
}

impl RgbPixelsView {
    /// The data holds three bytes for every pixel.
    pub open spec fn well_formed(self) -> bool {
        self.data.len() >= self.width * self.height * 3
    }
}

/// What encoding an eight-bit grey image as PNG gives: the bytes of the
/// file, or the text of the error.
pub uninterp spec fn encoded_gray_png(width: u32, height: u32, pixels: Seq<u8>) -> Result<
    Seq<u8>,
    Seq<char>,
>;

/// `image::load_from_memory`, with the image converted to eight-bit RGB by
/// `DynamicImage::to_rgb8`. Which image comes out, or which error, is for
/// the crate and the decoders registered with it to say; all that is
/// claimed is that an image buffer of the crate holds at least three bytes
/// for each of its pixels.
#[verifier::external_body]
fn decode_rgb(bytes: &[u8]) -> (r: Result<RgbPixels, String>)
    ensures
        r is Ok ==> r->Ok_0.well_formed(),
{
    match image::load_from_memory(bytes) {
        Ok(decoded) => {
            let rgb = decoded.to_rgb8();
            let (width, height) = rgb.dimensions();
            Ok(RgbPixels { width, height, data: rgb.into_raw() })
        },
        Err(e) => Err(e.to_string()),
    }
}

/// `DynamicImage::write_to` with the PNG format, on a grey image made of
/// the given pixels: the encoded file, which depends on the dimensions and
/// the pixels alone.
#[verifier::external_body]
fn encode_gray_png(width: u32, height: u32, pixels: Vec<u8>) -> (r: Result<Vec<u8>, String>)
    requires
        pixels.len() == width * height,
    ensures
        match r {
            Ok(png) => encoded_gray_png(width, height, pixels@) == Ok::<Seq<u8>, Seq<char>>(png@),
            Err(e) => encoded_gray_png(width, height, pixels@) == Err::<Seq<u8>, Seq<char>>(e@),
        },
{
    let mut encoded: Vec<u8> = Vec::new();
    let mask = image::GrayImage::from_raw(width, height, pixels).expect("one byte a pixel");
    match image::DynamicImage::ImageLuma8(mask).write_to(
        &mut Cursor::new(&mut encoded),
        image::ImageFormat::Png,
    ) {
        Ok(_) => Ok(encoded),
        Err(e) => Err(e.to_string()),
    }
}

/// Where the image of a request is to be taken from.
#[derive(Debug, Clone, Copy, PartialEq, Eq, Structural)]
pub enum InputSource {
    /// The bytes that the request carries.
    Bytes,
    /// The file that the request names.
    File,
    /// The request has no input.
    Missing,
}

/// The bytes of a request come before its path.
pub fn input_source(request: &InferenceRequest) -> (source: InputSource)
    ensures
        source == if request.input_bytes is Some {
            InputSource::Bytes
        } else if request.input_path is Some {
            InputSource::File
        } else {
            InputSource::Missing
        },
{
    if request.input_bytes.is_some() {
        InputSource::Bytes
    } else if request.input_path.is_some() {
        InputSource::File
    } else {
        InputSource::Missing
    }
}

/// What decoding makes of the bytes of an input: the image, or the backend
/// error with the decoder's text.
pub fn decoded_input(decoded: Result<RgbPixels, String>) -> (r: Result<RgbPixels, CoreError>)
    ensures
        match decoded {
            Ok(pixels) => r == Ok::<RgbPixels, CoreError>(pixels),
            Err(text) => r == Err::<RgbPixels, CoreError>(CoreError::Backend(text)),
        },
{
    match decoded {
        Ok(pixels) => Ok(pixels),
        Err(text) => Err(CoreError::Backend(text)),
    }
}

/// Decodes the bytes of an input image: the image, with three bytes for
/// every pixel, or the backend error with the decoder's text.
pub fn load_image(bytes: &[u8]) -> (r: Result<RgbPixels, CoreError>)
    ensures
        match r {
            Ok(pixels) => pixels.well_formed(),
            Err(e) => e is Backend,
        },
{
    decoded_input(decode_rgb(bytes))
}

/// A value that switches the placeholder on: `1`, `true` or `yes`, in any
/// ASCII case, with any white space around it.
pub open spec fn is_opt_in(value: Seq<char>) -> bool {
    let normalized = ascii_lower(trimmed(value));
    normalized == "1"@ || normalized == "true"@ || normalized == "yes"@
}

/// Whether the placeholder is switched on, from the value of the switch in
/// the environment, if it is set.
pub fn placeholder_fallback_allowed(value: Option<&str>) -> (allowed: bool)
    ensures
        allowed == match value {
            Some(v) => is_opt_in(v@),
            None => false,
        },
{
    match value {
        Some(v) => {
            let stripped: String = trim(v);
            let normalized: String = to_ascii_lowercase(stripped.as_str());
            text_eq(normalized.as_str(), "1") || text_eq(normalized.as_str(), "true") || text_eq(
                normalized.as_str(),
                "yes",
            )
        },
        None => false,
    }
}

/// The execution path that a placeholder answer names: none of the
/// hardware paths, so that a caller can tell the degraded answer from any
/// answer of a model.
pub const PLACEHOLDER_PROVIDER: &'static str = "placeholder";

/// A placeholder answer is never silent: the path it names is neither of
/// the two that a run of a model names, `cpu` for the processor and `gpu`
/// for an accelerator.
pub proof fn lemma_placeholder_is_told_apart()
    ensures
        PLACEHOLDER_PROVIDER@ != "cpu"@,
        PLACEHOLDER_PROVIDER@ != "gpu"@,
{
    reveal_strlit("placeholder");
    reveal_strlit("cpu");
    reveal_strlit("gpu");
    assert("placeholder"@.len() == 11 && "cpu"@.len() == 3 && "gpu"@.len() == 3);
}

/// The mask value of a pixel: opaque where the mean of red, green and blue
/// is above 25, clear where it is not.
pub open spec fn mask_value(red: u8, green: u8, blue: u8) -> u8 {
    if (red + green + blue) / 3 > 25 {
        255
    } else {
        0
    }
}

/// The placeholder mask of an image: one value for each pixel.
pub open spec fn threshold_mask(data: Seq<u8>, pixels: int) -> Seq<u8> {
    Seq::new(pixels as nat, |i: int| mask_value(data[3 * i], data[3 * i + 1], data[3 * i + 2]))
}

pub fn placeholder_mask(image: &RgbPixels) -> (mask: Vec<u8>)
    requires
        image.well_formed(),
    ensures
        mask@ == threshold_mask(image.data@, image.width * image.height),
{
    let count: usize = image.data.len() / 3;
    let ghost pixels: int = image.width * image.height;
    assert(pixels <= count) by (nonlinear_arith)
        requires
            image.data.len() >= pixels * 3,
            count == image.data.len() / 3,
    ;
    let wanted: u64 = (image.width as u64) * (image.height as u64);
    let mut mask: Vec<u8> = Vec::new();
    let mut i: usize = 0;
    while (i as u64) < wanted
        invariant
            wanted == pixels,
            pixels <= count,
            count == image.data.len() / 3,
            i <= pixels,
            mask@ == threshold_mask(image.data@, i as int),
        decreases pixels - i,
    {
        let red: u16 = image.data[3 * i] as u16;
        let green: u16 = image.data[3 * i + 1] as u16;
        let blue: u16 = image.data[3 * i + 2] as u16;
        let value: u8 = if (red + green + blue) / 3 > 25 {
            255
        } else {
            0
        };
        mask.push(value);
        assert(mask@ =~= threshold_mask(image.data@, i + 1));
        i = i + 1;
    }
    mask
}

/// The result of a call that the placeholder answers, from the encoded
/// mask: it names the placeholder as the path, which no run of a model
/// does, no accelerator, and no hardware fallback. An encoding that failed
/// is a backend error.
pub fn placeholder_result(
    selected_model: ModelKind,
    width: u32,
    height: u32,
    encoded: Result<Vec<u8>, String>,
) -> (r: Result<InferenceResult, CoreError>)
    ensures
        match encoded {
            Ok(png) => {
                &&& r is Ok
                &&& r->Ok_0.model_used == selected_model
                &&& r->Ok_0.mask_png == png
                &&& r->Ok_0.width == width
                &&& r->Ok_0.height == height
                &&& r->Ok_0.execution_provider_selected@ == PLACEHOLDER_PROVIDER@
                &&& r->Ok_0.gpu_backend_selected is None
                &&& !r->Ok_0.fallback_used
            },
            Err(text) => r == Err::<InferenceResult, CoreError>(CoreError::Backend(text)),
        },
{
    match encoded {
        Ok(png) => Ok(
            InferenceResult {
                model_used: selected_model,
                mask_png: png,
                width,
                height,
                execution_provider_selected: PLACEHOLDER_PROVIDER.to_string(),
                gpu_backend_selected: None,
                fallback_used: false,
            },
        ),
        Err(text) => Err(CoreError::Backend(text)),
    }
}

/// `r` is the answer of the placeholder for an image: the brightness mask
/// of the image, encoded as PNG, under the size of the image, with the
/// placeholder named as the path, no accelerator and no hardware fallback;
/// or the backend error of an encoding that failed.
pub open spec fn is_fallback_of(
    r: Result<InferenceResult, CoreError>,
    selected_model: ModelKind,
    image: RgbPixelsView,
) -> bool {
    match encoded_gray_png(
        image.width,
        image.height,
        threshold_mask(image.data, image.width * image.height),
    ) {
        Ok(png) => {
            &&& r is Ok
            &&& r->Ok_0.model_used == selected_model
            &&& r->Ok_0.mask_png@ == png
            &&& r->Ok_0.width == image.width
            &&& r->Ok_0.height == image.height
            &&& r->Ok_0.execution_provider_selected@ == PLACEHOLDER_PROVIDER@
            &&& r->Ok_0.gpu_backend_selected is None
            &&& !r->Ok_0.fallback_used
        },
        Err(text) => r is Err && r->Err_0@ == CoreErrorView::Backend(text),
    }
}

/// Answers a call with the placeholder: a mask by brightness, not by a
/// model, encoded as PNG, of the size of the image.
pub fn infer_fallback(selected_model: ModelKind, image: &RgbPixels) -> (r: Result<
    InferenceResult,
    CoreError,
>)
    requires
        image.well_formed(),
    ensures
        is_fallback_of(r, selected_model, image@),
{
    let mask: Vec<u8> = placeholder_mask(image);
    placeholder_result(
        selected_model,
        image.width,
        image.height,
        encode_gray_png(image.width, image.height, mask),
    )
}

/// A side of at least one pixel.
pub open spec fn at_least_one(side: u32) -> u32 {
    if side == 0 {
        1
    } else {
        side
    }
}

/// The black image of a stated size, at least one pixel each way; `None`
/// where an image of that size cannot be held in memory.
pub open spec fn blank_view(width: u32, height: u32) -> Option<RgbPixelsView> {
    let w = at_least_one(width);
    let h = at_least_one(height);
    if w * h * 3 > usize::MAX {
        None
    } else {
        Some(RgbPixelsView { width: w, height: h, data: Seq::new((w * h * 3) as nat, |i: int| 0u8) })
    }
}

/// The image that stands in for an input that could not be read: black, of
/// the size the request states, and at least one pixel each way. `None`
/// where an image of that size cannot be held.
pub fn blank_image(width: u32, height: u32) -> (r: Option<RgbPixels>)
    ensures
        match r {
            Some(image) => image.well_formed() && blank_view(width, height) == Some(image@),
            None => blank_view(width, height) is None,
        },
{
    let w: u32 = if width == 0 {
        1
    } else {
        width
    };
    let h: u32 = if height == 0 {
        1
    } else {
        height
    };
    assert(w * h <= 0xFFFF_FFFF * 0xFFFF_FFFF) by (nonlinear_arith)
        requires
            0 <= w <= 0xFFFF_FFFF,
            0 <= h <= 0xFFFF_FFFF,
    ;
    let pixels: u64 = (w as u64) * (h as u64);
    if pixels > (usize::MAX as u64) / 3 {
        assert(w * h * 3 > usize::MAX) by (nonlinear_arith)
            requires
                pixels == w * h,
                pixels > (usize::MAX as u64) / 3,
        ;
        return None;
    }
    let len: usize = (pixels as usize) * 3;
    let data: Vec<u8> = vec![0u8; len];
    assert(data@ =~= Seq::new((w * h * 3) as nat, |i: int| 0u8));
    Some(RgbPixels { width: w, height: h, data })
}

} // verus!
