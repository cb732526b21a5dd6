//! The names under which models, variants, execution modes and
//! accelerators are written and read.

use vstd::prelude::*;
use crate::inference::{ExecutionProvider, GpuBackendPreference, ModelKind, OnnxVariant};
use crate::text::{ascii_lower, is_blank_text, text_eq, to_ascii_lowercase};

verus! {

/// The model that a lower-case name or alias stands for.
pub open spec fn model_named(name: Seq<char>) -> Option<ModelKind> {
    if name == "auto"@ {
        Some(ModelKind::Auto)
    } else if name == "fast"@ || name == "rmbg-1.4"@ {
        Some(ModelKind::Rmbg14)
    } else if name == "quality"@ || name == "rmbg-2.0"@ {
        Some(ModelKind::Rmbg20)
    } else {
        None
    }
}

/// The variant that a lower-case name stands for.
pub open spec fn variant_named(name: Seq<char>) -> Option<OnnxVariant> {
    if name == "auto"@ {
        Some(OnnxVariant::Auto)
    } else if name == "fp16"@ {
        Some(OnnxVariant::Fp16)
    } else if name == "fp32"@ {
        Some(OnnxVariant::Fp32)
    } else if name == "quantized"@ || name == "q8"@ {
        Some(OnnxVariant::Quantized)
    } else {
        None
    }
}

/// The execution mode that a lower-case name stands for.
pub open spec fn mode_named(name: Seq<char>) -> Option<ExecutionProvider> {
    if name == "auto"@ {
        Some(ExecutionProvider::Auto)
    } else if name == "gpu"@ {
        Some(ExecutionProvider::Gpu)
    } else if name == "cpu"@ {
        Some(ExecutionProvider::Cpu)
    } else {
        None
    }
}

/// The accelerator preference that a lower-case name stands for.
pub open spec fn accelerator_named(name: Seq<char>) -> Option<GpuBackendPreference> {
    if name == "auto"@ {
        Some(GpuBackendPreference::Auto)
    } else if name == "directml"@ {
        Some(GpuBackendPreference::DirectML)
    } else if name == "cuda"@ {
        Some(GpuBackendPreference::Cuda)
    } else if name == "coreml"@ {
        Some(GpuBackendPreference::CoreML)
    } else if name == "metal"@ {
        Some(GpuBackendPreference::Metal)
    } else {
        None
    }
}

/// Reads a model name or alias in any ASCII case. An unknown name comes
/// back in lower case.
pub fn read_model(raw: &str) -> (r: Result<ModelKind, String>)
    ensures
        match r {
            Ok(model) => model_named(ascii_lower(raw@)) == Some(model),
            Err(name) => model_named(ascii_lower(raw@)) is None && name@ == ascii_lower(raw@),
        },
{
    let name: String = to_ascii_lowercase(raw);
    if text_eq(name.as_str(), "auto") {
        Ok(ModelKind::Auto)
    } else if text_eq(name.as_str(), "fast") || text_eq(name.as_str(), "rmbg-1.4") {
        Ok(ModelKind::Rmbg14)
    } else if text_eq(name.as_str(), "quality") || text_eq(name.as_str(), "rmbg-2.0") {
        Ok(ModelKind::Rmbg20)
    } else {
        Err(name)
    }
}

/// Reads a variant name in any ASCII case. An unknown name comes back in
/// lower case.
pub fn read_variant(raw: &str) -> (r: Result<OnnxVariant, String>)
    ensures
        match r {
            Ok(variant) => variant_named(ascii_lower(raw@)) == Some(variant),
            Err(name) => variant_named(ascii_lower(raw@)) is None && name@ == ascii_lower(raw@),
        },
{
    let name: String = to_ascii_lowercase(raw);
    if text_eq(name.as_str(), "auto") {
        Ok(OnnxVariant::Auto)
    } else if text_eq(name.as_str(), "fp16") {
        Ok(OnnxVariant::Fp16)
    } else if text_eq(name.as_str(), "fp32") {
        Ok(OnnxVariant::Fp32)
    } else if text_eq(name.as_str(), "quantized") || text_eq(name.as_str(), "q8") {
        Ok(OnnxVariant::Quantized)
    } else {
        Err(name)
    }
}

/// Reads the name of an execution mode in any ASCII case. An unknown name
/// comes back in lower case.
pub fn read_mode(raw: &str) -> (r: Result<ExecutionProvider, String>)
    ensures
        match r {
            Ok(mode) => mode_named(ascii_lower(raw@)) == Some(mode),
            Err(name) => mode_named(ascii_lower(raw@)) is None && name@ == ascii_lower(raw@),
        },
{
    let name: String = to_ascii_lowercase(raw);
    if text_eq(name.as_str(), "auto") {
        Ok(ExecutionProvider::Auto)
    } else if text_eq(name.as_str(), "gpu") {
        Ok(ExecutionProvider::Gpu)
    } else if text_eq(name.as_str(), "cpu") {
        Ok(ExecutionProvider::Cpu)
    } else {
        Err(name)
    }
}

/// Reads the name of an accelerator preference in any ASCII case. An
/// unknown name comes back in lower case.
pub fn read_accelerator(raw: &str) -> (r: Result<GpuBackendPreference, String>)
    ensures
        match r {
            Ok(preference) => accelerator_named(ascii_lower(raw@)) == Some(preference),
            Err(name) => accelerator_named(ascii_lower(raw@)) is None && name@ == ascii_lower(raw@),
        },
{
    let name: String = to_ascii_lowercase(raw);
    if text_eq(name.as_str(), "auto") {
        Ok(GpuBackendPreference::Auto)
    } else if text_eq(name.as_str(), "directml") {
        Ok(GpuBackendPreference::DirectML)
    } else if text_eq(name.as_str(), "cuda") {
        Ok(GpuBackendPreference::Cuda)
    } else if text_eq(name.as_str(), "coreml") {
        Ok(GpuBackendPreference::CoreML)
    } else if text_eq(name.as_str(), "metal") {
        Ok(GpuBackendPreference::Metal)
    } else {
        Err(name)
    }
}

/// The name a model is reported under.
pub open spec fn model_label_text(model: ModelKind) -> Seq<char> {
    match model {
        ModelKind::Auto => "auto"@,
        ModelKind::Rmbg14 => "rmbg-1.4"@,
        ModelKind::Rmbg20 => "rmbg-2.0"@,
    }
}

pub fn model_label(model: ModelKind) -> (label: &'static str)
    ensures
        label@ == model_label_text(model),
{
    match model {
        ModelKind::Auto => "auto",
        ModelKind::Rmbg14 => "rmbg-1.4",
        ModelKind::Rmbg20 => "rmbg-2.0",
    }
}

/// The name a variant is written under.
pub open spec fn variant_label_text(variant: OnnxVariant) -> Seq<char> {
    match variant {
        OnnxVariant::Auto => "auto"@,
        OnnxVariant::Fp16 => "fp16"@,
        OnnxVariant::Fp32 => "fp32"@,
        OnnxVariant::Quantized => "quantized"@,
    }
}

pub fn onnx_variant_label(variant: OnnxVariant) -> (label: &'static str)
    ensures
        label@ == variant_label_text(variant),
{
    match variant {
        OnnxVariant::Auto => "auto",
        OnnxVariant::Fp16 => "fp16",
        OnnxVariant::Fp32 => "fp32",
        OnnxVariant::Quantized => "quantized",
    }
}

/// The name an execution mode is written under.
pub open spec fn mode_label_text(mode: ExecutionProvider) -> Seq<char> {
    match mode {
        ExecutionProvider::Auto => "auto"@,
        ExecutionProvider::Gpu => "gpu"@,
        ExecutionProvider::Cpu => "cpu"@,
    }
}

pub fn execution_provider_label(mode: ExecutionProvider) -> (label: &'static str)
    ensures
        label@ == mode_label_text(mode),
{
    match mode {
        ExecutionProvider::Auto => "auto",
        ExecutionProvider::Gpu => "gpu",
        ExecutionProvider::Cpu => "cpu",
    }
}

/// The name an accelerator preference is written under.
pub open spec fn accelerator_label_text(preference: GpuBackendPreference) -> Seq<char> {
    match preference {
        GpuBackendPreference::Auto => "auto"@,
        GpuBackendPreference::DirectML => "directml"@,
        GpuBackendPreference::Cuda => "cuda"@,
        GpuBackendPreference::CoreML => "coreml"@,
        GpuBackendPreference::Metal => "metal"@,
    }
}

pub fn gpu_backend_label(preference: GpuBackendPreference) -> (label: &'static str)
    ensures
        label@ == accelerator_label_text(preference),
{
    match preference {
        GpuBackendPreference::Auto => "auto",
        GpuBackendPreference::DirectML => "directml",
        GpuBackendPreference::Cuda => "cuda",
        GpuBackendPreference::CoreML => "coreml",
        GpuBackendPreference::Metal => "metal",
    }
}

/// A name that was written is read back as what it was written for.
pub proof fn lemma_labels_read_back(
    model: ModelKind,
    variant: OnnxVariant,
    mode: ExecutionProvider,
    preference: GpuBackendPreference,
)
    ensures
        model_named(model_label_text(model)) == Some(model),
        variant_named(variant_label_text(variant)) == Some(variant),
        mode_named(mode_label_text(mode)) == Some(mode),
        accelerator_named(accelerator_label_text(preference)) == Some(preference),
        ascii_lower(model_label_text(model)) == model_label_text(model),
        ascii_lower(variant_label_text(variant)) == variant_label_text(variant),
        ascii_lower(mode_label_text(mode)) == mode_label_text(mode),
        ascii_lower(accelerator_label_text(preference)) == accelerator_label_text(preference),
        !is_blank_text(model_label_text(model)),
        !is_blank_text(variant_label_text(variant)),
        !is_blank_text(mode_label_text(mode)),
        !is_blank_text(accelerator_label_text(preference)),
{
    reveal_strlit("auto");
    reveal_strlit("fast");
    reveal_strlit("quality");
    reveal_strlit("rmbg-1.4");
    reveal_strlit("rmbg-2.0");
    reveal_strlit("fp16");
    reveal_strlit("fp32");
    reveal_strlit("quantized");
    reveal_strlit("q8");
    reveal_strlit("gpu");
    reveal_strlit("cpu");
    reveal_strlit("directml");
    reveal_strlit("cuda");
    reveal_strlit("coreml");
    reveal_strlit("metal");
    assert("rmbg-1.4"@[5] != "rmbg-2.0"@[5]);
    assert("fp16"@[2] != "fp32"@[2]);
    assert("auto"@[0] != "fp16"@[0] && "auto"@[0] != "fp32"@[0] && "auto"@[0] != "fast"@[0]
        && "auto"@[0] != "cuda"@[0]);
    assert("gpu"@[0] != "cpu"@[0]);
    assert("directml"@.len() == 8 && "coreml"@.len() == 6 && "metal"@.len() == 5 && "cuda"@.len()
        == 4 && "quantized"@.len() == 9 && "quality"@.len() == 7 && "q8"@.len() == 2);
    assert(ascii_lower("auto"@) =~= "auto"@);
    assert(ascii_lower("rmbg-1.4"@) =~= "rmbg-1.4"@);
    assert(ascii_lower("rmbg-2.0"@) =~= "rmbg-2.0"@);
    assert(ascii_lower("fp16"@) =~= "fp16"@);
    assert(ascii_lower("fp32"@) =~= "fp32"@);
    assert(ascii_lower("quantized"@) =~= "quantized"@);
    assert(ascii_lower("gpu"@) =~= "gpu"@);
    assert(ascii_lower("cpu"@) =~= "cpu"@);
    assert(ascii_lower("directml"@) =~= "directml"@);
    assert(ascii_lower("cuda"@) =~= "cuda"@);
    assert(ascii_lower("coreml"@) =~= "coreml"@);
    assert(ascii_lower("metal"@) =~= "metal"@);
    assert(model_label_text(model)[0] == 'a' || model_label_text(model)[0] == 'r');
    assert(variant_label_text(variant)[0] == 'a' || variant_label_text(variant)[0] == 'f'
        || variant_label_text(variant)[0] == 'q');
    assert(mode_label_text(mode)[0] == 'a' || mode_label_text(mode)[0] == 'g' || mode_label_text(
        mode,
    )[0] == 'c');
    assert(accelerator_label_text(preference)[0] == 'a' || accelerator_label_text(preference)[0]
        == 'd' || accelerator_label_text(preference)[0] == 'c' || accelerator_label_text(
        preference,
    )[0] == 'm');
}

} // verus!
