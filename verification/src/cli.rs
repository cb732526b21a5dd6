//! What the command line decides: how its names read, which models a run
//! needs, and where the outputs of a run go.

use vstd::prelude::*;
use crate::inference::{ExecutionProvider, GpuBackendPreference, ModelKind, OnnxVariant};
use crate::installer::{has_onnx_file, holds_weights, listing_at, text_views};
use crate::names::{
    accelerator_named, mode_named, model_named, read_accelerator, read_mode, read_model,
    read_variant, variant_named,
};
use crate::paths::{
    extension_of, file_stem_of, join_path, parent_of, path_extension, path_file_stem, path_join,
    path_parent,
};
use crate::registry::{KnownModel, ModelLock};
use crate::text::{ascii_lower, text_eq, to_ascii_lowercase};

verus! {

/// Why a model name on the command line cannot be read.
pub open spec fn unknown_choice_text(name: Seq<char>) -> Seq<char> {
    "unknown model '"@ + name + "'; expected one of: auto, rmbg-1.4 (fast), rmbg-2.0 (quality)"@
}

/// Why a model to install cannot be read.
pub open spec fn unknown_install_text(name: Seq<char>) -> Seq<char> {
    "unknown model '"@ + name + "'; expected one of: rmbg-1.4 (fast), rmbg-2.0 (quality), all"@
}

pub open spec fn unknown_variant_text(name: Seq<char>) -> Seq<char> {
    "unknown onnx variant '"@ + name + "'; expected one of: fp16, fp32, quantized, auto"@
}

pub open spec fn unknown_mode_text(name: Seq<char>) -> Seq<char> {
    "unknown execution provider '"@ + name + "'; expected one of: auto, gpu, cpu"@
}

pub open spec fn unknown_accelerator_text(name: Seq<char>) -> Seq<char> {
    "unknown gpu backend '"@ + name + "'; expected one of: auto, directml, cuda, coreml, metal"@
}

pub fn parse_model_choice(model: &str) -> (r: Result<ModelKind, String>)
    ensures
        match r {
            Ok(kind) => model_named(ascii_lower(model@)) == Some(kind),
            Err(text) => model_named(ascii_lower(model@)) is None && text@ == unknown_choice_text(
                ascii_lower(model@),
            ),
        },
{
    match read_model(model) {
        Ok(kind) => Ok(kind),
        Err(name) => {
            let mut text: String = "unknown model '".to_string();
            text.append(name.as_str());
            text.append("'; expected one of: auto, rmbg-1.4 (fast), rmbg-2.0 (quality)");
            Err(text)
        },
    }
}

pub fn parse_onnx_variant(value: &str) -> (r: Result<OnnxVariant, String>)
    ensures
        match r {
            Ok(variant) => variant_named(ascii_lower(value@)) == Some(variant),
            Err(text) => variant_named(ascii_lower(value@)) is None && text@
                == unknown_variant_text(ascii_lower(value@)),
        },
{
    match read_variant(value) {
        Ok(variant) => Ok(variant),
        Err(name) => {
            let mut text: String = "unknown onnx variant '".to_string();
            text.append(name.as_str());
            text.append("'; expected one of: fp16, fp32, quantized, auto");
            Err(text)
        },
    }
}

pub fn parse_execution_provider(value: &str) -> (r: Result<ExecutionProvider, String>)
    ensures
        match r {
            Ok(mode) => mode_named(ascii_lower(value@)) == Some(mode),
            Err(text) => mode_named(ascii_lower(value@)) is None && text@ == unknown_mode_text(
                ascii_lower(value@),
            ),
        },
{
    match read_mode(value) {
        Ok(mode) => Ok(mode),
        Err(name) => {
            let mut text: String = "unknown execution provider '".to_string();
            text.append(name.as_str());
            text.append("'; expected one of: auto, gpu, cpu");
            Err(text)
        },
    }
}

pub fn parse_gpu_backend(value: &str) -> (r: Result<GpuBackendPreference, String>)
    ensures
        match r {
            Ok(preference) => accelerator_named(ascii_lower(value@)) == Some(preference),
            Err(text) => accelerator_named(ascii_lower(value@)) is None && text@
                == unknown_accelerator_text(ascii_lower(value@)),
        },
{
    match read_accelerator(value) {
        Ok(preference) => Ok(preference),
        Err(name) => {
            let mut text: String = "unknown gpu backend '".to_string();
            text.append(name.as_str());
            text.append("'; expected one of: auto, directml, cuda, coreml, metal");
            Err(text)
        },
    }
}

/// What one name in a list of models to install stands for: a model,
/// nothing to add (`all`), or an error.
pub open spec fn install_name(name: Seq<char>) -> Result<Option<KnownModel>, Seq<char>> {
    if name == "rmbg-1.4"@ || name == "fast"@ {
        Ok(Some(KnownModel::Rmbg14))
    } else if name == "rmbg-2.0"@ || name == "quality"@ {
        Ok(Some(KnownModel::Rmbg20))
    } else if name == "all"@ {
        Ok(None)
    } else {
        Err(unknown_install_text(name))
    }
}

/// The models that a list of names stands for, in order, `all` left out.
pub open spec fn install_models_named(names: Seq<Seq<char>>) -> Seq<KnownModel>
    decreases names.len(),
{
    if names.len() == 0 {
        Seq::empty()
    } else {
        let front = install_models_named(names.drop_last());
        match install_name(ascii_lower(names.last())) {
            Ok(Some(model)) => front.push(model),
            _ => front,
        }
    }
}

/// Reads the models to install. The first name that stands for nothing
/// fails the whole list.
pub fn parse_models_for_install(models: &Vec<String>) -> (r: Result<Vec<KnownModel>, String>)
    ensures
        match r {
            Ok(out) => out@ == install_models_named(text_views(models@)) && forall|i: int|
                0 <= i < models.len() ==> install_name(ascii_lower(#[trigger] models[i]@)) is Ok,
            Err(text) => exists|i: int|
                0 <= i < models.len() && install_name(ascii_lower(#[trigger] models[i]@)) == Err::<
                    Option<KnownModel>,
                    Seq<char>,
                >(text@) && forall|k: int|
                    0 <= k < i ==> install_name(ascii_lower(#[trigger] models[k]@)) is Ok,
        },
{
    let mut out: Vec<KnownModel> = Vec::new();
    let ghost names = text_views(models@);
    let mut i: usize = 0;
    assert(names.take(0) =~= Seq::empty());
    while i < models.len()
        invariant
            i <= models.len(),
            names == text_views(models@),
            out@ == install_models_named(names.take(i as int)),
            forall|k: int| 0 <= k < i ==> install_name(ascii_lower(#[trigger] models[k]@)) is Ok,
        decreases models.len() - i,
    {
        proof {
            let grown = names.take(i + 1);
            assert(grown.drop_last() =~= names.take(i as int));
            assert(grown.last() == models[i as int]@);
        }
        let name: String = to_ascii_lowercase(models[i].as_str());
        if text_eq(name.as_str(), "rmbg-1.4") || text_eq(name.as_str(), "fast") {
            out.push(KnownModel::Rmbg14);
        } else if text_eq(name.as_str(), "rmbg-2.0") || text_eq(name.as_str(), "quality") {
            out.push(KnownModel::Rmbg20);
        } else if text_eq(name.as_str(), "all") {
        } else {
            let mut text: String = "unknown model '".to_string();
            text.append(name.as_str());
            text.append("'; expected one of: rmbg-1.4 (fast), rmbg-2.0 (quality), all");
            return Err(text);
        }
        i = i + 1;
    }
    assert(names.take(i as int) =~= names);
    Ok(out)
}

pub fn model_kind_label(model: ModelKind) -> (label: &'static str)
    ensures
        label@ == crate::names::model_label_text(model),
{
    crate::names::model_label(model)
}

/// An image the command line takes: by its extension, in any ASCII case,
/// `png`, `jpg` or `jpeg`.
pub open spec fn is_supported_extension(extension: Option<Seq<char>>) -> bool {
    match extension {
        Some(ext) => ascii_lower(ext) == "png"@ || ascii_lower(ext) == "jpg"@ || ascii_lower(ext)
            == "jpeg"@,
        None => false,
    }
}

/// Whether an extension is that of an image the command line takes.
pub fn is_supported(extension: Option<&str>) -> (r: bool)
    ensures
        r == is_supported_extension(
            match extension {
                Some(ext) => Some(ext@),
                None => None,
            },
        ),
{
    match extension {
        Some(ext) => {
            let lower: String = to_ascii_lowercase(ext);
            text_eq(lower.as_str(), "png") || text_eq(lower.as_str(), "jpg") || text_eq(
                lower.as_str(),
                "jpeg",
            )
        },
        None => false,
    }
}

pub fn is_supported_image(path: &str) -> (r: bool)
    ensures
        r == is_supported_extension(path_extension(path@)),
{
    match extension_of(path) {
        Some(ext) => is_supported(Some(ext.as_str())),
        None => is_supported(None),
    }
}

/// An extension that marks a PNG file: `png` in any ASCII case.
pub open spec fn is_png_extension(extension: Option<Seq<char>>) -> bool {
    extension is Some && ascii_lower(extension->0) == "png"@
}

/// Whether an extension marks a PNG file.
pub fn is_png(extension: Option<&str>) -> (r: bool)
    ensures
        r == is_png_extension(
            match extension {
                Some(ext) => Some(ext@),
                None => None,
            },
        ),
{
    match extension {
        Some(ext) => {
            let lower: String = to_ascii_lowercase(ext);
            text_eq(lower.as_str(), "png")
        },
        None => false,
    }
}

/// Why a cutout cannot be written to a path.
pub open spec fn not_png_text(path: Seq<char>) -> Seq<char> {
    "output cutout must be a .png file (received: '"@ + path + "')"@
}

/// A cutout goes to a file with the extension `png`, in any ASCII case.
pub fn validate_cutout_extension(path: &str) -> (r: Result<(), String>)
    ensures
        match r {
            Ok(_) => is_png_extension(path_extension(path@)),
            Err(text) => !is_png_extension(path_extension(path@)) && text@ == not_png_text(path@),
        },
{
    let png: bool = match extension_of(path) {
        Some(ext) => is_png(Some(ext.as_str())),
        None => is_png(None),
    };
    if png {
        Ok(())
    } else {
        let mut text: String = "output cutout must be a .png file (received: '".to_string();
        text.append(path);
        text.append("')");
        Err(text)
    }
}

/// Why an input has no name to derive an output name from.
pub open spec fn no_file_name_text() -> Seq<char> {
    "input file must include a valid file name"@
}

/// The name of an output beside an input: the stem of the input and a
/// suffix.
fn derived_filename(input: &str, suffix: &str) -> (r: Result<String, String>)
    ensures
        match r {
            Ok(name) => path_file_stem(input@) is Some && name@ == path_file_stem(input@)->0
                + suffix@,
            Err(text) => path_file_stem(input@) is None && text@ == no_file_name_text(),
        },
{
    match file_stem_of(input) {
        Some(stem) => {
            let mut name: String = stem;
            name.append(suffix);
            Ok(name)
        },
        None => Err("input file must include a valid file name".to_string()),
    }
}

pub fn default_cutout_filename(input: &str) -> (r: Result<String, String>)
    ensures
        match r {
            Ok(name) => path_file_stem(input@) is Some && name@ == path_file_stem(input@)->0
                + "_cutout.png"@,
            Err(text) => path_file_stem(input@) is None && text@ == no_file_name_text(),
        },
{
    derived_filename(input, "_cutout.png")
}

pub fn default_mask_filename(input: &str) -> (r: Result<String, String>)
    ensures
        match r {
            Ok(name) => path_file_stem(input@) is Some && name@ == path_file_stem(input@)->0
                + "_mask.png"@,
            Err(text) => path_file_stem(input@) is None && text@ == no_file_name_text(),
        },
{
    derived_filename(input, "_mask.png")
}

/// The cutout of an input goes beside it by default.
pub fn default_cutout_path(input: &str) -> (r: Result<String, String>)
    ensures
        match r {
            Ok(path) => path_file_stem(input@) is Some && path@ == match path_parent(input@) {
                Some(parent) => path_join(parent, path_file_stem(input@)->0 + "_cutout.png"@),
                None => path_file_stem(input@)->0 + "_cutout.png"@,
            },
            Err(text) => path_file_stem(input@) is None && text@ == no_file_name_text(),
        },
{
    let filename: String = match default_cutout_filename(input) {
        Ok(name) => name,
        Err(text) => {
            return Err(text);
        },
    };
    match parent_of(input) {
        Some(parent) => Ok(join_path(parent.as_str(), filename.as_str())),
        None => Ok(filename),
    }
}

/// The models a run needs to find installed: the smaller model unless the
/// larger one is asked for by name.
pub fn required_models(requested_model: ModelKind) -> (models: Vec<KnownModel>)
    ensures
        models@ == seq![
            if requested_model == ModelKind::Rmbg20 {
                KnownModel::Rmbg20
            } else {
                KnownModel::Rmbg14
            },
        ],
{
    let mut models: Vec<KnownModel> = Vec::new();
    match requested_model {
        ModelKind::Rmbg20 => models.push(KnownModel::Rmbg20),
        _ => models.push(KnownModel::Rmbg14),
    }
    assert(models@ =~= seq![
        if requested_model == ModelKind::Rmbg20 {
            KnownModel::Rmbg20
        } else {
            KnownModel::Rmbg14
        },
    ]);
    models
}

/// The lockfile records the model at revision `main`.
pub open spec fn records_main(lock: ModelLock, model: KnownModel) -> bool {
    exists|i: int|
        0 <= i < lock.models.len() && (#[trigger] lock.models[i]).model_id@ == model.model_id_text()
            && lock.models[i].revision@ == "main"@
}

fn has_main_record(lock: &ModelLock, model: KnownModel) -> (r: bool)
    ensures
        r == records_main(*lock, model),
{
    let mut i: usize = 0;
    while i < lock.models.len()
        invariant
            i <= lock.models.len(),
            forall|k: int|
                0 <= k < i ==> !((#[trigger] lock.models[k]).model_id@ == model.model_id_text()
                    && lock.models[k].revision@ == "main"@),
        decreases lock.models.len() - i,
    {
        if text_eq(lock.models[i].model_id.as_str(), model.model_id()) && text_eq(
            lock.models[i].revision.as_str(),
            "main",
        ) {
            return true;
        }
        i = i + 1;
    }
    false
}

/// Whether a run finds what it needs: a lockfile that records each
/// required model at revision `main`, and a weights file in the revision
/// directory of each. `listings` holds, for each required model in turn,
/// the files seen in its revision directory.
#[verifier::loop_isolation(false)]
pub fn has_required_models_for_exec(
    lock: Option<&ModelLock>,
    required_models: &Vec<KnownModel>,
    listings: &Vec<Vec<String>>,
) -> (r: bool)
    ensures
        r == (lock is Some && forall|i: int|
            0 <= i < required_models.len() ==> records_main(*lock->0, #[trigger] required_models[i])
                && holds_weights(listing_at(listings@, i))),
{
    let found: &ModelLock = match lock {
        Some(found) => found,
        None => {
            return false;
        },
    };
    let nothing: Vec<String> = Vec::new();
    let mut i: usize = 0;
    while i < required_models.len()
        invariant
            i <= required_models.len(),
            nothing@.len() == 0,
            forall|k: int|
                0 <= k < i ==> records_main(*found, #[trigger] required_models[k]) && holds_weights(
                    listing_at(listings@, k),
                ),
        decreases required_models.len() - i,
    {
        if !has_main_record(found, required_models[i]) {
            assert(!records_main(*found, required_models[i as int]));
            return false;
        }
        let listing: &Vec<String> = if i < listings.len() {
            &listings[i]
        } else {
            &nothing
        };
        assert(text_views(listing@) =~= listing_at(listings@, i as int));
        if !has_onnx_file(listing) {
            assert(!(records_main(*found, required_models[i as int]) && holds_weights(
                listing_at(listings@, i as int),
            )));
            return false;
        }
        i = i + 1;
    }
    true
}

/// Whether an input stands for several files: a directory, or a pattern
/// that names no existing path.
pub fn is_multi_input(exists: bool, is_dir: bool) -> (multi: bool)
    ensures
        multi == ((exists && is_dir) || !exists),
{
    (exists && is_dir) || !exists
}

/// Where the outputs of a run are asked to go.
#[derive(Debug)]
pub struct OutputArgs {
    pub inference_only: bool,
    pub multi_input: bool,
    pub output_dir: Option<String>,
    pub output_cutout: Option<String>,
    pub output_mask: Option<String>,
}

/// Where the cutout of an input goes, if one is written. A run that only
/// infers writes none. With a cutout asked for: among several inputs its
/// name is derived from the input, under the output directory or else
/// under the path given for cutouts; for a single input it goes to the
/// path given, which must be a PNG file. With neither cutout nor mask
/// asked for, the cutout is written by default: under the output directory
/// among several inputs where one is given, else beside the input. With
/// only a mask asked for, no cutout is written.
pub open spec fn cutout_target(args: OutputArgs, input: Seq<char>) -> Result<
    Option<Seq<char>>,
    Seq<char>,
> {
    let stem = path_file_stem(input);
    let bulk_dir = if args.multi_input {
        args.output_dir
    } else {
        None
    };
    if args.inference_only {
        Ok(None)
    } else if args.output_cutout is Some {
        if args.multi_input {
            if stem is None {
                Err(no_file_name_text())
            } else {
                Ok(
                    Some(
                        path_join(
                            (if bulk_dir is Some {
                                bulk_dir->0
                            } else {
                                args.output_cutout->0
                            })@,
                            stem->0 + "_cutout.png"@,
                        ),
                    ),
                )
            }
        } else if is_png_extension(path_extension(args.output_cutout->0@)) {
            Ok(Some(args.output_cutout->0@))
        } else {
            Err(not_png_text(args.output_cutout->0@))
        }
    } else if args.output_mask is None {
        if stem is None {
            Err(no_file_name_text())
        } else if bulk_dir is Some {
            Ok(Some(path_join(bulk_dir->0@, stem->0 + "_cutout.png"@)))
        } else {
            Ok(
                Some(
                    match path_parent(input) {
                        Some(parent) => path_join(parent, stem->0 + "_cutout.png"@),
                        None => stem->0 + "_cutout.png"@,
                    },
                ),
            )
        }
    } else {
        Ok(None)
    }
}

/// Where the mask of an input goes, if one is written: nowhere unless a
/// mask is asked for; among several inputs under a name derived from the
/// input, under the output directory or else under the path given for
/// masks; for a single input to the path given.
pub open spec fn mask_target(args: OutputArgs, input: Seq<char>) -> Result<
    Option<Seq<char>>,
    Seq<char>,
> {
    let stem = path_file_stem(input);
    if args.inference_only || args.output_mask is None {
        Ok(None)
    } else if args.multi_input {
        if stem is None {
            Err(no_file_name_text())
        } else {
            Ok(
                Some(
                    path_join(
                        (if args.output_dir is Some {
                            args.output_dir->0
                        } else {
                            args.output_mask->0
                        })@,
                        stem->0 + "_mask.png"@,
                    ),
                ),
            )
        }
    } else {
        Ok(Some(args.output_mask->0@))
    }
}

/// The view of an optional path.
pub open spec fn opt_view(path: Option<String>) -> Option<Seq<char>> {
    match path {
        Some(p) => Some(p@),
        None => None,
    }
}

/// Where the cutout and the mask of an input go. The cutout is settled
/// first, so its error comes before that of the mask.
pub fn resolve_outputs_for_input(args: &OutputArgs, input_path: &str) -> (r: Result<
    (Option<String>, Option<String>),
    String,
>)
    ensures
        match r {
            Ok(targets) => cutout_target(*args, input_path@) == Ok::<Option<Seq<char>>, Seq<char>>(
                opt_view(targets.0),
            ) && mask_target(*args, input_path@) == Ok::<Option<Seq<char>>, Seq<char>>(
                opt_view(targets.1),
            ),
            Err(text) => if cutout_target(*args, input_path@) is Err {
                cutout_target(*args, input_path@)->Err_0 == text@
            } else {
                mask_target(*args, input_path@) == Err::<Option<Seq<char>>, Seq<char>>(text@)
            },
        },
{
    if args.inference_only {
        return Ok((None, None));
    }
    let cutout: Option<String> = match &args.output_cutout {
        Some(spec) => {
            if args.multi_input {
                let dir: &String = match &args.output_dir {
                    Some(dir) => dir,
                    None => spec,
                };
                match default_cutout_filename(input_path) {
                    Ok(name) => Some(join_path(dir.as_str(), name.as_str())),
                    Err(text) => {
                        return Err(text);
                    },
                }
            } else {
                match validate_cutout_extension(spec.as_str()) {
                    Ok(_) => Some(spec.clone()),
                    Err(text) => {
                        return Err(text);
                    },
                }
            }
        },
        None => {
            if args.output_mask.is_none() {
                let bulk: Option<&String> = if args.multi_input {
                    args.output_dir.as_ref()
                } else {
                    None
                };
                match bulk {
                    Some(dir) => match default_cutout_filename(input_path) {
                        Ok(name) => Some(join_path(dir.as_str(), name.as_str())),
                        Err(text) => {
                            return Err(text);
                        },
                    },
                    None => match default_cutout_path(input_path) {
                        Ok(path) => Some(path),
                        Err(text) => {
                            return Err(text);
                        },
                    },
                }
            } else {
                None
            }
        },
    };
    let mask: Option<String> = match &args.output_mask {
        Some(spec) => {
            if args.multi_input {
                let dir: &String = match &args.output_dir {
                    Some(dir) => dir,
                    None => spec,
                };
                match default_mask_filename(input_path) {
                    Ok(name) => Some(join_path(dir.as_str(), name.as_str())),
                    Err(text) => {
                        return Err(text);
                    },
                }
            } else {
                Some(spec.clone())
            }
        },
        None => None,
    };
    Ok((cutout, mask))
}

/// Why a mask cannot be laid over a source image.
pub open spec fn mask_mismatch_text() -> Seq<char> {
    "mask dimensions do not match source dimensions"@
}

/// The pixels of a cutout: those of the source, four bytes each, with the
/// fourth byte of every pixel, its opacity, taken from the mask.
pub open spec fn cutout_of(source: Seq<u8>, mask: Seq<u8>) -> Seq<u8> {
    Seq::new(
        source.len(),
        |i: int|
            if i % 4 == 3 {
                mask[i / 4]
            } else {
                source[i]
            },
    )
}

/// The mask fits the source: both are of the same dimensions, and the
/// source holds four bytes for each value of the mask.
pub open spec fn mask_fits(
    source: Seq<u8>,
    source_size: (u32, u32),
    mask: Seq<u8>,
    mask_size: (u32, u32),
) -> bool {
    source_size == mask_size && source.len() == 4 * mask.len()
}

/// Lays a mask over a source image of four bytes a pixel: the cutout, or an
/// error where the mask does not fit the source.
pub fn cutout_pixels(
    source: Vec<u8>,
    source_size: (u32, u32),
    mask: &Vec<u8>,
    mask_size: (u32, u32),
) -> (r: Result<Vec<u8>, String>)
    ensures
        match r {
            Ok(cutout) => mask_fits(source@, source_size, mask@, mask_size) && cutout@
                == cutout_of(source@, mask@),
            Err(text) => !mask_fits(source@, source_size, mask@, mask_size) && text@
                == mask_mismatch_text(),
        },
{
    if source_size.0 != mask_size.0 || source_size.1 != mask_size.1 || source.len() % 4 != 0
        || source.len() / 4 != mask.len() {
        return Err("mask dimensions do not match source dimensions".to_string());
    }
    let mut cutout: Vec<u8> = source;
    let mut i: usize = 0;
    while i < mask.len()
        invariant
            i <= mask.len(),
            cutout.len() == source.len(),
            source.len() == 4 * mask.len(),
            forall|k: int|
                0 <= k < cutout.len() ==> cutout[k] == if k % 4 == 3 && k / 4 < i {
                    mask[k / 4]
                } else {
                    source[k]
                },
        decreases mask.len() - i,
    {
        cutout[4 * i + 3] = mask[i];
        i = i + 1;
    }
    assert(cutout@ =~= cutout_of(source@, mask@));
    Ok(cutout)
}

} // verus!
