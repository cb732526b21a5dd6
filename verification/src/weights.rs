//! Finding the weights file of an installed model: the revision that the
//! lockfile records for it, and the best file for a variant among the files
//! of that revision.

use vstd::prelude::*;
use crate::inference::{CoreError, ModelKind, OnnxVariant};
use crate::installer::text_views;
use crate::paths::{extension_of, path_extension};
use crate::registry::{
    model_revision_dir, revision_dir, KnownModel, ModelLock, ModelPaths, RegistryError,
};
use crate::text::{contains, contains_text, text_eq, to_lowercase, unicode_lower};

verus! {

/// How well a lower-cased path suits a variant; less is better. For half
/// precision and for `Auto` the half-precision file comes first, then the
/// full-precision file, then a quantized one. For full precision the
/// full-precision file comes first, unless the path also speaks of another
/// encoding, then the half-precision file, then a quantized one. For the
/// quantized variant a quantized file comes first, then the full-precision
/// file, then the half-precision file. A path that names none of these
/// comes last.
pub open spec fn rank_of(lower: Seq<char>, variant: OnnxVariant) -> int {
    let half = contains_text(lower, "model_fp16.onnx"@);
    let full = contains_text(lower, "model.onnx"@);
    let quantized = contains_text(lower, "quantized"@) || contains_text(lower, "q8"@);
    match variant {
        OnnxVariant::Fp32 => if full && !contains_text(lower, "fp16"@) && !contains_text(
            lower,
            "quantized"@,
        ) {
            0
        } else if half {
            1
        } else if quantized {
            2
        } else {
            3
        },
        OnnxVariant::Quantized => if quantized {
            0
        } else if full {
            1
        } else if half {
            2
        } else {
            3
        },
        _ => if half {
            0
        } else if full {
            1
        } else if quantized {
            2
        } else {
            3
        },
    }
}

pub fn variant_rank(lower: &str, variant: OnnxVariant) -> (rank: u8)
    ensures
        rank == rank_of(lower@, variant),
{
    let half: bool = contains(lower, "model_fp16.onnx");
    let full: bool = contains(lower, "model.onnx");
    let quantized: bool = contains(lower, "quantized") || contains(lower, "q8");
    match variant {
        OnnxVariant::Fp32 => {
            if full && !contains(lower, "fp16") && !contains(lower, "quantized") {
                0
            } else if half {
                1
            } else if quantized {
                2
            } else {
                3
            }
        },
        OnnxVariant::Quantized => {
            if quantized {
                0
            } else if full {
                1
            } else if half {
                2
            } else {
                3
            }
        },
        _ => {
            if half {
                0
            } else if full {
                1
            } else if quantized {
                2
            } else {
                3
            }
        },
    }
}

/// A path with the extension `onnx`, in lower case.
pub open spec fn is_onnx_path(path: Seq<char>) -> bool {
    path_extension(path) == Some("onnx"@)
}

/// Whether an extension is exactly `onnx`.
pub fn is_onnx_extension(extension: Option<&str>) -> (r: bool)
    ensures
        r == match extension {
            Some(ext) => ext@ == "onnx"@,
            None => false,
        },
{
    match extension {
        Some(ext) => text_eq(ext, "onnx"),
        None => false,
    }
}

/// The rank of a path for a variant, taken on its lower-case form.
pub open spec fn path_rank(path: Seq<char>, variant: OnnxVariant) -> int {
    rank_of(unicode_lower(path), variant)
}

/// `at` is the index of the preferred weights file among `files`: the one
/// of least rank, and the earliest of those; `None` where no file is a
/// weights file.
pub open spec fn is_preferred(files: Seq<Seq<char>>, variant: OnnxVariant, at: Option<int>) -> bool {
    match at {
        Some(w) => {
            &&& 0 <= w < files.len()
            &&& is_onnx_path(files[w])
            &&& forall|j: int|
                0 <= j < files.len() && is_onnx_path(#[trigger] files[j]) ==> path_rank(
                    files[w],
                    variant,
                ) <= path_rank(files[j], variant)
            &&& forall|j: int|
                0 <= j < w && is_onnx_path(#[trigger] files[j]) ==> path_rank(files[w], variant)
                    < path_rank(files[j], variant)
        },
        None => forall|j: int| 0 <= j < files.len() ==> !is_onnx_path(#[trigger] files[j]),
    }
}

/// The index of the preferred weights file among the files of a revision.
pub fn preferred_index(files: &Vec<String>, onnx_variant: OnnxVariant) -> (r: Option<usize>)
    ensures
        is_preferred(
            text_views(files@),
            onnx_variant,
            match r {
                Some(w) => Some(w as int),
                None => None,
            },
        ),
{
    let ghost all = text_views(files@);
    let mut best: Option<(usize, u8)> = None;
    let mut i: usize = 0;
    while i < files.len()
        invariant
            i <= files.len(),
            all == text_views(files@),
            match best {
                Some(b) => {
                    &&& b.0 < i
                    &&& b.1 == path_rank(all[b.0 as int], onnx_variant)
                    &&& is_onnx_path(all[b.0 as int])
                    &&& forall|j: int|
                        0 <= j < i && is_onnx_path(#[trigger] all[j]) ==> b.1 <= path_rank(
                            all[j],
                            onnx_variant,
                        )
                    &&& forall|j: int|
                        0 <= j < b.0 && is_onnx_path(#[trigger] all[j]) ==> b.1 < path_rank(
                            all[j],
                            onnx_variant,
                        )
                },
                None => forall|j: int| 0 <= j < i ==> !is_onnx_path(#[trigger] all[j]),
            },
        decreases files.len() - i,
    {
        assert(all[i as int] == files[i as int]@);
        let onnx: bool = match extension_of(files[i].as_str()) {
            Some(ext) => is_onnx_extension(Some(ext.as_str())),
            None => is_onnx_extension(None),
        };
        if onnx {
            let lower: String = to_lowercase(files[i].as_str());
            let rank: u8 = variant_rank(lower.as_str(), onnx_variant);
            let better: bool = match best {
                Some(b) => rank < b.1,
                None => true,
            };
            if better {
                best = Some((i, rank));
            }
        }
        i = i + 1;
    }
    match best {
        Some(b) => Some(b.0),
        None => None,
    }
}

/// The preferred weights file among the files of a revision.
pub fn find_preferred_onnx_file(files: &Vec<String>, onnx_variant: OnnxVariant) -> (r: Option<
    String,
>)
    ensures
        match r {
            Some(path) => exists|w: int|
                is_preferred(text_views(files@), onnx_variant, Some(w)) && path@ == files[w]@,
            None => is_preferred(text_views(files@), onnx_variant, None),
        },
{
    match preferred_index(files, onnx_variant) {
        Some(w) => {
            assert(is_preferred(text_views(files@), onnx_variant, Some(w as int)));
            Some(files[w].clone())
        },
        None => None,
    }
}

/// The revision that the lockfile records for a model, with its directory.
#[derive(Debug)]
pub struct LockedRevision {
    pub model_id: String,
    pub revision: String,
    pub dir: String,
}

/// The index of the first record for `model_id`.
pub open spec fn first_record(lock: ModelLock, model_id: Seq<char>, at: Option<int>) -> bool {
    match at {
        Some(i) => 0 <= i < lock.models.len() && lock.models[i].model_id@ == model_id && forall|
            k: int,
        |
            0 <= k < i ==> (#[trigger] lock.models[k]).model_id@ != model_id,
        None => forall|k: int|
            0 <= k < lock.models.len() ==> (#[trigger] lock.models[k]).model_id@ != model_id,
    }
}

/// The known model that a resolved model kind stands for.
pub open spec fn known_model(selected: ModelKind) -> Option<KnownModel> {
    match selected {
        ModelKind::Rmbg14 => Some(KnownModel::Rmbg14),
        ModelKind::Rmbg20 => Some(KnownModel::Rmbg20),
        ModelKind::Auto => None,
    }
}

/// Looks up the revision recorded for the model of a call: the first
/// record of the lockfile for it. `Auto` resolves to no model, and a model
/// without a record is not installed.
pub fn locked_revision(paths: &ModelPaths, lock: &ModelLock, selected_model: ModelKind) -> (r:
    Result<LockedRevision, CoreError>)
    ensures
        match r {
            Ok(found) => exists|i: int|
                {
                    &&& known_model(selected_model) is Some
                    &&& first_record(
                        *lock,
                        known_model(selected_model)->0.model_id_text(),
                        Some(i),
                    )
                    &&& found.model_id@ == lock.models[i].model_id@
                    &&& found.revision@ == lock.models[i].revision@
                    &&& found.dir@ == revision_dir(
                        paths.models_dir@,
                        known_model(selected_model)->0,
                        lock.models[i].revision@,
                    )
                },
            Err(e) => e is Backend && match known_model(selected_model) {
                None => e->Backend_0@ == "auto model cannot resolve onnx directly"@,
                Some(model) => first_record(*lock, model.model_id_text(), None) && e->Backend_0@
                    == "model not found in lockfile: "@ + model.model_id_text(),
            },
        },
{
    let model: KnownModel = match selected_model {
        ModelKind::Rmbg14 => KnownModel::Rmbg14,
        ModelKind::Rmbg20 => KnownModel::Rmbg20,
        ModelKind::Auto => {
            return Err(CoreError::Backend("auto model cannot resolve onnx directly".to_string()));
        },
    };
    let wanted: &str = model.model_id();
    let mut i: usize = 0;
    while i < lock.models.len()
        invariant
            i <= lock.models.len(),
            wanted@ == model.model_id_text(),
            known_model(selected_model) == Some(model),
            forall|k: int| 0 <= k < i ==> (#[trigger] lock.models[k]).model_id@ != wanted@,
        decreases lock.models.len() - i,
    {
        if text_eq(lock.models[i].model_id.as_str(), wanted) {
            let found = LockedRevision {
                model_id: lock.models[i].model_id.clone(),
                revision: lock.models[i].revision.clone(),
                dir: model_revision_dir(paths, model, lock.models[i].revision.as_str()),
            };
            assert(first_record(*lock, model.model_id_text(), Some(i as int)));
            return Ok(found);
        }
        i = i + 1;
    }
    let mut text: String = "model not found in lockfile: ".to_string();
    text.append(wanted);
    Err(CoreError::Backend(text))
}

/// The text of the error for a revision without a weights file.
pub open spec fn no_weights_text(found: LockedRevision) -> Seq<char> {
    "no .onnx file found for "@ + found.model_id@ + " revision "@ + found.revision@ + " in "@
        + found.dir@
}

/// The weights file to load for a call, among the files found in the
/// revision directory of its model; an error where there is none.
pub fn resolve_model_onnx_file(
    found: &LockedRevision,
    files: &Vec<String>,
    onnx_variant: OnnxVariant,
) -> (r: Result<String, CoreError>)
    ensures
        match r {
            Ok(path) => exists|w: int|
                is_preferred(text_views(files@), onnx_variant, Some(w)) && path@ == files[w]@,
            Err(e) => is_preferred(text_views(files@), onnx_variant, None) && e is Backend
                && e->Backend_0@ == no_weights_text(*found),
        },
{
    match find_preferred_onnx_file(files, onnx_variant) {
        Some(path) => Ok(path),
        None => {
            let mut text: String = "no .onnx file found for ".to_string();
            text.append(found.model_id.as_str());
            text.append(" revision ");
            text.append(found.revision.as_str());
            text.append(" in ");
            text.append(found.dir.as_str());
            Err(CoreError::Backend(text))
        },
    }
}

/// A registry failure as the backend reports it: by its text.
pub fn registry_failure(error: &RegistryError) -> (e: CoreError)
    ensures
        e is Backend,
        e->Backend_0@ == error.message_text(),
{
    CoreError::Backend(error.message())
}

} // verus!
