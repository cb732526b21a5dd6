//! The rules of an install: which models are meant, which need a credential,
//! which remote files belong to a revision, and what the outcome records.
//! Fetching and writing are the caller's part; every function here works on
//! what the caller has observed.

use vstd::prelude::*;
use crate::inference::OnnxVariant;
use crate::paths::{extension_of, join_path, path_extension, path_join};
use crate::registry::{
    file_views, is_merge_of, manifest_entry, merge_lock_models, model_revision_dir, model_views,
    prior_models, revision_dir, KnownModel, LockFileEntry, LockFileEntryView, LockModel,
    LockModelView, ModelLock, ModelManifest, ModelPaths,
};
use crate::text::{
    ascii_lower, contains, contains_text, ends_with, has_prefix, has_suffix, is_blank,
    is_blank_text, lemma_lex_asymmetric, lemma_lex_total, lemma_lex_transitive, lex_lt,
    push_decimal, decimal_text, starts_with, text_eq, text_lt, to_ascii_lowercase,
};

verus! {

/// The kinds of failure an install or a verification can end in.
#[derive(Debug, Clone, Copy, PartialEq, Eq, Structural)]
pub enum ErrorClass {
    /// The request cannot be served as given; trying again will not help.
    Configuration,
    /// What is on disk or on offer does not match what is recorded.
    Integrity,
    /// The source did not answer as needed; a later call may resume.
    TransientIo,
}

/// Why an install or a verification stopped.
#[derive(Debug)]
pub enum InstallError {
    ModelNotInManifest { model_id: String },
    MissingCredential { token_env: String, model_id: String },
    ListingFailed { model_id: String, revision: String, status: String },
    NoFilesListed { model_id: String, revision: String },
    DownloadFailed { file_path: String, model_id: String, revision: String, status: String },
    NoTrackedFiles { model_id: String },
    UnknownLockEntry { model_id: String },
    NoWeightsFile { revision: String, model_id: String },
    MissingBeforeLockWrite { path: String },
    UnknownLockfileModel { model_id: String },
    MissingFile { model_id: String, revision: String, path: String },
    SizeMismatch { model_id: String, revision: String, path: String, expected: u64, actual: u64 },
    ChecksumMismatch {
        model_id: String,
        revision: String,
        path: String,
        expected: String,
        actual: String,
    },
}

pub enum InstallErrorView {
    ModelNotInManifest { model_id: Seq<char> },
    MissingCredential { token_env: Seq<char>, model_id: Seq<char> },
    ListingFailed { model_id: Seq<char>, revision: Seq<char>, status: Seq<char> },
    NoFilesListed { model_id: Seq<char>, revision: Seq<char> },
    DownloadFailed {
        file_path: Seq<char>,
        model_id: Seq<char>,
        revision: Seq<char>,
        status: Seq<char>,
    },
    NoTrackedFiles { model_id: Seq<char> },
    UnknownLockEntry { model_id: Seq<char> },
    NoWeightsFile { revision: Seq<char>, model_id: Seq<char> },
    MissingBeforeLockWrite { path: Seq<char> },
    UnknownLockfileModel { model_id: Seq<char> },
    MissingFile { model_id: Seq<char>, revision: Seq<char>, path: Seq<char> },
    SizeMismatch {
        model_id: Seq<char>,
        revision: Seq<char>,
        path: Seq<char>,
        expected: u64,
        actual: u64,
    },
    ChecksumMismatch {
        model_id: Seq<char>,
        revision: Seq<char>,
        path: Seq<char>,
        expected: Seq<char>,
        actual: Seq<char>,
    },
}

impl View for InstallError {
    type V = InstallErrorView;

    open spec fn view(&self) -> InstallErrorView {
        match *self {
            InstallError::ModelNotInManifest { model_id } => InstallErrorView::ModelNotInManifest {
                model_id: model_id@,
            },
            InstallError::MissingCredential {
                token_env,
                model_id,
            } => InstallErrorView::MissingCredential {
                token_env: token_env@,
                model_id: model_id@,
            },
            InstallError::ListingFailed {
                model_id,
                revision,
                status,
            } => InstallErrorView::ListingFailed {
                model_id: model_id@,
                revision: revision@,
                status: status@,
            },
            InstallError::NoFilesListed { model_id, revision } => InstallErrorView::NoFilesListed {
                model_id: model_id@,
                revision: revision@,
            },
            InstallError::DownloadFailed {
                file_path,
                model_id,
                revision,
                status,
            } => InstallErrorView::DownloadFailed {
                file_path: file_path@,
                model_id: model_id@,
                revision: revision@,
                status: status@,
            },
            InstallError::NoTrackedFiles { model_id } => InstallErrorView::NoTrackedFiles {
                model_id: model_id@,
            },
            InstallError::UnknownLockEntry { model_id } => InstallErrorView::UnknownLockEntry {
                model_id: model_id@,
            },
            InstallError::NoWeightsFile { revision, model_id } => InstallErrorView::NoWeightsFile {
                revision: revision@,
                model_id: model_id@,
            },
            InstallError::MissingBeforeLockWrite {
                path,
            } => InstallErrorView::MissingBeforeLockWrite { path: path@ },
            InstallError::UnknownLockfileModel {
                model_id,
            } => InstallErrorView::UnknownLockfileModel { model_id: model_id@ },
            InstallError::MissingFile { model_id, revision, path } => InstallErrorView::MissingFile {
                model_id: model_id@,
                revision: revision@,
                path: path@,
            },
            InstallError::SizeMismatch {
                model_id,
                revision,
                path,
                expected,
                actual,
            } => InstallErrorView::SizeMismatch {
                model_id: model_id@,
                revision: revision@,
                path: path@,
                expected,
                actual,
            },
            InstallError::ChecksumMismatch {
                model_id,
                revision,
                path,
                expected,
                actual,
            } => InstallErrorView::ChecksumMismatch {
                model_id: model_id@,
                revision: revision@,
                path: path@,
                expected: expected@,
                actual: actual@,
            },
        }
    }
}

impl InstallErrorView {
    /// The kind of failure.
    pub open spec fn class(self) -> ErrorClass {
        match self {
            InstallErrorView::ModelNotInManifest { .. } => ErrorClass::Configuration,
            InstallErrorView::MissingCredential { .. } => ErrorClass::Configuration,
            InstallErrorView::ListingFailed { .. } => ErrorClass::TransientIo,
            InstallErrorView::DownloadFailed { .. } => ErrorClass::TransientIo,
            _ => ErrorClass::Integrity,
        }
    }

    /// The text shown for the failure.
    pub open spec fn message_text(self) -> Seq<char> {
        match self {
            InstallErrorView::ModelNotInManifest { model_id } => "model not found in manifest: "@
                + model_id,
            InstallErrorView::MissingCredential { token_env, model_id } => "missing "@ + token_env
                + " for gated model "@ + model_id,
            InstallErrorView::ListingFailed {
                model_id,
                revision,
                status,
            } => "failed to list files for "@ + model_id + "@"@ + revision + ": "@ + status,
            InstallErrorView::NoFilesListed { model_id, revision } => "no files listed for "@
                + model_id + "@"@ + revision,
            InstallErrorView::DownloadFailed {
                file_path,
                model_id,
                revision,
                status,
            } => "failed downloading "@ + file_path + " for "@ + model_id + "@"@ + revision + ": "@
                + status,
            InstallErrorView::NoTrackedFiles { model_id } => "model "@ + model_id
                + " has no tracked files"@,
            InstallErrorView::UnknownLockEntry {
                model_id,
            } => "unknown model id in lock entries: "@ + model_id,
            InstallErrorView::NoWeightsFile { revision, model_id } => "revision "@ + revision
                + " for "@ + model_id + " has no onnx file"@,
            InstallErrorView::MissingBeforeLockWrite {
                path,
            } => "missing file before lock write: "@ + path,
            InstallErrorView::UnknownLockfileModel {
                model_id,
            } => "unknown model id in lockfile: "@ + model_id,
            InstallErrorView::MissingFile { model_id, revision, path } => "missing file for "@
                + model_id + "@"@ + revision + ": "@ + path,
            InstallErrorView::SizeMismatch {
                model_id,
                revision,
                path,
                expected,
                actual,
            } => "size mismatch for "@ + model_id + "@"@ + revision + " "@ + path + ": expected "@
                + decimal_text(expected as nat) + ", got "@ + decimal_text(actual as nat),
            InstallErrorView::ChecksumMismatch {
                model_id,
                revision,
                path,
                expected,
                actual,
            } => "checksum mismatch for "@ + model_id + "@"@ + revision + " "@ + path
                + ": expected "@ + expected + ", got "@ + actual,
        }
    }
}

impl InstallError {
    /// The kind of failure.
    pub fn class(&self) -> (c: ErrorClass)
        ensures
            c == self@.class(),
    {
        match self {
            InstallError::ModelNotInManifest { .. } => ErrorClass::Configuration,
            InstallError::MissingCredential { .. } => ErrorClass::Configuration,
            InstallError::ListingFailed { .. } => ErrorClass::TransientIo,
            InstallError::DownloadFailed { .. } => ErrorClass::TransientIo,
            _ => ErrorClass::Integrity,
        }
    }

    /// The text shown for the failure.
    pub fn message(&self) -> (r: String)
        ensures
            r@ == self@.message_text(),
    {
        match self {
            InstallError::ModelNotInManifest { model_id } => {
                let mut out: String = "model not found in manifest: ".to_string();
                out.append(model_id.as_str());
                out
            },
            InstallError::MissingCredential { token_env, model_id } => {
                let mut out: String = "missing ".to_string();
                out.append(token_env.as_str());
                out.append(" for gated model ");
                out.append(model_id.as_str());
                out
            },
            InstallError::ListingFailed { model_id, revision, status } => {
                let mut out: String = "failed to list files for ".to_string();
                out.append(model_id.as_str());
                out.append("@");
                out.append(revision.as_str());
                out.append(": ");
                out.append(status.as_str());
                out
            },
            InstallError::NoFilesListed { model_id, revision } => {
                let mut out: String = "no files listed for ".to_string();
                out.append(model_id.as_str());
                out.append("@");
                out.append(revision.as_str());
                out
            },
            InstallError::DownloadFailed { file_path, model_id, revision, status } => {
                let mut out: String = "failed downloading ".to_string();
                out.append(file_path.as_str());
                out.append(" for ");
                out.append(model_id.as_str());
                out.append("@");
                out.append(revision.as_str());
                out.append(": ");
                out.append(status.as_str());
                out
            },
            InstallError::NoTrackedFiles { model_id } => {
                let mut out: String = "model ".to_string();
                out.append(model_id.as_str());
                out.append(" has no tracked files");
                out
            },
            InstallError::UnknownLockEntry { model_id } => {
                let mut out: String = "unknown model id in lock entries: ".to_string();
                out.append(model_id.as_str());
                out
            },
            InstallError::NoWeightsFile { revision, model_id } => {
                let mut out: String = "revision ".to_string();
                out.append(revision.as_str());
                out.append(" for ");
                out.append(model_id.as_str());
                out.append(" has no onnx file");
                out
            },
            InstallError::MissingBeforeLockWrite { path } => {
                let mut out: String = "missing file before lock write: ".to_string();
                out.append(path.as_str());
                out
            },
            InstallError::UnknownLockfileModel { model_id } => {
                let mut out: String = "unknown model id in lockfile: ".to_string();
                out.append(model_id.as_str());
                out
            },
            InstallError::MissingFile { model_id, revision, path } => {
                let mut out: String = "missing file for ".to_string();
                out.append(model_id.as_str());
                out.append("@");
                out.append(revision.as_str());
                out.append(": ");
                out.append(path.as_str());
                out
            },
            InstallError::SizeMismatch { model_id, revision, path, expected, actual } => {
                let mut out: String = "size mismatch for ".to_string();
                out.append(model_id.as_str());
                out.append("@");
                out.append(revision.as_str());
                out.append(" ");
                out.append(path.as_str());
                out.append(": expected ");
                push_decimal(&mut out, *expected);
                out.append(", got ");
                push_decimal(&mut out, *actual);
                out
            },
            InstallError::ChecksumMismatch { model_id, revision, path, expected, actual } => {
                let mut out: String = "checksum mismatch for ".to_string();
                out.append(model_id.as_str());
                out.append("@");
                out.append(revision.as_str());
                out.append(" ");
                out.append(path.as_str());
                out.append(": expected ");
                out.append(expected.as_str());
                out.append(", got ");
                out.append(actual.as_str());
                out
            },
        }
    }
}

/// What a caller asks of an install.
#[derive(Debug)]
pub struct InstallRequest {
    pub model_dir: Option<String>,
    pub install_all: bool,
    pub models: Vec<KnownModel>,
    pub hf_token_env: String,
    pub revision_rmbg14: String,
    pub revision_rmbg20: String,
    pub verify_only: bool,
    pub onnx_variant: OnnxVariant,
}

/// What an install reports back.
#[derive(Debug)]
pub struct InstallReport {
    pub model_dir: String,
    pub installed: Vec<String>,
    pub skipped: Vec<String>,
    pub lockfile_written: bool,
}

/// The views of a list of texts.
pub open spec fn text_views(texts: Seq<String>) -> Seq<Seq<char>> {
    Seq::new(texts.len(), |i: int| texts[i]@)
}

/// The models an install is for: every known model where all are asked for
/// or none is named, else the named ones in the order given.
pub open spec fn target_models(install_all: bool, models: Seq<KnownModel>) -> Seq<KnownModel> {
    if install_all || models.len() == 0 {
        seq![KnownModel::Rmbg14, KnownModel::Rmbg20]
    } else {
        models
    }
}

pub fn install_targets(request: &InstallRequest) -> (targets: Vec<KnownModel>)
    ensures
        targets@ == target_models(request.install_all, request.models@),
{
    let mut targets: Vec<KnownModel> = Vec::new();
    if request.install_all || request.models.len() == 0 {
        let all: [KnownModel; 2] = KnownModel::all();
        targets.push(all[0]);
        targets.push(all[1]);
        assert(targets@ =~= seq![KnownModel::Rmbg14, KnownModel::Rmbg20]);
    } else {
        let mut i: usize = 0;
        while i < request.models.len()
            invariant
                i <= request.models.len(),
                targets@ == request.models@.take(i as int),
            decreases request.models.len() - i,
        {
            targets.push(request.models[i]);
            assert(request.models@.take(i + 1) =~= request.models@.take(i as int).push(
                request.models@[i as int],
            ));
            i = i + 1;
        }
        assert(request.models@.take(i as int) =~= request.models@);
    }
    targets
}

/// The revision a request names for a model.
pub fn requested_revision(request: &InstallRequest, model: KnownModel) -> (revision: &String)
    ensures
        *revision == match model {
            KnownModel::Rmbg14 => request.revision_rmbg14,
            KnownModel::Rmbg20 => request.revision_rmbg20,
        },
{
    match model {
        KnownModel::Rmbg14 => &request.revision_rmbg14,
        KnownModel::Rmbg20 => &request.revision_rmbg20,
    }
}

/// A credential counts only if it is more than white space.
pub fn usable_token(raw: Option<String>) -> (token: Option<String>)
    ensures
        token == match raw {
            Some(t) => if is_blank_text(t@) {
                None
            } else {
                Some(t)
            },
            None => None,
        },
{
    match raw {
        Some(t) => {
            if is_blank(t.as_str()) {
                None
            } else {
                Some(t)
            }
        },
        None => None,
    }
}

/// Whether the manifest marks `model_id` as gated: the answer of the last
/// entry for it, or `None` where it has no entry.
pub open spec fn gated_in(manifest: Seq<ModelManifest>, model_id: Seq<char>) -> Option<bool>
    decreases manifest.len(),
{
    if manifest.len() == 0 {
        None
    } else if manifest.last().model_id@ == model_id {
        Some(manifest.last().gated)
    } else {
        gated_in(manifest.drop_last(), model_id)
    }
}

/// Why a target cannot be installed as things stand, if it cannot: it has no
/// manifest entry, or it is gated and there is no credential.
pub open spec fn target_refusal(
    model: KnownModel,
    manifest: Seq<ModelManifest>,
    token_env: Seq<char>,
    has_token: bool,
) -> Option<InstallErrorView> {
    match gated_in(manifest, model.model_id_text()) {
        None => Some(InstallErrorView::ModelNotInManifest { model_id: model.model_id_text() }),
        Some(gated) => if gated && !has_token {
            Some(
                InstallErrorView::MissingCredential {
                    token_env,
                    model_id: model.model_id_text(),
                },
            )
        } else {
            None
        },
    }
}

/// Looks a model up in the manifest.
fn lookup_gated(manifest: &Vec<ModelManifest>, model_id: &str) -> (r: Option<bool>)
    ensures
        r == gated_in(manifest@, model_id@),
{
    let mut i: usize = manifest.len();
    assert(manifest@.take(i as int) =~= manifest@);
    while i > 0
        invariant
            i <= manifest.len(),
            gated_in(manifest@, model_id@) == gated_in(manifest@.take(i as int), model_id@),
        decreases i,
    {
        let ghost prefix = manifest@.take(i as int);
        assert(prefix.last() == manifest@[i - 1]);
        assert(prefix.drop_last() =~= manifest@.take(i - 1));
        if text_eq(manifest[i - 1].model_id.as_str(), model_id) {
            return Some(manifest[i - 1].gated);
        }
        i = i - 1;
    }
    assert(manifest@.take(0).len() == 0);
    None
}

/// Refuses the whole batch, before anything is fetched, for the first target
/// that has no manifest entry or that is gated while no credential is at
/// hand; accepts it where no target is refused.
pub fn require_gated_token_if_needed(
    targets: &[KnownModel],
    manifest: &Vec<ModelManifest>,
    token_env: &str,
    token: Option<&str>,
) -> (r: Result<(), InstallError>)
    ensures
        match r {
            Ok(_) => forall|i: int|
                0 <= i < targets.len() ==> target_refusal(
                    #[trigger] targets[i],
                    manifest@,
                    token_env@,
                    token is Some,
                ) is None,
            Err(e) => exists|i: int|
                0 <= i < targets.len() && target_refusal(
                    #[trigger] targets[i],
                    manifest@,
                    token_env@,
                    token is Some,
                ) == Some(e@) && forall|k: int|
                    0 <= k < i ==> target_refusal(
                        #[trigger] targets[k],
                        manifest@,
                        token_env@,
                        token is Some,
                    ) is None,
        },
{
    let mut i: usize = 0;
    while i < targets.len()
        invariant
            i <= targets.len(),
            forall|k: int|
                0 <= k < i ==> target_refusal(
                    #[trigger] targets[k],
                    manifest@,
                    token_env@,
                    token is Some,
                ) is None,
        decreases targets.len() - i,
    {
        let model_id: &str = targets[i].model_id();
        match lookup_gated(manifest, model_id) {
            None => {
                let e = InstallError::ModelNotInManifest { model_id: model_id.to_string() };
                assert(target_refusal(targets[i as int], manifest@, token_env@, token is Some)
                    == Some(e@));
                return Err(e);
            },
            Some(gated) => {
                if gated && token.is_none() {
                    let e = InstallError::MissingCredential {
                        token_env: token_env.to_string(),
                        model_id: model_id.to_string(),
                    };
                    assert(target_refusal(targets[i as int], manifest@, token_env@, token is Some)
                        == Some(e@));
                    return Err(e);
                }
            },
        }
        i = i + 1;
    }
    Ok(())
}

/// Under the built-in manifest, and with no credential at hand, the smaller
/// model is never refused and the larger model always is, by an error of the
/// configuration class that names it; with a credential neither is refused.
pub proof fn lemma_gating_of_known_models(
    manifest: Seq<ModelManifest>,
    model: KnownModel,
    token_env: Seq<char>,
    has_token: bool,
)
    requires
        manifest.len() == 2,
        manifest_entry(KnownModel::Rmbg14, manifest[0]),
        manifest_entry(KnownModel::Rmbg20, manifest[1]),
    ensures
        target_refusal(model, manifest, token_env, has_token) == if model == KnownModel::Rmbg20
            && !has_token {
            Some(
                InstallErrorView::MissingCredential {
                    token_env,
                    model_id: KnownModel::Rmbg20.model_id_text(),
                },
            )
        } else {
            None
        },
        target_refusal(model, manifest, token_env, has_token) is Some ==> target_refusal(
            model,
            manifest,
            token_env,
            has_token,
        )->0.class() == ErrorClass::Configuration,
{
    crate::registry::lemma_model_id_round_trip(KnownModel::Rmbg14);
    crate::registry::lemma_model_id_round_trip(KnownModel::Rmbg20);
    reveal_with_fuel(gated_in, 3);
    let id = model.model_id_text();
    let front = manifest.drop_last();
    assert(manifest.last() == manifest[1]);
    assert(front.last() == manifest[0]);
    assert(front.drop_last().len() == 0);
    assert(gated_in(front.drop_last(), id) is None);
    assert(gated_in(front, id) == if manifest[0].model_id@ == id {
        Some(manifest[0].gated)
    } else {
        None::<bool>
    });
}

/// Admits an install under the built-in manifest, before anything is
/// fetched: the targets of the request, or the refusal of the whole batch.
/// With a credential at hand every install is admitted. Without one, an
/// install is admitted if and only if the larger model, the one gated model,
/// is not among its targets; otherwise it fails with the configuration
/// error that names that model and the variable that should hold the
/// credential.
pub fn admit_install(request: &InstallRequest, token: Option<&str>) -> (r: Result<
    Vec<KnownModel>,
    InstallError,
>)
    ensures
        match r {
            Ok(targets) => {
                &&& targets@ == target_models(request.install_all, request.models@)
                &&& token is Some || !targets@.contains(KnownModel::Rmbg20)
            },
            Err(e) => {
                &&& token is None
                &&& target_models(request.install_all, request.models@).contains(KnownModel::Rmbg20)
                &&& e@ == (InstallErrorView::MissingCredential {
                    token_env: request.hf_token_env@,
                    model_id: KnownModel::Rmbg20.model_id_text(),
                })
                &&& e@.class() == ErrorClass::Configuration
            },
        },
{
    let targets: Vec<KnownModel> = install_targets(request);
    let manifest: Vec<ModelManifest> = crate::registry::built_in_manifest();
    proof {
        assert forall|i: int| 0 <= i < targets.len() implies target_refusal(
            #[trigger] targets[i],
            manifest@,
            request.hf_token_env@,
            token is Some,
        ) == if targets[i] == KnownModel::Rmbg20 && token is None {
            Some(
                InstallErrorView::MissingCredential {
                    token_env: request.hf_token_env@,
                    model_id: KnownModel::Rmbg20.model_id_text(),
                },
            )
        } else {
            None::<InstallErrorView>
        } by {
            lemma_gating_of_known_models(manifest@, targets[i], request.hf_token_env@, token is Some);
        }
    }
    match require_gated_token_if_needed(
        targets.as_slice(),
        &manifest,
        request.hf_token_env.as_str(),
        token,
    ) {
        Ok(_) => {
            proof {
                if token is None && targets@.contains(KnownModel::Rmbg20) {
                    let i = choose|i: int| 0 <= i < targets.len() && targets[i] == KnownModel::Rmbg20;
                    assert(target_refusal(
                        targets[i],
                        manifest@,
                        request.hf_token_env@,
                        token is Some,
                    ) is None);
                }
            }
            Ok(targets)
        },
        Err(e) => {
            proof {
                let i = choose|i: int|
                    0 <= i < targets.len() && target_refusal(
                        #[trigger] targets[i],
                        manifest@,
                        request.hf_token_env@,
                        token is Some,
                    ) == Some(e@);
                assert(targets[i] == KnownModel::Rmbg20);
                assert(targets@.contains(KnownModel::Rmbg20));
            }
            Err(e)
        },
    }
}

/// What to do for one target, from what its revision directory holds.
#[derive(Debug, Clone, Copy, PartialEq, Eq, Structural)]
pub enum TargetAction {
    /// The revision is there with a weights file: fetch nothing, and record
    /// the files as they are on disk.
    Skip,
    /// The directory is there without a weights file, left by an install
    /// that did not finish: remove it, then fetch.
    Redownload,
    /// Nothing is there: fetch.
    Download,
}

pub fn plan_target(dir_exists: bool, has_weights: bool) -> (action: TargetAction)
    ensures
        action == if !dir_exists {
            TargetAction::Download
        } else if has_weights {
            TargetAction::Skip
        } else {
            TargetAction::Redownload
        },
{
    if !dir_exists {
        TargetAction::Download
    } else if has_weights {
        TargetAction::Skip
    } else {
        TargetAction::Redownload
    }
}

/// An extension that marks a weights file: `onnx` in any ASCII case.
pub open spec fn is_weights_extension_text(extension: Option<Seq<char>>) -> bool {
    match extension {
        Some(ext) => ascii_lower(ext) == "onnx"@,
        None => false,
    }
}

pub fn is_weights_extension(extension: Option<&str>) -> (r: bool)
    ensures
        r == is_weights_extension_text(
            match extension {
                Some(ext) => Some(ext@),
                None => None,
            },
        ),
{
    match extension {
        Some(ext) => {
            let lower: String = to_ascii_lowercase(ext);
            text_eq(lower.as_str(), "onnx")
        },
        None => false,
    }
}

/// Some path of the listing has a weights extension.
pub open spec fn holds_weights(listing: Seq<Seq<char>>) -> bool {
    exists|i: int|
        0 <= i < listing.len() && is_weights_extension_text(path_extension(#[trigger] listing[i]))
}

/// Whether a listing of a revision directory holds a weights file.
pub fn has_onnx_file(files: &Vec<String>) -> (r: bool)
    ensures
        r == holds_weights(text_views(files@)),
{
    let ghost listing = text_views(files@);
    let mut i: usize = 0;
    while i < files.len()
        invariant
            i <= files.len(),
            listing == text_views(files@),
            forall|k: int|
                0 <= k < i ==> !is_weights_extension_text(path_extension(#[trigger] listing[k])),
        decreases files.len() - i,
    {
        assert(listing[i as int] == files[i as int]@);
        let found: bool = match extension_of(files[i].as_str()) {
            Some(ext) => is_weights_extension(Some(ext.as_str())),
            None => is_weights_extension(None),
        };
        if found {
            return true;
        }
        i = i + 1;
    }
    false
}

/// A remote path that holds weights: under `onnx/` and ending in `.onnx`.
pub open spec fn is_remote_weights(path: Seq<char>) -> bool {
    has_prefix(path, "onnx/"@) && has_suffix(path, ".onnx"@)
}

/// A remote weights path whose lower-case form contains `needle`.
pub open spec fn names_variant(path: Seq<char>, needle: Seq<char>) -> bool {
    is_remote_weights(path) && contains_text(ascii_lower(path), needle)
}

/// The first path in text order among those of `files` that name `needle`.
pub open spec fn least_named(files: Seq<Seq<char>>, needle: Seq<char>) -> Option<Seq<char>>
    decreases files.len(),
{
    if files.len() == 0 {
        None
    } else {
        let rest = least_named(files.drop_last(), needle);
        let f = files.last();
        if names_variant(f, needle) && (rest is None || lex_lt(f, rest->0)) {
            Some(f)
        } else {
            rest
        }
    }
}

/// `least_named` is what its name says: a path of the list that names the
/// needle and that no other such path of the list precedes; or nothing,
/// where no path of the list names the needle.
pub proof fn lemma_least_named_is_least(files: Seq<Seq<char>>, needle: Seq<char>)
    ensures
        match least_named(files, needle) {
            Some(f) => {
                &&& files.contains(f)
                &&& names_variant(f, needle)
                &&& forall|i: int|
                    0 <= i < files.len() && names_variant(#[trigger] files[i], needle) ==> !lex_lt(
                        files[i],
                        f,
                    )
            },
            None => forall|i: int| 0 <= i < files.len() ==> !names_variant(#[trigger] files[i], needle),
        },
    decreases files.len(),
{
    if files.len() > 0 {
        let front = files.drop_last();
        let f = files.last();
        lemma_least_named_is_least(front, needle);
        let rest = least_named(front, needle);
        assert(forall|i: int| 0 <= i < front.len() ==> front[i] == files[i]);
        assert(files[files.len() - 1] == f);
        match least_named(files, needle) {
            Some(best) => {
                if rest is Some && best == rest->0 {
                    let k = choose|k: int| 0 <= k < front.len() && front[k] == best;
                    assert(files[k] == best);
                    if names_variant(f, needle) {
                        assert(!lex_lt(f, best));
                    }
                } else {
                    assert(best == f);
                    assert forall|i: int|
                        0 <= i < files.len() && names_variant(
                            #[trigger] files[i],
                            needle,
                        ) implies !lex_lt(files[i], f) by {
                        if i < front.len() {
                            assert(rest is Some);
                            assert(!lex_lt(files[i], rest->0));
                            if lex_lt(files[i], f) {
                                lemma_lex_transitive(files[i], f, rest->0);
                            }
                        } else {
                            crate::text::lemma_lex_irreflexive(f);
                        }
                    }
                }
            },
            None => {},
        }
    }
}

fn names(path: &str, needle: &str) -> (r: bool)
    ensures
        r == names_variant(path@, needle@),
{
    if !starts_with(path, "onnx/") || !ends_with(path, ".onnx") {
        return false;
    }
    let lower: String = to_ascii_lowercase(path);
    contains(lower.as_str(), needle)
}

/// The index of the first path in text order that names `needle`: a path
/// that names it and that no other such path of the list precedes, or
/// `None` where no path of the list names it.
pub fn pick(files: &[String], needle: &str) -> (r: Option<usize>)
    ensures
        match r {
            Some(i) => {
                &&& i < files.len()
                &&& least_named(text_views(files@), needle@) == Some(files[i as int]@)
                &&& names_variant(files[i as int]@, needle@)
                &&& forall|k: int|
                    0 <= k < files.len() && names_variant(#[trigger] files[k]@, needle@)
                        ==> !lex_lt(files[k]@, files[i as int]@)
            },
            None => least_named(text_views(files@), needle@) is None && forall|k: int|
                0 <= k < files.len() ==> !names_variant(#[trigger] files[k]@, needle@),
        },
{
    let ghost all = text_views(files@);
    proof {
        lemma_least_named_is_least(all, needle@);
        assert(forall|k: int| 0 <= k < files.len() ==> all[k] == #[trigger] files[k]@);
    }
    let mut best: Option<usize> = None;
    let mut i: usize = 0;
    while i < files.len()
        invariant
            i <= files.len(),
            all == text_views(files@),
            match best {
                Some(b) => b < i && least_named(all.take(i as int), needle@) == Some(
                    files[b as int]@,
                ),
                None => least_named(all.take(i as int), needle@) is None,
            },
        decreases files.len() - i,
    {
        proof {
            let grown = all.take(i + 1);
            assert(grown.drop_last() =~= all.take(i as int));
            assert(grown.last() == files[i as int]@);
        }
        if names(files[i].as_str(), needle) {
            let better: bool = match best {
                Some(b) => text_lt(files[i].as_str(), files[b].as_str()),
                None => true,
            };
            if better {
                best = Some(i);
            }
        }
        i = i + 1;
    }
    assert(all.take(i as int) =~= all);
    best
}

/// The first of two options that holds something.
pub open spec fn or_else<T>(a: Option<T>, b: Option<T>) -> Option<T> {
    if a is Some {
        a
    } else {
        b
    }
}

/// The one weights file to fetch for a variant: the one that names the
/// variant, else the default full-precision file, else any weights file;
/// among several, the first in text order. The quantized variant goes by
/// either of its two names. For full precision the variant and the default
/// are the same file, and of any other the half-precision file comes first.
pub open spec fn preferred_weights(files: Seq<Seq<char>>, variant: OnnxVariant) -> Option<
    Seq<char>,
> {
    let any = least_named(files, ""@);
    let full = least_named(files, "model.onnx"@);
    match variant {
        OnnxVariant::Fp32 => or_else(or_else(full, least_named(files, "fp16"@)), any),
        OnnxVariant::Quantized => or_else(
            or_else(or_else(least_named(files, "quantized"@), least_named(files, "q8"@)), full),
            any,
        ),
        _ => or_else(or_else(least_named(files, "fp16"@), full), any),
    }
}

/// A companion file, listed once if the remote listing has it.
pub open spec fn companion(files: Seq<Seq<char>>, name: Seq<char>) -> Seq<Seq<char>> {
    if files.contains(name) {
        seq![name]
    } else {
        Seq::empty()
    }
}

/// The files to fetch for a revision: the preferred weights file, if there is
/// one, then the two configuration files as far as the listing has them.
pub open spec fn selected_files(files: Seq<Seq<char>>, variant: OnnxVariant) -> Seq<Seq<char>> {
    (match preferred_weights(files, variant) {
        Some(f) => seq![f],
        None => Seq::empty(),
    }) + companion(files, "config.json"@) + companion(files, "preprocessor_config.json"@)
}

fn lists(files: &[String], name: &str) -> (r: bool)
    ensures
        r == text_views(files@).contains(name@),
{
    let mut i: usize = 0;
    while i < files.len()
        invariant
            i <= files.len(),
            forall|k: int| 0 <= k < i ==> text_views(files@)[k] != name@,
        decreases files.len() - i,
    {
        if text_eq(files[i].as_str(), name) {
            assert(text_views(files@)[i as int] == name@);
            return true;
        }
        i = i + 1;
    }
    false
}

/// The pick for the first of three needles that has one, else for any
/// weights file.
pub open spec fn picked_in_turn(
    files: Seq<Seq<char>>,
    first: Seq<char>,
    second: Seq<char>,
    third: Seq<char>,
) -> Option<Seq<char>> {
    or_else(
        or_else(or_else(least_named(files, first), least_named(files, second)), least_named(files, third)),
        least_named(files, ""@),
    )
}

fn pick_in_turn(files: &[String], first: &str, second: &str, third: &str) -> (r: Option<usize>)
    ensures
        match r {
            Some(i) => i < files.len() && Some(files[i as int]@) == picked_in_turn(
                text_views(files@),
                first@,
                second@,
                third@,
            ),
            None => picked_in_turn(text_views(files@), first@, second@, third@) is None,
        },
{
    match pick(files, first) {
        Some(i) => Some(i),
        None => match pick(files, second) {
            Some(i) => Some(i),
            None => match pick(files, third) {
                Some(i) => Some(i),
                None => pick(files, ""),
            },
        },
    }
}

pub fn filter_model_files_for_variant(all_files: &[String], onnx_variant: OnnxVariant) -> (out:
    Vec<String>)
    ensures
        text_views(out@) == selected_files(text_views(all_files@), onnx_variant),
{
    let preferred: Option<usize> = match onnx_variant {
        OnnxVariant::Fp32 => pick_in_turn(all_files, "model.onnx", "fp16", ""),
        OnnxVariant::Quantized => pick_in_turn(all_files, "quantized", "q8", "model.onnx"),
        _ => pick_in_turn(all_files, "fp16", "model.onnx", ""),
    };
    let mut out: Vec<String> = Vec::new();
    if let Some(i) = preferred {
        out.push(all_files[i].clone());
    }
    if lists(all_files, "config.json") {
        out.push("config.json".to_string());
    }
    if lists(all_files, "preprocessor_config.json") {
        out.push("preprocessor_config.json".to_string());
    }
    assert(text_views(out@) =~= selected_files(text_views(all_files@), onnx_variant));
    out
}


/// The records are in ascending order of path.
pub open spec fn paths_ascending(files: Seq<LockFileEntryView>) -> bool {
    forall|i: int, j: int|
        #![trigger files[i], files[j]]
        0 <= i < j < files.len() ==> !lex_lt(files[j].path, files[i].path)
}

/// `entry` put into `sorted` behind every record whose path does not come
/// after its own.
pub open spec fn inserted_by_path(
    sorted: Seq<LockFileEntryView>,
    entry: LockFileEntryView,
) -> Seq<LockFileEntryView>
    decreases sorted.len(),
{
    if sorted.len() == 0 {
        seq![entry]
    } else if lex_lt(entry.path, sorted.last().path) {
        inserted_by_path(sorted.drop_last(), entry).push(sorted.last())
    } else {
        sorted.push(entry)
    }
}

/// The records in ascending order of path; records with the same path keep
/// the order they came in.
pub open spec fn sorted_by_path(files: Seq<LockFileEntryView>) -> Seq<LockFileEntryView>
    decreases files.len(),
{
    if files.len() == 0 {
        Seq::empty()
    } else {
        inserted_by_path(sorted_by_path(files.drop_last()), files.last())
    }
}

proof fn lemma_lt_le(a: Seq<char>, b: Seq<char>, c: Seq<char>)
    requires
        lex_lt(a, b),
        !lex_lt(c, b),
    ensures
        lex_lt(a, c),
{
    lemma_lex_total(b, c);
    if lex_lt(b, c) {
        lemma_lex_transitive(a, b, c);
    }
}

/// Where `inserted_by_path` puts a record.
proof fn lemma_inserted_position(sorted: Seq<LockFileEntryView>, entry: LockFileEntryView) -> (at:
    int)
    ensures
        0 <= at <= sorted.len(),
        inserted_by_path(sorted, entry) == sorted.insert(at, entry),
        forall|k: int| at <= k < sorted.len() ==> lex_lt(entry.path, (#[trigger] sorted[k]).path),
        at > 0 ==> !lex_lt(entry.path, sorted[at - 1].path),
    decreases sorted.len(),
{
    if sorted.len() == 0 {
        assert(seq![entry] =~= sorted.insert(0, entry));
        0
    } else if lex_lt(entry.path, sorted.last().path) {
        let front = sorted.drop_last();
        let at = lemma_inserted_position(front, entry);
        assert(front.insert(at, entry).push(sorted.last()) =~= sorted.insert(at, entry));
        assert forall|k: int| at <= k < sorted.len() implies lex_lt(
            entry.path,
            (#[trigger] sorted[k]).path,
        ) by {
            if k < front.len() {
                assert(front[k] == sorted[k]);
            }
        }
        if at > 0 {
            assert(front[at - 1] == sorted[at - 1]);
        }
        at
    } else {
        assert(sorted.push(entry) =~= sorted.insert(sorted.len() as int, entry));
        sorted.len() as int
    }
}

/// Sorting by path rearranges the records and loses none: the result is in
/// ascending order of path and holds each record as often as the input.
pub proof fn lemma_sorted_by_path(files: Seq<LockFileEntryView>)
    ensures
        paths_ascending(sorted_by_path(files)),
        sorted_by_path(files).to_multiset() == files.to_multiset(),
        sorted_by_path(files).len() == files.len(),
    decreases files.len(),
{
    broadcast use vstd::seq_lib::to_multiset_insert, vstd::seq_lib::to_multiset_build;

    if files.len() == 0 {
        assert(sorted_by_path(files) =~= files);
    } else {
        let front = files.drop_last();
        let entry = files.last();
        lemma_sorted_by_path(front);
        let sorted = sorted_by_path(front);
        let at = lemma_inserted_position(sorted, entry);
        let after = sorted.insert(at, entry);
        assert(files =~= front.push(entry));
        assert(after.to_multiset() == sorted.to_multiset().insert(entry));
        assert(files.to_multiset() == front.to_multiset().insert(entry));
        assert forall|i: int, j: int|
            #![trigger after[i], after[j]]
            0 <= i < j < after.len() implies !lex_lt(after[j].path, after[i].path) by {
            if j == at {
                assert(after[i] == sorted[i]);
                if i < at - 1 {
                    assert(!lex_lt(sorted[at - 1].path, sorted[i].path));
                }
                if lex_lt(entry.path, sorted[i].path) {
                    lemma_lt_le(entry.path, sorted[i].path, sorted[at - 1].path);
                }
            } else if i == at {
                assert(after[j] == sorted[j - 1]);
                lemma_lex_asymmetric(entry.path, sorted[j - 1].path);
            } else {
                let si = if i < at {
                    i
                } else {
                    i - 1
                };
                let sj = if j < at {
                    j
                } else {
                    j - 1
                };
                assert(after[i] == sorted[si] && after[j] == sorted[sj]);
                assert(!lex_lt(sorted[sj].path, sorted[si].path));
            }
        }
    }
}

/// Puts `entry` into `out`, which is in ascending order of path.
fn insert_by_path(out: &mut Vec<LockFileEntry>, entry: LockFileEntry)
    ensures
        file_views(final(out)@) == inserted_by_path(file_views(old(out)@), entry@),
{
    let ghost before = file_views(out@);
    let ghost ev = entry@;
    let mut at: usize = out.len();
    while at > 0 && text_lt(entry.path.as_str(), out[at - 1].path.as_str())
        invariant
            at <= out.len(),
            before == file_views(out@),
            forall|k: int| at <= k < before.len() ==> lex_lt(entry@.path, (#[trigger] before[k]).path),
        decreases at,
    {
        at = at - 1;
    }
    proof {
        let expected = lemma_inserted_position(before, ev);
        if expected < at {
            assert(lex_lt(ev.path, before[at - 1].path));
        }
        if at < expected {
            assert(lex_lt(ev.path, before[expected - 1].path));
        }
    }
    out.insert(at, entry);
    assert(file_views(out@) =~= before.insert(at as int, ev));
}

/// The records of a list of files, in ascending order of path.
fn sort_by_path(files: Vec<LockFileEntry>) -> (out: Vec<LockFileEntry>)
    ensures
        file_views(out@) == sorted_by_path(file_views(files@)),
{
    let mut out: Vec<LockFileEntry> = Vec::new();
    let ghost all = file_views(files@);
    assert(file_views(out@) =~= sorted_by_path(all.take(0)));
    for entry in it: files
        invariant
            it.seq() == files@,
            all == file_views(files@),
            file_views(out@) == sorted_by_path(all.take(it.index() as int)),
    {
        proof {
            let grown = all.take(it.index() + 1);
            assert(grown.drop_last() =~= all.take(it.index() as int));
            assert(grown.last() == entry@);
        }
        insert_by_path(&mut out, entry);
    }
    assert(all.take(files@.len() as int) =~= all);
    out
}

/// The label of the one source models are fetched from.
pub open spec fn source_label() -> Seq<char> {
    "huggingface"@
}

/// The record of a revision that is already on disk, from the files found
/// there: all of them, in ascending order of path.
pub fn lock_from_existing_dir(model_id: &str, revision: &str, files: Vec<LockFileEntry>) -> (record:
    LockModel)
    ensures
        record@ == (LockModelView {
            model_id: model_id@,
            revision: revision@,
            source: source_label(),
            files: sorted_by_path(file_views(files@)),
        }),
{
    LockModel {
        model_id: model_id.to_string(),
        revision: revision.to_string(),
        source: "huggingface".to_string(),
        files: sort_by_path(files),
    }
}

/// The record of a revision that was just fetched, from its files: all of
/// them, in ascending order of path, as a record of files found on disk
/// lists them.
pub fn lock_from_download(model_id: &str, revision: &str, files: Vec<LockFileEntry>) -> (record:
    LockModel)
    ensures
        record@ == (LockModelView {
            model_id: model_id@,
            revision: revision@,
            source: source_label(),
            files: sorted_by_path(file_views(files@)),
        }),
{
    lock_from_existing_dir(model_id, revision, files)
}

/// No two of the files share a path, as in any listing of a directory.
pub open spec fn paths_distinct(files: Seq<LockFileEntryView>) -> bool {
    forall|i: int, j: int|
        #![trigger files[i], files[j]]
        0 <= i < j < files.len() ==> files[i].path != files[j].path
}

proof fn lemma_ascending_same_files_equal(a: Seq<LockFileEntryView>, b: Seq<LockFileEntryView>)
    requires
        paths_ascending(a),
        paths_ascending(b),
        paths_distinct(a),
        a.to_multiset() == b.to_multiset(),
    ensures
        a == b,
    decreases a.len(),
{
    broadcast use
        vstd::seq_lib::to_multiset_build,
        vstd::seq_lib::to_multiset_contains,
        vstd::seq_lib::to_multiset_len,
    ;

    vstd::seq_lib::to_multiset_len(a);
    vstd::seq_lib::to_multiset_len(b);
    assert(a.len() == b.len());
    if a.len() == 0 {
        assert(a =~= b);
    } else {
        let x = a.last();
        let y = b.last();
        let n = a.len() - 1;
        assert(a[n] == x && b[n] == y);
        assert(a.contains(x));
        assert(b.contains(y));
        vstd::seq_lib::to_multiset_contains(a, x);
        vstd::seq_lib::to_multiset_contains(b, x);
        vstd::seq_lib::to_multiset_contains(a, y);
        vstd::seq_lib::to_multiset_contains(b, y);
        assert(b.contains(x));
        assert(a.contains(y));
        let j = choose|j: int| 0 <= j < b.len() && b[j] == x;
        let k = choose|k: int| 0 <= k < a.len() && a[k] == y;
        if j < n {
            assert(!lex_lt(b[n].path, b[j].path));
        }
        if k < n {
            assert(!lex_lt(a[n].path, a[k].path));
        }
        lemma_lex_total(x.path, y.path);
        assert(x.path == y.path);
        if k < n {
            assert(a[k].path != a[n].path);
        }
        assert(x == y);
        let da = a.drop_last();
        let db = b.drop_last();
        assert(a =~= da.push(x));
        assert(b =~= db.push(y));
        assert(da.to_multiset().insert(x) == db.to_multiset().insert(x));
        assert(da.to_multiset() =~= da.to_multiset().insert(x).remove(x));
        assert(db.to_multiset() =~= db.to_multiset().insert(x).remove(x));
        assert(forall|i: int| 0 <= i < da.len() ==> da[i] == a[i]);
        assert(forall|i: int| 0 <= i < db.len() ==> db[i] == b[i]);
        lemma_ascending_same_files_equal(da, db);
    }
}

/// Sorting by path does not depend on the order the files came in, where no
/// two of them share a path: two listings of the same files sort to the
/// same list.
pub proof fn lemma_sorted_by_path_of_same_files(
    a: Seq<LockFileEntryView>,
    b: Seq<LockFileEntryView>,
)
    requires
        paths_distinct(a),
        a.to_multiset() == b.to_multiset(),
    ensures
        sorted_by_path(a) == sorted_by_path(b),
{
    broadcast use vstd::seq_lib::to_multiset_contains;

    lemma_sorted_by_path(a);
    lemma_sorted_by_path(b);
    let sa = sorted_by_path(a);
    assert forall|i: int, j: int|
        #![trigger sa[i], sa[j]]
        0 <= i < j < sa.len() implies sa[i].path != sa[j].path by {
        lemma_distinct_by_count(a, sa, i, j);
    }
    lemma_ascending_same_files_equal(sa, sorted_by_path(b));
}

proof fn lemma_distinct_by_count(
    a: Seq<LockFileEntryView>,
    sa: Seq<LockFileEntryView>,
    i: int,
    j: int,
)
    requires
        paths_distinct(a),
        a.to_multiset() == sa.to_multiset(),
        0 <= i < j < sa.len(),
    ensures
        sa[i].path != sa[j].path,
{
    broadcast use vstd::seq_lib::to_multiset_contains, vstd::seq_lib::to_multiset_len;

    if sa[i].path == sa[j].path {
        assert(sa.contains(sa[i]) && sa.contains(sa[j]));
        vstd::seq_lib::to_multiset_contains(sa, sa[i]);
        vstd::seq_lib::to_multiset_contains(sa, sa[j]);
        vstd::seq_lib::to_multiset_contains(a, sa[i]);
        vstd::seq_lib::to_multiset_contains(a, sa[j]);
        assert(a.contains(sa[i]) && a.contains(sa[j]));
        let p = choose|p: int| 0 <= p < a.len() && a[p] == sa[i];
        let q = choose|q: int| 0 <= q < a.len() && a[q] == sa[j];
        if p != q {
            if p < q {
                assert(a[p].path != a[q].path);
            } else {
                assert(a[q].path != a[p].path);
            }
        }
        assert(sa[i] == sa[j]);
        lemma_count_two(sa, i, j);
        lemma_count_one(a, p);
    }
}

proof fn lemma_count_two(s: Seq<LockFileEntryView>, i: int, j: int)
    requires
        0 <= i < j < s.len(),
        s[i] == s[j],
    ensures
        s.to_multiset().count(s[i]) >= 2,
    decreases s.len(),
{
    broadcast use vstd::seq_lib::to_multiset_build, vstd::seq_lib::to_multiset_contains;

    let d = s.drop_last();
    assert(s =~= d.push(s.last()));
    if j == s.len() - 1 {
        assert(d[i] == s[i]);
        assert(d.contains(s[i]));
        assert(d.to_multiset().count(s[i]) > 0);
    } else {
        assert(d[i] == s[i] && d[j] == s[j]);
        lemma_count_two(d, i, j);
    }
}

proof fn lemma_count_one(s: Seq<LockFileEntryView>, p: int)
    requires
        0 <= p < s.len(),
        paths_distinct(s),
    ensures
        s.to_multiset().count(s[p]) == 1,
    decreases s.len(),
{
    broadcast use vstd::seq_lib::to_multiset_build, vstd::seq_lib::to_multiset_contains;

    let d = s.drop_last();
    assert(s =~= d.push(s.last()));
    assert(forall|i: int| 0 <= i < d.len() ==> d[i] == s[i]);
    if p == s.len() - 1 {
        if d.contains(s[p]) {
            let q = choose|q: int| 0 <= q < d.len() && d[q] == s[p];
            assert(s[q].path != s[p].path);
        }
        assert(d.to_multiset().count(s[p]) == 0);
    } else {
        assert(s[p].path != s[s.len() - 1].path);
        lemma_count_one(d, p);
    }
}

/// What was seen in the revision directory of the `i`-th record: the paths
/// of its files, relative to it; nothing where no listing was given.
pub open spec fn listing_at(listings: Seq<Vec<String>>, i: int) -> Seq<Seq<char>> {
    if 0 <= i < listings.len() {
        text_views(listings[i]@)
    } else {
        Seq::empty()
    }
}

/// `defect` is what keeps a record out of the lockfile, or `None` where
/// nothing does. A record needs at least one file, a known model, a weights
/// file in its revision directory, and every file it lists in that
/// directory; the first of these that fails is the defect, and of several
/// missing files the first one listed.
pub open spec fn is_record_defect(
    record: LockModelView,
    listing: Seq<Seq<char>>,
    models_dir: Seq<char>,
    defect: Option<InstallErrorView>,
) -> bool {
    if record.files.len() == 0 {
        defect == Some(InstallErrorView::NoTrackedFiles { model_id: record.model_id })
    } else if KnownModel::named_by(record.model_id) is None {
        defect == Some(InstallErrorView::UnknownLockEntry { model_id: record.model_id })
    } else if !holds_weights(listing) {
        defect == Some(
            InstallErrorView::NoWeightsFile {
                revision: record.revision,
                model_id: record.model_id,
            },
        )
    } else {
        match defect {
            Some(e) => exists|j: int|
                0 <= j < record.files.len() && !listing.contains((#[trigger] record.files[j]).path)
                    && e == (InstallErrorView::MissingBeforeLockWrite {
                    path: path_join(
                        revision_dir(
                            models_dir,
                            KnownModel::named_by(record.model_id)->0,
                            record.revision,
                        ),
                        record.files[j].path,
                    ),
                }) && forall|k: int|
                    0 <= k < j ==> listing.contains((#[trigger] record.files[k]).path),
            None => forall|j: int|
                0 <= j < record.files.len() ==> listing.contains((#[trigger] record.files[j]).path),
        }
    }
}

/// `result` is the outcome of validating the records in order: the defect of
/// the first record that has one, or `None` where none has.
pub open spec fn is_validation(
    records: Seq<LockModelView>,
    listings: Seq<Vec<String>>,
    models_dir: Seq<char>,
    result: Option<InstallErrorView>,
) -> bool {
    match result {
        Some(e) => exists|i: int|
            0 <= i < records.len() && is_record_defect(
                #[trigger] records[i],
                listing_at(listings, i),
                models_dir,
                Some(e),
            ) && forall|k: int|
                0 <= k < i ==> is_record_defect(
                    #[trigger] records[k],
                    listing_at(listings, k),
                    models_dir,
                    None,
                ),
        None => forall|i: int|
            0 <= i < records.len() ==> is_record_defect(
                #[trigger] records[i],
                listing_at(listings, i),
                models_dir,
                None,
            ),
    }
}

/// The defect of one record, if it has one.
#[verifier::loop_isolation(false)]
fn record_defect(paths: &ModelPaths, record: &LockModel, listing: &Vec<String>) -> (r: Option<
    InstallError,
>)
    ensures
        is_record_defect(
            record@,
            text_views(listing@),
            paths.models_dir@,
            match r {
                Some(e) => Some(e@),
                None => None,
            },
        ),
{
    if record.files.len() == 0 {
        return Some(InstallError::NoTrackedFiles { model_id: record.model_id.clone() });
    }
    let kind: KnownModel = match KnownModel::from_model_id(record.model_id.as_str()) {
        Some(kind) => kind,
        None => {
            return Some(InstallError::UnknownLockEntry { model_id: record.model_id.clone() });
        },
    };
    if !has_onnx_file(listing) {
        return Some(
            InstallError::NoWeightsFile {
                revision: record.revision.clone(),
                model_id: record.model_id.clone(),
            },
        );
    }
    let dir: String = model_revision_dir(paths, kind, record.revision.as_str());
    let mut j: usize = 0;
    while j < record.files.len()
        invariant
            j <= record.files.len(),
            forall|k: int|
                0 <= k < j ==> text_views(listing@).contains((#[trigger] record@.files[k]).path),
        decreases record.files.len() - j,
    {
        assert(record@.files[j as int] == record.files[j as int]@);
        if !lists(listing, record.files[j].path.as_str()) {
            let e = InstallError::MissingBeforeLockWrite {
                path: join_path(dir.as_str(), record.files[j].path.as_str()),
            };
            proof {
                let rv = record@;
                assert(!text_views(listing@).contains(rv.files[j as int].path));
            }
            return Some(e);
        }
        j = j + 1;
    }
    None
}

/// Checks, before the lockfile is written, that every record can stand in
/// it, against what was seen in each record's revision directory. The first
/// defect in order ends the check.
pub fn validate_lock_models(
    paths: &ModelPaths,
    models: &[LockModel],
    listings: &Vec<Vec<String>>,
) -> (r: Result<(), InstallError>)
    ensures
        is_validation(
            model_views(models@),
            listings@,
            paths.models_dir@,
            match r {
                Ok(_) => None,
                Err(e) => Some(e@),
            },
        ),
{
    let nothing: Vec<String> = Vec::new();
    let ghost records = model_views(models@);
    let mut i: usize = 0;
    while i < models.len()
        invariant
            i <= models.len(),
            nothing@.len() == 0,
            records == model_views(models@),
            forall|k: int|
                0 <= k < i ==> is_record_defect(
                    #[trigger] records[k],
                    listing_at(listings@, k),
                    paths.models_dir@,
                    None,
                ),
        decreases models.len() - i,
    {
        let listing: &Vec<String> = if i < listings.len() {
            &listings[i]
        } else {
            &nothing
        };
        assert(text_views(listing@) =~= listing_at(listings@, i as int));
        assert(records[i as int] == models[i as int]@);
        match record_defect(paths, &models[i], listing) {
            Some(e) => {
                return Err(e);
            },
            None => {},
        }
        i = i + 1;
    }
    Ok(())
}

/// How one target of an install ended.
#[derive(Debug)]
pub struct TargetOutcome {
    pub model: KnownModel,
    pub action: TargetAction,
    pub record: LockModel,
}

pub struct TargetOutcomeView {
    pub model: KnownModel,
    pub action: TargetAction,
    pub record: LockModelView,
}

impl View for TargetOutcome {
    type V = TargetOutcomeView;

    open spec fn view(&self) -> TargetOutcomeView {
        TargetOutcomeView { model: self.model, action: self.action, record: self.record@ }
    }
}

/// The views of a list of outcomes.
pub open spec fn outcome_views(outcomes: Seq<TargetOutcome>) -> Seq<TargetOutcomeView> {
    Seq::new(outcomes.len(), |i: int| outcomes[i]@)
}

/// The identifiers an install reports as skipped, or as installed, in the
/// order of its targets: a target counts as skipped where nothing was
/// fetched for it, and as installed otherwise.
pub open spec fn reported_ids(outcomes: Seq<TargetOutcomeView>, skipped: bool) -> Seq<Seq<char>>
    decreases outcomes.len(),
{
    if outcomes.len() == 0 {
        Seq::empty()
    } else {
        let front = reported_ids(outcomes.drop_last(), skipped);
        if (outcomes.last().action == TargetAction::Skip) == skipped {
            front.push(outcomes.last().model.model_id_text())
        } else {
            front
        }
    }
}

/// The records of the targets, in order.
pub open spec fn outcome_records(outcomes: Seq<TargetOutcomeView>) -> Seq<LockModelView> {
    Seq::new(outcomes.len(), |i: int| outcomes[i].record)
}

/// What an install ends with: its report, and the lockfile to write, if one
/// is to be written.
#[derive(Debug)]
pub struct Conclusion {
    pub report: InstallReport,
    pub lock: Option<ModelLock>,
}

/// `r` is what an install ends with, once every target has been dealt
/// with. The report lists each target as installed or as skipped. Unless
/// the call was to verify only, the records are validated and merged into
/// the existing lockfile: a defect fails the install with nothing to write,
/// and otherwise the merged lockfile is there to be written whole.
pub open spec fn is_conclusion(
    r: Result<Conclusion, InstallError>,
    verify_only: bool,
    paths: ModelPaths,
    outcomes: Seq<TargetOutcomeView>,
    listings: Seq<Vec<String>>,
    existing: Option<ModelLock>,
    generated_at: String,
) -> bool {
    match r {
        Ok(done) => {
            &&& done.report.model_dir == paths.root
            &&& text_views(done.report.installed@) == reported_ids(outcomes, false)
            &&& text_views(done.report.skipped@) == reported_ids(outcomes, true)
            &&& done.report.lockfile_written == !verify_only
            &&& verify_only ==> done.lock is None
            &&& !verify_only ==> {
                &&& is_validation(outcome_records(outcomes), listings, paths.models_dir@, None)
                &&& done.lock is Some
                &&& done.lock->0.schema_version == crate::registry::SCHEMA_VERSION
                &&& done.lock->0.generated_at == generated_at
                &&& is_merge_of(
                    model_views(done.lock->0.models@),
                    prior_models(existing) + outcome_records(outcomes),
                )
            }
        },
        Err(e) => !verify_only && is_validation(
            outcome_records(outcomes),
            listings,
            paths.models_dir@,
            Some(e@),
        ),
    }
}

/// Ends an install once every target has been dealt with.
pub fn conclude_install(
    verify_only: bool,
    paths: ModelPaths,
    outcomes: Vec<TargetOutcome>,
    listings: &Vec<Vec<String>>,
    existing: Option<ModelLock>,
    generated_at: String,
) -> (r: Result<Conclusion, InstallError>)
    ensures
        is_conclusion(
            r,
            verify_only,
            paths,
            outcome_views(outcomes@),
            listings@,
            existing,
            generated_at,
        ),
{
    let mut records: Vec<LockModel> = Vec::new();
    let mut installed: Vec<String> = Vec::new();
    let mut skipped: Vec<String> = Vec::new();
    for outcome in it: outcomes
        invariant
            it.seq() == outcomes@,
            model_views(records@) == outcome_records(
                outcome_views(outcomes@).take(it.index() as int),
            ),
            text_views(installed@) == reported_ids(
                outcome_views(outcomes@).take(it.index() as int),
                false,
            ),
            text_views(skipped@) == reported_ids(
                outcome_views(outcomes@).take(it.index() as int),
                true,
            ),
    {
        let ghost before_records = model_views(records@);
        let ghost before_installed = text_views(installed@);
        let ghost before_skipped = text_views(skipped@);
        let ghost record_view = outcome.record@;
        let ghost grown = outcome_views(outcomes@).take(it.index() + 1);
        proof {
            assert(grown.drop_last() =~= outcome_views(outcomes@).take(it.index() as int));
            assert(grown.last() == outcome@);
        }
        let id: String = outcome.model.model_id().to_string();
        match outcome.action {
            TargetAction::Skip => {
                skipped.push(id);
                assert(text_views(skipped@) =~= before_skipped.push(
                    outcome.model.model_id_text(),
                ));
            },
            _ => {
                installed.push(id);
                assert(text_views(installed@) =~= before_installed.push(
                    outcome.model.model_id_text(),
                ));
            },
        }
        records.push(outcome.record);
        assert(model_views(records@) =~= before_records.push(record_view));
        assert(outcome_records(grown) =~= outcome_records(grown.drop_last()).push(record_view));
    }
    assert(outcome_views(outcomes@).take(outcomes@.len() as int) =~= outcome_views(outcomes@));
    let mut lock: Option<ModelLock> = None;
    if !verify_only {
        match validate_lock_models(&paths, &records, listings) {
            Ok(_) => {},
            Err(e) => {
                return Err(e);
            },
        }
        lock = Some(merge_lock_models(existing, records, generated_at));
    }
    Ok(
        Conclusion {
            report: InstallReport {
                model_dir: paths.root,
                installed,
                skipped,
                lockfile_written: !verify_only,
            },
            lock,
        },
    )
}


} // verus!
