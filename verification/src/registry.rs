//! The known models, the lockfile records, and the directory layout under a
//! model root.

use vstd::prelude::*;
use crate::text::{
    lemma_lex_asymmetric, lemma_lex_irreflexive, lemma_lex_total, lemma_lex_transitive, lex_lt,
    text_eq, text_lt,
};
use crate::paths::{join_path, path_join};

verus! {

pub const LOCKFILE_NAME: &'static str = "unbg-model-lock.json";

pub const SCHEMA_VERSION: u32 = 1;

/// The closed set of models this library manages.
#[derive(Debug, Clone, Copy, PartialEq, Eq, Structural)]
pub enum KnownModel {
    Rmbg14,
    Rmbg20,
}

impl KnownModel {
    /// The identifier of the model at its source.
    pub open spec fn model_id_text(self) -> Seq<char> {
        match self {
            KnownModel::Rmbg14 => "briaai/RMBG-1.4"@,
            KnownModel::Rmbg20 => "briaai/RMBG-2.0"@,
        }
    }

    /// The directory name that stands for the model on disk.
    pub open spec fn cache_key_text(self) -> Seq<char> {
        match self {
            KnownModel::Rmbg14 => "briaai__RMBG-1.4"@,
            KnownModel::Rmbg20 => "briaai__RMBG-2.0"@,
        }
    }

    /// The model that a source identifier names, if it names one.
    pub open spec fn named_by(model_id: Seq<char>) -> Option<KnownModel> {
        if model_id == KnownModel::Rmbg14.model_id_text() {
            Some(KnownModel::Rmbg14)
        } else if model_id == KnownModel::Rmbg20.model_id_text() {
            Some(KnownModel::Rmbg20)
        } else {
            None
        }
    }

    pub fn model_id(self) -> (id: &'static str)
        ensures
            id@ == self.model_id_text(),
    {
        match self {
            KnownModel::Rmbg14 => "briaai/RMBG-1.4",
            KnownModel::Rmbg20 => "briaai/RMBG-2.0",
        }
    }

    pub fn cache_key(self) -> (key: &'static str)
        ensures
            key@ == self.cache_key_text(),
    {
        match self {
            KnownModel::Rmbg14 => "briaai__RMBG-1.4",
            KnownModel::Rmbg20 => "briaai__RMBG-2.0",
        }
    }

    /// Every known model, in the order in which a full install takes them.
    pub fn all() -> (models: [KnownModel; 2])
        ensures
            models@ == seq![KnownModel::Rmbg14, KnownModel::Rmbg20],
    {
        let models: [KnownModel; 2] = [KnownModel::Rmbg14, KnownModel::Rmbg20];
        assert(models@ =~= seq![KnownModel::Rmbg14, KnownModel::Rmbg20]);
        models
    }

    pub fn from_model_id(model_id: &str) -> (r: Option<Self>)
        ensures
            r == KnownModel::named_by(model_id@),
    {
        if text_eq(model_id, "briaai/RMBG-1.4") {
            Some(KnownModel::Rmbg14)
        } else if text_eq(model_id, "briaai/RMBG-2.0") {
            Some(KnownModel::Rmbg20)
        } else {
            None
        }
    }
}

/// The two source identifiers differ, so an identifier names the model it
/// came from and no other.
pub proof fn lemma_model_id_round_trip(model: KnownModel)
    ensures
        KnownModel::named_by(model.model_id_text()) == Some(model),
{
    reveal_strlit("briaai/RMBG-1.4");
    reveal_strlit("briaai/RMBG-2.0");
    assert("briaai/RMBG-1.4"@[12] != "briaai/RMBG-2.0"@[12]);
}

/// One verified file of an installed revision.
#[derive(Debug)]
pub struct LockFileEntry {
    pub path: String,
    pub size: u64,
    pub sha256: String,
}

pub struct LockFileEntryView {
    pub path: Seq<char>,
    pub size: u64,
    pub sha256: Seq<char>,
}

impl View for LockFileEntry {
    type V = LockFileEntryView;

    open spec fn view(&self) -> LockFileEntryView {
        LockFileEntryView { path: self.path@, size: self.size, sha256: self.sha256@ }
    }
}

impl Clone for LockFileEntry {
    fn clone(&self) -> (r: Self)
        ensures
            r@ == self@,
    {
        LockFileEntry { path: self.path.clone(), size: self.size, sha256: self.sha256.clone() }
    }
}

/// The views of a list of file records.
pub open spec fn file_views(files: Seq<LockFileEntry>) -> Seq<LockFileEntryView> {
    Seq::new(files.len(), |i: int| files[i]@)
}

/// An installed revision of one model with its files.
#[derive(Debug)]
pub struct LockModel {
    pub model_id: String,
    pub revision: String,
    pub source: String,
    pub files: Vec<LockFileEntry>,
}

pub struct LockModelView {
    pub model_id: Seq<char>,
    pub revision: Seq<char>,
    pub source: Seq<char>,
    pub files: Seq<LockFileEntryView>,
}

impl View for LockModel {
    type V = LockModelView;

    open spec fn view(&self) -> LockModelView {
        LockModelView {
            model_id: self.model_id@,
            revision: self.revision@,
            source: self.source@,
            files: file_views(self.files@),
        }
    }
}

/// A copy of a list of file records.
pub fn clone_files(files: &Vec<LockFileEntry>) -> (r: Vec<LockFileEntry>)
    ensures
        file_views(r@) == file_views(files@),
{
    let mut out: Vec<LockFileEntry> = Vec::new();
    let mut i: usize = 0;
    while i < files.len()
        invariant
            i <= files.len(),
            out.len() == i,
            forall|k: int| 0 <= k < i ==> out@[k]@ == files@[k]@,
        decreases files.len() - i,
    {
        out.push(files[i].clone());
        i = i + 1;
    }
    assert(file_views(out@) =~= file_views(files@));
    out
}

impl Clone for LockModel {
    fn clone(&self) -> (r: Self)
        ensures
            r@ == self@,
    {
        LockModel {
            model_id: self.model_id.clone(),
            revision: self.revision.clone(),
            source: self.source.clone(),
            files: clone_files(&self.files),
        }
    }
}

/// The views of a list of model records.
pub open spec fn model_views(models: Seq<LockModel>) -> Seq<LockModelView> {
    Seq::new(models.len(), |i: int| models[i]@)
}

/// The lockfile: what is installed under a model root.
#[derive(Debug)]
pub struct ModelLock {
    pub schema_version: u32,
    pub generated_at: String,
    pub models: Vec<LockModel>,
}

pub struct ModelLockView {
    pub schema_version: u32,
    pub generated_at: Seq<char>,
    pub models: Seq<LockModelView>,
}

impl View for ModelLock {
    type V = ModelLockView;

    open spec fn view(&self) -> ModelLockView {
        ModelLockView {
            schema_version: self.schema_version,
            generated_at: self.generated_at@,
            models: model_views(self.models@),
        }
    }
}

/// What is known of a model before anything is fetched.
#[derive(Debug)]
pub struct ModelManifest {
    pub model_id: String,
    pub default_revision: String,
    pub gated: bool,
}

/// The manifest entry of a known model: both default to revision `main`, and
/// only the larger model needs a credential.
pub open spec fn manifest_entry(model: KnownModel, entry: ModelManifest) -> bool {
    &&& entry.model_id@ == model.model_id_text()
    &&& entry.default_revision@ == "main"@
    &&& entry.gated == (model == KnownModel::Rmbg20)
}

pub fn built_in_manifest() -> (manifest: Vec<ModelManifest>)
    ensures
        manifest.len() == 2,
        manifest_entry(KnownModel::Rmbg14, manifest[0]),
        manifest_entry(KnownModel::Rmbg20, manifest[1]),
{
    let mut manifest: Vec<ModelManifest> = Vec::new();
    manifest.push(
        ModelManifest {
            model_id: "briaai/RMBG-1.4".to_string(),
            default_revision: "main".to_string(),
            gated: false,
        },
    );
    manifest.push(
        ModelManifest {
            model_id: "briaai/RMBG-2.0".to_string(),
            default_revision: "main".to_string(),
            gated: true,
        },
    );
    manifest
}

/// Why the registry could not answer.
#[derive(Debug)]
pub enum RegistryError {
    /// No home directory is known, so there is no default model root.
    NoDefaultModelDir,
    /// Reading or writing failed; the text is the reason.
    Io(String),
    /// The lockfile holds no valid document; the text is the reason.
    Json(String),
}

impl RegistryError {
    pub open spec fn message_text(self) -> Seq<char> {
        match self {
            RegistryError::NoDefaultModelDir => "could not determine a default model directory"@,
            RegistryError::Io(reason) => "io error: "@ + reason@,
            RegistryError::Json(reason) => "json error: "@ + reason@,
        }
    }

    /// The text shown for this error.
    pub fn message(&self) -> (r: String)
        ensures
            r@ == self.message_text(),
    {
        match self {
            RegistryError::NoDefaultModelDir => {
                "could not determine a default model directory".to_string()
            },
            RegistryError::Io(reason) => {
                let mut out: String = "io error: ".to_string();
                out.append(reason.as_str());
                out
            },
            RegistryError::Json(reason) => {
                let mut out: String = "json error: ".to_string();
                out.append(reason.as_str());
                out
            },
        }
    }
}

/// `dirs::home_dir`: the current user's home directory, where the platform
/// knows one. Nothing is claimed of the value.
#[verifier::external_body]
fn home_dir() -> Option<String> {
    match dirs::home_dir() {
        Some(home) => Some(home.to_string_lossy().into_owned()),
        None => None,
    }
}

/// The default model root under a home directory.
pub open spec fn default_root(home: Seq<char>) -> Seq<char> {
    path_join(path_join(home, ".unbg"@), "models"@)
}

/// The default model root for a home directory, or the error where there is
/// no home directory.
pub fn default_model_dir_for(home: Option<&str>) -> (r: Result<String, RegistryError>)
    ensures
        match home {
            Some(h) => r is Ok && r->Ok_0@ == default_root(h@),
            None => r is Err && r->Err_0 is NoDefaultModelDir,
        },
{
    match home {
        Some(h) => {
            let hidden: String = join_path(h, ".unbg");
            Ok(join_path(hidden.as_str(), "models"))
        },
        None => Err(RegistryError::NoDefaultModelDir),
    }
}

/// The default model root of the current user. Which home directory there
/// is, if any, is the platform's answer.
pub fn default_model_dir() -> (r: Result<String, RegistryError>)
    ensures
        match r {
            Ok(dir) => exists|home: Seq<char>| dir@ == default_root(home),
            Err(e) => e is NoDefaultModelDir,
        },
{
    match home_dir() {
        Some(home) => default_model_dir_for(Some(home.as_str())),
        None => default_model_dir_for(None),
    }
}

/// The directories of a model root.
#[derive(Debug, Clone)]
pub struct ModelPaths {
    pub root: String,
    pub manifests_dir: String,
    pub models_dir: String,
    pub cache_downloads_dir: String,
}

impl ModelPaths {
    /// The layout is the one that belongs to `root`.
    pub open spec fn laid_out_under(self, root: Seq<char>) -> bool {
        &&& self.root@ == root
        &&& self.manifests_dir@ == path_join(root, "manifests"@)
        &&& self.models_dir@ == path_join(root, "models"@)
        &&& self.cache_downloads_dir@ == path_join(path_join(root, "cache"@), "downloads"@)
    }

    /// The layout under `root`.
    pub fn under(root: String) -> (paths: ModelPaths)
        ensures
            paths.laid_out_under(root@),
    {
        let manifests_dir: String = join_path(root.as_str(), "manifests");
        let models_dir: String = join_path(root.as_str(), "models");
        let cache: String = join_path(root.as_str(), "cache");
        let cache_downloads_dir: String = join_path(cache.as_str(), "downloads");
        ModelPaths { root, manifests_dir, models_dir, cache_downloads_dir }
    }
}

/// The layout under the given root, or under the default root where none is
/// given.
pub fn resolve_model_paths(model_dir: Option<&str>) -> (r: Result<ModelPaths, RegistryError>)
    ensures
        match model_dir {
            Some(dir) => r is Ok && r->Ok_0.laid_out_under(dir@),
            None => match r {
                Ok(paths) => exists|home: Seq<char>| paths.laid_out_under(default_root(home)),
                Err(e) => e is NoDefaultModelDir,
            },
        },
{
    let root: String = match model_dir {
        Some(dir) => dir.to_string(),
        None => match default_model_dir() {
            Ok(dir) => dir,
            Err(e) => {
                return Err(e);
            },
        },
    };
    Ok(ModelPaths::under(root))
}

/// Where a revision of a model lives.
pub open spec fn revision_dir(models_dir: Seq<char>, model: KnownModel, revision: Seq<char>) -> Seq<
    char,
> {
    path_join(path_join(models_dir, model.cache_key_text()), revision)
}

pub fn model_revision_dir(paths: &ModelPaths, model: KnownModel, revision: &str) -> (dir: String)
    ensures
        dir@ == revision_dir(paths.models_dir@, model, revision@),
{
    let model_dir: String = join_path(paths.models_dir.as_str(), model.cache_key());
    join_path(model_dir.as_str(), revision)
}

pub fn lockfile_path(paths: &ModelPaths) -> (path: String)
    ensures
        path@ == path_join(paths.manifests_dir@, LOCKFILE_NAME@),
{
    join_path(paths.manifests_dir.as_str(), LOCKFILE_NAME)
}


/// The records are in strictly ascending order of model identifier; in
/// particular no identifier occurs twice.
pub open spec fn ids_ascending(models: Seq<LockModelView>) -> bool {
    forall|i: int, j: int|
        #![trigger models[i], models[j]]
        0 <= i < j < models.len() ==> lex_lt(models[i].model_id, models[j].model_id)
}

/// Some record carries the identifier `id`.
pub open spec fn has_id(models: Seq<LockModelView>, id: Seq<char>) -> bool {
    exists|i: int| 0 <= i < models.len() && (#[trigger] models[i]).model_id == id
}

/// The last record for `id` in `entries`, if there is one.
pub open spec fn latest_entry(entries: Seq<LockModelView>, id: Seq<char>) -> Option<LockModelView>
    decreases entries.len(),
{
    if entries.len() == 0 {
        None
    } else if entries.last().model_id == id {
        Some(entries.last())
    } else {
        latest_entry(entries.drop_last(), id)
    }
}

/// `merged` holds, in ascending order of identifier, exactly one record for
/// each identifier that occurs in `entries`: the last one given for it.
pub open spec fn is_merge_of(merged: Seq<LockModelView>, entries: Seq<LockModelView>) -> bool {
    &&& ids_ascending(merged)
    &&& forall|i: int|
        0 <= i < merged.len() ==> latest_entry(entries, (#[trigger] merged[i]).model_id) == Some(
            merged[i],
        )
    &&& forall|k: int| 0 <= k < entries.len() ==> has_id(merged, (#[trigger] entries[k]).model_id)
}

/// `after` is `before` with `model` put in its place at index `at`: in place
/// of the record with the same identifier, or as a new record.
pub open spec fn is_upsert(
    before: Seq<LockModelView>,
    model: LockModelView,
    after: Seq<LockModelView>,
    at: int,
) -> bool {
    &&& 0 <= at <= before.len()
    &&& if at < before.len() && before[at].model_id == model.model_id {
        after == before.update(at, model)
    } else {
        !has_id(before, model.model_id) && after == before.insert(at, model)
    }
}

proof fn lemma_merge_step(
    before: Seq<LockModelView>,
    model: LockModelView,
    after: Seq<LockModelView>,
    at: int,
    entries: Seq<LockModelView>,
)
    requires
        is_merge_of(before, entries),
        is_upsert(before, model, after, at),
        ids_ascending(after),
    ensures
        is_merge_of(after, entries.push(model)),
{
    let grown = entries.push(model);
    assert(grown.drop_last() =~= entries);
    assert(grown.last() == model);
    let replaced = at < before.len() && before[at].model_id == model.model_id;
    assert(after[at] == model);
    assert forall|i: int| 0 <= i < after.len() implies latest_entry(
        grown,
        (#[trigger] after[i]).model_id,
    ) == Some(after[i]) by {
        if i == at {
        } else {
            if i < at {
                lemma_lex_asymmetric(after[i].model_id, after[at].model_id);
            } else {
                lemma_lex_asymmetric(after[at].model_id, after[i].model_id);
            }
            let j = if replaced || i < at {
                i
            } else {
                i - 1
            };
            assert(before[j] == after[i]);
        }
    }
    assert forall|k: int| 0 <= k < grown.len() implies has_id(
        after,
        (#[trigger] grown[k]).model_id,
    ) by {
        if k == entries.len() {
            assert(after[at].model_id == grown[k].model_id);
        } else {
            assert(grown[k] == entries[k]);
            assert(has_id(before, entries[k].model_id));
            let j = choose|j: int| 0 <= j < before.len() && (#[trigger] before[j]).model_id == entries[k].model_id;
            let i = if replaced || j < at {
                j
            } else {
                j + 1
            };
            assert(after[i].model_id == grown[k].model_id);
        }
    }
}

/// Puts `model` into `out`, which stays in ascending order of identifier.
fn upsert(out: &mut Vec<LockModel>, model: LockModel)
    requires
        ids_ascending(model_views(old(out)@)),
    ensures
        ids_ascending(model_views(final(out)@)),
        exists|at: int|
            is_upsert(model_views(old(out)@), model@, model_views(final(out)@), at),
{
    let ghost before = model_views(out@);
    let ghost mv = model@;
    let mut at: usize = 0;
    while at < out.len() && text_lt(out[at].model_id.as_str(), model.model_id.as_str())
        invariant
            at <= out.len(),
            before == model_views(out@),
            forall|k: int| 0 <= k < at ==> lex_lt((#[trigger] before[k]).model_id, model@.model_id),
        decreases out.len() - at,
    {
        at = at + 1;
    }
    if at < out.len() && text_eq(out[at].model_id.as_str(), model.model_id.as_str()) {
        out[at] = model;
        assert(model_views(out@) =~= before.update(at as int, mv));
        assert(is_upsert(before, mv, model_views(out@), at as int));
    } else {
        proof {
            if at < out.len() {
                lemma_lex_total(before[at as int].model_id, mv.model_id);
            }
            assert forall|k: int| at <= k < before.len() implies lex_lt(
                mv.model_id,
                (#[trigger] before[k]).model_id,
            ) by {
                if k > at {
                    assert(lex_lt(before[at as int].model_id, before[k].model_id));
                    lemma_lex_transitive(
                        mv.model_id,
                        before[at as int].model_id,
                        before[k].model_id,
                    );
                }
            }
            assert forall|k: int| 0 <= k < before.len() implies (#[trigger] before[k]).model_id
                != mv.model_id by {
                if k < at {
                    lemma_lex_asymmetric(before[k].model_id, mv.model_id);
                } else {
                    lemma_lex_asymmetric(mv.model_id, before[k].model_id);
                }
            }
        }
        out.insert(at, model);
        assert(model_views(out@) =~= before.insert(at as int, mv));
        assert(is_upsert(before, mv, model_views(out@), at as int));
    }
    proof {
        let after = model_views(out@);
        assert forall|i: int, j: int| 0 <= i < j < after.len() implies lex_lt(
            after[i].model_id,
            after[j].model_id,
        ) by {
            if after.len() == before.len() {
                if i == at {
                    assert(lex_lt(before[i].model_id, before[j].model_id));
                } else if j == at {
                    assert(lex_lt(before[i].model_id, before[j].model_id));
                } else {
                    assert(lex_lt(before[i].model_id, before[j].model_id));
                }
            } else {
                let bi = if i < at {
                    i
                } else {
                    i - 1
                };
                let bj = if j < at {
                    j
                } else {
                    j - 1
                };
                if i != at && j != at {
                    assert(lex_lt(before[bi].model_id, before[bj].model_id));
                }
            }
        }
    }
}

/// The records of a lockfile that may not exist yet.
pub open spec fn prior_models(existing: Option<ModelLock>) -> Seq<LockModelView> {
    match existing {
        Some(lock) => model_views(lock.models@),
        None => Seq::empty(),
    }
}

/// Merges `updates` into an existing lockfile, or into none: a record
/// replaces the one with the same model identifier, the last one given wins,
/// and the records come out in ascending order of identifier.
pub fn merge_lock_models(
    existing: Option<ModelLock>,
    updates: Vec<LockModel>,
    generated_at: String,
) -> (lock: ModelLock)
    ensures
        lock.schema_version == SCHEMA_VERSION,
        lock.generated_at == generated_at,
        is_merge_of(model_views(lock.models@), prior_models(existing) + model_views(updates@)),
{
    let mut by_id: Vec<LockModel> = Vec::new();
    let ghost mut entries: Seq<LockModelView> = Seq::empty();
    let ghost prior: Seq<LockModelView> = prior_models(existing);
    if let Some(old_lock) = existing {
        let old_models: Vec<LockModel> = old_lock.models;
        for model in it: old_models
            invariant
                it.seq() == old_models@,
                entries == model_views(old_models@).take(it.index() as int),
                is_merge_of(model_views(by_id@), entries),
        {
            let ghost before = model_views(by_id@);
            let ghost mv = model@;
            upsert(&mut by_id, model);
            proof {
                let at = choose|at: int| is_upsert(before, mv, model_views(by_id@), at);
                lemma_merge_step(before, mv, model_views(by_id@), at, entries);
                assert(model_views(old_models@).take(it.index() + 1) =~= entries.push(mv));
                entries = entries.push(mv);
            }
        }
        assert(entries =~= prior);
    }
    assert(entries =~= prior);
    for model in it: updates
        invariant
            it.seq() == updates@,
            entries == prior + model_views(updates@).take(it.index() as int),
            is_merge_of(model_views(by_id@), entries),
    {
        let ghost before = model_views(by_id@);
        let ghost mv = model@;
        upsert(&mut by_id, model);
        proof {
            let at = choose|at: int| is_upsert(before, mv, model_views(by_id@), at);
            lemma_merge_step(before, mv, model_views(by_id@), at, entries);
            assert(prior + model_views(updates@).take(it.index() + 1) =~= entries.push(mv));
            entries = entries.push(mv);
        }
    }
    assert(entries =~= prior + model_views(updates@));
    ModelLock { schema_version: SCHEMA_VERSION, generated_at, models: by_id }
}


proof fn lemma_latest_is_entry(entries: Seq<LockModelView>, id: Seq<char>)
    requires
        latest_entry(entries, id) is Some,
    ensures
        latest_entry(entries, id)->0.model_id == id,
        exists|k: int| 0 <= k < entries.len() && #[trigger] entries[k] == latest_entry(entries, id)->0,
    decreases entries.len(),
{
    if entries.last().model_id == id {
        assert(entries[entries.len() - 1] == latest_entry(entries, id)->0);
    } else {
        lemma_latest_is_entry(entries.drop_last(), id);
        let k = choose|k: int|
            0 <= k < entries.drop_last().len() && #[trigger] entries.drop_last()[k] == latest_entry(
                entries.drop_last(),
                id,
            )->0;
        assert(entries[k] == entries.drop_last()[k]);
    }
}

proof fn lemma_ascending_agree_equal(a: Seq<LockModelView>, b: Seq<LockModelView>)
    requires
        ids_ascending(a),
        ids_ascending(b),
        forall|i: int| 0 <= i < a.len() ==> has_id(b, (#[trigger] a[i]).model_id),
        forall|j: int| 0 <= j < b.len() ==> has_id(a, (#[trigger] b[j]).model_id),
        forall|i: int, j: int|
            #![trigger a[i], b[j]]
            0 <= i < a.len() && 0 <= j < b.len() && a[i].model_id == b[j].model_id ==> a[i] == b[j],
    ensures
        a == b,
    decreases a.len(),
{
    if a.len() == 0 {
        if b.len() > 0 {
            assert(has_id(a, b[0].model_id));
        }
        assert(a =~= b);
    } else {
        assert(has_id(b, a[0].model_id));
        let j = choose|j: int| 0 <= j < b.len() && (#[trigger] b[j]).model_id == a[0].model_id;
        assert(has_id(a, b[0].model_id));
        let k = choose|k: int| 0 <= k < a.len() && (#[trigger] a[k]).model_id == b[0].model_id;
        if j > 0 {
            assert(lex_lt(b[0].model_id, b[j].model_id));
            if k > 0 {
                assert(lex_lt(a[0].model_id, a[k].model_id));
                lemma_lex_asymmetric(a[0].model_id, a[k].model_id);
            } else {
                lemma_lex_irreflexive(a[0].model_id);
            }
        }
        assert(a[0] == b[0]);
        let ta = a.drop_first();
        let tb = b.drop_first();
        assert forall|i: int| 0 <= i < ta.len() implies has_id(tb, (#[trigger] ta[i]).model_id) by {
            assert(ta[i] == a[i + 1]);
            assert(has_id(b, a[i + 1].model_id));
            let m = choose|m: int| 0 <= m < b.len() && (#[trigger] b[m]).model_id == a[i + 1].model_id;
            assert(lex_lt(a[0].model_id, a[i + 1].model_id));
            lemma_lex_asymmetric(a[0].model_id, a[i + 1].model_id);
            assert(m > 0);
            assert(tb[m - 1].model_id == ta[i].model_id);
        }
        assert forall|m: int| 0 <= m < tb.len() implies has_id(ta, (#[trigger] tb[m]).model_id) by {
            assert(tb[m] == b[m + 1]);
            assert(has_id(a, b[m + 1].model_id));
            let i = choose|i: int| 0 <= i < a.len() && (#[trigger] a[i]).model_id == b[m + 1].model_id;
            assert(lex_lt(b[0].model_id, b[m + 1].model_id));
            lemma_lex_asymmetric(b[0].model_id, b[m + 1].model_id);
            assert(i > 0);
            assert(ta[i - 1].model_id == tb[m].model_id);
        }
        assert forall|i: int, m: int|
            #![trigger ta[i], tb[m]]
            0 <= i < ta.len() && 0 <= m < tb.len() && ta[i].model_id == tb[m].model_id implies ta[i]
            == tb[m] by {
            assert(ta[i] == a[i + 1] && tb[m] == b[m + 1]);
        }
        assert forall|i: int, m: int|
            #![trigger ta[i], ta[m]]
            0 <= i < m < ta.len() implies lex_lt(ta[i].model_id, ta[m].model_id) by {
            assert(ta[i] == a[i + 1] && ta[m] == a[m + 1]);
        }
        assert forall|i: int, m: int|
            #![trigger tb[i], tb[m]]
            0 <= i < m < tb.len() implies lex_lt(tb[i].model_id, tb[m].model_id) by {
            assert(tb[i] == b[i + 1] && tb[m] == b[m + 1]);
        }
        lemma_ascending_agree_equal(ta, tb);
        assert(a =~= seq![a[0]] + ta);
        assert(b =~= seq![b[0]] + tb);
    }
}

/// A merge is determined by what is merged: two lists that both are the
/// merge of the same entries are the same list.
pub proof fn lemma_merge_unique(
    a: Seq<LockModelView>,
    b: Seq<LockModelView>,
    entries: Seq<LockModelView>,
)
    requires
        is_merge_of(a, entries),
        is_merge_of(b, entries),
    ensures
        a == b,
{
    assert forall|i: int| 0 <= i < a.len() implies has_id(b, (#[trigger] a[i]).model_id) by {
        lemma_latest_is_entry(entries, a[i].model_id);
        let k = choose|k: int|
            0 <= k < entries.len() && #[trigger] entries[k] == latest_entry(
                entries,
                a[i].model_id,
            )->0;
        assert(has_id(b, entries[k].model_id));
    }
    assert forall|j: int| 0 <= j < b.len() implies has_id(a, (#[trigger] b[j]).model_id) by {
        lemma_latest_is_entry(entries, b[j].model_id);
        let k = choose|k: int|
            0 <= k < entries.len() && #[trigger] entries[k] == latest_entry(
                entries,
                b[j].model_id,
            )->0;
        assert(has_id(a, entries[k].model_id));
    }
    lemma_ascending_agree_equal(a, b);
}

proof fn lemma_latest_with_recorded(
    lock: Seq<LockModelView>,
    updates: Seq<LockModelView>,
    i: int,
)
    requires
        ids_ascending(lock),
        0 <= i < lock.len(),
        forall|k: int| 0 <= k < updates.len() ==> lock.contains(#[trigger] updates[k]),
    ensures
        latest_entry(lock + updates, lock[i].model_id) == Some(lock[i]),
    decreases lock.len() + updates.len(),
{
    let all = lock + updates;
    let id = lock[i].model_id;
    if updates.len() > 0 {
        assert(all.last() == updates.last());
        assert(all.drop_last() =~= lock + updates.drop_last());
        assert(lock.contains(updates[updates.len() - 1]));
        if all.last().model_id == id {
            let m = choose|m: int| 0 <= m < lock.len() && lock[m] == updates.last();
            if m < i {
                lemma_lex_asymmetric(lock[m].model_id, lock[i].model_id);
            } else if i < m {
                lemma_lex_asymmetric(lock[i].model_id, lock[m].model_id);
            }
        } else {
            assert forall|k: int| 0 <= k < updates.drop_last().len() implies lock.contains(
                #[trigger] updates.drop_last()[k],
            ) by {
                assert(updates.drop_last()[k] == updates[k]);
            }
            lemma_latest_with_recorded(lock, updates.drop_last(), i);
        }
    } else {
        assert(all =~= lock);
        if i == lock.len() - 1 {
        } else {
            lemma_lex_asymmetric(lock[i].model_id, lock[lock.len() - 1].model_id);
            let shorter = lock.drop_last();
            assert forall|x: int, y: int|
                #![trigger shorter[x], shorter[y]]
                0 <= x < y < shorter.len() implies lex_lt(shorter[x].model_id, shorter[y].model_id) by {
                assert(shorter[x] == lock[x] && shorter[y] == lock[y]);
            }
            lemma_latest_with_recorded(shorter, Seq::empty(), i);
            assert(shorter + Seq::<LockModelView>::empty() =~= shorter);
            assert(shorter[i] == lock[i]);
        }
    }
}

/// Merging into a lockfile records that it already holds, each exactly as
/// it is held, leaves the list of records as it was.
pub proof fn lemma_merge_of_recorded_is_unchanged(
    lock: Seq<LockModelView>,
    updates: Seq<LockModelView>,
    merged: Seq<LockModelView>,
)
    requires
        ids_ascending(lock),
        forall|k: int| 0 <= k < updates.len() ==> lock.contains(#[trigger] updates[k]),
        is_merge_of(merged, lock + updates),
    ensures
        merged == lock,
{
    let all = lock + updates;
    assert forall|i: int| 0 <= i < lock.len() implies latest_entry(
        all,
        (#[trigger] lock[i]).model_id,
    ) == Some(lock[i]) by {
        lemma_latest_with_recorded(lock, updates, i);
    }
    assert forall|k: int| 0 <= k < all.len() implies has_id(lock, (#[trigger] all[k]).model_id) by {
        if k < lock.len() {
            assert(all[k] == lock[k]);
        } else {
            assert(all[k] == updates[k - lock.len()]);
            assert(lock.contains(updates[k - lock.len()]));
            let m = choose|m: int| 0 <= m < lock.len() && lock[m] == updates[k - lock.len()];
            assert(lock[m].model_id == all[k].model_id);
        }
    }
    lemma_merge_unique(merged, lock, all);
}


/// Where a later list holds a record for `id`, the last record for `id`
/// in the two lists put together is one of the later list.
pub proof fn lemma_latest_is_among_the_later(
    earlier: Seq<LockModelView>,
    later: Seq<LockModelView>,
    id: Seq<char>,
)
    requires
        exists|k: int| 0 <= k < later.len() && (#[trigger] later[k]).model_id == id,
    ensures
        latest_entry(earlier + later, id) is Some,
        latest_entry(earlier + later, id)->0.model_id == id,
        later.contains(latest_entry(earlier + later, id)->0),
    decreases later.len(),
{
    let all = earlier + later;
    assert(all.last() == later.last());
    assert(all.drop_last() =~= earlier + later.drop_last());
    if later.last().model_id == id {
        assert(later[later.len() - 1] == later.last());
    } else {
        let front = later.drop_last();
        let k = choose|k: int| 0 <= k < later.len() && (#[trigger] later[k]).model_id == id;
        assert(front[k] == later[k]);
        lemma_latest_is_among_the_later(earlier, front, id);
        let e = latest_entry(earlier + front, id)->0;
        let m = choose|m: int| 0 <= m < front.len() && front[m] == e;
        assert(later[m] == e);
    }
}

} // verus!
