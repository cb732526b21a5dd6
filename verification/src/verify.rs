//! Verification of a lockfile against what is on disk: every recorded file
//! must be there, with the recorded size and the recorded content hash.

use vstd::prelude::*;
use crate::installer::{
    lemma_sorted_by_path, paths_distinct, sorted_by_path, InstallError, InstallErrorView,
};
use crate::registry::{
    file_views, model_views, KnownModel, LockFileEntry, LockFileEntryView, LockModel,
    LockModelView, ModelLock,
};
use crate::text::text_eq;

verus! {

/// The first of the files seen that has the path `path`.
pub open spec fn observed_file(seen: Seq<LockFileEntryView>, path: Seq<char>) -> Option<
    LockFileEntryView,
>
    decreases seen.len(),
{
    if seen.len() == 0 {
        None
    } else if seen[0].path == path {
        Some(seen[0])
    } else {
        observed_file(seen.drop_first(), path)
    }
}

/// What is wrong with a recorded file, given the file seen at its path: it
/// is missing, or its size differs, or, the sizes being equal, its content
/// hash differs. A difference is reported with the recorded and the found
/// value. `None` where nothing is wrong.
pub open spec fn file_defect(
    record: LockModelView,
    entry: LockFileEntryView,
    seen: Option<LockFileEntryView>,
) -> Option<InstallErrorView> {
    match seen {
        None => Some(
            InstallErrorView::MissingFile {
                model_id: record.model_id,
                revision: record.revision,
                path: entry.path,
            },
        ),
        Some(found) => if found.size != entry.size {
            Some(
                InstallErrorView::SizeMismatch {
                    model_id: record.model_id,
                    revision: record.revision,
                    path: entry.path,
                    expected: entry.size,
                    actual: found.size,
                },
            )
        } else if found.sha256 != entry.sha256 {
            Some(
                InstallErrorView::ChecksumMismatch {
                    model_id: record.model_id,
                    revision: record.revision,
                    path: entry.path,
                    expected: entry.sha256,
                    actual: found.sha256,
                },
            )
        } else {
            None
        },
    }
}

/// Checks one recorded file against the file seen at its path, if any.
pub fn verify_file(record: &LockModel, entry: &LockFileEntry, seen: Option<&LockFileEntry>) -> (r:
    Result<(), InstallError>)
    ensures
        file_defect(
            record@,
            entry@,
            match seen {
                Some(found) => Some(found@),
                None => None,
            },
        ) == match r {
            Ok(_) => None,
            Err(e) => Some(e@),
        },
{
    match seen {
        None => Err(
            InstallError::MissingFile {
                model_id: record.model_id.clone(),
                revision: record.revision.clone(),
                path: entry.path.clone(),
            },
        ),
        Some(found) => {
            if found.size != entry.size {
                Err(
                    InstallError::SizeMismatch {
                        model_id: record.model_id.clone(),
                        revision: record.revision.clone(),
                        path: entry.path.clone(),
                        expected: entry.size,
                        actual: found.size,
                    },
                )
            } else if !text_eq(found.sha256.as_str(), entry.sha256.as_str()) {
                Err(
                    InstallError::ChecksumMismatch {
                        model_id: record.model_id.clone(),
                        revision: record.revision.clone(),
                        path: entry.path.clone(),
                        expected: entry.sha256.clone(),
                        actual: found.sha256.clone(),
                    },
                )
            } else {
                Ok(())
            }
        },
    }
}

/// Finds the file seen at `path`.
pub fn find_observed<'a>(seen: &'a Vec<LockFileEntry>, path: &str) -> (r: Option<&'a LockFileEntry>)
    ensures
        observed_file(file_views(seen@), path@) == match r {
            Some(found) => Some(found@),
            None => None,
        },
{
    let ghost all = file_views(seen@);
    let mut i: usize = 0;
    assert(all.skip(0) =~= all);
    while i < seen.len()
        invariant
            i <= seen.len(),
            all == file_views(seen@),
            observed_file(all, path@) == observed_file(all.skip(i as int), path@),
        decreases seen.len() - i,
    {
        proof {
            let rest = all.skip(i as int);
            assert(rest[0] == seen[i as int]@);
            assert(rest.drop_first() =~= all.skip(i + 1));
        }
        if text_eq(seen[i].path.as_str(), path) {
            return Some(&seen[i]);
        }
        i = i + 1;
    }
    None
}

/// What the caller is to find out next, about the file at this place in the
/// lockfile.
#[derive(Debug, Clone, Copy, PartialEq, Eq, Structural)]
pub enum VerifyStep {
    /// Whether the file is there, and how long it is.
    Stat { model: usize, file: usize },
    /// The content hash of the file.
    Hash { model: usize, file: usize },
    /// Nothing: the verification is over.
    Done,
}

/// A verification in progress: record by record and file by file, each file
/// first by its size and only then by its content hash, up to the first
/// defect.
pub struct Verification<'a> {
    lock: &'a ModelLock,
    model: usize,
    file: usize,
    sized: bool,
    failure: Option<InstallError>,
}

pub struct VerificationView {
    pub records: Seq<LockModelView>,
    pub model: int,
    pub file: int,
    pub sized: bool,
    pub failure: Option<InstallErrorView>,
}

impl<'a> View for Verification<'a> {
    type V = VerificationView;

    closed spec fn view(&self) -> VerificationView {
        VerificationView {
            records: model_views(self.lock.models@),
            model: self.model as int,
            file: self.file as int,
            sized: self.sized,
            failure: match self.failure {
                Some(e) => Some(e@),
                None => None,
            },
        }
    }
}

/// The verification at the first file at or after a place in the lockfile:
/// records without files are passed over, and a record of an unknown model
/// is the defect that ends the verification.
pub open spec fn settled(records: Seq<LockModelView>, model: int, file: int) -> VerificationView
    decreases records.len() - model,
{
    if model < 0 || model >= records.len() {
        VerificationView { records, model: records.len() as int, file: 0, sized: false, failure: None }
    } else if KnownModel::named_by(records[model].model_id) is None {
        VerificationView {
            records,
            model,
            file: 0,
            sized: false,
            failure: Some(
                InstallErrorView::UnknownLockfileModel { model_id: records[model].model_id },
            ),
        }
    } else if file >= records[model].files.len() {
        settled(records, model + 1, 0)
    } else {
        VerificationView { records, model, file, sized: false, failure: None }
    }
}

impl VerificationView {
    pub open spec fn well_formed(self) -> bool {
        &&& 0 <= self.model <= self.records.len()
        &&& self.failure is None && self.model < self.records.len() ==> {
            &&& KnownModel::named_by(self.records[self.model].model_id) is Some
            &&& 0 <= self.file < self.records[self.model].files.len()
        }
    }

    /// The next step.
    pub open spec fn step(self) -> VerifyStep {
        if self.failure is Some || self.model >= self.records.len() {
            VerifyStep::Done
        } else if !self.sized {
            VerifyStep::Stat { model: self.model as usize, file: self.file as usize }
        } else {
            VerifyStep::Hash { model: self.model as usize, file: self.file as usize }
        }
    }

    /// The verification after the look at the file at hand: a file that is
    /// not there, or is of another size than recorded, is the defect that
    /// ends the verification.
    pub open spec fn sized_up(self, size: Option<u64>) -> VerificationView {
        let record = self.records[self.model];
        let entry = record.files[self.file];
        match size {
            None => VerificationView {
                failure: Some(
                    InstallErrorView::MissingFile {
                        model_id: record.model_id,
                        revision: record.revision,
                        path: entry.path,
                    },
                ),
                ..self
            },
            Some(found) => if found != entry.size {
                VerificationView {
                    failure: Some(
                        InstallErrorView::SizeMismatch {
                            model_id: record.model_id,
                            revision: record.revision,
                            path: entry.path,
                            expected: entry.size,
                            actual: found,
                        },
                    ),
                    ..self
                }
            } else {
                VerificationView { sized: true, ..self }
            },
        }
    }

    /// The verification after the file at hand was hashed: another hash
    /// than recorded is the defect that ends the verification, reported
    /// with both hashes; with the recorded hash the next file is at hand.
    pub open spec fn hashed(self, digest: Seq<char>) -> VerificationView {
        let record = self.records[self.model];
        let entry = record.files[self.file];
        if digest != entry.sha256 {
            VerificationView {
                failure: Some(
                    InstallErrorView::ChecksumMismatch {
                        model_id: record.model_id,
                        revision: record.revision,
                        path: entry.path,
                        expected: entry.sha256,
                        actual: digest,
                    },
                ),
                ..self
            }
        } else {
            settled(self.records, self.model, self.file + 1)
        }
    }
}

impl<'a> Verification<'a> {
    #[verifier::loop_isolation(false)]
    fn settle(&mut self)
        requires
            old(self).model <= old(self).lock.models.len(),
            old(self).failure is None,
            !old(self).sized,
        ensures
            final(self)@ == settled(old(self)@.records, old(self)@.model, old(self)@.file),
            final(self)@.well_formed(),
            final(self).lock == old(self).lock,
    {
        let ghost records = self@.records;
        let ghost start = (self.model as int, self.file as int);
        while self.model < self.lock.models.len()
            invariant
                self.model <= self.lock.models.len(),
                self.failure is None,
                !self.sized,
                records == model_views(self.lock.models@),
                self.lock == old(self).lock,
                settled(records, self.model as int, self.file as int) == settled(
                    records,
                    start.0,
                    start.1,
                ),
            decreases self.lock.models.len() - self.model,
        {
            assert(records[self.model as int] == self.lock.models[self.model as int]@);
            let record: &LockModel = &self.lock.models[self.model];
            if KnownModel::from_model_id(record.model_id.as_str()).is_none() {
                self.file = 0;
                self.failure = Some(
                    InstallError::UnknownLockfileModel { model_id: record.model_id.clone() },
                );
                return ;
            }
            if self.file < record.files.len() {
                return ;
            }
            self.model = self.model + 1;
            self.file = 0;
        }
        self.file = 0;
    }

    /// Starts the verification of a lockfile.
    pub fn begin(lock: &'a ModelLock) -> (verification: Verification<'a>)
        ensures
            verification@ == settled(model_views(lock.models@), 0, 0),
            verification@.well_formed(),
    {
        let mut verification = Verification { lock, model: 0, file: 0, sized: false, failure: None };
        verification.settle();
        verification
    }

    /// The next step.
    pub fn step(&self) -> (step: VerifyStep)
        requires
            self@.well_formed(),
        ensures
            step == self@.step(),
    {
        if self.failure.is_some() || self.model >= self.lock.models.len() {
            VerifyStep::Done
        } else if !self.sized {
            VerifyStep::Stat { model: self.model, file: self.file }
        } else {
            VerifyStep::Hash { model: self.model, file: self.file }
        }
    }

    /// The record of the file at hand.
    pub fn record(&self) -> (record: &'a LockModel)
        requires
            self@.well_formed(),
            self@.step() != VerifyStep::Done,
        ensures
            record@ == self@.records[self@.model],
    {
        assert(self@.records[self.model as int] == self.lock.models[self.model as int]@);
        &self.lock.models[self.model]
    }

    /// The file at hand, as recorded.
    pub fn entry(&self) -> (entry: &'a LockFileEntry)
        requires
            self@.well_formed(),
            self@.step() != VerifyStep::Done,
        ensures
            entry@ == self@.records[self@.model].files[self@.file],
    {
        assert(self@.records[self.model as int] == self.lock.models[self.model as int]@);
        &self.lock.models[self.model].files[self.file]
    }

    /// Takes in the look at the file at hand: its size, or `None` where it
    /// is not there.
    pub fn sized_up(&mut self, size: Option<u64>)
        requires
            old(self)@.well_formed(),
            old(self)@.step() is Stat,
        ensures
            final(self)@ == old(self)@.sized_up(size),
            final(self)@.well_formed(),
    {
        assert(self@.records[self.model as int] == self.lock.models[self.model as int]@);
        let record: &LockModel = &self.lock.models[self.model];
        let entry: &LockFileEntry = &record.files[self.file];
        assert(record@.files[self.file as int] == entry@);
        match size {
            None => {
                self.failure = Some(
                    InstallError::MissingFile {
                        model_id: record.model_id.clone(),
                        revision: record.revision.clone(),
                        path: entry.path.clone(),
                    },
                );
            },
            Some(found) => {
                if found != entry.size {
                    self.failure = Some(
                        InstallError::SizeMismatch {
                            model_id: record.model_id.clone(),
                            revision: record.revision.clone(),
                            path: entry.path.clone(),
                            expected: entry.size,
                            actual: found,
                        },
                    );
                } else {
                    self.sized = true;
                }
            },
        }
    }

    /// Takes in the content hash of the file at hand.
    pub fn hashed(&mut self, digest: &str)
        requires
            old(self)@.well_formed(),
            old(self)@.step() is Hash,
        ensures
            final(self)@ == old(self)@.hashed(digest@),
            final(self)@.well_formed(),
    {
        assert(self@.records[self.model as int] == self.lock.models[self.model as int]@);
        let record: &LockModel = &self.lock.models[self.model];
        let entry: &LockFileEntry = &record.files[self.file];
        assert(record@.files[self.file as int] == entry@);
        if !text_eq(digest, entry.sha256.as_str()) {
            self.failure = Some(
                InstallError::ChecksumMismatch {
                    model_id: record.model_id.clone(),
                    revision: record.revision.clone(),
                    path: entry.path.clone(),
                    expected: entry.sha256.clone(),
                    actual: digest.to_string(),
                },
            );
        } else {
            assert(self.file < record.files.len());
            self.sized = false;
            self.file = self.file + 1;
            self.settle();
        }
    }

    /// Ends the verification once nothing is left to find out: the first
    /// defect, if there was one.
    pub fn finish(self) -> (r: Result<(), InstallError>)
        requires
            self@.well_formed(),
            self@.step() == VerifyStep::Done,
        ensures
            match r {
                Ok(_) => self@.failure is None,
                Err(e) => self@.failure == Some(e@),
            },
    {
        match self.failure {
            Some(e) => Err(e),
            None => Ok(()),
        }
    }
}

/// What was seen in the revision directory of the `i`-th record: its files
/// with size and content hash; nothing where no listing was given.
pub open spec fn observed_at(observed: Seq<Vec<LockFileEntry>>, i: int) -> Seq<LockFileEntryView> {
    if 0 <= i < observed.len() {
        file_views(observed[i]@)
    } else {
        Seq::empty()
    }
}

/// `defect` is what verification finds wrong with a record, or `None` where
/// it finds nothing: a model identifier that names no known model, else the
/// defect of the first recorded file that has one.
pub open spec fn is_lock_defect(
    record: LockModelView,
    seen: Seq<LockFileEntryView>,
    defect: Option<InstallErrorView>,
) -> bool {
    if KnownModel::named_by(record.model_id) is None {
        defect == Some(InstallErrorView::UnknownLockfileModel { model_id: record.model_id })
    } else {
        match defect {
            Some(e) => exists|j: int|
                0 <= j < record.files.len() && file_defect(
                    record,
                    #[trigger] record.files[j],
                    observed_file(seen, record.files[j].path),
                ) == Some(e) && forall|k: int|
                    0 <= k < j ==> file_defect(
                        record,
                        #[trigger] record.files[k],
                        observed_file(seen, record.files[k].path),
                    ) is None,
            None => forall|j: int|
                0 <= j < record.files.len() ==> file_defect(
                    record,
                    #[trigger] record.files[j],
                    observed_file(seen, record.files[j].path),
                ) is None,
        }
    }
}

/// `result` is the outcome of verifying the records in order: the defect of
/// the first record that has one, or `None` where none has.
pub open spec fn is_verification(
    records: Seq<LockModelView>,
    observed: Seq<Vec<LockFileEntry>>,
    result: Option<InstallErrorView>,
) -> bool {
    match result {
        Some(e) => exists|i: int|
            0 <= i < records.len() && is_lock_defect(
                #[trigger] records[i],
                observed_at(observed, i),
                Some(e),
            ) && forall|k: int|
                0 <= k < i ==> is_lock_defect(#[trigger] records[k], observed_at(observed, k), None),
        None => forall|i: int|
            0 <= i < records.len() ==> is_lock_defect(
                #[trigger] records[i],
                observed_at(observed, i),
                None,
            ),
    }
}

#[verifier::loop_isolation(false)]
fn lock_defect(record: &LockModel, seen: &Vec<LockFileEntry>) -> (r: Option<InstallError>)
    ensures
        is_lock_defect(
            record@,
            file_views(seen@),
            match r {
                Some(e) => Some(e@),
                None => None,
            },
        ),
{
    if KnownModel::from_model_id(record.model_id.as_str()).is_none() {
        return Some(InstallError::UnknownLockfileModel { model_id: record.model_id.clone() });
    }
    let ghost rv = record@;
    let mut j: usize = 0;
    while j < record.files.len()
        invariant
            j <= record.files.len(),
            forall|k: int|
                0 <= k < j ==> file_defect(
                    rv,
                    #[trigger] rv.files[k],
                    observed_file(file_views(seen@), rv.files[k].path),
                ) is None,
        decreases record.files.len() - j,
    {
        assert(rv.files[j as int] == record.files[j as int]@);
        let found: Option<&LockFileEntry> = find_observed(seen, record.files[j].path.as_str());
        match verify_file(record, &record.files[j], found) {
            Ok(_) => {},
            Err(e) => {
                assert(file_defect(
                    rv,
                    rv.files[j as int],
                    observed_file(file_views(seen@), rv.files[j as int].path),
                ) == Some(e@));
                return Some(e);
            },
        }
        j = j + 1;
    }
    None
}

/// Verifies a lockfile against what was seen on disk, record by record and
/// file by file; the first defect ends it. Nothing is changed.
pub fn verify_models(lock: &ModelLock, observed: &Vec<Vec<LockFileEntry>>) -> (r: Result<
    (),
    InstallError,
>)
    ensures
        is_verification(
            model_views(lock.models@),
            observed@,
            match r {
                Ok(_) => None,
                Err(e) => Some(e@),
            },
        ),
{
    let nothing: Vec<LockFileEntry> = Vec::new();
    let ghost records = model_views(lock.models@);
    let mut i: usize = 0;
    while i < lock.models.len()
        invariant
            i <= lock.models.len(),
            nothing@.len() == 0,
            records == model_views(lock.models@),
            forall|k: int|
                0 <= k < i ==> is_lock_defect(#[trigger] records[k], observed_at(observed@, k), None),
        decreases lock.models.len() - i,
    {
        let seen: &Vec<LockFileEntry> = if i < observed.len() {
            &observed[i]
        } else {
            &nothing
        };
        assert(file_views(seen@) =~= observed_at(observed@, i as int));
        assert(records[i as int] == lock.models[i as int]@);
        match lock_defect(&lock.models[i], seen) {
            Some(e) => {
                return Err(e);
            },
            None => {},
        }
        i = i + 1;
    }
    Ok(())
}

proof fn lemma_observed_is_itself(seen: Seq<LockFileEntryView>, at: int)
    requires
        paths_distinct(seen),
        0 <= at < seen.len(),
    ensures
        observed_file(seen, seen[at].path) == Some(seen[at]),
    decreases seen.len(),
{
    if at > 0 {
        let rest = seen.drop_first();
        assert forall|i: int, j: int|
            #![trigger rest[i], rest[j]]
            0 <= i < j < rest.len() implies rest[i].path != rest[j].path by {
            assert(rest[i] == seen[i + 1] && rest[j] == seen[j + 1]);
        }
        assert(rest[at - 1] == seen[at]);
        assert(seen[0].path != seen[at].path);
        lemma_observed_is_itself(rest, at - 1);
    }
}

/// A record of a known model verifies against a directory that holds each
/// of its files exactly as recorded.
pub proof fn lemma_record_of_seen_files_verifies(record: LockModelView, seen: Seq<LockFileEntryView>)
    requires
        KnownModel::named_by(record.model_id) is Some,
        paths_distinct(seen),
        forall|j: int| 0 <= j < record.files.len() ==> seen.contains(#[trigger] record.files[j]),
    ensures
        is_lock_defect(record, seen, None),
{
    assert forall|j: int| 0 <= j < record.files.len() implies file_defect(
        record,
        #[trigger] record.files[j],
        observed_file(seen, record.files[j].path),
    ) is None by {
        assert(seen.contains(record.files[j]));
        let at = choose|at: int| 0 <= at < seen.len() && seen[at] == record.files[j];
        lemma_observed_is_itself(seen, at);
    }
}

/// Install, then verify: a record that an install makes of a revision
/// directory, be it of the files it has just fetched there or of the files
/// it found there, verifies against that directory as long as nothing in it
/// has changed.
pub proof fn lemma_installed_record_verifies(record: LockModelView, seen: Seq<LockFileEntryView>)
    requires
        KnownModel::named_by(record.model_id) is Some,
        paths_distinct(seen),
        record.files == seen || record.files == sorted_by_path(seen),
    ensures
        is_lock_defect(record, seen, None),
{
    broadcast use vstd::seq_lib::to_multiset_contains;

    lemma_sorted_by_path(seen);
    assert forall|j: int| 0 <= j < record.files.len() implies seen.contains(
        #[trigger] record.files[j],
    ) by {
        if record.files == seen {
        } else {
            assert(record.files.contains(record.files[j]));
            assert(record.files.to_multiset().count(record.files[j]) > 0);
        }
    }
    lemma_record_of_seen_files_verifies(record, seen);
}

/// Install, then verify, for a whole lockfile: where every record is of a
/// known model and was made of the files seen in its revision directory,
/// verification against what was seen finds nothing wrong.
pub proof fn lemma_installed_lock_verifies(
    records: Seq<LockModelView>,
    observed: Seq<Vec<LockFileEntry>>,
)
    requires
        forall|i: int|
            0 <= i < records.len() ==> {
                &&& KnownModel::named_by((#[trigger] records[i]).model_id) is Some
                &&& paths_distinct(observed_at(observed, i))
                &&& (records[i].files == observed_at(observed, i) || records[i].files
                    == sorted_by_path(observed_at(observed, i)))
            },
    ensures
        is_verification(records, observed, None),
{
    assert forall|i: int| 0 <= i < records.len() implies is_lock_defect(
        #[trigger] records[i],
        observed_at(observed, i),
        None,
    ) by {
        lemma_installed_record_verifies(records[i], observed_at(observed, i));
    }
}

/// What was seen of the file at hand: the first of the files seen for its
/// record that has its path.
pub open spec fn seen_at_hand(v: VerificationView, observed: Seq<Vec<LockFileEntry>>) -> Option<
    LockFileEntryView,
> {
    observed_file(observed_at(observed, v.model), v.records[v.model].files[v.file].path)
}

/// Everything before a place in the lockfile is without defect against
/// what was seen: every record before the one at hand, and in the record at
/// hand every file before the one at hand.
pub open spec fn clean_before(
    records: Seq<LockModelView>,
    observed: Seq<Vec<LockFileEntry>>,
    model: int,
    file: int,
) -> bool {
    &&& forall|k: int|
        0 <= k < model && k < records.len() ==> is_lock_defect(
            #[trigger] records[k],
            observed_at(observed, k),
            None,
        )
    &&& model < records.len() ==> forall|j: int|
        0 <= j < file && j < records[model].files.len() ==> file_defect(
            records[model],
            #[trigger] records[model].files[j],
            observed_file(observed_at(observed, model), records[model].files[j].path),
        ) is None
}

/// A verification in progress agrees with what was seen: nothing before
/// the file at hand has a defect, a defect it has found is the defect of
/// the record at hand, and a file it has sized up is there with the
/// recorded size.
pub open spec fn agrees(v: VerificationView, observed: Seq<Vec<LockFileEntry>>) -> bool {
    &&& v.well_formed()
    &&& clean_before(v.records, observed, v.model, v.file)
    &&& v.failure is Some ==> v.model < v.records.len() && is_lock_defect(
        v.records[v.model],
        observed_at(observed, v.model),
        v.failure,
    )
    &&& v.failure is None && v.model < v.records.len() && v.sized ==> seen_at_hand(v, observed)
        is Some && seen_at_hand(v, observed)->0.size == v.records[v.model].files[v.file].size
}

proof fn lemma_settled_agrees(
    records: Seq<LockModelView>,
    observed: Seq<Vec<LockFileEntry>>,
    model: int,
    file: int,
)
    requires
        0 <= model <= records.len(),
        0 <= file,
        clean_before(records, observed, model, file),
    ensures
        agrees(settled(records, model, file), observed),
    decreases records.len() - model,
{
    if model < records.len() && KnownModel::named_by(records[model].model_id) is Some && file
        >= records[model].files.len() {
        assert(is_lock_defect(records[model], observed_at(observed, model), None));
        lemma_settled_agrees(records, observed, model + 1, 0);
    }
}

/// The verification finds what `verify_models` finds. A verification that
/// is told of each file what was seen of it agrees with what was seen from
/// its first step on and after every step; and once it is over, its verdict
/// is the outcome of verifying the records in order against what was seen:
/// the first defect, or none.
pub proof fn lemma_verification_finds_the_first_defect(
    v: VerificationView,
    observed: Seq<Vec<LockFileEntry>>,
)
    requires
        agrees(v, observed),
    ensures
        agrees(settled(v.records, 0, 0), observed),
        v.step() is Stat ==> agrees(
            v.sized_up(
                match seen_at_hand(v, observed) {
                    Some(found) => Some(found.size),
                    None => None,
                },
            ),
            observed,
        ),
        v.step() is Hash ==> agrees(v.hashed(seen_at_hand(v, observed)->0.sha256), observed),
        v.step() == VerifyStep::Done ==> is_verification(v.records, observed, v.failure),
{
    lemma_settled_agrees(v.records, observed, 0, 0);
    let record = v.records[v.model];
    let seen = seen_at_hand(v, observed);
    if v.step() is Stat {
        let next = v.sized_up(
            match seen {
                Some(found) => Some(found.size),
                None => None,
            },
        );
        if next.failure is Some {
            assert(file_defect(record, record.files[v.file], seen) == next.failure);
        }
    }
    if v.step() is Hash {
        let next = v.hashed(seen->0.sha256);
        if seen->0.sha256 != record.files[v.file].sha256 {
            assert(file_defect(record, record.files[v.file], seen) == next.failure);
        } else {
            assert(file_defect(record, record.files[v.file], seen) is None);
            lemma_settled_agrees(v.records, observed, v.model, v.file + 1);
        }
    }
    if v.step() == VerifyStep::Done {
        if v.failure is Some {
            assert(is_lock_defect(v.records[v.model], observed_at(observed, v.model), v.failure));
        }
    }
}

} // verus!
