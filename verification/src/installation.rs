//! An install from its first step to its last. The install is a machine:
//! it names the next thing to find out or to do for the target at hand,
//! takes in what was found or done, and in the end concludes with the
//! report and the lockfile to write. Looking, fetching and writing are the
//! caller's part.

use vstd::prelude::*;
use crate::installer::{
    admit_install, conclude_install, has_onnx_file, holds_weights, is_conclusion,
    is_record_defect, is_validation, listing_at,
    lemma_sorted_by_path_of_same_files, lock_from_download, lock_from_existing_dir,
    outcome_records, outcome_views, paths_distinct, plan_target, reported_ids, sorted_by_path,
    source_label, target_models, text_views, Conclusion, ErrorClass, InstallError,
    InstallErrorView, InstallRequest, TargetAction, TargetOutcome, TargetOutcomeView,
};
use crate::registry::{
    file_views, has_id, is_merge_of, latest_entry, lemma_latest_is_among_the_later,
    lemma_merge_of_recorded_is_unchanged, lemma_model_id_round_trip, KnownModel, LockFileEntry,
    LockFileEntryView, LockModel, LockModelView, ModelLock, ModelPaths,
};

verus! {

/// What the caller is to do next.
#[derive(Debug, Clone, Copy, PartialEq, Eq, Structural)]
pub enum InstallStep {
    /// Look at the revision directory of this model: is it there, and which
    /// files does it hold?
    Observe(KnownModel),
    /// The revision is installed: take size and content hash of every file
    /// in its directory.
    Rehash(KnownModel),
    /// The directory is a leftover: remove it, then fetch the revision.
    Refetch(KnownModel),
    /// Fetch the revision.
    Fetch(KnownModel),
    /// Every target is dealt with: conclude.
    Conclude,
}

/// One install in progress.
#[derive(Debug)]
pub struct Installation {
    targets: Vec<KnownModel>,
    revision_rmbg14: String,
    revision_rmbg20: String,
    verify_only: bool,
    next: usize,
    planned: Option<TargetAction>,
    outcomes: Vec<TargetOutcome>,
}

pub struct InstallationView {
    pub targets: Seq<KnownModel>,
    pub revision_rmbg14: Seq<char>,
    pub revision_rmbg20: Seq<char>,
    pub verify_only: bool,
    pub next: int,
    pub planned: Option<TargetAction>,
    pub outcomes: Seq<TargetOutcomeView>,
}

impl View for Installation {
    type V = InstallationView;

    closed spec fn view(&self) -> InstallationView {
        InstallationView {
            targets: self.targets@,
            revision_rmbg14: self.revision_rmbg14@,
            revision_rmbg20: self.revision_rmbg20@,
            verify_only: self.verify_only,
            next: self.next as int,
            planned: self.planned,
            outcomes: outcome_views(self.outcomes@),
        }
    }
}

/// What was found and done for one target: whether its revision directory
/// was there, the paths of the files it held, and the files of the revision
/// with size and content hash, as found on disk or as fetched.
pub struct TargetEvent {
    pub dir_exists: bool,
    pub listing: Seq<Seq<char>>,
    pub files: Seq<LockFileEntryView>,
}

impl InstallationView {
    pub open spec fn well_formed(self) -> bool {
        &&& 0 <= self.next <= self.targets.len()
        &&& self.outcomes.len() == self.next
        &&& self.next == self.targets.len() ==> self.planned is None
    }

    /// The revision asked for of a model.
    pub open spec fn revision_of(self, model: KnownModel) -> Seq<char> {
        match model {
            KnownModel::Rmbg14 => self.revision_rmbg14,
            KnownModel::Rmbg20 => self.revision_rmbg20,
        }
    }

    /// The next step: for the target at hand, to look at its directory, and
    /// then what the look decided; to conclude, once no target is left.
    pub open spec fn step(self) -> InstallStep {
        if self.next >= self.targets.len() {
            InstallStep::Conclude
        } else {
            match self.planned {
                None => InstallStep::Observe(self.targets[self.next]),
                Some(TargetAction::Skip) => InstallStep::Rehash(self.targets[self.next]),
                Some(TargetAction::Redownload) => InstallStep::Refetch(self.targets[self.next]),
                Some(TargetAction::Download) => InstallStep::Fetch(self.targets[self.next]),
            }
        }
    }

    /// What is decided for a target from the look at its directory.
    pub open spec fn plan(dir_exists: bool, listing: Seq<Seq<char>>) -> TargetAction {
        if !dir_exists {
            TargetAction::Download
        } else if holds_weights(listing) {
            TargetAction::Skip
        } else {
            TargetAction::Redownload
        }
    }

    /// The install after the look at the directory of the target at hand.
    pub open spec fn observed(self, dir_exists: bool, listing: Seq<Seq<char>>) -> InstallationView {
        InstallationView { planned: Some(Self::plan(dir_exists, listing)), ..self }
    }

    /// The outcome of a target: its record lists the files of the revision,
    /// found on disk or fetched, in order of path.
    pub open spec fn outcome(
        self,
        model: KnownModel,
        action: TargetAction,
        files: Seq<LockFileEntryView>,
    ) -> TargetOutcomeView {
        TargetOutcomeView {
            model,
            action,
            record: LockModelView {
                model_id: model.model_id_text(),
                revision: self.revision_of(model),
                source: source_label(),
                files: sorted_by_path(files),
            },
        }
    }

    /// The install after the files of the target at hand were taken in: the
    /// target is dealt with, and the next one is at hand.
    pub open spec fn recorded(self, files: Seq<LockFileEntryView>) -> InstallationView {
        InstallationView {
            next: self.next + 1,
            planned: None,
            outcomes: self.outcomes.push(
                self.outcome(self.targets[self.next], self.planned->0, files),
            ),
            ..self
        }
    }

    /// The install after one target after the other went as `events` say.
    pub open spec fn run(self, events: Seq<TargetEvent>) -> InstallationView
        decreases events.len(),
    {
        if events.len() == 0 || self.next >= self.targets.len() {
            self
        } else {
            self.observed(events[0].dir_exists, events[0].listing).recorded(events[0].files).run(
                events.drop_first(),
            )
        }
    }
}

/// An install before its first step.
pub open spec fn install_begun(
    targets: Seq<KnownModel>,
    revision_rmbg14: Seq<char>,
    revision_rmbg20: Seq<char>,
    verify_only: bool,
) -> InstallationView {
    InstallationView {
        targets,
        revision_rmbg14,
        revision_rmbg20,
        verify_only,
        next: 0,
        planned: None,
        outcomes: Seq::empty(),
    }
}

impl Installation {
    /// Starts an install, or refuses it before anything is looked at or
    /// fetched: under the built-in manifest, an install is refused if and
    /// only if the larger model is among its targets and there is no
    /// credential, by the configuration error that names that model.
    pub fn begin(request: &InstallRequest, token: Option<&str>) -> (r: Result<
        Installation,
        InstallError,
    >)
        ensures
            match r {
                Ok(install) => {
                    &&& install@ == install_begun(
                        target_models(request.install_all, request.models@),
                        request.revision_rmbg14@,
                        request.revision_rmbg20@,
                        request.verify_only,
                    )
                    &&& install@.well_formed()
                    &&& token is Some || !install@.targets.contains(KnownModel::Rmbg20)
                },
                Err(e) => {
                    &&& token is None
                    &&& target_models(request.install_all, request.models@).contains(
                        KnownModel::Rmbg20,
                    )
                    &&& e@ == (InstallErrorView::MissingCredential {
                        token_env: request.hf_token_env@,
                        model_id: KnownModel::Rmbg20.model_id_text(),
                    })
                    &&& e@.class() == ErrorClass::Configuration
                },
            },
    {
        let targets: Vec<KnownModel> = match admit_install(request, token) {
            Ok(targets) => targets,
            Err(e) => {
                return Err(e);
            },
        };
        let install = Installation {
            targets,
            revision_rmbg14: request.revision_rmbg14.clone(),
            revision_rmbg20: request.revision_rmbg20.clone(),
            verify_only: request.verify_only,
            next: 0,
            planned: None,
            outcomes: Vec::new(),
        };
        assert(outcome_views(install.outcomes@) =~= Seq::empty());
        Ok(install)
    }

    /// The next step.
    pub fn step(&self) -> (step: InstallStep)
        requires
            self@.well_formed(),
        ensures
            step == self@.step(),
    {
        if self.next >= self.targets.len() {
            InstallStep::Conclude
        } else {
            let model: KnownModel = self.targets[self.next];
            match self.planned {
                None => InstallStep::Observe(model),
                Some(TargetAction::Skip) => InstallStep::Rehash(model),
                Some(TargetAction::Redownload) => InstallStep::Refetch(model),
                Some(TargetAction::Download) => InstallStep::Fetch(model),
            }
        }
    }

    /// The revision asked for of a model.
    pub fn revision(&self, model: KnownModel) -> (revision: &String)
        ensures
            revision@ == self@.revision_of(model),
    {
        match model {
            KnownModel::Rmbg14 => &self.revision_rmbg14,
            KnownModel::Rmbg20 => &self.revision_rmbg20,
        }
    }

    /// Takes in the look at the revision directory of the target at hand:
    /// whether it is there, and the paths of the files it holds.
    pub fn observed(&mut self, dir_exists: bool, listing: &Vec<String>)
        requires
            old(self)@.well_formed(),
            old(self)@.step() is Observe,
        ensures
            final(self)@ == old(self)@.observed(dir_exists, text_views(listing@)),
            final(self)@.well_formed(),
    {
        self.planned = Some(plan_target(dir_exists, has_onnx_file(listing)));
    }

    /// Takes in the files of the target at hand, with size and content
    /// hash: those found in its directory where the step was to rehash,
    /// those fetched where the step was to fetch.
    pub fn recorded(&mut self, files: Vec<LockFileEntry>)
        requires
            old(self)@.well_formed(),
            old(self)@.step() is Rehash || old(self)@.step() is Refetch || old(self)@.step()
                is Fetch,
        ensures
            final(self)@ == old(self)@.recorded(file_views(files@)),
            final(self)@.well_formed(),
    {
        assert(self.next < self.targets.len());
        let model: KnownModel = self.targets[self.next];
        let action: TargetAction = match self.planned {
            Some(action) => action,
            None => vstd::pervasive::unreached(),
        };
        let record: LockModel = match action {
            TargetAction::Skip => lock_from_existing_dir(
                model.model_id(),
                self.revision(model).as_str(),
                files,
            ),
            _ => lock_from_download(model.model_id(), self.revision(model).as_str(), files),
        };
        let ghost before = outcome_views(self.outcomes@);
        let ghost added = self@.outcome(model, action, file_views(files@));
        self.outcomes.push(TargetOutcome { model, action, record });
        assert(outcome_views(self.outcomes@) =~= before.push(added));
        assert(self.next < self.targets.len());
        self.next = self.next + 1;
        self.planned = None;
    }

    /// Concludes the install once every target is dealt with, from what
    /// the revision directories hold now, the lockfile as it is, and the
    /// stamp for the new one.
    pub fn conclude(
        self,
        paths: ModelPaths,
        listings: &Vec<Vec<String>>,
        existing: Option<ModelLock>,
        generated_at: String,
    ) -> (r: Result<Conclusion, InstallError>)
        requires
            self@.well_formed(),
            self@.step() == InstallStep::Conclude,
        ensures
            is_conclusion(
                r,
                self@.verify_only,
                paths,
                self@.outcomes,
                listings@,
                existing,
                generated_at,
            ),
    {
        conclude_install(self.verify_only, paths, self.outcomes, listings, existing, generated_at)
    }
}

/// The identifiers of the targets, in order.
pub open spec fn target_ids(targets: Seq<KnownModel>) -> Seq<Seq<char>> {
    Seq::new(targets.len(), |i: int| targets[i].model_id_text())
}

proof fn lemma_run(install: InstallationView, all: Seq<TargetEvent>, k: int)
    requires
        install.well_formed(),
        install.planned is None,
        install.next == k,
        0 <= k <= install.targets.len(),
        all.len() == install.targets.len(),
        forall|i: int|
            0 <= i < k ==> install.outcomes[i] == install.outcome(
                install.targets[i],
                InstallationView::plan(all[i].dir_exists, all[i].listing),
                all[i].files,
            ),
    ensures
        install.run(all.skip(k)).step() == InstallStep::Conclude,
        install.run(all.skip(k)).well_formed(),
        install.run(all.skip(k)).verify_only == install.verify_only,
        install.run(all.skip(k)).outcomes.len() == all.len(),
        forall|i: int|
            0 <= i < all.len() ==> (#[trigger] install.run(all.skip(k)).outcomes[i])
                == install.outcome(
                install.targets[i],
                InstallationView::plan(all[i].dir_exists, all[i].listing),
                all[i].files,
            ),
    decreases all.len() - k,
{
    let rest = all.skip(k);
    if k < all.len() {
        assert(rest[0] == all[k]);
        assert(rest.drop_first() =~= all.skip(k + 1));
        let after = install.observed(all[k].dir_exists, all[k].listing).recorded(all[k].files);
        assert forall|i: int| 0 <= i < k + 1 implies after.outcomes[i] == after.outcome(
            after.targets[i],
            InstallationView::plan(all[i].dir_exists, all[i].listing),
            all[i].files,
        ) by {
            if i < k {
                assert(after.outcomes[i] == install.outcomes[i]);
            }
        }
        lemma_run(after, all, k + 1);
    }
}

proof fn lemma_reported_alike(outcomes: Seq<TargetOutcomeView>, skipped: bool)
    requires
        forall|i: int|
            0 <= i < outcomes.len() ==> ((#[trigger] outcomes[i]).action == TargetAction::Skip)
                == skipped,
    ensures
        reported_ids(outcomes, skipped) == Seq::new(
            outcomes.len(),
            |i: int| outcomes[i].model.model_id_text(),
        ),
        reported_ids(outcomes, !skipped) == Seq::<Seq<char>>::empty(),
    decreases outcomes.len(),
{
    if outcomes.len() == 0 {
        assert(reported_ids(outcomes, skipped) =~= Seq::new(
            outcomes.len(),
            |i: int| outcomes[i].model.model_id_text(),
        ));
    } else {
        let front = outcomes.drop_last();
        assert(forall|i: int| 0 <= i < front.len() ==> front[i] == outcomes[i]);
        lemma_reported_alike(front, skipped);
        assert(outcomes[outcomes.len() - 1] == outcomes.last());
        assert(reported_ids(outcomes, skipped) =~= Seq::new(
            outcomes.len(),
            |i: int| outcomes[i].model.model_id_text(),
        ));
    }
}

/// A first install installs everything. Where no revision directory of the
/// targets is there, every target is fetched; once all are dealt with the
/// install is to conclude, every target counts as installed and none as
/// skipped, in the order of the targets, and the record of each lists the
/// files fetched for it in order of path, under its identifier and the
/// revision asked for.
pub proof fn lemma_first_install_installs_all(
    targets: Seq<KnownModel>,
    revision_rmbg14: Seq<char>,
    revision_rmbg20: Seq<char>,
    verify_only: bool,
    events: Seq<TargetEvent>,
)
    requires
        events.len() == targets.len(),
        forall|i: int| 0 <= i < events.len() ==> !(#[trigger] events[i]).dir_exists,
    ensures
        ({
            let done = install_begun(targets, revision_rmbg14, revision_rmbg20, verify_only).run(
                events,
            );
            &&& done.step() == InstallStep::Conclude
            &&& done.verify_only == verify_only
            &&& reported_ids(done.outcomes, false) == target_ids(targets)
            &&& reported_ids(done.outcomes, true) == Seq::<Seq<char>>::empty()
            &&& outcome_records(done.outcomes).len() == targets.len()
            &&& forall|i: int|
                0 <= i < targets.len() ==> (#[trigger] outcome_records(done.outcomes)[i]) == (
                LockModelView {
                    model_id: targets[i].model_id_text(),
                    revision: if targets[i] == KnownModel::Rmbg14 {
                        revision_rmbg14
                    } else {
                        revision_rmbg20
                    },
                    source: source_label(),
                    files: sorted_by_path(events[i].files),
                })
        }),
{
    let start = install_begun(targets, revision_rmbg14, revision_rmbg20, verify_only);
    assert(events.skip(0) =~= events);
    lemma_run(start, events, 0);
    let done = start.run(events);
    assert forall|i: int| 0 <= i < done.outcomes.len() implies ((#[trigger] done.outcomes[i]).action
        == TargetAction::Skip) == false by {
        assert(!events[i].dir_exists);
    }
    lemma_reported_alike(done.outcomes, false);
    assert(reported_ids(done.outcomes, false) =~= target_ids(targets)) by {
        assert forall|i: int| 0 <= i < targets.len() implies done.outcomes[i].model
            == targets[i] by {}
    }
}

/// A second install skips everything. Where the revision directory of
/// every target is there and holds a weights file, nothing is fetched; once
/// all are dealt with the install is to conclude, every target counts as
/// skipped and none as installed, and the record of each lists the files
/// found in its directory, in order of path.
pub proof fn lemma_complete_install_is_skipped(
    targets: Seq<KnownModel>,
    revision_rmbg14: Seq<char>,
    revision_rmbg20: Seq<char>,
    verify_only: bool,
    events: Seq<TargetEvent>,
)
    requires
        events.len() == targets.len(),
        forall|i: int|
            0 <= i < events.len() ==> (#[trigger] events[i]).dir_exists && holds_weights(
                events[i].listing,
            ),
    ensures
        ({
            let done = install_begun(targets, revision_rmbg14, revision_rmbg20, verify_only).run(
                events,
            );
            &&& done.step() == InstallStep::Conclude
            &&& reported_ids(done.outcomes, true) == target_ids(targets)
            &&& reported_ids(done.outcomes, false) == Seq::<Seq<char>>::empty()
            &&& outcome_records(done.outcomes).len() == targets.len()
            &&& forall|i: int|
                0 <= i < targets.len() ==> (#[trigger] outcome_records(done.outcomes)[i]) == (
                LockModelView {
                    model_id: targets[i].model_id_text(),
                    revision: if targets[i] == KnownModel::Rmbg14 {
                        revision_rmbg14
                    } else {
                        revision_rmbg20
                    },
                    source: source_label(),
                    files: sorted_by_path(events[i].files),
                })
        }),
{
    let start = install_begun(targets, revision_rmbg14, revision_rmbg20, verify_only);
    assert(events.skip(0) =~= events);
    lemma_run(start, events, 0);
    let done = start.run(events);
    assert forall|i: int| 0 <= i < done.outcomes.len() implies ((#[trigger] done.outcomes[i]).action
        == TargetAction::Skip) == true by {
        assert(events[i].dir_exists && holds_weights(events[i].listing));
    }
    lemma_reported_alike(done.outcomes, true);
    assert(reported_ids(done.outcomes, true) =~= target_ids(targets)) by {
        assert forall|i: int| 0 <= i < targets.len() implies done.outcomes[i].model
            == targets[i] by {}
    }
}

/// Installing again changes nothing but the stamp. Take any install that
/// concluded without a defect, and the lockfile written at its end. Where
/// the root is then left as it is, so that the revision directory of every
/// target is there and holds what it held when the first install
/// concluded, a second install with the same arguments skips every target,
/// and the records of the lockfile it concludes with are those of the
/// lockfile written by the first: the same records, and in each the same
/// files in the same order.
pub proof fn lemma_install_again_keeps_the_lockfile(
    targets: Seq<KnownModel>,
    revision_rmbg14: Seq<char>,
    revision_rmbg20: Seq<char>,
    disk: spec_fn(KnownModel) -> Seq<LockFileEntryView>,
    first: Seq<TargetEvent>,
    listings: Seq<Vec<String>>,
    models_dir: Seq<char>,
    again: Seq<TargetEvent>,
    prior: Seq<LockModelView>,
    written: Seq<LockModelView>,
    rewritten: Seq<LockModelView>,
)
    requires
        first.len() == targets.len(),
        again.len() == targets.len(),
        is_validation(
            outcome_records(
                install_begun(targets, revision_rmbg14, revision_rmbg20, false).run(first).outcomes,
            ),
            listings,
            models_dir,
            None,
        ),
        forall|i: int| 0 <= i < targets.len() ==> paths_distinct(disk(#[trigger] targets[i])),
        forall|i: int|
            0 <= i < targets.len() ==> (#[trigger] first[i]).files.to_multiset() == disk(
                targets[i],
            ).to_multiset(),
        forall|i: int|
            0 <= i < targets.len() ==> {
                &&& (#[trigger] again[i]).dir_exists
                &&& again[i].listing == listing_at(listings, i)
                &&& again[i].files.to_multiset() == disk(targets[i]).to_multiset()
            },
        is_merge_of(
            written,
            prior + outcome_records(
                install_begun(targets, revision_rmbg14, revision_rmbg20, false).run(first).outcomes,
            ),
        ),
        is_merge_of(
            rewritten,
            written + outcome_records(
                install_begun(targets, revision_rmbg14, revision_rmbg20, false).run(again).outcomes,
            ),
        ),
    ensures
        rewritten == written,
        reported_ids(
            install_begun(targets, revision_rmbg14, revision_rmbg20, false).run(again).outcomes,
            true,
        ) == target_ids(targets),
        reported_ids(
            install_begun(targets, revision_rmbg14, revision_rmbg20, false).run(again).outcomes,
            false,
        ) == Seq::<Seq<char>>::empty(),
{
    let start = install_begun(targets, revision_rmbg14, revision_rmbg20, false);
    assert(first.skip(0) =~= first);
    lemma_run(start, first, 0);
    let records = outcome_records(start.run(first).outcomes);
    assert forall|i: int| 0 <= i < again.len() implies (#[trigger] again[i]).dir_exists
        && holds_weights(again[i].listing) by {
        assert(is_record_defect(records[i], listing_at(listings, i), models_dir, None));
        assert(targets[i] == targets[i]);
        lemma_model_id_round_trip(targets[i]);
    }
    lemma_complete_install_is_skipped(targets, revision_rmbg14, revision_rmbg20, false, again);
    let updates = outcome_records(start.run(again).outcomes);
    assert forall|k: int| 0 <= k < targets.len() implies sorted_by_path(first[k].files)
        == sorted_by_path(disk(targets[k])) && sorted_by_path(again[k].files) == sorted_by_path(
        disk(targets[k]),
    ) by {
        assert(paths_distinct(disk(targets[k])));
        assert(first[k].files.to_multiset() == disk(targets[k]).to_multiset());
        assert(again[k].dir_exists);
        lemma_sorted_by_path_of_same_files(disk(targets[k]), first[k].files);
        lemma_sorted_by_path_of_same_files(disk(targets[k]), again[k].files);
    }
    assert forall|k: int| 0 <= k < updates.len() implies written.contains(
        #[trigger] updates[k],
    ) by {
        let id = targets[k].model_id_text();
        assert(start.run(first).outcomes[k].model == targets[k]);
        assert(records[k].model_id == id);
        assert(updates[k] == records[k]);
        lemma_latest_is_among_the_later(prior, records, id);
        let all = prior + records;
        let e = latest_entry(all, id)->0;
        let m = choose|m: int| 0 <= m < records.len() && records[m] == e;
        assert(start.run(first).outcomes[m].model == targets[m]);
        lemma_model_id_round_trip(targets[m]);
        lemma_model_id_round_trip(targets[k]);
        assert(targets[m] == targets[k]);
        assert(e == records[k]);
        assert(all[prior.len() + k] == records[k]);
        assert(has_id(written, all[prior.len() + k].model_id));
        let j = choose|j: int| 0 <= j < written.len() && (#[trigger] written[j]).model_id == id;
        assert(latest_entry(all, written[j].model_id) == Some(written[j]));
        assert(written[j] == updates[k]);
    }
    lemma_merge_of_recorded_is_unchanged(written, updates, rewritten);
}

} // verus!
