//! The synchronisation run as a state machine: plan, download, verify,
//! download again what is missing or corrupted, until the tree matches or the
//! retry budget is spent.

use vstd::prelude::*;

use crate::download::FetchOutcome;
use crate::error::Error;
use crate::game::Game;
use crate::manifest::{
    manifest_of, ContentFile, ContentFileView, ContentFiles, ContentFilesView, RawContentFiles,
};
use crate::plan::{plan, unique_paths, working_set};
use crate::select::{lemma_pick_keeps_shape, pick, pick_files};
use crate::verify::{needs_download, VerificationResult};

verus! {

/// The values that steer one synchronisation run.
#[derive(Debug, Clone, Copy, PartialEq, Eq, Structural)]
pub struct SyncConfig {
    /// Start from an empty content root and download everything.
    pub clean: bool,
    /// Download again what a verification pass finds missing or corrupted.
    pub retry_enabled: bool,
    /// How many such repeated downloads one run may make.
    pub retry_count: u32,
    /// How many fetches or checks may run at a time; at least one.
    pub concurrency_limit: usize,
}

/// The repeated downloads that a run may still make.
#[derive(Debug, Clone, Copy, PartialEq, Eq, Structural)]
pub struct RetryBudget {
    pub attempts_remaining: u32,
    pub retry_enabled: bool,
}

/// Where a run stands.
#[derive(Debug, Clone, Copy, PartialEq, Eq, Structural)]
pub enum Phase {
    Planning,
    FirstDownload,
    Verifying,
    RetryDownload,
    Done,
    Failed,
}

/// What the caller is to do next.
#[derive(Debug, Clone, Copy, PartialEq, Eq, Structural)]
pub enum Action {
    /// Create the content root anew and download the whole working set.
    DownloadAll,
    /// Verify every file of the working set.
    Verify,
    /// Download the residual set, and nothing else.
    DownloadResidual,
    /// The local tree matches the manifest.
    Succeed,
    /// The run has failed; the residual set says what is still wrong.
    Fail(Error),
    /// The event does not belong to the present phase; nothing changed.
    Ignored,
}

/// What the caller reports back.
pub ghost enum SyncEvent {
    /// The manifest was fetched (`None`: it is malformed) and the content
    /// root was looked at.
    Start { manifest: Option<ContentFilesView>, game: Game, root_exists: bool },
    /// A download batch has ended, with one outcome per file.
    Downloaded { outcomes: Seq<FetchOutcome> },
    /// A verification pass has ended, with one result per file of the
    /// working set.
    Verified { results: Seq<Result<VerificationResult, Error>> },
}

/// The state of a run as a mathematical value.
pub ghost struct SyncView {
    pub config: SyncConfig,
    pub phase: Phase,
    pub budget: RetryBudget,
    pub working_set: Seq<ContentFileView>,
    pub residual: Seq<ContentFileView>,
    pub failure: Option<Error>,
}

/// The state of a run before it has begun.
pub open spec fn initial(config: SyncConfig) -> SyncView {
    SyncView {
        config,
        phase: Phase::Planning,
        budget: RetryBudget {
            attempts_remaining: config.retry_count,
            retry_enabled: config.retry_enabled,
        },
        working_set: Seq::empty(),
        residual: Seq::empty(),
        failure: None,
    }
}

/// The error of the first check that failed, if any did.
pub open spec fn first_error(results: Seq<Result<VerificationResult, Error>>) -> Option<Error>
    decreases results.len(),
{
    if results.len() == 0 {
        None
    } else {
        match first_error(results.drop_last()) {
            Some(e) => Some(e),
            None => match results.last() {
                Err(e) => Some(e),
                Ok(_) => None,
            },
        }
    }
}

/// The file at this position was found missing or corrupted.
pub open spec fn found_wanting(results: Seq<Result<VerificationResult, Error>>, at: int) -> bool {
    &&& 0 <= at < results.len()
    &&& results[at] matches Ok(result)
    &&& needs_download(result)
}

/// The files that a verification pass found missing or corrupted, in the
/// order of the working set.
pub open spec fn residual_of(
    files: Seq<ContentFileView>,
    results: Seq<Result<VerificationResult, Error>>,
) -> Seq<ContentFileView> {
    pick(files, |at: int| found_wanting(results, at))
}

/// Some fetch of the batch got no permit.
pub open spec fn lacked_permit(outcomes: Seq<FetchOutcome>) -> bool {
    exists|i: int| 0 <= i < outcomes.len() && #[trigger] outcomes[i] == FetchOutcome::NoPermit
}

impl SyncView {
    /// The files of the download that is under way.
    pub open spec fn downloading(self) -> Seq<ContentFileView> {
        match self.phase {
            Phase::FirstDownload => self.working_set,
            Phase::RetryDownload => self.residual,
            _ => Seq::empty(),
        }
    }

    pub open spec fn terminal(self) -> bool {
        self.phase is Done || self.phase is Failed
    }

    pub open spec fn wf(self) -> bool {
        &&& self.budget.retry_enabled == self.config.retry_enabled
        &&& self.budget.attempts_remaining <= self.config.retry_count
        &&& unique_paths(self.working_set)
        &&& unique_paths(self.residual)
        &&& forall|i: int|
            0 <= i < self.residual.len() ==> self.working_set.contains(#[trigger] self.residual[i])
        &&& (self.failure is Some <==> self.phase is Failed)
        &&& (self.phase is Planning ==> self.working_set.len() == 0 && self.residual.len() == 0)
        &&& (self.phase is RetryDownload ==> self.residual.len() > 0 && self.budget.retry_enabled)
        &&& (self.phase is Done ==> self.residual.len() == 0)
    }

    /// The run, ended by the error.
    pub open spec fn failed(self, error: Error) -> SyncView {
        SyncView { phase: Phase::Failed, failure: Some(error), ..self }
    }

    /// Planning: a malformed manifest ends the run before anything is
    /// touched. Otherwise the working set is planned; it is downloaded whole
    /// if the content root does not exist or a clean run was asked for, and
    /// verified in place if not.
    pub open spec fn on_start(
        self,
        manifest: Option<ContentFilesView>,
        game: Game,
        root_exists: bool,
    ) -> (SyncView, Action) {
        if !(self.phase is Planning) {
            (self, Action::Ignored)
        } else {
            match manifest {
                None => (
                    self.failed(Error::MalformedManifest),
                    Action::Fail(Error::MalformedManifest),
                ),
                Some(m) => {
                    let planned = SyncView { working_set: working_set(m, game), ..self };
                    if !root_exists || self.config.clean {
                        (SyncView { phase: Phase::FirstDownload, ..planned }, Action::DownloadAll)
                    } else {
                        (SyncView { phase: Phase::Verifying, ..planned }, Action::Verify)
                    }
                },
            }
        }
    }

    /// After a download: a fetch that got no permit ends the run; any other
    /// failed fetch leaves its file to be found by the verification pass
    /// that follows.
    pub open spec fn on_downloaded(self, outcomes: Seq<FetchOutcome>) -> (SyncView, Action) {
        if !(self.phase is FirstDownload || self.phase is RetryDownload) || outcomes.len()
            != self.downloading().len() {
            (self, Action::Ignored)
        } else if lacked_permit(outcomes) {
            (
                self.failed(Error::ConcurrencyAdmissionFailure),
                Action::Fail(Error::ConcurrencyAdmissionFailure),
            )
        } else {
            (SyncView { phase: Phase::Verifying, ..self }, Action::Verify)
        }
    }

    /// After a verification pass: a check that failed ends the run with its
    /// error. Otherwise an empty residual set ends it in success; a residual
    /// set with retries disabled or used up ends it in failure; and else one
    /// retry is spent on downloading exactly the residual set.
    pub open spec fn on_verified(self, results: Seq<Result<VerificationResult, Error>>) -> (
        SyncView,
        Action,
    ) {
        if !(self.phase is Verifying) || results.len() != self.working_set.len() {
            (self, Action::Ignored)
        } else {
            let found = SyncView { residual: residual_of(self.working_set, results), ..self };
            match first_error(results) {
                Some(e) => (found.failed(e), Action::Fail(e)),
                None => if found.residual.len() == 0 {
                    (SyncView { phase: Phase::Done, ..found }, Action::Succeed)
                } else if !self.budget.retry_enabled || self.budget.attempts_remaining == 0 {
                    (
                        found.failed(Error::RetryBudgetExhausted),
                        Action::Fail(Error::RetryBudgetExhausted),
                    )
                } else {
                    (
                        SyncView {
                            phase: Phase::RetryDownload,
                            budget: RetryBudget {
                                attempts_remaining: (self.budget.attempts_remaining - 1) as u32,
                                ..self.budget
                            },
                            ..found
                        },
                        Action::DownloadResidual,
                    )
                },
            }
        }
    }

    /// The state after an event, and what the caller is to do.
    pub open spec fn step(self, event: SyncEvent) -> (SyncView, Action) {
        match event {
            SyncEvent::Start { manifest, game, root_exists } => self.on_start(
                manifest,
                game,
                root_exists,
            ),
            SyncEvent::Downloaded { outcomes } => self.on_downloaded(outcomes),
            SyncEvent::Verified { results } => self.on_verified(results),
        }
    }
}

/// One run of the synchronisation: it plans, has the caller download and
/// verify, and decides after each pass whether the run is over.
#[derive(Debug)]
pub struct Orchestrator {
    config: SyncConfig,
    phase: Phase,
    budget: RetryBudget,
    working_set: Vec<ContentFile>,
    residual: Vec<ContentFile>,
    failure: Option<Error>,
}

impl View for Orchestrator {
    type V = SyncView;

    closed spec fn view(&self) -> SyncView {
        SyncView {
            config: self.config,
            phase: self.phase,
            budget: self.budget,
            working_set: self.working_set.deep_view(),
            residual: self.residual.deep_view(),
            failure: self.failure,
        }
    }
}

fn first_failure(results: &Vec<Result<VerificationResult, Error>>) -> (error: Option<Error>)
    ensures
        error == first_error(results@),
{
    assert(results@.take(0) =~= Seq::<Result<VerificationResult, Error>>::empty());
    for i in 0..results.len()
        invariant
            first_error(results@.take(i as int)) is None,
    {
        assert(results@.take(i + 1).drop_last() =~= results@.take(i as int));
        match results[i] {
            Err(e) => {
                proof {
                    lemma_first_error_extends(results@, i + 1);
                }
                return Some(e);
            },
            Ok(_) => {},
        }
    }
    assert(results@.take(results.len() as int) =~= results@);
    None
}

/// An error found in a front part of the results is the first error of all
/// of them.
proof fn lemma_first_error_extends(results: Seq<Result<VerificationResult, Error>>, upto: int)
    requires
        0 <= upto <= results.len(),
        first_error(results.take(upto)) is Some,
    ensures
        first_error(results) == first_error(results.take(upto)),
    decreases results.len() - upto,
{
    if upto == results.len() {
        assert(results.take(upto) =~= results);
    } else {
        assert(results.take(upto + 1).drop_last() =~= results.take(upto));
        lemma_first_error_extends(results, upto + 1);
    }
}

fn lacks_permit(outcomes: &Vec<FetchOutcome>) -> (lacking: bool)
    ensures
        lacking == lacked_permit(outcomes@),
{
    for i in 0..outcomes.len()
        invariant
            forall|k: int| 0 <= k < i ==> #[trigger] outcomes@[k] != FetchOutcome::NoPermit,
    {
        if matches!(outcomes[i], FetchOutcome::NoPermit) {
            return true;
        }
    }
    false
}

fn wanting(files: &Vec<ContentFile>, results: &Vec<Result<VerificationResult, Error>>) -> (residual:
    Vec<ContentFile>)
    ensures
        residual.deep_view() == residual_of(files.deep_view(), results@),
{
    let mut marks: Vec<bool> = Vec::new();
    for i in 0..results.len()
        invariant
            marks@.len() == i,
            forall|k: int| 0 <= k < i ==> #[trigger] marks@[k] == found_wanting(results@, k),
    {
        let mark = match results[i] {
            Ok(VerificationResult::Match) => false,
            Ok(_) => true,
            Err(_) => false,
        };
        marks.push(mark);
    }
    let residual = pick_files(files, &marks);
    proof {
        let by_marks = |i: int| 0 <= i < marks@.len() && marks@[i];
        let by_results = |at: int| found_wanting(results@, at);
        assert(by_marks =~= by_results);
    }
    residual
}

impl Orchestrator {
    #[verifier::type_invariant]
    spec fn inv(self) -> bool {
        self@.wf()
    }

    /// A run that has not begun: the whole retry budget is left.
    pub fn new(config: SyncConfig) -> (run: Orchestrator)
        ensures
            run@ == initial(config),
            run@.wf(),
    {
        let run = Orchestrator {
            config,
            phase: Phase::Planning,
            budget: RetryBudget {
                attempts_remaining: config.retry_count,
                retry_enabled: config.retry_enabled,
            },
            working_set: Vec::new(),
            residual: Vec::new(),
            failure: None,
        };
        assert(run@.working_set =~= Seq::empty());
        assert(run@.residual =~= Seq::empty());
        run
    }

    /// Moves the run out and leaves a run that has not begun in its place.
    fn take(&mut self) -> (run: Orchestrator)
        ensures
            run == *old(self),
    {
        let mut run = Orchestrator::new(self.config);
        core::mem::swap(self, &mut run);
        run
    }

    /// Plans the run from the fetched manifest and from whether the content
    /// root exists.
    pub fn start(&mut self, raw: &RawContentFiles, game: Game, root_exists: bool) -> (action:
        Action)
        ensures
            old(self)@.wf(),
            final(self)@.wf(),
            (final(self)@, action) == old(self)@.on_start(manifest_of(raw@), game, root_exists),
    {
        proof {
            use_type_invariant(&*self);
        }
        if !matches!(self.phase, Phase::Planning) {
            return Action::Ignored;
        }
        let Orchestrator { config, phase, budget, working_set, residual, failure } = self.take();
        match ContentFiles::parse(raw) {
            Err(_) => {
                *self = Orchestrator {
                    config,
                    phase: Phase::Failed,
                    budget,
                    working_set,
                    residual,
                    failure: Some(Error::MalformedManifest),
                };
                Action::Fail(Error::MalformedManifest)
            },
            Ok(manifest) => {
                let planned = plan(&manifest, game);
                if !root_exists || config.clean {
                    *self = Orchestrator {
                        config,
                        phase: Phase::FirstDownload,
                        budget,
                        working_set: planned,
                        residual,
                        failure,
                    };
                    Action::DownloadAll
                } else {
                    *self = Orchestrator {
                        config,
                        phase: Phase::Verifying,
                        budget,
                        working_set: planned,
                        residual,
                        failure,
                    };
                    Action::Verify
                }
            },
        }
    }

    /// Takes the outcomes of the download that was under way, one per file
    /// and in the order of the files.
    pub fn downloaded(&mut self, outcomes: &Vec<FetchOutcome>) -> (action: Action)
        ensures
            old(self)@.wf(),
            final(self)@.wf(),
            (final(self)@, action) == old(self)@.on_downloaded(outcomes@),
    {
        proof {
            use_type_invariant(&*self);
        }
        let expected: usize = match self.phase {
            Phase::FirstDownload => self.working_set.len(),
            Phase::RetryDownload => self.residual.len(),
            _ => { return Action::Ignored; },
        };
        if outcomes.len() != expected {
            return Action::Ignored;
        }
        let lacking = lacks_permit(outcomes);
        let Orchestrator { config, phase, budget, working_set, residual, failure } = self.take();
        if lacking {
            *self = Orchestrator {
                config,
                phase: Phase::Failed,
                budget,
                working_set,
                residual,
                failure: Some(Error::ConcurrencyAdmissionFailure),
            };
            Action::Fail(Error::ConcurrencyAdmissionFailure)
        } else {
            *self = Orchestrator {
                config,
                phase: Phase::Verifying,
                budget,
                working_set,
                residual,
                failure,
            };
            Action::Verify
        }
    }

    /// Takes the results of the verification pass, one per file of the
    /// working set and in its order, and decides how the run goes on.
    pub fn verified(&mut self, results: &Vec<Result<VerificationResult, Error>>) -> (action:
        Action)
        ensures
            old(self)@.wf(),
            final(self)@.wf(),
            (final(self)@, action) == old(self)@.on_verified(results@),
    {
        proof {
            use_type_invariant(&*self);
        }
        if !matches!(self.phase, Phase::Verifying) || results.len() != self.working_set.len() {
            return Action::Ignored;
        }
        let found = wanting(&self.working_set, results);
        let error = first_failure(results);
        proof {
            let marked = |at: int| found_wanting(results@, at);
            lemma_pick_keeps_shape(self@.working_set, marked);
        }
        let Orchestrator { config, phase, budget, working_set, residual, failure } = self.take();
        match error {
            Some(e) => {
                *self = Orchestrator {
                    config,
                    phase: Phase::Failed,
                    budget,
                    working_set,
                    residual: found,
                    failure: Some(e),
                };
                Action::Fail(e)
            },
            None => {
                if found.len() == 0 {
                    *self = Orchestrator {
                        config,
                        phase: Phase::Done,
                        budget,
                        working_set,
                        residual: found,
                        failure,
                    };
                    Action::Succeed
                } else if !budget.retry_enabled || budget.attempts_remaining == 0 {
                    *self = Orchestrator {
                        config,
                        phase: Phase::Failed,
                        budget,
                        working_set,
                        residual: found,
                        failure: Some(Error::RetryBudgetExhausted),
                    };
                    Action::Fail(Error::RetryBudgetExhausted)
                } else {
                    *self = Orchestrator {
                        config,
                        phase: Phase::RetryDownload,
                        budget: RetryBudget {
                            attempts_remaining: budget.attempts_remaining - 1,
                            retry_enabled: budget.retry_enabled,
                        },
                        working_set,
                        residual: found,
                        failure,
                    };
                    Action::DownloadResidual
                }
            },
        }
    }

    pub fn config(&self) -> (config: SyncConfig)
        ensures
            config == self@.config,
    {
        self.config
    }

    pub fn phase(&self) -> (phase: Phase)
        ensures
            phase == self@.phase,
    {
        self.phase
    }

    /// The retries that are left.
    pub fn budget(&self) -> (budget: RetryBudget)
        ensures
            budget == self@.budget,
            budget.attempts_remaining <= self@.config.retry_count,
    {
        proof {
            use_type_invariant(self);
        }
        self.budget
    }

    /// The error that ended the run, if it has failed.
    pub fn failure(&self) -> (failure: Option<Error>)
        ensures
            failure == self@.failure,
            failure is Some <==> self@.phase is Failed,
    {
        proof {
            use_type_invariant(self);
        }
        self.failure
    }

    /// The files that this run reconciles; no path twice.
    pub fn working_set(&self) -> (files: &Vec<ContentFile>)
        ensures
            files.deep_view() == self@.working_set,
            self@.wf(),
    {
        proof {
            use_type_invariant(self);
        }
        &self.working_set
    }

    /// The files that the last verification pass found missing or
    /// corrupted; all of them belong to the working set.
    pub fn residual(&self) -> (files: &Vec<ContentFile>)
        ensures
            files.deep_view() == self@.residual,
            self@.wf(),
    {
        proof {
            use_type_invariant(self);
        }
        &self.residual
    }

    /// The files to download now: the working set during the first
    /// download, the residual set during a repeated one, nothing otherwise.
    pub fn downloading(&self) -> (files: Option<&Vec<ContentFile>>)
        ensures
            files is Some <==> self@.phase is FirstDownload || self@.phase is RetryDownload,
            files is Some ==> files.unwrap().deep_view() == self@.downloading(),
    {
        match self.phase {
            Phase::FirstDownload => Some(&self.working_set),
            Phase::RetryDownload => Some(&self.residual),
            _ => None,
        }
    }
}

} // verus!
