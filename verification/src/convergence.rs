//! What holds of every synchronisation run: it stays within its retry
//! budget, it ends, and it succeeds exactly when every file matches.

use vstd::prelude::*;

use crate::error::Error;
use crate::select::{lemma_pick_keeps_shape, lemma_pick_members};
use crate::sync::{
    first_error, found_wanting, initial, residual_of, Action, Phase, SyncConfig, SyncEvent,
    SyncView,
};
use crate::verify::VerificationResult;

verus! {

/// The state of a run after a sequence of events.
pub open spec fn run(start: SyncView, events: Seq<SyncEvent>) -> SyncView
    decreases events.len(),
{
    if events.len() == 0 {
        start
    } else {
        run(start, events.drop_last()).step(events.last()).0
    }
}

/// What the caller was told to do after each event of a sequence.
pub open spec fn actions(start: SyncView, events: Seq<SyncEvent>) -> Seq<Action>
    decreases events.len(),
{
    if events.len() == 0 {
        Seq::empty()
    } else {
        actions(start, events.drop_last()).push(
            run(start, events.drop_last()).step(events.last()).1,
        )
    }
}

/// How often an action occurs.
pub open spec fn occurrences(actions: Seq<Action>, action: Action) -> nat
    decreases actions.len(),
{
    if actions.len() == 0 {
        0
    } else {
        occurrences(actions.drop_last(), action) + if actions.last() == action {
            1nat
        } else {
            0nat
        }
    }
}

/// How many events were not ignored.
pub open spec fn accepted(actions: Seq<Action>) -> nat {
    (actions.len() - occurrences(actions, Action::Ignored)) as nat
}

/// An upper bound on the events that a run can still accept.
pub open spec fn steps_left(state: SyncView) -> nat {
    match state.phase {
        Phase::Planning => 2 * (state.budget.attempts_remaining as nat) + 3,
        Phase::FirstDownload => 2 * (state.budget.attempts_remaining as nat) + 2,
        Phase::RetryDownload => 2 * (state.budget.attempts_remaining as nat) + 2,
        Phase::Verifying => 2 * (state.budget.attempts_remaining as nat) + 1,
        Phase::Done => 0,
        Phase::Failed => 0,
    }
}

/// A verification pass is still owed: the run has not planned yet, or a
/// download is under way.
pub open spec fn verification_owed(state: SyncView) -> nat {
    if state.phase is Planning || state.phase is FirstDownload || state.phase is RetryDownload {
        1
    } else {
        0
    }
}

proof fn lemma_occurrences_push(actions: Seq<Action>, last: Action, action: Action)
    ensures
        occurrences(actions.push(last), action) == occurrences(actions, action) + if last
            == action {
            1nat
        } else {
            0nat
        },
        occurrences(actions, action) <= actions.len(),
    decreases actions.len(),
{
    assert(actions.push(last).drop_last() =~= actions);
    if actions.len() > 0 {
        lemma_occurrences_push(actions.drop_last(), actions.last(), action);
        assert(actions.drop_last().push(actions.last()) =~= actions);
    }
}

/// Every event leaves a well-formed run well formed and its configuration
/// untouched.
pub proof fn lemma_step_wf(state: SyncView, event: SyncEvent)
    requires
        state.wf(),
    ensures
        state.step(event).0.wf(),
        state.step(event).0.config == state.config,
{
    match event {
        SyncEvent::Start { manifest, game, root_exists } => {
            if state.phase is Planning && manifest is Some {
                crate::plan::lemma_dedup_paths(
                    manifest.unwrap().shared + crate::plan::selected(manifest.unwrap(), game),
                );
            }
        },
        SyncEvent::Downloaded { outcomes } => {},
        SyncEvent::Verified { results } => {
            lemma_pick_keeps_shape(state.working_set, |at: int| found_wanting(results, at));
        },
    }
}

/// A run that is over ignores every event.
pub proof fn lemma_terminal_absorbs(state: SyncView, event: SyncEvent)
    requires
        state.terminal(),
    ensures
        state.step(event) == (state, Action::Ignored),
{
}

/// Every event that is not ignored brings the run closer to its end, and the
/// run is over exactly when no event can be accepted any more.
pub proof fn lemma_step_progress(state: SyncView, event: SyncEvent)
    requires
        state.wf(),
    ensures
        state.step(event).1 != Action::Ignored ==> steps_left(state.step(event).0) < steps_left(
            state,
        ),
        state.step(event).1 == Action::Ignored ==> state.step(event).0 == state,
        steps_left(state) == 0 <==> state.terminal(),
{
}

/// One verification pass decides a run that may not retry: with retries
/// disabled, the results of the pass end the run at once, in success when
/// nothing is missing or corrupted, and in failure, with exactly the files
/// that are, when something is. No download is asked for.
pub proof fn lemma_no_retry_decides(
    state: SyncView,
    results: Seq<Result<VerificationResult, Error>>,
)
    requires
        state.wf(),
        !state.config.retry_enabled,
        state.phase is Verifying,
        results.len() == state.working_set.len(),
    ensures
        state.on_verified(results).0.terminal(),
        state.on_verified(results).0.residual == residual_of(state.working_set, results),
        state.on_verified(results).1 != Action::DownloadResidual,
        state.on_verified(results).1 == Action::Succeed <==> first_error(results) is None
            && residual_of(state.working_set, results).len() == 0,
        first_error(results) is None && residual_of(state.working_set, results).len() > 0
            ==> state.on_verified(results).1 == Action::Fail(Error::RetryBudgetExhausted),
{
}

/// A repeated download covers exactly the residual set: the files of the
/// working set whose check found them missing or corrupted, in the order of
/// the working set, and it costs one retry.
pub proof fn lemma_retry_covers_residual(
    state: SyncView,
    results: Seq<Result<VerificationResult, Error>>,
)
    requires
        state.wf(),
        state.on_verified(results).1 == Action::DownloadResidual,
    ensures
        state.on_verified(results).0.downloading() == residual_of(state.working_set, results),
        state.on_verified(results).0.budget.attempts_remaining + 1
            == state.budget.attempts_remaining,
        forall|at: int|
            found_wanting(results, at) ==> state.on_verified(results).0.downloading().contains(
                #[trigger] state.working_set[at],
            ),
        forall|k: int|
            0 <= k < state.on_verified(results).0.downloading().len() ==> exists|at: int|
                #[trigger] found_wanting(results, at) && state.working_set[at]
                    == #[trigger] state.on_verified(results).0.downloading()[k],
{
    let marked = |at: int| found_wanting(results, at);
    let picked = residual_of(state.working_set, results);
    lemma_pick_members(state.working_set, marked);
    assert forall|at: int| found_wanting(results, at) implies picked.contains(
        #[trigger] state.working_set[at],
    ) by {
        assert(marked(at));
    }
    assert forall|k: int| 0 <= k < picked.len() implies exists|at: int| #[trigger]
        found_wanting(results, at) && state.working_set[at] == #[trigger] picked[k] by {
        let at = choose|at: int|
            0 <= at < state.working_set.len() && #[trigger] marked(at) && state.working_set[at]
                == picked[k];
        assert(found_wanting(results, at));
    }
}

/// Every file passed its verification.
pub open spec fn all_match(results: Seq<Result<VerificationResult, Error>>) -> bool {
    forall|at: int|
        0 <= at < results.len() ==> #[trigger] results[at] == Ok::<VerificationResult, Error>(
            VerificationResult::Match,
        )
}

proof fn lemma_first_error_none(results: Seq<Result<VerificationResult, Error>>)
    ensures
        first_error(results) is None <==> forall|at: int|
            0 <= at < results.len() ==> (#[trigger] results[at]) is Ok,
    decreases results.len(),
{
    if results.len() > 0 {
        let front = results.drop_last();
        lemma_first_error_none(front);
        if first_error(results) is None {
            assert forall|at: int| 0 <= at < results.len() implies (#[trigger] results[at]) is Ok by {
                if at < front.len() {
                    assert(front[at] is Ok);
                }
            }
        } else if forall|at: int| 0 <= at < results.len() ==> (#[trigger] results[at]) is Ok {
            assert forall|at: int| 0 <= at < front.len() implies (#[trigger] front[at]) is Ok by {
                assert(results[at] is Ok);
            }
            assert(results[results.len() - 1] is Ok);
        }
    }
}

/// A run ends in success exactly when a verification pass finds every file
/// of the working set matching; and when it ends for want of retries, the
/// residual set is not empty and holds exactly what the pass found missing
/// or corrupted.
pub proof fn lemma_success_means_all_match(
    state: SyncView,
    results: Seq<Result<VerificationResult, Error>>,
)
    requires
        state.wf(),
        state.phase is Verifying,
        results.len() == state.working_set.len(),
    ensures
        state.on_verified(results).1 == Action::Succeed <==> all_match(results),
        state.on_verified(results).1 == Action::Succeed ==> state.on_verified(results).0.phase
            is Done && state.on_verified(results).0.residual.len() == 0,
        first_error(results) is None && state.on_verified(results).1 == Action::Fail(
            Error::RetryBudgetExhausted,
        ) ==> state.on_verified(results).0.residual.len() > 0 && state.on_verified(
            results,
        ).0.residual == residual_of(state.working_set, results),
{
    let marked = |at: int| found_wanting(results, at);
    lemma_first_error_none(results);
    lemma_pick_members(state.working_set, marked);
    if all_match(results) {
        assert forall|at: int| 0 <= at < results.len() implies (#[trigger] results[at]) is Ok by {
            assert(results[at] == Ok::<VerificationResult, Error>(VerificationResult::Match));
        }
        if residual_of(state.working_set, results).len() > 0 {
            let at = choose|at: int| 0 <= at < state.working_set.len() && #[trigger] marked(at);
            assert(results[at] == Ok::<VerificationResult, Error>(VerificationResult::Match));
        }
    }
    if state.on_verified(results).1 == Action::Succeed {
        assert forall|at: int| 0 <= at < results.len() implies #[trigger] results[at] == Ok::<
            VerificationResult,
            Error,
        >(VerificationResult::Match) by {
            assert(results[at] is Ok);
            if results[at] != Ok::<VerificationResult, Error>(VerificationResult::Match) {
                assert(marked(at));
                assert(crate::select::any_marked(state.working_set.len(), marked));
            }
        }
    }
}

/// What holds of a run and of the actions it has asked for, whatever the
/// events were.
pub open spec fn accounted(config: SyncConfig, state: SyncView, asked: Seq<Action>) -> bool {
    &&& state.wf()
    &&& state.config == config
    &&& occurrences(asked, Action::DownloadResidual) + state.budget.attempts_remaining
        == config.retry_count
    &&& occurrences(asked, Action::DownloadAll) <= 1
    &&& (state.phase is Planning ==> occurrences(asked, Action::DownloadAll) == 0)
    &&& occurrences(asked, Action::Verify) + verification_owed(state) <= 1 + occurrences(
        asked,
        Action::DownloadResidual,
    )
    &&& (!config.retry_enabled ==> occurrences(asked, Action::DownloadResidual) == 0)
    &&& accepted(asked) + steps_left(state) <= 2 * (config.retry_count as nat) + 3
}

proof fn lemma_accounted(config: SyncConfig, events: Seq<SyncEvent>)
    ensures
        accounted(config, run(initial(config), events), actions(initial(config), events)),
    decreases events.len(),
{
    let start = initial(config);
    if events.len() == 0 {
        assert(start.working_set.len() == 0);
    } else {
        let before = run(start, events.drop_last());
        let asked = actions(start, events.drop_last());
        let event = events.last();
        let action = before.step(event).1;
        lemma_accounted(config, events.drop_last());
        lemma_step_wf(before, event);
        lemma_step_progress(before, event);
        lemma_occurrences_push(asked, action, Action::DownloadResidual);
        lemma_occurrences_push(asked, action, Action::DownloadAll);
        lemma_occurrences_push(asked, action, Action::Verify);
        lemma_occurrences_push(asked, action, Action::Ignored);
    }
}

/// Convergence: whatever the caller reports, a run asks for at most one
/// download of the whole working set, for at most `retry_count` repeated
/// downloads and for at most `retry_count + 1` verification passes, and it
/// accepts at most `2 * retry_count + 3` events before it is over.
pub proof fn lemma_bounded_run(config: SyncConfig, events: Seq<SyncEvent>)
    ensures
        occurrences(actions(initial(config), events), Action::DownloadAll) <= 1,
        occurrences(actions(initial(config), events), Action::DownloadResidual)
            <= config.retry_count,
        occurrences(actions(initial(config), events), Action::Verify) <= config.retry_count + 1,
        accepted(actions(initial(config), events)) <= 2 * (config.retry_count as nat) + 3,
        accepted(actions(initial(config), events)) == 2 * (config.retry_count as nat) + 3 ==> run(
            initial(config),
            events,
        ).terminal(),
{
    lemma_accounted(config, events);
    lemma_step_progress(
        run(initial(config), events),
        SyncEvent::Downloaded { outcomes: Seq::empty() },
    );
}

/// No repeated download without permission: with retries disabled a run
/// never asks for a repeated download and asks for one verification pass at
/// most, whatever the caller reports.
pub proof fn lemma_no_retry_run(config: SyncConfig, events: Seq<SyncEvent>)
    requires
        !config.retry_enabled,
    ensures
        occurrences(actions(initial(config), events), Action::DownloadResidual) == 0,
        occurrences(actions(initial(config), events), Action::Verify) <= 1,
{
    lemma_accounted(config, events);
}

} // verus!
