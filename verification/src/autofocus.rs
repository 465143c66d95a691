//! Contrast-detection autofocus: sweep the focus, measure the sharpness at each step, and go
//! back to the best.
//!
//! Sharpness scores are relative; threshold values do not transfer across cameras
//! or lighting conditions. A sweep handles repetitive textures and ringing better than a
//! search that takes the scene for unimodal.

use crate::text;
use crate::text::{append, append_number};
use vstd::prelude::*;

verus! {

/// How long the lens gets to settle at each step: 150 milliseconds.
pub const SETTLE_NANOS: u64 = 150_000_000;

/// Where a sweep stands.
#[derive(Clone, Copy, Debug, PartialEq, Eq, Structural)]
pub enum AutofocusPhase {
    /// The focus is about to be moved to the next step.
    Apply,
    /// The lens is settling since this time, in nanoseconds.
    Settle {
        /// When the focus was moved.
        since: u64,
    },
    /// A frame is about to be measured.
    Sample,
    /// All steps are done.
    Finalize,
    /// The focus could not be moved.
    Failed,
}

/// A focus sweep.
///
/// The steps are numbered from zero. A score is a non-negative 32-bit float's bits, which
/// are ordered as the floats are.
#[derive(Debug)]
pub struct AutofocusState {
    /// Number of steps.
    pub total_samples: u32,
    /// What each step so far has scored, or `None` where no frame could be had.
    pub scores: Vec<Option<u32>>,
    /// The best step so far, and its score.
    pub best: Option<(u32, u32)>,
    /// Where the sweep stands.
    pub phase: AutofocusPhase,
}

/// Whether `best` is the first of the steps with the highest score.
pub open spec fn is_best(scores: Seq<Option<u32>>, best: Option<(u32, u32)>) -> bool {
    match best {
        None => forall|i: int| 0 <= i < scores.len() ==> (#[trigger] scores[i]) is None,
        Some((place, score)) => {
            &&& place < scores.len()
            &&& scores[place as int] == Some(score)
            &&& forall|i: int|
                0 <= i < scores.len() ==> (#[trigger] scores[i] matches Some(other) ==> other
                    <= score)
            &&& forall|i: int|
                0 <= i < place ==> (#[trigger] scores[i] matches Some(other) ==> other < score)
        },
    }
}

impl AutofocusState {
    /// Every step so far has its score, the best is the best of them, and the sweep is over
    /// exactly when every step is done.
    pub open spec fn valid(self) -> bool {
        &&& self.scores@.len() <= self.total_samples
        &&& is_best(self.scores@, self.best)
        &&& self.phase == AutofocusPhase::Finalize <==> self.scores@.len() == self.total_samples
    }
}

/// Start a sweep of `total_samples` steps.
pub fn start_autofocus(total_samples: u32) -> (state: AutofocusState)
    requires
        total_samples > 0,
    ensures
        state.valid(),
        state.total_samples == total_samples,
        state.scores@ == Seq::<Option<u32>>::empty(),
        state.phase == AutofocusPhase::Apply,
{
    AutofocusState {
        total_samples,
        scores: Vec::new(),
        best: None,
        phase: AutofocusPhase::Apply,
    }
}

/// What a sweep does next.
#[derive(Clone, Copy, Debug, PartialEq, Eq, Structural)]
pub enum AutofocusAction {
    /// Move the focus to a step, and report that it moved.
    Move {
        /// The step.
        step: u32,
    },
    /// Wait a little, and look again.
    Wait,
    /// Measure a frame at a step, and report its score.
    Measure {
        /// The step.
        step: u32,
    },
    /// Move the focus to the best step, and end.
    Lock {
        /// The step.
        step: u32,
        /// Its score.
        score: u32,
    },
    /// End: no step could be measured.
    Nothing,
    /// End: the focus could not be moved.
    Abandon,
}

/// Decide what a sweep does next.
pub fn tick_autofocus(state: &mut AutofocusState, now: u64) -> (action: AutofocusAction)
    requires
        old(state).valid(),
    ensures
        final(state).valid(),
        final(state).total_samples == old(state).total_samples,
        final(state).scores == old(state).scores,
        final(state).best == old(state).best,
        match old(state).phase {
            AutofocusPhase::Apply => final(state).phase == old(state).phase && action
                == (AutofocusAction::Move { step: old(state).scores@.len() as u32 }),
            AutofocusPhase::Settle { since } => action == AutofocusAction::Wait && final(state).phase
                == (if now >= since + SETTLE_NANOS {
                AutofocusPhase::Sample
            } else {
                old(state).phase
            }),
            AutofocusPhase::Sample => final(state).phase == old(state).phase && action
                == (AutofocusAction::Measure { step: old(state).scores@.len() as u32 }),
            AutofocusPhase::Finalize => final(state).phase == old(state).phase && action == (match old(state).best {
                Some((step, score)) => AutofocusAction::Lock { step, score },
                None => AutofocusAction::Nothing,
            }),
            AutofocusPhase::Failed => final(state).phase == old(state).phase && action
                == AutofocusAction::Abandon,
        },
{
    match state.phase {
        AutofocusPhase::Apply => AutofocusAction::Move { step: state.scores.len() as u32 },
        AutofocusPhase::Settle { since } => {
            if now >= since && now - since >= SETTLE_NANOS {
                state.phase = AutofocusPhase::Sample;
            }
            AutofocusAction::Wait
        },
        AutofocusPhase::Sample => AutofocusAction::Measure { step: state.scores.len() as u32 },
        AutofocusPhase::Finalize => match state.best {
            Some((step, score)) => AutofocusAction::Lock { step, score },
            None => AutofocusAction::Nothing,
        },
        AutofocusPhase::Failed => AutofocusAction::Abandon,
    }
}

/// Take in that the focus was moved.
pub fn focus_moved(state: &mut AutofocusState, now: u64)
    requires
        old(state).valid(),
        old(state).phase == AutofocusPhase::Apply,
    ensures
        final(state).valid(),
        *final(state) == (AutofocusState {
            phase: AutofocusPhase::Settle { since: now },
            ..*old(state)
        }),
{
    state.phase = AutofocusPhase::Settle { since: now };
}

/// Take in that the focus could not be moved, which ends the sweep: nothing more is moved or
/// measured, and nothing is locked.
pub fn focus_failed(state: &mut AutofocusState)
    requires
        old(state).valid(),
        old(state).phase == AutofocusPhase::Apply,
    ensures
        final(state).valid(),
        *final(state) == (AutofocusState { phase: AutofocusPhase::Failed, ..*old(state) }),
{
    state.phase = AutofocusPhase::Failed;
}

/// Take in what a step scored, if a frame could be had.
pub fn step_measured(state: &mut AutofocusState, score: Option<u32>)
    requires
        old(state).valid(),
        old(state).phase == AutofocusPhase::Sample,
    ensures
        final(state).valid(),
        final(state).total_samples == old(state).total_samples,
        final(state).scores@ == old(state).scores@.push(score),
        final(state).phase == (if old(state).scores@.len() + 1 >= old(state).total_samples {
            AutofocusPhase::Finalize
        } else {
            AutofocusPhase::Apply
        }),
{
    let step: u32 = state.scores.len() as u32;
    if let Some(variance) = score {
        let better = match state.best {
            None => true,
            Some((_, best)) => variance > best,
        };
        if better {
            state.best = Some((step, variance));
        }
    }
    state.scores.push(score);
    assert(state.scores@.drop_last() =~= old(state).scores@);
    assert(forall|i: int|
        0 <= i < old(state).scores@.len() ==> #[trigger] state.scores@[i] == old(state).scores@[i]);
    state.phase = if state.scores.len() as u32 >= state.total_samples {
        AutofocusPhase::Finalize
    } else {
        AutofocusPhase::Apply
    };
}

/// What the user is offered: how far a sweep has come, or to start one.
pub fn autofocus_label(progress: Option<(u32, u32)>) -> (label: String)
    ensures
        label@ == (match progress {
            Some((done, total)) => "Autofocusing "@ + text::decimal(
                (if done < total {
                    done
                } else {
                    total
                }) as nat,
            ) + "/"@ + text::decimal(total as nat),
            None => "Autofocus (sweep)"@,
        }),
{
    match progress {
        Some((done, total)) => {
            let shown: u32 = if done < total {
                done
            } else {
                total
            };
            let count = append_number("Autofocusing ".to_owned(), shown as u64);
            append_number(append(count, "/"), total as u64)
        },
        None => "Autofocus (sweep)".to_owned(),
    }
}

/// The best step of a complete sweep scored at least as much as every other step that could
/// be measured, and it is the first to have done so.
pub proof fn sweep_finds_the_best(state: AutofocusState, step: int, score: u32)
    requires
        state.valid(),
        state.phase == AutofocusPhase::Finalize,
        0 <= step < state.total_samples,
        state.scores@[step] == Some(score),
    ensures
        state.best matches Some((place, best)) && score <= best && (score == best ==> place <= step),
{
    assert(state.scores@[step] is Some);
}

} // verus!
