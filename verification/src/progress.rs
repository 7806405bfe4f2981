//! The progress of the conversion phase: how many candidates are done, and
//! the latest status text.
//!
//! One `Progress` is shared by all workers; whoever shares it sees to it that
//! one worker at a time changes it.

use crate::convert::{outcome_of, ConversionOutcome, Outcome, Reports};
use vstd::prelude::*;
use vstd::string::StringExecFns;

verus! {

/// The state of a `Progress` as a mathematical value.
pub struct Tally {
    /// The number of candidates of the batch.
    pub total: nat,
    /// The number of candidates that are done, whatever their outcome.
    pub completed: nat,
    /// The latest status text.
    pub message: Seq<char>,
}

/// The status text that an outcome leaves behind: the reason of a failure
/// after a few words on what failed. A success leaves none, and neither does
/// a candidate that had no output path.
pub open spec fn status_of(outcome: Outcome) -> Option<Seq<char>> {
    match outcome {
        Outcome::Success => None,
        Outcome::PathMappingFailure => None,
        Outcome::DirCreateFailure(reason) => Some("Failed creating dir: "@ + reason),
        Outcome::ReadFailure(reason) => Some("Failed reading: "@ + reason),
        Outcome::WriteFailure(reason) => Some("Failed saving: "@ + reason),
    }
}

/// The tally once one more candidate is done with `outcome`: one more is
/// completed, and the status text changes where the outcome leaves one.
pub open spec fn recorded(tally: Tally, outcome: Outcome) -> Tally {
    Tally {
        total: tally.total,
        completed: tally.completed + 1,
        message: match status_of(outcome) {
            Some(text) => text,
            None => tally.message,
        },
    }
}

/// The tally once candidates are done with `outcomes`, one after another.
pub open spec fn recorded_all(tally: Tally, outcomes: Seq<Outcome>) -> Tally
    decreases outcomes.len(),
{
    if outcomes.len() == 0 {
        tally
    } else {
        recorded(recorded_all(tally, outcomes.drop_last()), outcomes.last())
    }
}

/// Each candidate counts once, whatever its outcome: after the outcomes of
/// any number of candidates the tally has grown by that number.
pub proof fn lemma_every_outcome_counts_once(tally: Tally, outcomes: Seq<Outcome>)
    ensures
        recorded_all(tally, outcomes).completed == tally.completed + outcomes.len(),
        recorded_all(tally, outcomes).total == tally.total,
    decreases outcomes.len(),
{
    if outcomes.len() > 0 {
        lemma_every_outcome_counts_once(tally, outcomes.drop_last());
    }
}

/// The count does not depend on which outcomes came, nor on their order:
/// two runs over equally many candidates end with the same count.
pub proof fn lemma_count_ignores_outcomes(tally: Tally, first: Seq<Outcome>, second: Seq<Outcome>)
    requires
        first.len() == second.len(),
    ensures
        recorded_all(tally, first).completed == recorded_all(tally, second).completed,
{
    lemma_every_outcome_counts_once(tally, first);
    lemma_every_outcome_counts_once(tally, second);
}

/// The outcomes of a batch: that of each candidate, under what is reported
/// of its conversion.
pub open spec fn batch_outcomes(
    candidates: Seq<Seq<char>>,
    input_root: Seq<char>,
    output_root: Seq<char>,
    reports: Seq<Reports>,
) -> Seq<Outcome> {
    Seq::new(
        candidates.len(),
        |i: int| outcome_of(candidates[i], input_root, output_root, reports[i]),
    )
}

/// Once every candidate of a batch has its outcome recorded, as many are
/// counted as were discovered, however many of the conversions failed and
/// in whatever way.
pub proof fn lemma_ticks_match_candidates(
    candidates: Seq<Seq<char>>,
    input_root: Seq<char>,
    output_root: Seq<char>,
    reports: Seq<Reports>,
)
    ensures
        recorded_all(
            Tally { total: candidates.len(), completed: 0, message: Seq::empty() },
            batch_outcomes(candidates, input_root, output_root, reports),
        ).completed == candidates.len(),
{
    lemma_every_outcome_counts_once(
        Tally { total: candidates.len(), completed: 0, message: Seq::empty() },
        batch_outcomes(candidates, input_root, output_root, reports),
    );
}

/// The status text for an outcome, where it leaves one.
pub fn status_text(outcome: &ConversionOutcome) -> (text: Option<String>)
    ensures
        match text {
            Some(text) => status_of(outcome@) == Some(text@),
            None => status_of(outcome@) is None,
        },
{
    match outcome {
        ConversionOutcome::Success => None,
        ConversionOutcome::PathMappingFailure => None,
        ConversionOutcome::DirCreateFailure(reason) => Some(
            "Failed creating dir: ".to_owned().concat(reason.as_str()),
        ),
        ConversionOutcome::ReadFailure(reason) => Some(
            "Failed reading: ".to_owned().concat(reason.as_str()),
        ),
        ConversionOutcome::WriteFailure(reason) => Some(
            "Failed saving: ".to_owned().concat(reason.as_str()),
        ),
    }
}

/// The progress of one batch.
#[derive(Debug, PartialEq, Eq)]
pub struct Progress {
    total: usize,
    completed: usize,
    message: String,
}

impl View for Progress {
    type V = Tally;

    closed spec fn view(&self) -> Tally {
        Tally {
            total: self.total as nat,
            completed: self.completed as nat,
            message: self.message@,
        }
    }
}

impl Progress {
    /// No more candidates are done than the batch has.
    #[verifier::type_invariant]
    spec fn within_total(&self) -> bool {
        self.completed <= self.total
    }

    /// The progress of a batch of `total` candidates, none of them done.
    pub fn new(total: usize) -> (progress: Progress)
        ensures
            progress@ == (Tally { total: total as nat, completed: 0, message: Seq::empty() }),
    {
        Progress { total, completed: 0, message: String::new() }
    }

    /// The number of candidates of the batch.
    pub fn total(&self) -> (total: usize)
        ensures
            total == self@.total,
    {
        self.total
    }

    /// The number of candidates that are done.
    pub fn completed(&self) -> (completed: usize)
        ensures
            completed == self@.completed,
            completed <= self@.total,
    {
        proof {
            use_type_invariant(self);
        }
        self.completed
    }

    /// The latest status text.
    pub fn message(&self) -> (message: &str)
        ensures
            message@ == self@.message,
    {
        self.message.as_str()
    }

    /// Whether every candidate of the batch is done.
    pub fn is_complete(&self) -> (complete: bool)
        ensures
            complete == (self@.completed == self@.total),
    {
        proof {
            use_type_invariant(self);
        }
        self.completed == self.total
    }

    /// Replaces the status text.
    pub fn set_message(&mut self, text: &str)
        ensures
            final(self)@ == (Tally { message: text@, ..old(self)@ }),
    {
        proof {
            use_type_invariant(&*self);
        }
        self.message = text.to_owned();
    }

    /// Counts one more candidate as done.
    pub fn tick(&mut self)
        requires
            old(self)@.completed < old(self)@.total,
        ensures
            final(self)@ == (Tally { completed: old(self)@.completed + 1, ..old(self)@ }),
    {
        proof {
            use_type_invariant(&*self);
        }
        self.completed = self.completed + 1;
    }

    /// Takes in the outcome of one candidate: shows its status text, where it
    /// has one, and counts the candidate as done.
    pub fn record(&mut self, outcome: &ConversionOutcome)
        requires
            old(self)@.completed < old(self)@.total,
        ensures
            final(self)@ == recorded(old(self)@, outcome@),
    {
        proof {
            use_type_invariant(&*self);
        }
        match status_text(outcome) {
            Some(text) => {
                self.message = text;
            },
            None => {},
        }
        self.completed = self.completed + 1;
    }
}

} // verus!
