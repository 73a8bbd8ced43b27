//! How the writes to the candidates add up to the result of a run.

use vstd::prelude::*;

verus! {

/// What came of the attempt to write the command to one candidate.
#[derive(Clone, Copy, Debug, PartialEq, Eq, Structural)]
pub enum WriteOutcome {
    /// No write channel could be opened.
    OpenFailed,
    /// The channel was opened and the transfer failed.
    WriteFailed,
    /// The transfer reported this many bytes written.
    Written(usize),
}

impl WriteOutcome {
    /// Whether the write counts as done: the transfer reported at least one byte.
    pub open spec fn spec_is_confirmed(self) -> bool {
        match self {
            WriteOutcome::Written(n) => n > 0,
            _ => false,
        }
    }

    /// Whether the write counts as done.
    #[verifier::when_used_as_spec(spec_is_confirmed)]
    pub fn is_confirmed(self) -> (yes: bool)
        ensures
            yes == self.spec_is_confirmed(),
    {
        match self {
            WriteOutcome::Written(n) => n > 0,
            _ => false,
        }
    }
}

/// What a run found and achieved.
#[derive(Clone, Copy, Debug, PartialEq, Eq, Structural)]
pub struct ToggleResult {
    /// There was at least one candidate.
    pub found: bool,
    /// The write to at least one candidate was confirmed.
    pub success: bool,
}

/// The result of a run in which the writes to the candidates, one after the
/// other, came out as `outcomes`.
pub open spec fn result_of(outcomes: Seq<WriteOutcome>) -> ToggleResult {
    ToggleResult {
        found: outcomes.len() > 0,
        success: exists|i: int| 0 <= i < outcomes.len() && (#[trigger] outcomes[i]).spec_is_confirmed(),
    }
}

impl ToggleResult {
    /// The result with this outcome taken in. A failure takes nothing back.
    pub open spec fn spec_record(self, outcome: WriteOutcome) -> ToggleResult {
        ToggleResult { found: true, success: self.success || outcome.spec_is_confirmed() }
    }

    /// The result before any candidate was tried.
    pub fn none() -> (r: ToggleResult)
        ensures
            r == result_of(Seq::empty()),
            !r.found,
            !r.success,
    {
        ToggleResult { found: false, success: false }
    }

    /// The result with this outcome taken in.
    #[verifier::when_used_as_spec(spec_record)]
    pub fn record(self, outcome: WriteOutcome) -> (r: ToggleResult)
        ensures
            r == self.spec_record(outcome),
    {
        ToggleResult { found: true, success: self.success || outcome.is_confirmed() }
    }
}

/// Taking the outcomes in one by one gives the result of the whole run.
pub proof fn lemma_record_extends(outcomes: Seq<WriteOutcome>, outcome: WriteOutcome)
    ensures
        result_of(outcomes.push(outcome)) == result_of(outcomes).spec_record(outcome),
{
    let longer = outcomes.push(outcome);
    if result_of(outcomes).success {
        let i = choose|i: int| 0 <= i < outcomes.len() && (#[trigger] outcomes[i]).spec_is_confirmed();
        assert(longer[i].spec_is_confirmed());
    }
    if outcome.spec_is_confirmed() {
        assert(longer[outcomes.len() as int].spec_is_confirmed());
    }
    if result_of(longer).success {
        let i = choose|i: int| 0 <= i < longer.len() && (#[trigger] longer[i]).spec_is_confirmed();
        if i < outcomes.len() {
            assert(outcomes[i].spec_is_confirmed());
        }
    }
}

/// Where no write is confirmed nothing is achieved: without candidates
/// nothing is found either, and with candidates, each of which could not be
/// opened, failed or reported zero bytes, the keyboard is found all the same.
pub proof fn lemma_unconfirmed_runs(outcomes: Seq<WriteOutcome>)
    requires
        forall|i: int| 0 <= i < outcomes.len() ==> !(#[trigger] outcomes[i]).spec_is_confirmed(),
    ensures
        result_of(outcomes) == (ToggleResult { found: outcomes.len() > 0, success: false }),
        result_of(Seq::empty()) == (ToggleResult { found: false, success: false }),
        result_of(seq![WriteOutcome::Written(0)]) == (ToggleResult { found: true, success: false }),
{
    let one = seq![WriteOutcome::Written(0)];
    assert(forall|i: int| 0 <= i < one.len() ==> !(#[trigger] one[i]).spec_is_confirmed());
}

/// The result of a run, from the outcome of the write to each candidate in turn.
/// Every outcome is taken in: a failure does not end the run, and neither
/// does a success.
pub fn apply(outcomes: &Vec<WriteOutcome>) -> (r: ToggleResult)
    ensures
        r == result_of(outcomes@),
{
    let mut r = ToggleResult::none();
    let mut i: usize = 0;
    while i < outcomes.len()
        invariant
            i <= outcomes.len(),
            r == result_of(outcomes@.take(i as int)),
        decreases outcomes.len() - i,
    {
        proof {
            lemma_record_extends(outcomes@.take(i as int), outcomes@[i as int]);
            assert(outcomes@.take(i as int).push(outcomes@[i as int]) =~= outcomes@.take(i + 1));
        }
        r = r.record(outcomes[i]);
        i += 1;
    }
    assert(outcomes@.take(outcomes.len() as int) =~= outcomes@);
    r
}

} // verus!
