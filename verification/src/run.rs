//! Carrying out a list of steps against the outside world, one request at a
//! time: what to ask for next, and how to go on once the answer is in.

use vstd::prelude::*;
use crate::gateway::{transition_steps, Step};
use crate::common::MapEntry;
use crate::rules::{next_request, RuleAction, RuleCall};

verus! {

/// One request to the outside world.
#[derive(Clone, Copy, Debug, PartialEq, Eq, Structural)]
pub enum Request {
    /// Ask the firewall to add or remove a rule.
    Firewall(RuleCall),
    /// Tell the CI system the current prefix and mapping.
    Notify,
    /// Write the current state to durable storage.
    Persist,
}

/// How far a list of steps has been carried out.
pub struct RunView {
    /// The steps, in the order in which they are taken.
    pub steps: Seq<Step>,
    /// Position of the step that is being carried out.
    pub index: nat,
    /// How the requests made so far for that step ended.
    pub outcomes: Seq<bool>,
    /// Whether a write of the state has failed.
    pub failed: bool,
}

impl RunView {
    /// The run before any request was made.
    pub open spec fn start(steps: Seq<Step>) -> RunView {
        RunView { steps, index: 0, outcomes: Seq::empty(), failed: false }
    }

    /// All steps were carried out.
    pub open spec fn finished(self) -> bool {
        self.index >= self.steps.len()
    }

    /// What holds of a run that was started and went on by answers: it is
    /// finished, or its step has a request left to make.
    pub open spec fn wf(self) -> bool {
        self.index <= self.steps.len() && (self.index < self.steps.len() ==> match self.steps[self.index as int] {
            Step::Rules(pair) => next_request(pair, self.outcomes) is Some,
            _ => self.outcomes.len() == 0,
        })
    }

    /// The request to make now, or `None` when the run is over.
    pub open spec fn pending(self) -> Option<Request> {
        if self.finished() {
            None
        } else {
            match self.steps[self.index as int] {
                Step::Rules(pair) => match next_request(pair, self.outcomes) {
                    Some(call) => Some(Request::Firewall(call)),
                    None => None,
                },
                Step::Notify => Some(Request::Notify),
                Step::Persist => Some(Request::Persist),
            }
        }
    }

    /// The run to the next step.
    pub open spec fn advanced(self, failed: bool) -> RunView {
        RunView { steps: self.steps, index: self.index + 1, outcomes: Seq::empty(), failed }
    }

    /// The run after the pending request came back, with `ok` for success.
    /// A failed firewall request ends its pair and no more; a failed
    /// notification ends nothing; a failed write is kept in mind.
    pub open spec fn after(self, ok: bool) -> RunView {
        if self.finished() {
            self
        } else {
            match self.steps[self.index as int] {
                Step::Rules(pair) => if next_request(pair, self.outcomes.push(ok)) is None {
                    self.advanced(self.failed)
                } else {
                    RunView { outcomes: self.outcomes.push(ok), ..self }
                },
                Step::Notify => self.advanced(self.failed),
                Step::Persist => self.advanced(self.failed || !ok),
            }
        }
    }
}

/// The requests that a run makes, in order, while the answers in `results`
/// come in one by one.
pub open spec fn trace(run: RunView, results: Seq<bool>) -> Seq<Request>
    decreases results.len(),
{
    if results.len() == 0 {
        Seq::empty()
    } else {
        match run.pending() {
            None => Seq::empty(),
            Some(request) => seq![request] + trace(run.after(results[0]), results.drop_first()),
        }
    }
}

/// Place of a step in a transition: retracting, installing, notifying,
/// persisting.
pub open spec fn step_rank(step: Step) -> int {
    match step {
        Step::Rules(pair) => match pair.action {
            RuleAction::Delete => 0,
            RuleAction::Append => 1,
        },
        Step::Notify => 2,
        Step::Persist => 3,
    }
}

/// Place of a request in a transition, as that of the step it belongs to.
pub open spec fn request_rank(request: Request) -> int {
    match request {
        Request::Firewall(call) => match call.action {
            RuleAction::Delete => 0,
            RuleAction::Append => 1,
        },
        Request::Notify => 2,
        Request::Persist => 3,
    }
}

/// Whether a request asks the firewall for the given action.
pub open spec fn is_firewall_request(request: Request, action: RuleAction) -> bool {
    match request {
        Request::Firewall(call) => call.action == action,
        _ => false,
    }
}

/// No step comes before a step of a lower rank.
pub open spec fn ranked(steps: Seq<Step>) -> bool {
    forall|a: int, b: int|
        0 <= a <= b < steps.len() ==> step_rank(#[trigger] steps[a]) <= step_rank(
            #[trigger] steps[b],
        )
}

/// A run that is well formed stays so when an answer comes in, and no step
/// is left out: as long as the run is not over there is a request to make,
/// it belongs to the step at which the run stands, and the answer moves the
/// run on by one step at most, whether it tells of success or of failure.
pub proof fn lemma_after_wf(run: RunView, ok: bool)
    requires
        run.wf(),
    ensures
        run.after(ok).wf(),
        run.after(ok).steps == run.steps,
        run.after(ok).index == run.index || run.after(ok).index == run.index + 1,
        !run.finished() ==> run.pending() is Some && request_rank(run.pending().unwrap())
            == step_rank(run.steps[run.index as int]),
{
}

/// How many requests a run may still make, at most: two for each step that
/// is left, less those already made for the step at which it stands.
pub open spec fn requests_left(run: RunView) -> int {
    2 * (run.steps.len() - run.index) - run.outcomes.len()
}

/// Every answer brings a run nearer to its end, so a run of `n` steps is over
/// after `2 * n` answers at most.
pub proof fn lemma_run_ends(run: RunView, ok: bool)
    requires
        run.wf(),
        !run.finished(),
    ensures
        0 <= requests_left(run.after(ok)) < requests_left(run),
{
}

/// Whatever the answers, a run over ranked steps makes its requests in the
/// order of their ranks, none of them of a lower rank than the step at
/// which the run stands.
pub proof fn lemma_trace_ranked(run: RunView, results: Seq<bool>)
    requires
        run.wf(),
        ranked(run.steps),
    ensures
        forall|k: int|
            0 <= k < trace(run, results).len() ==> !run.finished() && step_rank(
                run.steps[run.index as int],
            ) <= request_rank(#[trigger] trace(run, results)[k]),
        forall|i: int, j: int|
            0 <= i <= j < trace(run, results).len() ==> request_rank(
                #[trigger] trace(run, results)[i],
            ) <= request_rank(#[trigger] trace(run, results)[j]),
    decreases results.len(),
{
    if results.len() > 0 && run.pending() is Some {
        let request = run.pending().unwrap();
        let next = run.after(results[0]);
        let rest = trace(next, results.drop_first());
        let all = trace(run, results);
        lemma_after_wf(run, results[0]);
        lemma_trace_ranked(next, results.drop_first());
        assert(all == seq![request] + rest);
        assert forall|k: int| 0 <= k < all.len() implies step_rank(run.steps[run.index as int])
            <= request_rank(#[trigger] all[k]) by {
            if k > 0 {
                assert(all[k] == rest[k - 1]);
                assert(step_rank(run.steps[run.index as int]) <= step_rank(
                    next.steps[next.index as int],
                ));
            }
        }
        assert forall|i: int, j: int| 0 <= i <= j < all.len() implies request_rank(
            #[trigger] all[i],
        ) <= request_rank(#[trigger] all[j]) by {
            if j > 0 {
                assert(all[j] == rest[j - 1]);
                if i > 0 {
                    assert(all[i] == rest[i - 1]);
                }
            }
        }
    }
}

/// During a transition from one mapping to another, whatever the firewall
/// answers, no request to delete a rule is made once a request to append one
/// has been made; and none to the firewall once the CI system has been told.
pub proof fn lemma_deletes_before_appends(
    old_entries: Seq<MapEntry>,
    new_entries: Seq<MapEntry>,
    results: Seq<bool>,
)
    ensures
        ({
            let made = trace(RunView::start(transition_steps(old_entries, new_entries)), results);
            &&& forall|i: int, j: int|
                0 <= i <= j < made.len() ==> request_rank(#[trigger] made[i]) <= request_rank(
                    #[trigger] made[j],
                )
            &&& forall|i: int, j: int|
                0 <= i < made.len() && 0 <= j < made.len() && is_firewall_request(
                    #[trigger] made[i],
                    RuleAction::Delete,
                ) && is_firewall_request(#[trigger] made[j], RuleAction::Append) ==> i < j
        }),
{
    let steps = transition_steps(old_entries, new_entries);
    assert(ranked(steps));
    lemma_trace_ranked(RunView::start(steps), results);
    let made = trace(RunView::start(steps), results);
    assert forall|i: int, j: int|
        0 <= i < made.len() && 0 <= j < made.len() && is_firewall_request(
            #[trigger] made[i],
            RuleAction::Delete,
        ) && is_firewall_request(#[trigger] made[j], RuleAction::Append) implies i < j by {
        if j <= i {
            assert(request_rank(made[j]) <= request_rank(made[i]));
        }
    }
}

/// A list of steps that is being carried out.
#[derive(Debug)]
pub struct Run {
    steps: Vec<Step>,
    index: usize,
    outcomes: Vec<bool>,
    failed: bool,
}

impl View for Run {
    type V = RunView;

    closed spec fn view(&self) -> RunView {
        RunView {
            steps: self.steps@,
            index: self.index as nat,
            outcomes: self.outcomes@,
            failed: self.failed,
        }
    }
}

impl Run {
    /// A run of the given steps, none of them begun.
    pub fn new(steps: Vec<Step>) -> (r: Run)
        ensures
            r@ == RunView::start(steps@),
    {
        Run { steps, index: 0, outcomes: Vec::new(), failed: false }
    }

    /// The request to make now, or `None` when the run is over.
    pub fn pending(&self) -> (r: Option<Request>)
        ensures
            r == self@.pending(),
    {
        if self.index >= self.steps.len() {
            return None;
        }
        match self.steps[self.index] {
            Step::Rules(pair) => match pair.next_call(&self.outcomes) {
                Some(call) => Some(Request::Firewall(call)),
                None => None,
            },
            Step::Notify => Some(Request::Notify),
            Step::Persist => Some(Request::Persist),
        }
    }

    /// Takes the answer to the pending request, `true` for success, and
    /// moves on.
    pub fn report(&mut self, ok: bool)
        ensures
            final(self)@ == old(self)@.after(ok),
    {
        if self.index >= self.steps.len() {
            return;
        }
        match self.steps[self.index] {
            Step::Rules(pair) => {
                self.outcomes.push(ok);
                if pair.next_call(&self.outcomes).is_none() {
                    self.index = self.index + 1;
                    self.outcomes = Vec::new();
                }
            },
            Step::Notify => {
                self.index = self.index + 1;
                self.outcomes = Vec::new();
            },
            Step::Persist => {
                if !ok {
                    self.failed = true;
                }
                self.index = self.index + 1;
                self.outcomes = Vec::new();
            },
        }
    }

    /// Whether a write of the state has failed: the one failure that is the
    /// failure of the whole run.
    pub fn failed(&self) -> (r: bool)
        ensures
            r == self@.failed,
    {
        self.failed
    }

    /// Whether all steps were carried out.
    pub fn is_finished(&self) -> (r: bool)
        ensures
            r == self@.finished(),
    {
        self.index >= self.steps.len()
    }
}

} // verus!
