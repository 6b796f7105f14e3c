//! The prefix change detector: reads a delegated prefix out of a log line,
//! compares it with the last one known, and on a change lays out what has to
//! be done, in order: retract the old rules, install the new ones, notify,
//! persist.

use vstd::prelude::*;
use crate::common::{MapEntry, Mapping, State};
use crate::network::{network_of_text, Network};
use crate::rules::{IPTableRules, RuleAction, RulePair};
use crate::subnet::{allocate, AllocationError, SubnetCalculator};

verus! {

/// Whether `regex` accepts a text as a pattern.
pub uninterp spec fn valid_pattern(pattern: Seq<char>) -> bool;

/// What the first capture group of a pattern holds in the leftmost match
/// that `regex` finds in a line: `None` where the pattern is not valid, where
/// nothing matches, or where the group took no part in the match.
pub uninterp spec fn captured_group(pattern: Seq<char>, line: Seq<char>) -> Option<Seq<char>>;

/// Calls `regex::Regex::new` and says whether it accepted the pattern. The
/// contract only gives that answer its name, `valid_pattern`.
#[verifier::external_body]
fn pattern_compiles(pattern: &str) -> (r: bool)
    ensures
        r == valid_pattern(pattern@),
{
    regex::Regex::new(pattern).is_ok()
}

/// Calls `regex::Regex::new` on the pattern, `Regex::captures` on the line
/// and `Captures::get(1)` on what was found, and hands back the text of that
/// group. The contract only gives the outcome its name, `captured_group`.
/// The pattern is compiled on every call, so that the outcome is a matter of
/// the two texts alone; lines of a log come slowly enough for that.
#[verifier::external_body]
fn first_group(pattern: &str, line: &str) -> (r: Option<String>)
    ensures
        captured_group(pattern@, line@) == match r {
            Some(text) => Some(text@),
            None => None,
        },
{
    let regex = regex::Regex::new(pattern).ok()?;
    let found = regex.captures(line)?;
    Some(found.get(1)?.as_str().to_string())
}

/// One thing to do during a transition, at startup or at shutdown.
#[derive(Clone, Copy, Debug, PartialEq, Eq, Structural)]
pub enum Step {
    /// Ask the firewall for the two rules of a pair. A failure is reported
    /// and the next step is taken all the same.
    Rules(RulePair),
    /// Tell the CI system the prefix and the mapping of the current state. A
    /// failure is reported and the next step is taken all the same.
    Notify,
    /// Write the current state to durable storage. A failure is the failure
    /// of the line.
    Persist,
}

/// What became of a line.
#[derive(Debug, PartialEq, Eq)]
pub enum LineOutcome {
    /// The pattern found nothing in the line.
    NoMatch,
    /// What the pattern captured is no IPv6 network.
    Malformed,
    /// The line repeats the prefix that is already in force.
    Duplicate,
    /// The new prefix, given here, cannot serve the private networks, for
    /// the reason given; nothing changes.
    Rejected(Network, AllocationError),
    /// The prefix changed: the state holds the new prefix and mapping, and
    /// these steps carry the change out.
    Transition(Vec<Step>),
}

/// The outcome of a line as a value of the model.
pub enum Decision {
    NoMatch,
    Malformed,
    Duplicate,
    Rejected(Network, AllocationError),
    Transition { prefix: Network, entries: Seq<MapEntry> },
}

/// One step per entry, in the order of the entries.
pub open spec fn rule_steps(action: RuleAction, entries: Seq<MapEntry>) -> Seq<Step> {
    Seq::new(entries.len(), |i: int| Step::Rules(RulePair { action, entry: entries[i] }))
}

/// The steps of a transition from one mapping to another: every old entry is
/// retracted, then every new entry is installed, then the CI system is told,
/// then the state is written.
pub open spec fn transition_steps(old_entries: Seq<MapEntry>, new_entries: Seq<MapEntry>) -> Seq<
    Step,
> {
    rule_steps(RuleAction::Delete, old_entries) + rule_steps(RuleAction::Append, new_entries)
        + seq![Step::Notify, Step::Persist]
}

/// What a newly reported prefix leads to, given the last known prefix and
/// the configured private networks.
pub open spec fn decide_prefix(last: Network, networks: Seq<Network>, prefix: Network) -> Decision {
    if prefix == last {
        Decision::Duplicate
    } else {
        match allocate(prefix, networks) {
            Ok(entries) => Decision::Transition { prefix, entries },
            Err(error) => Decision::Rejected(prefix, error),
        }
    }
}

/// What the text captured from a line leads to.
pub open spec fn decide_capture(
    last: Network,
    networks: Seq<Network>,
    capture: Option<Seq<char>>,
) -> Decision {
    match capture {
        None => Decision::NoMatch,
        Some(text) => match network_of_text(text) {
            None => Decision::Malformed,
            Some(prefix) => decide_prefix(last, networks, prefix),
        },
    }
}

/// Whether a step asks the firewall for rules with the given action.
pub open spec fn is_rule_step(step: Step, action: RuleAction) -> bool {
    match step {
        Step::Rules(pair) => pair.action == action,
        _ => false,
    }
}

/// The detector: the configured pattern and private networks, and the state
/// that the last transition left.
#[derive(Debug)]
pub struct Gateway {
    pub pattern: String,
    pub networks: Vec<Network>,
    pub state: State,
}

/// Whether a detector that was `pre` and is now `post`, having answered
/// `outcome`, did what `decision` asks: the configuration stays; the state
/// changes on a transition only, to the new prefix and its allocation; and a
/// transition's steps are those from the old mapping to the new one.
pub open spec fn realises(
    pre: Gateway,
    post: Gateway,
    outcome: LineOutcome,
    decision: Decision,
) -> bool {
    &&& post.pattern == pre.pattern
    &&& post.networks == pre.networks
    &&& match decision {
        Decision::NoMatch => outcome == LineOutcome::NoMatch && post.state == pre.state,
        Decision::Malformed => outcome == LineOutcome::Malformed && post.state == pre.state,
        Decision::Duplicate => outcome == LineOutcome::Duplicate && post.state == pre.state,
        Decision::Rejected(prefix, error) => outcome == LineOutcome::Rejected(prefix, error)
            && post.state == pre.state,
        Decision::Transition { prefix, entries } => {
            &&& post.state.prefix == prefix
            &&& post.state.mapping@ == entries
            &&& match outcome {
                LineOutcome::Transition(steps) => steps@ == transition_steps(
                    pre.state.mapping@,
                    entries,
                ),
                _ => false,
            }
        },
    }
}

/// One step for each pair, in the order of the pairs.
spec fn steps_of(pairs: Seq<RulePair>) -> Seq<Step> {
    Seq::new(pairs.len(), |i: int| Step::Rules(pairs[i]))
}

fn push_pairs(steps: &mut Vec<Step>, pairs: &Vec<RulePair>)
    ensures
        final(steps)@ == old(steps)@ + steps_of(pairs@),
{
    let n = pairs.len();
    let mut i: usize = 0;
    while i < n
        invariant
            n == pairs@.len(),
            i <= n,
            steps@ == old(steps)@ + steps_of(pairs@.subrange(0, i as int)),
        decreases n - i,
    {
        steps.push(Step::Rules(pairs[i]));
        i = i + 1;
        assert(steps@ =~= old(steps)@ + steps_of(pairs@.subrange(0, i as int)));
    }
    assert(pairs@.subrange(0, i as int) =~= pairs@);
}

impl Gateway {
    /// A detector with the given configuration and state, unless the pattern
    /// is not one that `regex` accepts.
    pub fn new(pattern: String, networks: Vec<Network>, state: State) -> (r: Option<Gateway>)
        ensures
            r is Some <==> valid_pattern(pattern@),
            r is Some ==> r.unwrap() == (Gateway { pattern, networks, state }),
    {
        if pattern_compiles(pattern.as_str()) {
            Some(Gateway { pattern, networks, state })
        } else {
            None
        }
    }

    /// The steps to take before the first line is read: install the rules of
    /// the mapping that the state holds, and nothing else.
    pub fn startup(&self) -> (r: Vec<Step>)
        ensures
            r@ == rule_steps(RuleAction::Append, self.state.mapping@),
    {
        let mut steps: Vec<Step> = Vec::new();
        push_pairs(&mut steps, &IPTableRules::append_all_rules(&self.state.mapping));
        assert(steps@ =~= rule_steps(RuleAction::Append, self.state.mapping@));
        steps
    }

    /// The steps to take when the detector is stopped: retract the rules of
    /// the mapping that the state holds, and nothing else.
    pub fn shutdown(&self) -> (r: Vec<Step>)
        ensures
            r@ == rule_steps(RuleAction::Delete, self.state.mapping@),
    {
        let mut steps: Vec<Step> = Vec::new();
        push_pairs(&mut steps, &IPTableRules::delete_all_rules(&self.state.mapping));
        assert(steps@ =~= rule_steps(RuleAction::Delete, self.state.mapping@));
        steps
    }

    /// Puts the new prefix and its mapping in place, both at once.
    pub fn update_state(&mut self, prefix: Network, mapping: Mapping)
        ensures
            final(self).state.prefix == prefix,
            final(self).state.mapping == mapping,
            final(self).pattern == old(self).pattern,
            final(self).networks == old(self).networks,
    {
        self.state = State { prefix, mapping };
    }

    /// Takes a newly reported prefix. The prefix that is in force already is
    /// a duplicate. Any other is allocated: where that fails nothing changes,
    /// and where it succeeds the state moves on and the steps of the
    /// transition are handed out. Only the prefix is compared: a change in
    /// the list of private networks takes effect with the next new prefix.
    pub fn handle_prefix(&mut self, prefix: Network) -> (r: LineOutcome)
        ensures
            realises(
                *old(self),
                *final(self),
                r,
                decide_prefix(old(self).state.prefix, old(self).networks@, prefix),
            ),
    {
        if prefix == self.state.prefix {
            return LineOutcome::Duplicate;
        }
        match SubnetCalculator::calc(&prefix, self.networks.as_slice()) {
            Err(error) => LineOutcome::Rejected(prefix, error),
            Ok(mapping) => {
                let mut steps: Vec<Step> = Vec::new();
                push_pairs(&mut steps, &IPTableRules::delete_all_rules(&self.state.mapping));
                push_pairs(&mut steps, &IPTableRules::append_all_rules(&mapping));
                steps.push(Step::Notify);
                steps.push(Step::Persist);
                assert(steps@ =~= transition_steps(old(self).state.mapping@, mapping@));
                self.update_state(prefix, mapping);
                LineOutcome::Transition(steps)
            },
        }
    }

    /// Takes what the pattern captured from a line, if anything: no capture
    /// is no match, a capture that is no IPv6 network is malformed, and a
    /// prefix is handled as `handle_prefix` says.
    pub fn handle_capture(&mut self, capture: Option<String>) -> (r: LineOutcome)
        ensures
            realises(
                *old(self),
                *final(self),
                r,
                decide_capture(
                    old(self).state.prefix,
                    old(self).networks@,
                    match capture {
                        Some(text) => Some(text@),
                        None => None,
                    },
                ),
            ),
    {
        match capture {
            None => LineOutcome::NoMatch,
            Some(text) => match Network::parse(text.as_str()) {
                None => LineOutcome::Malformed,
                Some(prefix) => self.handle_prefix(prefix),
            },
        }
    }

    /// Takes one line of the log: applies the pattern, and handles what its
    /// first group captured as `handle_capture` says.
    pub fn handle_line(&mut self, line: String) -> (r: LineOutcome)
        ensures
            realises(
                *old(self),
                *final(self),
                r,
                decide_capture(
                    old(self).state.prefix,
                    old(self).networks@,
                    captured_group(old(self).pattern@, line@),
                ),
            ),
    {
        let capture = first_group(self.pattern.as_str(), line.as_str());
        self.handle_capture(capture)
    }
}

/// In a transition, every step that retracts an old entry comes before every
/// step that installs a new one; each old entry is retracted and each new
/// entry installed, once and in the order of its mapping; telling the CI
/// system and writing the state come last, in that order.
pub proof fn lemma_retract_before_install(old_entries: Seq<MapEntry>, new_entries: Seq<MapEntry>)
    ensures
        ({
            let steps = transition_steps(old_entries, new_entries);
            &&& steps.len() == old_entries.len() + new_entries.len() + 2
            &&& forall|i: int, j: int|
                0 <= i < steps.len() && 0 <= j < steps.len() && is_rule_step(
                    #[trigger] steps[i],
                    RuleAction::Delete,
                ) && is_rule_step(#[trigger] steps[j], RuleAction::Append) ==> i < j
            &&& forall|k: int|
                0 <= k < old_entries.len() ==> #[trigger] steps[k] == Step::Rules(
                    RulePair { action: RuleAction::Delete, entry: old_entries[k] },
                )
            &&& forall|k: int|
                0 <= k < new_entries.len() ==> #[trigger] steps[old_entries.len() + k]
                    == Step::Rules(RulePair { action: RuleAction::Append, entry: new_entries[k] })
            &&& steps[steps.len() - 2] == Step::Notify
            &&& steps[steps.len() - 1] == Step::Persist
        }),
{
}

/// A prefix that is delivered twice in a row leads to one transition at most:
/// whatever the first delivery did, the second one is no transition and
/// leaves the state as the first left it. Where the prefix is new and can be
/// allocated, the first delivery is the transition.
pub proof fn lemma_redelivery_changes_nothing(
    pre: Gateway,
    mid: Gateway,
    post: Gateway,
    first: LineOutcome,
    second: LineOutcome,
    prefix: Network,
)
    requires
        realises(pre, mid, first, decide_prefix(pre.state.prefix, pre.networks@, prefix)),
        realises(mid, post, second, decide_prefix(mid.state.prefix, mid.networks@, prefix)),
    ensures
        !(second is Transition),
        post.state == mid.state,
        first is Transition <==> prefix != pre.state.prefix && allocate(prefix, pre.networks@) is Ok,
        first is Transition ==> second == LineOutcome::Duplicate,
{
}

/// Whether the state holds nothing, or the allocation of its prefix to the
/// configured networks and nothing else.
pub open spec fn coherent(gateway: Gateway) -> bool {
    gateway.state.mapping@.len() == 0 || allocate(gateway.state.prefix, gateway.networks@) == Ok::<
        Seq<MapEntry>,
        AllocationError,
    >(gateway.state.mapping@)
}

/// Prefix and mapping move together: a detector whose mapping is the
/// allocation of its prefix is so again after any line, and after a
/// transition its prefix is one that can be split into /64 subnets.
pub proof fn lemma_state_stays_coherent(
    pre: Gateway,
    post: Gateway,
    outcome: LineOutcome,
    capture: Option<Seq<char>>,
)
    requires
        coherent(pre),
        realises(pre, post, outcome, decide_capture(pre.state.prefix, pre.networks@, capture)),
    ensures
        coherent(post),
        outcome is Transition ==> post.state.prefix.len <= 64 && allocate(
            post.state.prefix,
            post.networks@,
        ) == Ok::<Seq<MapEntry>, AllocationError>(post.state.mapping@),
        !(outcome is Transition) ==> post.state == pre.state,
{
}

/// After a restart from a stored state, the steps before the first line
/// install the stored mapping, entry by entry, and a line that reports the
/// stored prefix again is a duplicate.
pub proof fn lemma_restart_keeps_state(gateway: Gateway, steps: Seq<Step>)
    requires
        steps == rule_steps(RuleAction::Append, gateway.state.mapping@),
    ensures
        steps.len() == gateway.state.mapping@.len(),
        forall|k: int|
            0 <= k < steps.len() ==> #[trigger] steps[k] == Step::Rules(
                RulePair { action: RuleAction::Append, entry: gateway.state.mapping@[k] },
            ),
        decide_prefix(gateway.state.prefix, gateway.networks@, gateway.state.prefix)
            == Decision::Duplicate,
{
}

} // verus!
