//! The NAT rules that realise a mapping: for each entry one rule for traffic
//! that leaves and one for traffic that arrives, and the order in which the
//! firewall is asked to add or remove them.

use vstd::prelude::*;
use vstd::string::*;
use crate::common::{MapEntry, Mapping};
use crate::network::network_text;

verus! {

/// What the firewall is asked to do with a rule.
#[derive(Clone, Copy, Debug, PartialEq, Eq, Structural)]
pub enum RuleAction {
    Append,
    Delete,
}

/// The two rules of one entry.
#[derive(Clone, Copy, Debug, PartialEq, Eq, Structural)]
pub enum Direction {
    /// Traffic sourced from the private network leaves as the public subnet.
    Egress,
    /// Traffic destined to the public subnet arrives at the private network.
    Ingress,
}

/// Name of the table that holds the rules.
pub open spec fn table_name() -> Seq<char> {
    "nat"@
}

/// Name of the chain that holds the rule of a direction.
pub open spec fn chain_name(direction: Direction) -> Seq<char> {
    match direction {
        Direction::Egress => "POSTROUTING"@,
        Direction::Ingress => "PREROUTING"@,
    }
}

/// The rule of an entry for a direction, as the firewall takes it. The text
/// depends on the entry and the direction alone.
pub open spec fn rule_text(direction: Direction, entry: MapEntry) -> Seq<char> {
    let public = network_text(entry.public.addr, entry.public.len);
    let private = network_text(entry.private.addr, entry.private.len);
    match direction {
        Direction::Egress => "-s "@ + private + " -j NETMAP --to "@ + public,
        Direction::Ingress => "-d "@ + public + " -j NETMAP --to "@ + private,
    }
}

/// One request to the firewall: add or remove the rule of an entry for a
/// direction.
#[derive(Clone, Copy, Debug, PartialEq, Eq, Structural)]
pub struct RuleCall {
    pub action: RuleAction,
    pub direction: Direction,
    pub entry: MapEntry,
}

impl RuleCall {
    /// The table to name in the request.
    pub fn table(&self) -> (r: &'static str)
        ensures
            r@ == table_name(),
    {
        "nat"
    }

    /// The chain to name in the request.
    pub fn chain(&self) -> (r: &'static str)
        ensures
            r@ == chain_name(self.direction),
    {
        match self.direction {
            Direction::Egress => "POSTROUTING",
            Direction::Ingress => "PREROUTING",
        }
    }

    /// The rule to name in the request.
    pub fn rule(&self) -> (r: String)
        requires
            self.entry.public.wf(),
            self.entry.private.wf(),
        ensures
            r@ == rule_text(self.direction, self.entry),
    {
        let public = self.entry.public.to_text();
        let private = self.entry.private.to_text();
        match self.direction {
            Direction::Egress => {
                let mut text = String::from_str("-s ");
                text.append(private.as_str());
                text.append(" -j NETMAP --to ");
                text.append(public.as_str());
                text
            },
            Direction::Ingress => {
                let mut text = String::from_str("-d ");
                text.append(public.as_str());
                text.append(" -j NETMAP --to ");
                text.append(private.as_str());
                text
            },
        }
    }
}

/// The two requests for one entry, made in turn: the egress rule, then the
/// ingress rule unless the first request failed.
#[derive(Clone, Copy, Debug, PartialEq, Eq, Structural)]
pub struct RulePair {
    pub action: RuleAction,
    pub entry: MapEntry,
}

/// The request that is due for a pair once the earlier requests for it have
/// come back with `outcomes` (`true` for success): the egress rule first, the
/// ingress rule after a success, nothing more after a failure or after both.
pub open spec fn next_request(pair: RulePair, outcomes: Seq<bool>) -> Option<RuleCall> {
    if outcomes.len() == 0 {
        Some(RuleCall { action: pair.action, direction: Direction::Egress, entry: pair.entry })
    } else if outcomes.len() == 1 && outcomes[0] {
        Some(RuleCall { action: pair.action, direction: Direction::Ingress, entry: pair.entry })
    } else {
        None
    }
}

impl RulePair {
    /// The request to make next, given how the earlier requests for this pair
    /// ended, or `None` when the pair is over.
    pub fn next_call(&self, outcomes: &Vec<bool>) -> (r: Option<RuleCall>)
        ensures
            r == next_request(*self, outcomes@),
    {
        if outcomes.len() == 0 {
            Some(RuleCall { action: self.action, direction: Direction::Egress, entry: self.entry })
        } else if outcomes.len() == 1 && outcomes[0] {
            Some(
                RuleCall { action: self.action, direction: Direction::Ingress, entry: self.entry },
            )
        } else {
            None
        }
    }
}

/// One pair per entry, in the order of the entries, all with the same action.
pub open spec fn rule_pairs(action: RuleAction, entries: Seq<MapEntry>) -> Seq<RulePair> {
    Seq::new(entries.len(), |i: int| RulePair { action, entry: entries[i] })
}

/// Turns a mapping into the requests that install or retract it.
pub struct IPTableRules;

impl IPTableRules {
    /// The pair that installs one entry.
    pub fn append_rules(entry: MapEntry) -> (r: RulePair)
        ensures
            r == (RulePair { action: RuleAction::Append, entry }),
    {
        RulePair { action: RuleAction::Append, entry }
    }

    /// The pair that retracts one entry.
    pub fn delete_rules(entry: MapEntry) -> (r: RulePair)
        ensures
            r == (RulePair { action: RuleAction::Delete, entry }),
    {
        RulePair { action: RuleAction::Delete, entry }
    }

    /// The pairs that install a mapping: one for every entry, whatever
    /// becomes of the others.
    pub fn append_all_rules(mapping: &Mapping) -> (r: Vec<RulePair>)
        ensures
            r@ == rule_pairs(RuleAction::Append, mapping@),
    {
        Self::all_rules(RuleAction::Append, mapping)
    }

    /// The pairs that retract a mapping: one for every entry, whatever
    /// becomes of the others.
    pub fn delete_all_rules(mapping: &Mapping) -> (r: Vec<RulePair>)
        ensures
            r@ == rule_pairs(RuleAction::Delete, mapping@),
    {
        Self::all_rules(RuleAction::Delete, mapping)
    }

    fn all_rules(action: RuleAction, mapping: &Mapping) -> (r: Vec<RulePair>)
        ensures
            r@ == rule_pairs(action, mapping@),
    {
        let mut pairs: Vec<RulePair> = Vec::new();
        let mut i: usize = 0;
        let n = mapping.len();
        while i < n
            invariant
                n == mapping@.len(),
                i <= n,
                pairs@ == rule_pairs(action, mapping@.subrange(0, i as int)),
            decreases n - i,
        {
            let pair = match action {
                RuleAction::Append => Self::append_rules(mapping.entry(i)),
                RuleAction::Delete => Self::delete_rules(mapping.entry(i)),
            };
            pairs.push(pair);
            i = i + 1;
            assert(pairs@ =~= rule_pairs(action, mapping@.subrange(0, i as int)));
        }
        assert(mapping@.subrange(0, i as int) =~= mapping@);
        pairs
    }
}

} // verus!
