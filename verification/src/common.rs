//! The mapping from public subnets to private networks, and the record that
//! is kept of the last delegation.

use vstd::prelude::*;
use crate::network::Network;

verus! {

/// One translation: a public /64 subnet and the private network behind it.
#[derive(Clone, Copy, Debug, PartialEq, Eq, Hash, Structural)]
pub struct MapEntry {
    pub public: Network,
    pub private: Network,
}

/// No public subnet occurs in two entries.
pub open spec fn distinct_publics(entries: Seq<MapEntry>) -> bool {
    forall|i: int, j: int|
        0 <= i < j < entries.len() ==> (#[trigger] entries[i]).public != (
        #[trigger] entries[j]).public
}

/// Every network of every entry is well formed.
pub open spec fn networks_wf(entries: Seq<MapEntry>) -> bool {
    forall|i: int|
        0 <= i < entries.len() ==> (#[trigger] entries[i]).public.wf() && entries[i].private.wf()
}

/// What a list of entries must satisfy to be a mapping.
pub open spec fn valid_entries(entries: Seq<MapEntry>) -> bool {
    distinct_publics(entries) && networks_wf(entries)
}

/// A mapping public subnet -> private network. Entries keep the order in
/// which they were given; each public subnet occurs once.
#[derive(Debug, PartialEq, Eq)]
pub struct Mapping {
    entries: Vec<MapEntry>,
}

impl View for Mapping {
    type V = Seq<MapEntry>;

    closed spec fn view(&self) -> Seq<MapEntry> {
        self.entries@
    }
}

impl Clone for Mapping {
    fn clone(&self) -> (r: Mapping)
        ensures
            r@ == self@,
            r.wf(),
    {
        proof {
            use_type_invariant(self);
        }
        let mut entries: Vec<MapEntry> = Vec::new();
        let mut i: usize = 0;
        while i < self.entries.len()
            invariant
                i <= self.entries.len(),
                entries@ == self.entries@.subrange(0, i as int),
            decreases self.entries.len() - i,
        {
            entries.push(self.entries[i]);
            i = i + 1;
            assert(entries@ =~= self.entries@.subrange(0, i as int));
        }
        assert(self.entries@.subrange(0, i as int) =~= self.entries@);
        Mapping { entries }
    }
}

impl Mapping {
    #[verifier::type_invariant]
    spec fn inv(&self) -> bool {
        valid_entries(self.entries@)
    }

    /// What holds of every mapping: each public subnet occurs once, and the
    /// networks are well formed.
    pub open spec fn wf(&self) -> bool {
        valid_entries(self@)
    }

    /// The private network that `public` is mapped to, if any.
    pub open spec fn lookup(&self, public: Network) -> Option<Network> {
        if exists|k: int| 0 <= k < self@.len() && (#[trigger] self@[k]).public == public {
            let k = choose|k: int| 0 <= k < self@.len() && (#[trigger] self@[k]).public == public;
            Some(self@[k].private)
        } else {
            None
        }
    }

    /// The mapping without entries.
    pub fn new() -> (r: Mapping)
        ensures
            r@ == Seq::<MapEntry>::empty(),
            r.wf(),
    {
        Mapping { entries: Vec::new() }
    }

    /// The mapping that holds the given entries, in their order.
    pub fn from_valid(entries: Vec<MapEntry>) -> (r: Mapping)
        requires
            valid_entries(entries@),
        ensures
            r@ == entries@,
            r.wf(),
    {
        Mapping { entries }
    }

    /// The mapping that holds the given entries, unless a public subnet
    /// occurs twice among them or a prefix length is above 128.
    pub fn from_entries(entries: Vec<MapEntry>) -> (r: Option<Mapping>)
        ensures
            valid_entries(entries@) <==> r is Some,
            r is Some ==> r.unwrap()@ == entries@ && r.unwrap().wf(),
    {
        let mut i: usize = 0;
        while i < entries.len()
            invariant
                i <= entries.len(),
                valid_entries(entries@.subrange(0, i as int)),
            decreases entries.len() - i,
        {
            let entry = entries[i];
            if entry.public.len > 128 || entry.private.len > 128 {
                assert(!entries@[i as int].public.wf() || !entries@[i as int].private.wf());
                return None;
            }
            let mut j: usize = 0;
            while j < i
                invariant
                    j <= i < entries.len(),
                    entry == entries@[i as int],
                    forall|k: int| 0 <= k < j ==> (#[trigger] entries@[k]).public != entry.public,
                decreases i - j,
            {
                if entries[j].public == entry.public {
                    assert(entries@[j as int].public == entries@[i as int].public);
                    return None;
                }
                j = j + 1;
            }
            i = i + 1;
            assert forall|a: int, b: int| 0 <= a < b < i implies (#[trigger] entries@.subrange(
                0,
                i as int,
            )[a]).public != (#[trigger] entries@.subrange(0, i as int)[b]).public by {
                let prev = entries@.subrange(0, i - 1);
                if b < i - 1 {
                    assert(prev[a].public != prev[b].public);
                }
            }
            assert forall|a: int| 0 <= a < i implies (#[trigger] entries@.subrange(
                0,
                i as int,
            )[a]).public.wf() && entries@.subrange(0, i as int)[a].private.wf() by {
                let prev = entries@.subrange(0, i - 1);
                if a < i - 1 {
                    assert(prev[a].public.wf());
                }
            }
        }
        assert(entries@.subrange(0, i as int) =~= entries@);
        Some(Mapping { entries })
    }

    /// Number of entries.
    pub fn len(&self) -> (r: usize)
        ensures
            r == self@.len(),
            self.wf(),
    {
        proof {
            use_type_invariant(self);
        }
        self.entries.len()
    }

    /// Whether the mapping has no entry.
    pub fn is_empty(&self) -> (r: bool)
        ensures
            r == (self@.len() == 0),
    {
        self.entries.len() == 0
    }

    /// The `i`-th entry.
    pub fn entry(&self, i: usize) -> (r: MapEntry)
        requires
            i < self@.len(),
        ensures
            r == self@[i as int],
    {
        self.entries[i]
    }

    /// The private network that `public` is mapped to, if any.
    pub fn get(&self, public: &Network) -> (r: Option<Network>)
        ensures
            r == self.lookup(*public),
    {
        proof {
            use_type_invariant(self);
        }
        let mut i: usize = 0;
        while i < self.entries.len()
            invariant
                self.wf(),
                i <= self.entries.len(),
                forall|k: int| 0 <= k < i ==> (#[trigger] self@[k]).public != *public,
            decreases self.entries.len() - i,
        {
            if self.entries[i].public == *public {
                let ghost w = choose|k: int|
                    0 <= k < self@.len() && (#[trigger] self@[k]).public == *public;
                assert(self@[i as int].public == *public);
                assert(w == i) by {
                    if w < i {
                        assert(self@[w].public != self@[i as int].public);
                    } else if w > i {
                        assert(self@[i as int].public != self@[w].public);
                    }
                }
                return Some(self.entries[i].private);
            }
            i = i + 1;
        }
        None
    }
}

/// The durable record: the last delegated prefix and the mapping that was
/// installed for it.
#[derive(Debug, PartialEq, Eq)]
pub struct State {
    pub prefix: Network,
    pub mapping: Mapping,
}

impl State {
    /// The record holds a well-formed prefix and a mapping.
    pub open spec fn wf(&self) -> bool {
        self.prefix.wf() && self.mapping.wf()
    }

    /// A record of the given prefix and mapping.
    pub fn new(prefix: Network, mapping: Mapping) -> (r: State)
        ensures
            r.prefix == prefix,
            r.mapping == mapping,
    {
        State { prefix, mapping }
    }
}

impl Default for State {
    /// The record before any delegation was seen: the prefix `::/0` as the
    /// unset value, and no mapping.
    fn default() -> (r: State)
        ensures
            r.prefix == (Network { addr: 0, len: 0 }),
            r.mapping@ == Seq::<MapEntry>::empty(),
            r.wf(),
    {
        State { prefix: Network { addr: 0, len: 0 }, mapping: Mapping::new() }
    }
}

} // verus!
