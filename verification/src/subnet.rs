//! Allocation of the /64 subnets of a delegated prefix to the private
//! networks: the highest subnet goes to the first network, the next lower one
//! to the second, and so on.

use vstd::prelude::*;
use vstd::arithmetic::power2::*;
use crate::common::{distinct_publics, networks_wf, valid_entries, MapEntry, Mapping};
use crate::network::{lemma_pow2_values, Network, SUBNET_BITS};

verus! {

/// Why a prefix cannot serve a list of private networks.
#[derive(Clone, Copy, Debug, PartialEq, Eq, Structural)]
pub enum AllocationError {
    /// The prefix is longer than /64 and has no /64 subnet.
    PrefixTooLong,
    /// The prefix has fewer /64 subnets than there are private networks.
    InsufficientSubnets { required: usize, available: u128 },
}

/// The entries for the first `k` private networks: the `i`-th network is
/// paired with the `i`-th subnet from the top, and a network that is no /64
/// is passed over, its subnet left unused.
pub open spec fn allocation(prefix: Network, networks: Seq<Network>, k: nat) -> Seq<MapEntry>
    decreases k,
{
    if k == 0 {
        Seq::empty()
    } else {
        let rest = allocation(prefix, networks, (k - 1) as nat);
        let private = networks[k - 1];
        if private.len == 64 {
            rest.push(MapEntry { public: prefix.subnet_from_top((k - 1) as nat), private })
        } else {
            rest
        }
    }
}

/// What allocation gives for a prefix and an ordered list of private
/// networks: the entries, or the reason why there are none.
pub open spec fn allocate(prefix: Network, networks: Seq<Network>) -> Result<
    Seq<MapEntry>,
    AllocationError,
> {
    if prefix.len > 64 {
        Err(AllocationError::PrefixTooLong)
    } else if networks.len() > prefix.subnet_count() {
        Err(
            AllocationError::InsufficientSubnets {
                required: networks.len() as usize,
                available: prefix.subnet_count() as u128,
            },
        )
    } else {
        Ok(allocation(prefix, networks, networks.len()))
    }
}

/// Each entry allocated for the first `k` networks pairs a /64 private network
/// of the list, at some position `j < k`, with the `j`-th subnet from the top.
pub open spec fn drawn_from(
    entry: MapEntry,
    prefix: Network,
    networks: Seq<Network>,
    k: nat,
) -> bool {
    exists|j: int|
        0 <= j < k && entry.private == #[trigger] networks[j] && entry.private.len == 64
            && entry.public == prefix.subnet_from_top(j as nat)
}

/// The entries for the first `k` networks are at most `k`; each of them
/// pairs a public /64 inside the prefix with a private /64 of the list; they
/// stand in descending order of their public subnets, all of them above the
/// subnets that are left for the networks from `k` on.
pub proof fn lemma_allocation(prefix: Network, networks: Seq<Network>, k: nat)
    requires
        prefix.len <= 64,
        k <= networks.len() <= prefix.subnet_count(),
    ensures
        allocation(prefix, networks, k).len() <= k,
        forall|i: int|
            0 <= i < allocation(prefix, networks, k).len() ==> {
                let e = #[trigger] allocation(prefix, networks, k)[i];
                &&& e.public.len == 64
                &&& e.private.len == 64
                &&& prefix.contains(&e.public)
                &&& drawn_from(e, prefix, networks, k)
                &&& e.public.addr >= prefix.first() + (prefix.subnet_count() - k) * pow2(64)
            },
        forall|i: int, j: int|
            0 <= i < j < allocation(prefix, networks, k).len() ==> (#[trigger] allocation(
                prefix,
                networks,
                k,
            )[i]).public.addr > (#[trigger] allocation(prefix, networks, k)[j]).public.addr,
        valid_entries(allocation(prefix, networks, k)),
    decreases k,
{
    let count = prefix.subnet_count() as int;
    let w = pow2(64) as int;
    let all = allocation(prefix, networks, k);
    if k > 0 {
        let rest = allocation(prefix, networks, (k - 1) as nat);
        lemma_allocation(prefix, networks, (k - 1) as nat);
        let top = prefix.subnet_from_top((k - 1) as nat);
        prefix.lemma_subnet((count - k) as nat);
        assert(top.addr == prefix.first() + (count - k) * w);
        assert((count - (k - 1)) * w == (count - k) * w + w) by (nonlinear_arith);
        lemma_pow2_pos(64);
        assert forall|i: int| 0 <= i < all.len() implies {
            let e = #[trigger] all[i];
            &&& e.public.len == 64
            &&& e.private.len == 64
            &&& prefix.contains(&e.public)
            &&& drawn_from(e, prefix, networks, k)
            &&& e.public.addr >= prefix.first() + (count - k) * w
        } by {
            let e = all[i];
            if i < rest.len() {
                assert(e == rest[i]);
                let j = choose|j: int|
                    0 <= j < k - 1 && e.private == #[trigger] networks[j] && e.private.len == 64
                        && e.public == prefix.subnet_from_top(j as nat);
                assert(0 <= j < k && e.private == networks[j]);
            } else {
                assert(e.private == networks[k - 1]);
            }
        }
        assert forall|i: int, j: int| 0 <= i < j < all.len() implies (#[trigger] all[i]).public.addr
            > (#[trigger] all[j]).public.addr by {
            if j < rest.len() {
                assert(all[i] == rest[i] && all[j] == rest[j]);
            } else {
                assert(all[i] == rest[i]);
            }
        }
    }
    assert(distinct_publics(all));
    assert(networks_wf(all));
}

/// Whether `result` is what allocation gives for the prefix and the networks.
pub open spec fn is_allocation(
    prefix: Network,
    networks: Seq<Network>,
    result: Result<Mapping, AllocationError>,
) -> bool {
    match result {
        Ok(mapping) => allocate(prefix, networks) == Ok::<Seq<MapEntry>, AllocationError>(
            mapping@,
        ),
        Err(error) => allocate(prefix, networks) == Err::<Seq<MapEntry>, AllocationError>(error),
    }
}

/// An allocation has at most as many entries as there are private networks,
/// and each public subnet in it is a /64 that lies inside the prefix.
pub proof fn lemma_allocation_within_prefix(prefix: Network, networks: Seq<Network>)
    requires
        prefix.len <= 64,
    ensures
        match allocate(prefix, networks) {
            Ok(entries) => {
                &&& entries.len() <= networks.len()
                &&& valid_entries(entries)
                &&& forall|i: int|
                    0 <= i < entries.len() ==> (#[trigger] entries[i]).public.len == 64
                        && prefix.contains(&entries[i].public)
            },
            Err(_) => true,
        },
{
    if networks.len() <= prefix.subnet_count() {
        lemma_allocation(prefix, networks, networks.len());
    }
}

/// Where no private network is listed twice, no private network is mapped
/// twice: the allocation pairs public subnets and private networks one to
/// one.
pub proof fn lemma_allocation_one_to_one(prefix: Network, networks: Seq<Network>)
    requires
        prefix.len <= 64,
        forall|a: int, b: int|
            0 <= a < b < networks.len() ==> #[trigger] networks[a] != #[trigger] networks[b],
    ensures
        match allocate(prefix, networks) {
            Ok(entries) => forall|i: int, j: int|
                0 <= i < j < entries.len() ==> (#[trigger] entries[i]).private != (
                #[trigger] entries[j]).private && entries[i].public != entries[j].public,
            Err(_) => true,
        },
{
    if networks.len() <= prefix.subnet_count() {
        let entries = allocation(prefix, networks, networks.len());
        lemma_allocation(prefix, networks, networks.len());
        assert forall|i: int, j: int| 0 <= i < j < entries.len() implies (#[trigger] entries[i]).private
            != (#[trigger] entries[j]).private && entries[i].public != entries[j].public by {
            assert(drawn_from(entries[i], prefix, networks, networks.len()));
            assert(drawn_from(entries[j], prefix, networks, networks.len()));
            let a = choose|a: int|
                0 <= a < networks.len() && entries[i].private == #[trigger] networks[a]
                    && entries[i].private.len == 64 && entries[i].public == prefix.subnet_from_top(
                    a as nat,
                );
            let b = choose|b: int|
                0 <= b < networks.len() && entries[j].private == #[trigger] networks[b]
                    && entries[j].private.len == 64 && entries[j].public == prefix.subnet_from_top(
                    b as nat,
                );
            assert(entries[i].public.addr > entries[j].public.addr);
            if entries[i].private == entries[j].private {
                assert(a == b);
            }
        }
    }
}

/// A prefix of length at most 64 with fewer /64 subnets than there are
/// private networks is refused, with both counts and without any entry.
pub proof fn lemma_insufficient_subnets(prefix: Network, networks: Seq<Network>)
    requires
        prefix.len <= 64,
        networks.len() > prefix.subnet_count(),
    ensures
        allocate(prefix, networks) == Err::<Seq<MapEntry>, AllocationError>(
            AllocationError::InsufficientSubnets {
                required: networks.len() as usize,
                available: prefix.subnet_count() as u128,
            },
        ),
{
}

/// A prefix longer than /64 is refused, whatever the private networks.
pub proof fn lemma_prefix_too_long(prefix: Network, networks: Seq<Network>)
    requires
        prefix.len > 64,
    ensures
        allocate(prefix, networks) == Err::<Seq<MapEntry>, AllocationError>(
            AllocationError::PrefixTooLong,
        ),
{
}

/// Allocation is deterministic: two results for the same prefix and the same
/// networks are the same error, or hold the same entries in the same order.
pub proof fn lemma_allocation_deterministic(
    prefix: Network,
    networks: Seq<Network>,
    first: Result<Mapping, AllocationError>,
    second: Result<Mapping, AllocationError>,
)
    requires
        is_allocation(prefix, networks, first),
        is_allocation(prefix, networks, second),
    ensures
        match (first, second) {
            (Ok(a), Ok(b)) => a@ == b@,
            (Err(a), Err(b)) => a == b,
            _ => false,
        },
{
}

/// Computes which public subnet stands for which private network.
pub struct SubnetCalculator;

impl SubnetCalculator {
    /// Allocates the highest /64 subnets of `prefix` to `private_networks`, in
    /// the order of the list. Fails, with no partial mapping, where the prefix
    /// is longer than /64 or has fewer subnets than the list has networks. A
    /// listed network that is no /64 gets no entry.
    pub fn calc(prefix: &Network, private_networks: &[Network]) -> (r: Result<
        Mapping,
        AllocationError,
    >)
        ensures
            is_allocation(*prefix, private_networks@, r),
            prefix.len > 64 <==> r == Err::<Mapping, AllocationError>(
                AllocationError::PrefixTooLong,
            ),
            prefix.len <= 64 && private_networks@.len() > prefix.subnet_count() <==> r is Err
                && r->Err_0 is InsufficientSubnets,
            r is Ok ==> {
                let mapping = r->Ok_0;
                &&& mapping.wf()
                &&& mapping@.len() <= private_networks@.len()
                &&& forall|i: int|
                    0 <= i < mapping@.len() ==> (#[trigger] mapping@[i]).public.len == 64
                        && prefix.contains(&mapping@[i].public)
            },
    {
        if prefix.len > SUBNET_BITS {
            return Err(AllocationError::PrefixTooLong);
        }
        let available = prefix.subnet_total();
        let required = private_networks.len();
        if required as u128 > available {
            return Err(AllocationError::InsufficientSubnets { required, available });
        }
        let mut entries: Vec<MapEntry> = Vec::new();
        let mut i: usize = 0;
        while i < required
            invariant
                prefix.len <= 64,
                required == private_networks@.len(),
                required <= prefix.subnet_count(),
                i <= required,
                entries@ == allocation(*prefix, private_networks@, i as nat),
            decreases required - i,
        {
            let public = prefix.top_subnet(i);
            let private = private_networks[i];
            if public.len == SUBNET_BITS && private.len == SUBNET_BITS {
                entries.push(MapEntry { public, private });
            }
            i = i + 1;
        }
        proof {
            lemma_allocation(*prefix, private_networks@, required as nat);
            lemma_pow2_values();
        }
        Ok(Mapping::from_valid(entries))
    }
}

} // verus!
