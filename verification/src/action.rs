//! Moving devices along when the public prefix changes: which public address
//! stands for each device under a mapping, and which addresses have to be
//! replaced in the records.

use vstd::prelude::*;
use crate::common::{MapEntry, Mapping};
use crate::network::{lemma_pow2_values, Network};

verus! {

/// A device: its private address and the public address last recorded for it.
#[derive(Clone, Copy, Debug, PartialEq, Eq, Structural)]
pub struct Device {
    pub address: u128,
    pub mapped: u128,
}

/// One address to replace in the records, and what to put in its place.
#[derive(Clone, Copy, Debug, PartialEq, Eq, Structural)]
pub struct Replacement {
    pub current: u128,
    pub new: u128,
}

/// What a run over the devices found.
#[derive(Debug, PartialEq, Eq)]
pub struct Changes {
    /// The replacements, in the order of the devices.
    pub changed: Vec<Replacement>,
    /// Number of devices whose recorded address is still the right one.
    pub skipped: usize,
}

/// The public address of a device under an entry: the network bits of the
/// public subnet, then the host bits of the device.
pub open spec fn target_ip(address: u128, entry: MapEntry) -> nat {
    entry.public.first() + entry.private.host_part(address)
}

/// Whether an entry serves a device: both sides have the same prefix length
/// and the private network holds the device's address.
pub open spec fn serves(entry: MapEntry, address: u128) -> bool {
    entry.private.len == entry.public.len && entry.private.contains_addr(address)
}

/// The first entry from position `from` on that serves the address.
pub open spec fn serving_entry(entries: Seq<MapEntry>, address: u128, from: int) -> Option<
    MapEntry,
>
    decreases entries.len() - from,
{
    if from < 0 || from >= entries.len() {
        None
    } else if serves(entries[from], address) {
        Some(entries[from])
    } else {
        serving_entry(entries, address, from + 1)
    }
}

/// The device after the run: with its new public address where an entry
/// serves it, untouched where none does.
pub open spec fn moved(entries: Seq<MapEntry>, device: Device) -> Device {
    match serving_entry(entries, device.address, 0) {
        Some(entry) => Device {
            address: device.address,
            mapped: target_ip(device.address, entry) as u128,
        },
        None => device,
    }
}

/// The replacements for the first `k` devices: one for each served device
/// whose recorded address differs from its new one.
pub open spec fn replacements(entries: Seq<MapEntry>, devices: Seq<Device>, k: nat) -> Seq<
    Replacement,
>
    decreases k,
{
    if k == 0 {
        Seq::empty()
    } else {
        let rest = replacements(entries, devices, (k - 1) as nat);
        let device = devices[k - 1];
        let after = moved(entries, device);
        if after.mapped != device.mapped {
            rest.push(Replacement { current: device.mapped, new: after.mapped })
        } else {
            rest
        }
    }
}

/// Number of devices among the first `k` that are served and whose recorded
/// address is already the new one.
pub open spec fn unchanged(entries: Seq<MapEntry>, devices: Seq<Device>, k: nat) -> nat
    decreases k,
{
    if k == 0 {
        0
    } else {
        let rest = unchanged(entries, devices, (k - 1) as nat);
        let device = devices[k - 1];
        if serving_entry(entries, device.address, 0) is Some && moved(entries, device).mapped
            == device.mapped {
            rest + 1
        } else {
            rest
        }
    }
}

/// The devices after the run.
pub open spec fn all_moved(entries: Seq<MapEntry>, devices: Seq<Device>) -> Seq<Device> {
    Seq::new(devices.len(), |i: int| moved(entries, devices[i]))
}

proof fn lemma_nothing_to_replace(entries: Seq<MapEntry>, devices: Seq<Device>, k: nat)
    requires
        k <= devices.len(),
    ensures
        replacements(entries, all_moved(entries, devices), k).len() == 0,
    decreases k,
{
    let once = all_moved(entries, devices);
    if k > 0 {
        lemma_nothing_to_replace(entries, devices, (k - 1) as nat);
        assert(moved(entries, once[k - 1]) == once[k - 1]);
    }
}

/// A second run over the devices that a first run left finds nothing to
/// replace and leaves them as they are.
pub proof fn lemma_second_run_changes_nothing(entries: Seq<MapEntry>, devices: Seq<Device>)
    ensures
        ({
            let once = all_moved(entries, devices);
            &&& replacements(entries, once, once.len()).len() == 0
            &&& all_moved(entries, once) == once
        }),
{
    let once = all_moved(entries, devices);
    lemma_nothing_to_replace(entries, devices, devices.len());
    assert forall|i: int| 0 <= i < once.len() implies moved(entries, #[trigger] once[i])
        == once[i] by {}
    assert(all_moved(entries, once) =~= once);
}

proof fn lemma_unchanged_bound(entries: Seq<MapEntry>, devices: Seq<Device>, k: nat)
    ensures
        unchanged(entries, devices, k) <= k,
    decreases k,
{
    if k > 0 {
        lemma_unchanged_bound(entries, devices, (k - 1) as nat);
    }
}

/// Works out what a new mapping means for the recorded devices.
pub struct Action;

impl Action {
    /// The public address of a device of `private_net` once that network is
    /// reached under `public_net`.
    pub fn calculate_target_ip(device_address: u128, private_net: &Network, public_net: &Network) -> (r:
        u128)
        requires
            private_net.wf(),
            public_net.wf(),
            private_net.len == public_net.len,
        ensures
            r == target_ip(device_address, MapEntry { public: *public_net, private: *private_net }),
    {
        let host = private_net.host_bits(device_address);
        proof {
            public_net.lemma_block_bounds();
            lemma_pow2_values();
        }
        public_net.network_addr() + host
    }

    /// The first entry of the mapping that serves the address.
    pub fn find_entry(mapping: &Mapping, address: u128) -> (r: Option<MapEntry>)
        ensures
            r == serving_entry(mapping@, address, 0),
            r is Some ==> r.unwrap().public.wf() && r.unwrap().private.wf() && r.unwrap().public.len
                == r.unwrap().private.len,
    {
        let n = mapping.len();
        let mut i: usize = 0;
        while i < n
            invariant
                mapping.wf(),
                n == mapping@.len(),
                i <= n,
                serving_entry(mapping@, address, 0) == serving_entry(mapping@, address, i as int),
            decreases n - i,
        {
            let entry = mapping.entry(i);
            if entry.private.len == entry.public.len && entry.private.contains_address(address) {
                return Some(entry);
            }
            i = i + 1;
        }
        None
    }

    /// Gives every served device its public address under the mapping, and
    /// lists the addresses that changed, in the order of the devices. A
    /// device that no entry serves stays as it is and is not counted.
    pub fn run(mapping: &Mapping, devices: &mut Vec<Device>) -> (r: Changes)
        ensures
            final(devices)@ == all_moved(mapping@, old(devices)@),
            r.changed@ == replacements(mapping@, old(devices)@, old(devices)@.len()),
            r.skipped == unchanged(mapping@, old(devices)@, old(devices)@.len()),
    {
        let n = devices.len();
        let mut changed: Vec<Replacement> = Vec::new();
        let mut skipped: usize = 0;
        let mut i: usize = 0;
        while i < n
            invariant
                n == old(devices)@.len(),
                devices@.len() == n,
                i <= n,
                forall|k: int| 0 <= k < i ==> devices@[k] == moved(mapping@, old(devices)@[k]),
                forall|k: int| i <= k < n ==> devices@[k] == old(devices)@[k],
                changed@ == replacements(mapping@, old(devices)@, i as nat),
                skipped == unchanged(mapping@, old(devices)@, i as nat),
            decreases n - i,
        {
            let device = devices[i];
            proof {
                lemma_unchanged_bound(mapping@, old(devices)@, i as nat);
            }
            match Self::find_entry(mapping, device.address) {
                Some(entry) => {
                    let new = Self::calculate_target_ip(
                        device.address,
                        &entry.private,
                        &entry.public,
                    );
                    if device.mapped != new {
                        changed.push(Replacement { current: device.mapped, new });
                        devices.set(i, Device { address: device.address, mapped: new });
                    } else {
                        skipped = skipped + 1;
                    }
                },
                None => {},
            }
            i = i + 1;
        }
        assert(devices@ =~= all_moved(mapping@, old(devices)@));
        Changes { changed, skipped }
    }
}

} // verus!
