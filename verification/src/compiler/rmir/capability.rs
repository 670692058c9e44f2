//! Linear capability tracking in SSA form: each capability is assigned once,
//! write capabilities have at most one holder per resource, and every
//! capability is released by the end of a function.

use vstd::prelude::*;
use std::collections::HashMap;
use vstd::std_specs::hash::spec_hash_map_iter;
use vstd::std_specs::iter::IteratorSpec;
use crate::text::{dec, debug_u32_list, text_num, push_u32_list};

verus! {

broadcast use vstd::std_specs::hash::group_hash_axioms;

/// A linear capability: permission to perform an action.
#[derive(Debug, Clone, Copy, PartialEq, Eq, Structural)]
pub enum Capability {
    Read,
    Write,
    Deallocate,
}

/// Tracks capability assignments (each assigned once) and which are live.
#[derive(Debug)]
pub struct CapabilitySSA {
    /// capability id -> (resource id, kind)
    assignments: HashMap<u32, (u32, Capability)>,
    /// capability id -> still live?
    live_capabilities: HashMap<u32, bool>,
}

/// The capabilities that grant writing to `resource`.
pub open spec fn write_holders(m: Map<u32, (u32, Capability)>, resource: u32) -> Set<u32> {
    Set::new(|c: u32| m.contains_key(c) && m[c] == (resource, Capability::Write))
}

/// The capabilities that are still live.
pub open spec fn live_ids(m: Map<u32, bool>) -> Set<u32> {
    Set::new(|c: u32| m.contains_key(c) && m[c])
}

impl CapabilitySSA {
    /// The assignments as a map.
    pub closed spec fn assignments_view(&self) -> Map<u32, (u32, Capability)> {
        self.assignments@
    }

    /// The liveness flags as a map.
    pub closed spec fn live_view(&self) -> Map<u32, bool> {
        self.live_capabilities@
    }

    /// An empty tracker.
    pub fn new() -> (c: Self)
        ensures
            c.assignments_view() == Map::<u32, (u32, Capability)>::empty(),
            c.live_view() == Map::<u32, bool>::empty(),
    {
        CapabilitySSA { assignments: HashMap::new(), live_capabilities: HashMap::new() }
    }

    /// Assigns a capability to a resource; a second assignment of the same
    /// capability id is an SSA violation.
    pub fn assign_capability(&mut self, capability_id: u32, resource_id: u32, kind: Capability) -> (r: Result<(), String>)
        ensures
            old(self).assignments_view().contains_key(capability_id) ==> (r matches Err(m)
                && m@ == "Capability "@ + dec(capability_id as nat) + " already assigned (SSA violation)"@
                && final(self).assignments_view() == old(self).assignments_view()
                && final(self).live_view() == old(self).live_view()),
            !old(self).assignments_view().contains_key(capability_id) ==> (r is Ok
                && final(self).assignments_view() == old(self).assignments_view().insert(capability_id, (resource_id, kind))
                && final(self).live_view() == old(self).live_view().insert(capability_id, true)),
    {
        if self.assignments.contains_key(&capability_id) {
            return Err(text_num("Capability ", capability_id as u64, " already assigned (SSA violation)"));
        }
        self.assignments.insert(capability_id, (resource_id, kind));
        self.live_capabilities.insert(capability_id, true);
        Ok(())
    }

    /// Marks a capability as released.
    pub fn release_capability(&mut self, capability_id: u32) -> (r: Result<(), String>)
        ensures
            final(self).assignments_view() == old(self).assignments_view(),
            !old(self).live_view().contains_key(capability_id) ==> (r matches Err(m)
                && m@ == "Capability "@ + dec(capability_id as nat) + " not found"@
                && final(self).live_view() == old(self).live_view()),
            old(self).live_view().contains_key(capability_id) ==> (r is Ok
                && final(self).live_view() == old(self).live_view().insert(capability_id, false)),
    {
        if !self.live_capabilities.contains_key(&capability_id) {
            return Err(text_num("Capability ", capability_id as u64, " not found"));
        }
        self.live_capabilities.insert(capability_id, false);
        Ok(())
    }

    /// Checks that at most one capability grants writing to `resource_id`.
    /// On failure the message lists the holders (in the map's own order).
    pub fn verify_write_linearity(&self, resource_id: u32) -> (r: Result<(), String>)
        ensures
            r is Ok <==> write_holders(self.assignments_view(), resource_id).len() <= 1,
            r matches Err(m) ==> exists|h: Seq<u32>| h.no_duplicates() && h.to_set() == write_holders(self.assignments_view(), resource_id)
                && #[trigger] m@ == "Multiple write capabilities for resource "@ + dec(resource_id as nat) + ": "@ + debug_u32_list(h),
    {
        let ghost m = self.assignments@;
        let ghost target = write_holders(m, resource_id);
        let ghost all = spec_hash_map_iter(&self.assignments).remaining();
        let ghost mut n: int = 0;
        let mut write_holders_v: Vec<u32> = Vec::new();
        for pair in it: self.assignments.iter()
            invariant
                m == self.assignments@,
                all == it.seq(),
                n == it.index(),
                it.seq().no_duplicates(),
                forall|i: int| #![trigger it.seq()[i]] 0 <= i < it.seq().len() ==> m.contains_key(*it.seq()[i].0) && m[*it.seq()[i].0] == *it.seq()[i].1,
                forall|k: u32| #[trigger] m.contains_key(k) ==> it.seq().contains((&k, &m[k])),
                write_holders_v@.no_duplicates(),
                forall|c: u32| #[trigger] write_holders_v@.contains(c) <==>
                    (exists|i: int| 0 <= i < it.index() && *it.seq()[i].0 == c && *it.seq()[i].1 == (resource_id, Capability::Write)),
        {
            let (cap_id, entry) = pair;
            let ghost idx = it.index();
            proof { n = n + 1; }
            let ghost old_v = write_holders_v@;
            if entry.0 == resource_id && entry.1 == Capability::Write {
                proof {
                    if write_holders_v@.contains(*cap_id) {
                        let i = choose|i: int| 0 <= i < idx && *it.seq()[i].0 == *cap_id && *it.seq()[i].1 == (resource_id, Capability::Write);
                        assert(it.seq()[i] == it.seq()[idx]);
                    }
                }
                write_holders_v.push(*cap_id);
            }
            proof {
                let is_w = entry.0 == resource_id && entry.1 == Capability::Write;
                assert(it.seq()[idx] == pair);
                assert forall|c: u32| #[trigger] write_holders_v@.contains(c) implies
                    (exists|i: int| 0 <= i <= idx && *it.seq()[i].0 == c && *it.seq()[i].1 == (resource_id, Capability::Write)) by {
                    if is_w && c == *cap_id {
                        assert(*it.seq()[idx].0 == c);
                    } else {
                        assert(old_v.contains(c));
                    }
                }
                assert forall|c: u32| (exists|i: int| 0 <= i <= idx && *it.seq()[i].0 == c && *it.seq()[i].1 == (resource_id, Capability::Write))
                    implies #[trigger] write_holders_v@.contains(c) by {
                    let i = choose|i: int| 0 <= i <= idx && *it.seq()[i].0 == c && *it.seq()[i].1 == (resource_id, Capability::Write);
                    if i == idx {
                        assert(*pair.1 == (resource_id, Capability::Write));
                        assert(is_w);
                        assert(write_holders_v@.last() == c);
                    } else {
                        assert(old_v.contains(c));
                        let j = choose|j: int| 0 <= j < old_v.len() && old_v[j] == c;
                        assert(write_holders_v@[j] == c);
                    }
                }
            }
        }
        proof {
            assert forall|c: u32| #[trigger] write_holders_v@.to_set().contains(c) <==> target.contains(c) by {
                if target.contains(c) {
                    assert(all.contains((&c, &m[c])));
                    let i = choose|i: int| 0 <= i < all.len() && all[i] == (&c, &m[c]);
                }
            }
            assert(write_holders_v@.to_set() =~= target);
            write_holders_v@.unique_seq_to_set();
        }
        if write_holders_v.len() > 1 {
            let mut msg = text_num("Multiple write capabilities for resource ", resource_id as u64, ": ");
            push_u32_list(&mut msg, &write_holders_v);
            return Err(msg);
        }
        Ok(())
    }

    /// Checks that every capability has been released; otherwise returns the
    /// ids still live (in the map's own order).
    pub fn verify_all_released(&self) -> (r: Result<(), Vec<u32>>)
        ensures
            r is Ok <==> live_ids(self.live_view()).is_empty(),
            r matches Err(v) ==> v@.no_duplicates() && v@.to_set() == live_ids(self.live_view()),
    {
        let ghost m = self.live_capabilities@;
        let ghost target = live_ids(m);
        let ghost all = spec_hash_map_iter(&self.live_capabilities).remaining();
        let ghost mut n: int = 0;
        let mut unreleased: Vec<u32> = Vec::new();
        for pair in it: self.live_capabilities.iter()
            invariant
                m == self.live_capabilities@,
                all == it.seq(),
                n == it.index(),
                it.seq().no_duplicates(),
                forall|i: int| #![trigger it.seq()[i]] 0 <= i < it.seq().len() ==> m.contains_key(*it.seq()[i].0) && m[*it.seq()[i].0] == *it.seq()[i].1,
                forall|k: u32| #[trigger] m.contains_key(k) ==> it.seq().contains((&k, &m[k])),
                unreleased@.no_duplicates(),
                forall|c: u32| #[trigger] unreleased@.contains(c) <==>
                    (exists|i: int| 0 <= i < it.index() && *it.seq()[i].0 == c && *it.seq()[i].1),
        {
            let (cap_id, live) = pair;
            let ghost idx = it.index();
            proof { n = n + 1; }
            let ghost old_v = unreleased@;
            if *live {
                proof {
                    if unreleased@.contains(*cap_id) {
                        let i = choose|i: int| 0 <= i < idx && *it.seq()[i].0 == *cap_id && *it.seq()[i].1;
                        assert(it.seq()[i] == it.seq()[idx]);
                    }
                }
                unreleased.push(*cap_id);
            }
            proof {
                assert(it.seq()[idx] == pair);
                assert forall|c: u32| #[trigger] unreleased@.contains(c) implies
                    (exists|i: int| 0 <= i <= idx && *it.seq()[i].0 == c && *it.seq()[i].1) by {
                    if *live && c == *cap_id {
                        assert(*it.seq()[idx].0 == c);
                    } else {
                        assert(old_v.contains(c));
                    }
                }
                assert forall|c: u32| (exists|i: int| 0 <= i <= idx && *it.seq()[i].0 == c && *it.seq()[i].1)
                    implies #[trigger] unreleased@.contains(c) by {
                    let i = choose|i: int| 0 <= i <= idx && *it.seq()[i].0 == c && *it.seq()[i].1;
                    if i == idx {
                        assert(unreleased@.last() == c);
                    } else {
                        assert(old_v.contains(c));
                        let j = choose|j: int| 0 <= j < old_v.len() && old_v[j] == c;
                        assert(unreleased@[j] == c);
                    }
                }
            }
        }
        proof {
            assert forall|c: u32| #[trigger] unreleased@.to_set().contains(c) <==> target.contains(c) by {
                if target.contains(c) {
                    assert(all.contains((&c, &m[c])));
                }
            }
            assert(unreleased@.to_set() =~= target);
            unreleased@.unique_seq_to_set();
        }
        if unreleased.len() == 0 {
            assert(target =~= Set::<u32>::empty());
            Ok(())
        } else {
            assert(target.contains(unreleased@[0]));
            Err(unreleased)
        }
    }

    /// The resource and kind of a capability, if assigned.
    pub fn get_capability(&self, capability_id: u32) -> (r: Option<(u32, Capability)>)
        ensures
            r == (if self.assignments_view().contains_key(capability_id) {
                Some(self.assignments_view()[capability_id])
            } else {
                None::<(u32, Capability)>
            }),
    {
        match self.assignments.get(&capability_id) {
            Some(e) => Some(*e),
            None => None,
        }
    }

    /// All assignments.
    pub fn all_assignments(&self) -> (m: &HashMap<u32, (u32, Capability)>)
        ensures
            m@ == self.assignments_view(),
    {
        &self.assignments
    }
}

} // verus!
