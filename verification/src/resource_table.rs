//! The resources of one peer, found by id and by address.

use vstd::prelude::*;
use crate::net::IpAddr;
use crate::resource::ResourceDescription;

verus! {

/// A resource and the time at which access to it ends, in seconds since the
/// Unix epoch.
#[derive(Debug)]
pub struct ExpiringResource {
    pub resource: ResourceDescription,
    pub expires_at: i64,
}

impl ExpiringResource {
    /// A copy of the entry.
    pub fn duplicate(&self) -> (copy: ExpiringResource)
        ensures
            copy == *self,
    {
        ExpiringResource { resource: self.resource.duplicate(), expires_at: self.expires_at }
    }
}

/// The resources of one peer, in the order in which they were added.
pub struct ResourceTable {
    entries: Vec<ExpiringResource>,
}

impl View for ResourceTable {
    type V = Seq<ExpiringResource>;

    closed spec fn view(&self) -> Seq<ExpiringResource> {
        self.entries@
    }
}

/// No two of `entries` have the same id.
pub open spec fn ids_are_unique(entries: Seq<ExpiringResource>) -> bool {
    forall|i: int, j: int|
        0 <= i < j < entries.len() ==> (#[trigger] entries[i]).resource.spec_id() != (
        #[trigger] entries[j]).resource.spec_id()
}

/// Where the resource with the id `id` stands among `entries`, if it is
/// among them.
pub open spec fn spec_position(entries: Seq<ExpiringResource>, id: u128) -> Option<int> {
    if exists|i: int| 0 <= i < entries.len() && (#[trigger] entries[i]).resource.spec_id() == id {
        Some(choose|i: int| 0 <= i < entries.len() && (#[trigger] entries[i]).resource.spec_id() == id)
    } else {
        None
    }
}

/// The entry with the id `id`, if there is one.
pub open spec fn spec_get_by_id(entries: Seq<ExpiringResource>, id: u128) -> Option<ExpiringResource> {
    match spec_position(entries, id) {
        Some(i) => Some(entries[i]),
        None => None,
    }
}

/// `entries` without the entry with the id `id`.
pub open spec fn spec_remove(entries: Seq<ExpiringResource>, id: u128) -> Seq<ExpiringResource> {
    match spec_position(entries, id) {
        Some(i) => entries.remove(i),
        None => entries,
    }
}

/// `entries` with `entry` added at the end, in the place of any entry with
/// the same id.
pub open spec fn spec_insert(entries: Seq<ExpiringResource>, entry: ExpiringResource) -> Seq<ExpiringResource> {
    spec_remove(entries, entry.resource.spec_id()).push(entry)
}

/// Whether the entry at `i` is the one that answers for `ip`: it claims
/// `ip`, no entry claims more bits of it, and of those that claim as many
/// it was added last.
pub open spec fn is_best_match(entries: Seq<ExpiringResource>, ip: IpAddr, i: int) -> bool {
    &&& 0 <= i < entries.len()
    &&& entries[i].resource.spec_claims(ip) is Some
    &&& forall|j: int|
        0 <= j < entries.len() && (#[trigger] entries[j]).resource.spec_claims(ip) is Some ==> {
            ||| entries[j].resource.spec_claims(ip).unwrap() < entries[i].resource.spec_claims(ip).unwrap()
            ||| entries[j].resource.spec_claims(ip).unwrap() == entries[i].resource.spec_claims(ip).unwrap() && j
                <= i
        }
}

/// The entry that answers for `ip`, if any entry claims it.
pub open spec fn spec_get_by_ip(entries: Seq<ExpiringResource>, ip: IpAddr) -> Option<ExpiringResource> {
    if exists|i: int| is_best_match(entries, ip, i) {
        Some(entries[choose|i: int| is_best_match(entries, ip, i)])
    } else {
        None
    }
}

/// Of the first `upto` of `entries`, those to which access has not ended at
/// `now`.
pub open spec fn spec_unexpired(entries: Seq<ExpiringResource>, now: i64, upto: int) -> Seq<ExpiringResource>
    decreases upto,
{
    if upto <= 0 {
        Seq::empty()
    } else if entries[upto - 1].expires_at <= now {
        spec_unexpired(entries, now, upto - 1)
    } else {
        spec_unexpired(entries, now, upto - 1).push(entries[upto - 1])
    }
}

/// The ids of those of the first `upto` of `entries` to which access has
/// ended at `now`.
pub open spec fn spec_expired_ids(entries: Seq<ExpiringResource>, now: i64, upto: int) -> Seq<u128>
    decreases upto,
{
    if upto <= 0 {
        Seq::empty()
    } else if entries[upto - 1].expires_at <= now {
        spec_expired_ids(entries, now, upto - 1).push(entries[upto - 1].resource.spec_id())
    } else {
        spec_expired_ids(entries, now, upto - 1)
    }
}

proof fn lemma_position_is_unique(entries: Seq<ExpiringResource>, id: u128, i: int)
    requires
        ids_are_unique(entries),
        0 <= i < entries.len(),
        entries[i].resource.spec_id() == id,
    ensures
        spec_position(entries, id) == Some(i),
{
    let c = choose|c: int| 0 <= c < entries.len() && (#[trigger] entries[c]).resource.spec_id() == id;
    if c < i {
        assert(entries[c].resource.spec_id() != entries[i].resource.spec_id());
    } else if i < c {
        assert(entries[i].resource.spec_id() != entries[c].resource.spec_id());
    }
}

proof fn lemma_best_match_is_unique(entries: Seq<ExpiringResource>, ip: IpAddr, i: int)
    requires
        is_best_match(entries, ip, i),
    ensures
        spec_get_by_ip(entries, ip) == Some(entries[i]),
{
    let c = choose|c: int| is_best_match(entries, ip, c);
    assert(is_best_match(entries, ip, c));
    assert(entries[i].resource.spec_claims(ip) is Some);
    assert(entries[c].resource.spec_claims(ip) is Some);
}

proof fn lemma_unexpired_ids_are_unique(entries: Seq<ExpiringResource>, now: i64, upto: int)
    requires
        ids_are_unique(entries),
        0 <= upto <= entries.len(),
    ensures
        ids_are_unique(spec_unexpired(entries, now, upto)),
        forall|k: int|
            0 <= k < spec_unexpired(entries, now, upto).len() ==> exists|j: int|
                0 <= j < upto && entries[j] == #[trigger] spec_unexpired(entries, now, upto)[k],
    decreases upto,
{
    if upto > 0 {
        lemma_unexpired_ids_are_unique(entries, now, upto - 1);
        let before = spec_unexpired(entries, now, upto - 1);
        let after = spec_unexpired(entries, now, upto);
        if entries[upto - 1].expires_at > now {
            assert forall|k: int| 0 <= k < after.len() implies exists|j: int|
                0 <= j < upto && entries[j] == #[trigger] after[k] by {
                if k < before.len() {
                    let j = choose|j: int| 0 <= j < upto - 1 && entries[j] == before[k];
                    assert(entries[j] == after[k]);
                } else {
                    assert(entries[upto - 1] == after[k]);
                }
            }
            assert forall|a: int, b: int| 0 <= a < b < after.len() implies (#[trigger] after[a]).resource.spec_id() != (
            #[trigger] after[b]).resource.spec_id() by {
                if b < before.len() {
                    assert(before[a].resource.spec_id() != before[b].resource.spec_id());
                } else {
                    let j = choose|j: int| 0 <= j < upto - 1 && entries[j] == before[a];
                    assert(entries[j].resource.spec_id() != entries[upto - 1].resource.spec_id());
                }
            }
        } else {
            assert forall|k: int| 0 <= k < after.len() implies exists|j: int|
                0 <= j < upto && entries[j] == #[trigger] after[k] by {
                let j = choose|j: int| 0 <= j < upto - 1 && entries[j] == before[k];
                assert(entries[j] == after[k]);
            }
        }
    }
}

impl ResourceTable {
    /// No two resources of the table have the same id.
    pub closed spec fn wf(&self) -> bool {
        ids_are_unique(self.entries@)
    }

    /// A well-formed table holds each id once.
    pub proof fn lemma_wf(&self)
        requires
            self.wf(),
        ensures
            ids_are_unique(self@),
    {
    }

    /// An empty table.
    pub fn new() -> (table: Self)
        ensures
            table.wf(),
            table@ == Seq::<ExpiringResource>::empty(),
    {
        ResourceTable { entries: Vec::new() }
    }

    /// Whether the table holds no resource.
    pub fn is_empty(&self) -> (empty: bool)
        ensures
            empty == (self@.len() == 0),
    {
        self.entries.len() == 0
    }

    /// How many resources the table holds.
    pub fn len(&self) -> (len: usize)
        ensures
            len == self@.len(),
    {
        self.entries.len()
    }

    /// The resource at `index`, counted in the order in which they were
    /// added.
    pub fn get(&self, index: usize) -> (entry: Option<&ExpiringResource>)
        ensures
            match entry {
                Some(e) => index < self@.len() && *e == self@[index as int],
                None => index >= self@.len(),
            },
    {
        if index < self.entries.len() {
            Some(&self.entries[index])
        } else {
            None
        }
    }

    fn position(&self, id: u128) -> (index: Option<usize>)
        requires
            self.wf(),
        ensures
            match index {
                Some(i) => spec_position(self@, id) == Some(i as int) && i < self@.len(),
                None => spec_position(self@, id) is None,
            },
    {
        let mut i: usize = 0;
        while i < self.entries.len()
            invariant
                i <= self.entries.len(),
                self.wf(),
                forall|j: int| 0 <= j < i ==> (#[trigger] self.entries@[j]).resource.spec_id() != id,
            decreases self.entries.len() - i,
        {
            if self.entries[i].resource.id() == id {
                proof {
                    lemma_position_is_unique(self.entries@, id, i as int);
                }
                return Some(i);
            }
            i += 1;
        }
        None
    }

    /// The resource with the id `id`.
    pub fn get_by_id(&self, id: u128) -> (entry: Option<&ExpiringResource>)
        requires
            self.wf(),
        ensures
            match entry {
                Some(e) => spec_get_by_id(self@, id) == Some(*e),
                None => spec_get_by_id(self@, id) is None,
            },
    {
        match self.position(id) {
            Some(i) => Some(&self.entries[i]),
            None => None,
        }
    }

    /// The resource that answers for `ip`: of the resources that claim the
    /// address, the one that claims the most bits of it.
    pub fn get_by_ip(&self, ip: IpAddr) -> (entry: Option<&ExpiringResource>)
        ensures
            match entry {
                Some(e) => spec_get_by_ip(self@, ip) == Some(*e),
                None => spec_get_by_ip(self@, ip) is None,
            },
    {
        let mut best: Option<usize> = None;
        let mut best_bits: u8 = 0;
        let mut i: usize = 0;
        while i < self.entries.len()
            invariant
                i <= self.entries.len(),
                match best {
                    Some(b) => {
                        &&& b < i
                        &&& self.entries@[b as int].resource.spec_claims(ip) == Some(best_bits)
                        &&& forall|j: int|
                            0 <= j < i && (#[trigger] self.entries@[j]).resource.spec_claims(ip) is Some ==> {
                                ||| self.entries@[j].resource.spec_claims(ip).unwrap() < best_bits
                                ||| self.entries@[j].resource.spec_claims(ip).unwrap() == best_bits && j <= b
                            }
                    },
                    None => forall|j: int| 0 <= j < i ==> (#[trigger] self.entries@[j]).resource.spec_claims(ip) is None,
                },
            decreases self.entries.len() - i,
        {
            match self.entries[i].resource.claims(ip) {
                Some(bits) => {
                    if best.is_none() || bits >= best_bits {
                        best = Some(i);
                        best_bits = bits;
                    }
                },
                None => {},
            }
            i += 1;
        }
        match best {
            Some(b) => {
                proof {
                    assert(is_best_match(self@, ip, b as int));
                    lemma_best_match_is_unique(self@, ip, b as int);
                }
                Some(&self.entries[b])
            },
            None => {
                assert forall|k: int| !is_best_match(self@, ip, k) by {
                    if 0 <= k < self@.len() {
                        assert(self.entries@[k].resource.spec_claims(ip) is None);
                    }
                }
                None
            },
        }
    }

    /// Takes the resource with the id `id` out of the table, and returns
    /// whether it was there.
    pub fn cleanup_resource(&mut self, id: u128) -> (removed: bool)
        requires
            old(self).wf(),
        ensures
            final(self).wf(),
            final(self)@ == spec_remove(old(self)@, id),
            removed == spec_position(old(self)@, id) is Some,
    {
        match self.position(id) {
            Some(i) => {
                let _ = self.entries.remove(i);
                assert forall|a: int, b: int| 0 <= a < b < self.entries@.len() implies (
                #[trigger] self.entries@[a]).resource.spec_id() != (#[trigger] self.entries@[b]).resource.spec_id() by {
                    let a0 = if a < i { a } else { a + 1 };
                    let b0 = if b < i { b } else { b + 1 };
                    assert(old(self).entries@[a0].resource.spec_id() != old(self).entries@[b0].resource.spec_id());
                }
                true
            },
            None => false,
        }
    }

    /// Adds `resource`, with access until `expires_at`; it takes the place
    /// of a resource with the same id.
    pub fn insert(&mut self, resource: ResourceDescription, expires_at: i64)
        requires
            old(self).wf(),
        ensures
            final(self).wf(),
            final(self)@ == spec_insert(old(self)@, ExpiringResource { resource, expires_at }),
    {
        let id = resource.id();
        let _ = self.cleanup_resource(id);
        let ghost middle = self.entries@;
        assert forall|j: int| 0 <= j < middle.len() implies (#[trigger] middle[j]).resource.spec_id() != id by {
            match spec_position(old(self)@, id) {
                Some(i) => {
                    let j0 = if j < i { j } else { j + 1 };
                    assert(old(self).entries@[j0] == middle[j]);
                    if j0 < i {
                        assert(old(self).entries@[j0].resource.spec_id() != old(self).entries@[i].resource.spec_id());
                    } else {
                        assert(old(self).entries@[i].resource.spec_id() != old(self).entries@[j0].resource.spec_id());
                    }
                },
                None => {},
            }
        }
        self.entries.push(ExpiringResource { resource, expires_at });
        assert forall|a: int, b: int| 0 <= a < b < self.entries@.len() implies (#[trigger] self.entries@[a]).resource.spec_id()
            != (#[trigger] self.entries@[b]).resource.spec_id() by {
            if b < middle.len() {
                assert(middle[a].resource.spec_id() != middle[b].resource.spec_id());
            } else {
                assert(middle[a].resource.spec_id() != id);
            }
        }
    }

    /// Takes out every resource to which access has ended at `now`, and
    /// returns their ids, in the order in which the resources were added.
    pub fn expire_before(&mut self, now: i64) -> (expired: Vec<u128>)
        requires
            old(self).wf(),
        ensures
            final(self).wf(),
            final(self)@ == spec_unexpired(old(self)@, now, old(self)@.len() as int),
            expired@ == spec_expired_ids(old(self)@, now, old(self)@.len() as int),
    {
        let mut expired: Vec<u128> = Vec::new();
        let ghost all = self.entries@;
        let mut kept: usize = 0;
        let ghost mut seen: int = 0;
        while kept < self.entries.len()
            invariant
                all == old(self).entries@,
                0 <= seen <= all.len(),
                kept <= self.entries@.len(),
                self.entries@.len() - kept == all.len() - seen,
                self.entries@.subrange(0, kept as int) == spec_unexpired(all, now, seen),
                forall|j: int| kept <= j < self.entries@.len() ==> #[trigger] self.entries@[j] == all[j - kept + seen],
                expired@ == spec_expired_ids(all, now, seen),
            decreases self.entries@.len() - kept,
        {
            let ghost before = self.entries@;
            assert(before[kept as int] == all[seen]);
            if self.entries[kept].expires_at <= now {
                expired.push(self.entries[kept].resource.id());
                let _ = self.entries.remove(kept);
                proof {
                    assert(self.entries@.subrange(0, kept as int) =~= before.subrange(0, kept as int));
                    assert forall|j: int| kept <= j < self.entries@.len() implies #[trigger] self.entries@[j] == all[j
                        - kept + seen + 1] by {
                        assert(self.entries@[j] == before[j + 1]);
                    }
                    seen = seen + 1;
                }
            } else {
                proof {
                    assert(self.entries@.subrange(0, kept + 1) =~= before.subrange(0, kept as int).push(
                        before[kept as int],
                    ));
                    seen = seen + 1;
                }
                kept += 1;
            }
        }
        proof {
            assert(seen == all.len());
            assert(self.entries@ =~= self.entries@.subrange(0, kept as int));
            lemma_unexpired_ids_are_unique(all, now, all.len() as int);
        }
        expired
    }
}

} // verus!
