//! The keys of an ordered map, smallest first.

use std::collections::BTreeMap;
use vstd::prelude::*;
use vstd::std_specs::btree::{axiom_increasing_seq_meaning, increasing_seq};
use vstd::std_specs::cmp::OrdSpec;
use vstd::std_specs::iter::IteratorSpec;

verus! {

broadcast use {vstd::std_specs::btree::group_btree_axioms, vstd::laws_cmp::group_laws_cmp};

/// The channel numbers that `map` holds, smallest first.
pub fn channel_numbers<V>(map: &BTreeMap<u16, V>) -> (keys: Vec<u16>)
    ensures
        forall|i: int, j: int| 0 <= i < j < keys.len() ==> keys[i] < keys[j],
        forall|k: u16| #[trigger] map@.contains_key(k) <==> keys@.contains(k),
{
    let mut keys: Vec<u16> = Vec::new();
    let it = map.keys();
    let ghost all = it.remaining();
    for k in iter: it
        invariant
            iter.seq() == all,
            increasing_seq(all),
            all.unref().to_set() == map@.dom(),
            keys.len() == iter.index(),
            forall|i: int| 0 <= i < keys.len() ==> keys[i] == *all[i],
    {
        keys.push(*k);
    }
    proof {
        assert(keys@ =~= all.unref());
        assert forall|i: int, j: int| 0 <= i < j < keys.len() implies keys[i] < keys[j] by {
            axiom_increasing_seq_meaning::<&u16>(all);
            assert(OrdSpec::cmp_spec(&all[i], &all[j]) is Less);
        }
        assert forall|k: u16| map@.contains_key(k) <==> keys@.contains(k) by {
            assert(map@.dom().contains(k) <==> all.unref().to_set().contains(k));
        }
    }
    keys
}

/// The transaction ids that `map` holds, smallest first.
pub fn transaction_ids<V>(map: &BTreeMap<u128, V>) -> (keys: Vec<u128>)
    ensures
        forall|i: int, j: int| 0 <= i < j < keys.len() ==> keys[i] < keys[j],
        forall|k: u128| #[trigger] map@.contains_key(k) <==> keys@.contains(k),
{
    let mut keys: Vec<u128> = Vec::new();
    let it = map.keys();
    let ghost all = it.remaining();
    for k in iter: it
        invariant
            iter.seq() == all,
            increasing_seq(all),
            all.unref().to_set() == map@.dom(),
            keys.len() == iter.index(),
            forall|i: int| 0 <= i < keys.len() ==> keys[i] == *all[i],
    {
        keys.push(*k);
    }
    proof {
        assert(keys@ =~= all.unref());
        assert forall|i: int, j: int| 0 <= i < j < keys.len() implies keys[i] < keys[j] by {
            axiom_increasing_seq_meaning::<&u128>(all);
            assert(OrdSpec::cmp_spec(&all[i], &all[j]) is Less);
        }
        assert forall|k: u128| map@.contains_key(k) <==> keys@.contains(k) by {
            assert(map@.dom().contains(k) <==> all.unref().to_set().contains(k));
        }
    }
    keys
}

/// The IPv4 addresses that `map` holds, smallest first.
pub fn ipv4_keys<V>(map: &BTreeMap<u32, V>) -> (keys: Vec<u32>)
    ensures
        forall|i: int, j: int| 0 <= i < j < keys.len() ==> keys[i] < keys[j],
        forall|k: u32| #[trigger] map@.contains_key(k) <==> keys@.contains(k),
{
    let mut keys: Vec<u32> = Vec::new();
    let it = map.keys();
    let ghost all = it.remaining();
    for k in iter: it
        invariant
            iter.seq() == all,
            increasing_seq(all),
            all.unref().to_set() == map@.dom(),
            keys.len() == iter.index(),
            forall|i: int| 0 <= i < keys.len() ==> keys[i] == *all[i],
    {
        keys.push(*k);
    }
    proof {
        assert(keys@ =~= all.unref());
        assert forall|i: int, j: int| 0 <= i < j < keys.len() implies keys[i] < keys[j] by {
            axiom_increasing_seq_meaning::<&u32>(all);
            assert(OrdSpec::cmp_spec(&all[i], &all[j]) is Less);
        }
        assert forall|k: u32| map@.contains_key(k) <==> keys@.contains(k) by {
            assert(map@.dom().contains(k) <==> all.unref().to_set().contains(k));
        }
    }
    keys
}

/// The IPv6 addresses that `map` holds, smallest first.
pub fn ipv6_keys<V>(map: &BTreeMap<u128, V>) -> (keys: Vec<u128>)
    ensures
        forall|i: int, j: int| 0 <= i < j < keys.len() ==> keys[i] < keys[j],
        forall|k: u128| #[trigger] map@.contains_key(k) <==> keys@.contains(k),
{
    transaction_ids(map)
}

} // verus!
