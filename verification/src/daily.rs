use crate::calendar::{Date, MAX_DAY, MIN_DAY};
use crate::usage::DailyUsage;
use std::collections::BTreeMap;
use vstd::prelude::*;
use vstd::std_specs::btree::{increasing_seq, spec_btree_map_iter};
use vstd::std_specs::iter::IteratorSpec;
use vstd::std_specs::cmp::OrdSpec;

verus! {

broadcast use vstd::std_specs::btree::group_btree_axioms, vstd::laws_cmp::group_laws_cmp;

/// Records the tokens of a day, keeping the larger count when the day is
/// already there.
pub fn record_day(dates: &mut BTreeMap<i32, u64>, day: i32, tokens: u64)
    ensures
        final(dates)@ == if old(dates)@.contains_key(day) && old(dates)@[day] >= tokens {
            old(dates)@
        } else {
            old(dates)@.insert(day, tokens)
        },
{
    let keep = match dates.get(&day) {
        Some(current) => *current >= tokens,
        None => false,
    };
    if !keep {
        dates.insert(day, tokens);
    }
}

/// Map entries listed in increasing key order have strictly increasing keys.
proof fn lemma_keys_increase(listed: Seq<(&i32, &u64)>)
    requires
        increasing_seq(listed.map_values(|kv: (&i32, &u64)| *kv.0)),
    ensures
        forall|i: int, j: int| 0 <= i < j < listed.len() ==> *listed[i].0 < *listed[j].0,
{
    let keys = listed.map_values(|kv: (&i32, &u64)| *kv.0);
    assert forall|i: int, j: int| 0 <= i < j < listed.len() implies *listed[i].0 < *listed[j].0 by {
        assert(keys[i] == *listed[i].0);
        assert(keys[j] == *listed[j].0);
        assert(keys[i].cmp_spec(&keys[j]) is Less);
    }
}

/// The entries of a map from day numbers (all of them dates) to token counts, in increasing
/// day order.
pub fn listing_of(dates: &BTreeMap<i32, u64>) -> (days: Vec<DailyUsage>)
    requires
        forall|k: i32| dates@.contains_key(k) ==> MIN_DAY <= k <= MAX_DAY,
    ensures
        forall|i: int, j: int|
            0 <= i < j < days@.len() ==> #[trigger] days@[i].date.day() < #[trigger] days@[j].date.day(),
        forall|i: int|
            0 <= i < days@.len() ==> dates@.contains_key(#[trigger] days@[i].date.day() as i32)
                && dates@[days@[i].date.day() as i32] == days@[i].tokens,
        forall|k: i32| #[trigger]
            dates@.contains_key(k) ==> exists|i: int| 0 <= i < days@.len() && #[trigger] days@[i].date.day() == k,
        forall|i: int| 0 <= i < days@.len() ==> MIN_DAY <= #[trigger] days@[i].date.day() <= MAX_DAY,
{
    let mut days: Vec<DailyUsage> = Vec::new();
    let entries = dates.iter();
    let ghost listed = entries.remaining();
    proof {
        lemma_keys_increase(listed);
    }
    assert(listed == spec_btree_map_iter(dates).remaining());
    assert(forall|j: int| 0 <= j < listed.len() ==> dates@.contains_key(*listed[j].0) && dates@[*listed[j].0] == *listed[j].1);
    for entry in it: entries
        invariant
            it.seq() == listed,
            forall|j: int| 0 <= j < listed.len() ==> dates@.contains_key(*listed[j].0) && dates@[*listed[j].0] == *listed[j].1,
            forall|k: i32| dates@.contains_key(k) ==> MIN_DAY <= k <= MAX_DAY,
            days@.len() == it.index(),
            forall|j: int|
                0 <= j < days@.len() ==> #[trigger] days@[j].date.day() == *listed[j].0 && days@[j].tokens
                    == *listed[j].1,
    {
        let (k, v) = entry;
        assert(*k == *listed[days@.len() as int].0);
        let date = Date::from_day_number(*k).unwrap();
        days.push(DailyUsage { date, tokens: *v });
    }
    assert(days@.len() == listed.len());
    assert forall|k: i32| #[trigger] dates@.contains_key(k) implies exists|i: int|
        0 <= i < days@.len() && #[trigger] days@[i].date.day() == k by {
        assert(listed.contains((&k, &dates@[k])));
        let i = choose|i: int| 0 <= i < listed.len() && listed[i] == (&k, &dates@[k]);
        assert(days@[i].date.day() == k);
    }
    days
}

} // verus!
