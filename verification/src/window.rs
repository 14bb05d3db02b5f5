//! The window of recent block numbers that a cache of bounded size keeps.

use std::collections::BTreeMap;
use vstd::prelude::*;

verus! {

/// `number` is the lowest of `numbers`.
pub open spec fn is_earliest(numbers: Set<u64>, number: u64) -> bool {
    &&& numbers.contains(number)
    &&& forall|n: u64| #[trigger] numbers.contains(n) ==> number <= n
}

/// `number` is the highest of `numbers`.
pub open spec fn is_latest(numbers: Set<u64>, number: u64) -> bool {
    &&& numbers.contains(number)
    &&& forall|n: u64| #[trigger] numbers.contains(n) ==> n <= number
}

/// The lowest of `numbers`, zero for none.
pub open spec fn earliest(numbers: Set<u64>) -> u64 {
    if numbers =~= Set::empty() {
        0
    } else {
        choose|number: u64| is_earliest(numbers, number)
    }
}

/// The highest of `numbers`, zero for none.
pub open spec fn latest(numbers: Set<u64>) -> u64 {
    if numbers =~= Set::empty() {
        0
    } else {
        choose|number: u64| is_latest(numbers, number)
    }
}

/// Those of `numbers` that are not below `from`.
pub open spec fn from_on(numbers: Set<u64>, from: u64) -> Set<u64> {
    numbers.filter(|n: u64| n >= from)
}

/// Whether a cache that is limited to `max_blocks` keeps `number`: it is among the `max_blocks`
/// highest ones, and no more than `max_blocks` below the highest.
pub open spec fn keeps(numbers: Set<u64>, max_blocks: u64, number: u64) -> bool {
    &&& numbers.contains(number)
    &&& from_on(numbers, number).len() <= max_blocks
    &&& number + max_blocks >= latest(numbers)
}

/// Those of `numbers` that a cache that is limited to `max_blocks` keeps.
pub open spec fn kept(numbers: Set<u64>, max_blocks: u64) -> Set<u64> {
    Set::new(|n: u64| keeps(numbers, max_blocks, n))
}

/// A finite set that is not empty has a lowest and a highest number.
pub proof fn law_earliest_and_latest_exist(numbers: Set<u64>)
    requires
        numbers.finite(),
        numbers.len() > 0,
    ensures
        is_earliest(numbers, earliest(numbers)),
        is_latest(numbers, latest(numbers)),
    decreases numbers.len(),
{
    let number = numbers.choose();
    assert(numbers.contains(number));
    let rest = numbers.remove(number);
    if rest.len() == 0 {
        assert(forall|n: u64| numbers.contains(n) ==> n == number || rest.contains(n));
        assert(is_earliest(numbers, number));
        assert(is_latest(numbers, number));
    } else {
        law_earliest_and_latest_exist(rest);
        assert(forall|n: u64| numbers.contains(n) ==> n == number || rest.contains(n));
        let low = if number < earliest(rest) {
            number
        } else {
            earliest(rest)
        };
        let high = if number > latest(rest) {
            number
        } else {
            latest(rest)
        };
        assert(is_earliest(numbers, low));
        assert(is_latest(numbers, high));
    }
}

proof fn lemma_latest_is(numbers: Set<u64>, number: u64)
    requires
        is_latest(numbers, number),
    ensures
        latest(numbers) == number,
{
}

/// What is kept is part of what there was, is no more than allowed, and lies in a window below the
/// highest number, which itself is kept unless nothing may be.
pub proof fn law_kept_is_bounded(numbers: Set<u64>, max_blocks: u64)
    requires
        numbers.finite(),
    ensures
        kept(numbers, max_blocks).finite(),
        kept(numbers, max_blocks).subset_of(numbers),
        kept(numbers, max_blocks).len() <= max_blocks,
        latest(kept(numbers, max_blocks)) - earliest(kept(numbers, max_blocks)) <= max_blocks,
        max_blocks > 0 ==> latest(kept(numbers, max_blocks)) == latest(numbers),
        max_blocks > 0 && numbers.len() > 0 ==> is_latest(
            kept(numbers, max_blocks),
            latest(numbers),
        ),
        max_blocks == 0 ==> kept(numbers, max_blocks) == Set::<u64>::empty(),
{
    let part = kept(numbers, max_blocks);
    vstd::set_lib::lemma_len_subset(part, numbers);
    if numbers.len() > 0 {
        law_earliest_and_latest_exist(numbers);
        let top = latest(numbers);
        assert(from_on(numbers, top) =~= set![top]);
        if max_blocks > 0 {
            assert(part.contains(top));
            assert(is_latest(part, top));
        }
        assert forall|n: u64| #[trigger] numbers.contains(n) implies from_on(numbers, n).len()
            >= 1 by {
            vstd::set_lib::lemma_len_subset(set![n], numbers);
            assert(set![n].subset_of(from_on(numbers, n)));
            vstd::set_lib::lemma_len_subset(from_on(numbers, n), numbers);
            vstd::set_lib::lemma_len_subset(set![n], from_on(numbers, n));
        }
        if max_blocks == 0 {
            assert(part =~= Set::empty());
        }
    } else {
        assert(numbers =~= Set::empty());
        assert(part =~= Set::empty());
    }
    if part.len() > 0 {
        law_earliest_and_latest_exist(part);
        let low = earliest(part);
        assert(part.contains(low));
        assert(part.subset_of(from_on(numbers, low)));
        vstd::set_lib::lemma_len_subset(from_on(numbers, low), numbers);
        vstd::set_lib::lemma_len_subset(part, from_on(numbers, low));
        assert(part.contains(latest(part)));
        assert(numbers.contains(latest(part)));
    } else {
        assert(part =~= Set::empty());
    }
}

/// Numbers that are kept once are kept again: trimming twice is trimming once.
pub proof fn law_kept_is_stable(numbers: Set<u64>, max_blocks: u64)
    requires
        numbers.finite(),
    ensures
        kept(kept(numbers, max_blocks), max_blocks) == kept(numbers, max_blocks),
{
    let part = kept(numbers, max_blocks);
    law_kept_is_bounded(numbers, max_blocks);
    assert forall|n: u64| part.contains(n) implies keeps(part, max_blocks, n) by {
        assert(from_on(part, n).subset_of(from_on(numbers, n)));
        vstd::set_lib::lemma_len_subset(from_on(numbers, n), numbers);
        vstd::set_lib::lemma_len_subset(from_on(part, n), from_on(numbers, n));
        if max_blocks == 0 {
            assert(!part.contains(n));
        }
    }
    assert(kept(part, max_blocks) =~= part);
}

/// Those of `numbers` that are among the `max_blocks` highest ones.
spec fn top(numbers: Set<u64>, max_blocks: u64) -> Set<u64> {
    numbers.filter(|n: u64| from_on(numbers, n).len() <= max_blocks)
}

proof fn lemma_top_is_full(numbers: Set<u64>, max_blocks: u64)
    requires
        numbers.finite(),
        numbers.len() >= max_blocks,
    ensures
        top(numbers, max_blocks).finite(),
        top(numbers, max_blocks).len() == max_blocks,
    decreases numbers.len(),
{
    if numbers.len() == max_blocks {
        assert forall|n: u64| numbers.contains(n) implies from_on(numbers, n).len()
            <= max_blocks by {
            vstd::set_lib::lemma_len_subset(from_on(numbers, n), numbers);
        }
        assert(top(numbers, max_blocks) =~= numbers);
    } else {
        law_earliest_and_latest_exist(numbers);
        let low = earliest(numbers);
        let rest = numbers.remove(low);
        lemma_top_is_full(rest, max_blocks);
        assert(from_on(numbers, low) =~= numbers);
        assert forall|n: u64| numbers.contains(n) && n != low implies from_on(numbers, n)
            == from_on(rest, n) by {
            assert(low < n);
            assert(from_on(numbers, n) =~= from_on(rest, n));
        }
        assert(top(numbers, max_blocks) =~= top(rest, max_blocks));
    }
}

/// A number is dropped only where it has to be: it is below all that are kept, and either as many
/// as allowed are kept, or it is too far below the highest number.
pub proof fn law_only_surplus_is_dropped(numbers: Set<u64>, max_blocks: u64, dropped: u64)
    requires
        numbers.finite(),
        numbers.contains(dropped),
        !kept(numbers, max_blocks).contains(dropped),
    ensures
        forall|n: u64| #[trigger] kept(numbers, max_blocks).contains(n) ==> dropped < n,
        kept(numbers, max_blocks).len() == max_blocks || dropped + max_blocks < latest(numbers),
{
    let part = kept(numbers, max_blocks);
    vstd::set_lib::lemma_len_subset(from_on(numbers, dropped), numbers);
    assert forall|n: u64| n <= dropped implies from_on(numbers, n).len() >= from_on(
        numbers,
        dropped,
    ).len() by {
        assert(from_on(numbers, dropped).subset_of(from_on(numbers, n)));
        vstd::set_lib::lemma_len_subset(from_on(numbers, n), numbers);
        vstd::set_lib::lemma_len_subset(from_on(numbers, dropped), from_on(numbers, n));
    }
    assert forall|n: u64| #[trigger] part.contains(n) implies dropped < n by {
        if n <= dropped {
            assert(from_on(numbers, n).len() >= from_on(numbers, dropped).len());
        }
    }
    if dropped + max_blocks >= latest(numbers) {
        lemma_top_is_full(numbers, max_blocks);
        assert forall|n: u64| top(numbers, max_blocks).contains(n) implies part.contains(n) by {
            if n <= dropped {
                assert(from_on(numbers, n).len() >= from_on(numbers, dropped).len());
            }
        }
        assert(part =~= top(numbers, max_blocks));
    }
}

/// Trimming before more numbers come in does not change what is kept in the end.
pub proof fn law_kept_in_batches(numbers: Set<u64>, more: Set<u64>, max_blocks: u64)
    requires
        numbers.finite(),
        more.finite(),
    ensures
        kept(kept(numbers, max_blocks).union(more), max_blocks) == kept(
            numbers.union(more),
            max_blocks,
        ),
{
    let part = kept(numbers, max_blocks).union(more);
    let all = numbers.union(more);
    law_kept_is_bounded(numbers, max_blocks);
    law_kept_is_bounded(part, max_blocks);
    law_kept_is_bounded(all, max_blocks);
    if max_blocks > 0 && all.len() > 0 {
        law_earliest_and_latest_exist(all);
        if numbers.len() > 0 {
            law_earliest_and_latest_exist(numbers);
            assert(part.contains(latest(numbers)));
        } else {
            assert(numbers =~= Set::empty());
        }
        assert(all.contains(latest(all)));
        assert(part.contains(latest(all))) by {
            if !more.contains(latest(all)) {
                assert(numbers.contains(latest(all)));
                assert(all.contains(latest(numbers)));
            }
        }
        assert forall|n: u64| #[trigger] part.contains(n) implies n <= latest(all) by {
            assert(all.contains(n));
        }
        assert(is_latest(part, latest(all)));
        assert forall|n: u64| keeps(all, max_blocks, n) implies keeps(part, max_blocks, n) by {
            vstd::set_lib::lemma_len_subset(from_on(all, n), all);
            if numbers.contains(n) {
                assert(all.contains(latest(numbers)));
                assert(from_on(numbers, n).subset_of(from_on(all, n)));
                vstd::set_lib::lemma_len_subset(from_on(numbers, n), from_on(all, n));
            }
            assert(from_on(part, n).subset_of(from_on(all, n)));
            vstd::set_lib::lemma_len_subset(from_on(part, n), from_on(all, n));
        }
        assert forall|n: u64| keeps(part, max_blocks, n) implies keeps(all, max_blocks, n) by {
            assert forall|m: u64| from_on(all, n).contains(m) implies from_on(part, n).contains(
                m,
            ) by {
                if !part.contains(m) {
                    lemma_dropped_number(numbers, more, max_blocks, n, m);
                }
            }
            assert(from_on(all, n) =~= from_on(part, n));
        }
        assert(kept(part, max_blocks) =~= kept(all, max_blocks));
    } else if max_blocks > 0 {
        assert(all =~= Set::empty());
        assert forall|n: u64| !part.contains(n) by {
            assert(!all.contains(n));
        }
        assert(kept(part, max_blocks) =~= kept(all, max_blocks));
    }
}

/// A number that trimming dropped leaves no room for lower numbers later on.
proof fn lemma_dropped_number(
    numbers: Set<u64>,
    more: Set<u64>,
    max_blocks: u64,
    number: u64,
    dropped: u64,
)
    requires
        numbers.finite(),
        more.finite(),
        max_blocks > 0,
        numbers.contains(dropped),
        !keeps(numbers, max_blocks, dropped),
        number <= dropped,
        kept(numbers, max_blocks).union(more).contains(number),
        latest(kept(numbers, max_blocks).union(more)) >= latest(numbers),
    ensures
        !keeps(kept(numbers, max_blocks).union(more), max_blocks, number),
{
    let part = kept(numbers, max_blocks).union(more);
    law_kept_is_bounded(numbers, max_blocks);
    if dropped + max_blocks >= latest(numbers) {
        assert(from_on(numbers, dropped).len() > max_blocks);
        vstd::set_lib::lemma_len_subset(from_on(numbers, dropped), numbers);
        lemma_top_is_full(numbers, max_blocks);
        let highest = top(numbers, max_blocks);
        assert forall|n: u64| highest.contains(n) implies n > dropped && from_on(
            part,
            number,
        ).contains(n) by {
            if n <= dropped {
                assert(from_on(numbers, dropped).subset_of(from_on(numbers, n)));
                vstd::set_lib::lemma_len_subset(from_on(numbers, n), numbers);
                vstd::set_lib::lemma_len_subset(from_on(numbers, dropped), from_on(numbers, n));
            }
            assert(keeps(numbers, max_blocks, n));
        }
        let with_number = highest.insert(number);
        assert(!highest.contains(number));
        assert(with_number.len() == max_blocks + 1);
        assert(with_number.subset_of(from_on(part, number)));
        vstd::set_lib::lemma_len_subset(from_on(part, number), part);
        vstd::set_lib::lemma_len_subset(with_number, from_on(part, number));
    }
}

/// Of consecutive numbers exactly the `max_blocks` highest ones are kept.
pub proof fn law_kept_of_consecutive(numbers: Set<u64>, max_blocks: u64, low: u64, high: u64)
    requires
        low <= high,
        forall|n: u64| #[trigger] numbers.contains(n) <==> low <= n <= high,
    ensures
        forall|n: u64| #[trigger]
            kept(numbers, max_blocks).contains(n) <==> low <= n <= high && n + max_blocks > high,
{
    assert(is_latest(numbers, high));
    assert forall|n: u64| #[trigger] numbers.contains(n) implies from_on(numbers, n).len() == high
        - n + 1 by {
        let range = vstd::set_lib::set_int_range(n as int, high + 1);
        vstd::set_lib::lemma_int_range(n as int, high + 1);
        let back = |i: int| i as u64;
        assert(range.map(back) =~= from_on(numbers, n)) by {
            assert forall|m: u64| from_on(numbers, n).contains(m) implies range.map(back).contains(
                m,
            ) by {
                assert(range.contains(m as int) && back(m as int) == m);
            }
        }
        assert(vstd::relations::injective_on(back, range));
        vstd::set_lib::lemma_map_size(range, range.map(back), back);
    }
    assert forall|n: u64| #[trigger] kept(numbers, max_blocks).contains(n) <==> low <= n <= high
        && n + max_blocks > high by {
        assert(numbers.contains(n) <==> low <= n <= high);
    }
}

/// Removes and returns the entry with the lowest number.
///
/// Calls `BTreeMap::pop_first`. It is claimed to remove the entry with the lowest key and to
/// return it, or to leave an empty map as it is and return `None`.
#[verifier::external_body]
fn pop_first<V>(entries: &mut BTreeMap<u64, V>) -> (first: Option<(u64, V)>)
    ensures
        match first {
            Some((number, entry)) => {
                &&& is_earliest(old(entries)@.dom(), number)
                &&& entry == old(entries)@[number]
                &&& final(entries)@ == old(entries)@.remove(number)
            },
            None => {
                &&& old(entries)@.dom() == Set::<u64>::empty()
                &&& final(entries)@ == old(entries)@
            },
        },
{
    entries.pop_first()
}

/// Returns the lowest number that has an entry.
///
/// Calls `BTreeMap::first_key_value`. It is claimed to return the lowest key, or `None` for an
/// empty map.
#[verifier::external_body]
pub(crate) fn first_number<V>(entries: &BTreeMap<u64, V>) -> (first: Option<u64>)
    ensures
        match first {
            Some(number) => is_earliest(entries@.dom(), number),
            None => entries@.dom() == Set::<u64>::empty(),
        },
{
    entries.first_key_value().map(|(number, _)| *number)
}

/// Returns the highest number that has an entry.
///
/// Calls `BTreeMap::last_key_value`. It is claimed to return the highest key, or `None` for an
/// empty map.
#[verifier::external_body]
pub(crate) fn last_number<V>(entries: &BTreeMap<u64, V>) -> (last: Option<u64>)
    ensures
        match last {
            Some(number) => is_latest(entries@.dom(), number),
            None => entries@.dom() == Set::<u64>::empty(),
        },
{
    entries.last_key_value().map(|(number, _)| *number)
}

/// How the entries `now` came out of the entries `all` by removing the lowest ones.
spec fn is_upper_part<V>(now: Map<u64, V>, all: Map<u64, V>) -> bool {
    &&& forall|n: u64| #[trigger] now.contains_key(n) ==> all.contains_key(n) && now[n] == all[n]
    &&& forall|n: u64, m: u64|
        #![trigger all.contains_key(n), now.contains_key(m)]
        all.contains_key(n) && !now.contains_key(n) && now.contains_key(m) ==> n < m
}

proof fn lemma_upper_part<V>(now: Map<u64, V>, all: Map<u64, V>, number: u64)
    requires
        all.dom().finite(),
        now.dom().finite(),
        is_upper_part(now, all),
        now.contains_key(number),
    ensures
        from_on(all.dom(), number).subset_of(now.dom()),
        from_on(all.dom(), number).len() <= now.dom().len(),
        is_earliest(now.dom(), number) ==> from_on(all.dom(), number) == now.dom(),
{
    assert forall|n: u64| from_on(all.dom(), number).contains(n) implies now.dom().contains(n) by {
        assert(all.contains_key(n));
        assert(now.contains_key(number));
    }
    vstd::set_lib::lemma_len_subset(from_on(all.dom(), number), now.dom());
    if is_earliest(now.dom(), number) {
        assert forall|n: u64| now.dom().contains(n) implies from_on(all.dom(), number).contains(
            n,
        ) by {
            assert(now.contains_key(n));
        }
        assert(from_on(all.dom(), number) =~= now.dom());
    }
}

/// Removes the entries that a cache limited to `max_blocks` does not keep, oldest first.
pub(crate) fn trim<V>(entries: &mut BTreeMap<u64, V>, max_blocks: u64)
    ensures
        final(entries)@ == old(entries)@.restrict(kept(old(entries)@.dom(), max_blocks)),
{
    let ghost all = entries@;
    let ghost numbers = all.dom();

    // Enforce the size by popping the oldest entries.
    while entries.len() as u64 > max_blocks
        invariant
            numbers == all.dom(),
            numbers.finite(),
            is_upper_part(entries@, all),
            forall|n: u64| #[trigger]
                all.contains_key(n) && !entries@.contains_key(n) ==> from_on(numbers, n).len()
                    > max_blocks,
        decreases entries@.len(),
    {
        let ghost before = entries@;
        let first = pop_first(entries);
        proof {
            assert(before.dom().len() > 0);
            let (number, _) = first->0;
            assert(before.contains_key(number));
            lemma_upper_part(before, all, number);
        }
    }

    let upper_bound = match last_number(entries) {
        Some(number) => number,
        None => {
            proof {
                assert forall|n: u64| !keeps(numbers, max_blocks, n) by {
                    assert(!entries@.dom().contains(n));
                    assert(numbers.contains(n) ==> all.contains_key(n));
                }
                assert(entries@ =~= all.restrict(kept(numbers, max_blocks)));
            }
            return;
        },
    };
    proof {
        assert(entries@.contains_key(upper_bound));
        assert forall|n: u64| numbers.contains(n) implies n <= upper_bound by {
            if !entries@.contains_key(n) {
                assert(all.contains_key(n));
            } else {
                assert(entries@.dom().contains(n));
            }
        }
        assert(all.contains_key(upper_bound));
        lemma_latest_is(numbers, upper_bound);
    }
    let ghost sized = entries@;
    assert forall|n: u64| #[trigger] sized.contains_key(n) implies from_on(numbers, n).len()
        <= max_blocks by {
        lemma_upper_part(sized, all, n);
    }

    // Also enforce a proper lower bound in case there are gaps.
    let target_lower: u64 = upper_bound.saturating_sub(max_blocks);
    loop
        invariant
            numbers == all.dom(),
            numbers.finite(),
            latest(numbers) == upper_bound,
            is_upper_part(entries@, sized),
            entries@.contains_key(upper_bound),
            target_lower <= upper_bound,
            forall|n: u64| #[trigger]
                sized.contains_key(n) && !entries@.contains_key(n) ==> n < target_lower,
        ensures
            forall|n: u64| #[trigger] entries@.contains_key(n) ==> n >= target_lower,
        decreases entries@.len(),
    {
        let first = match first_number(entries) {
            Some(number) => number,
            None => {
                assert(entries@.dom().contains(upper_bound));
                break;
            },
        };
        if entries.len() <= 1 || first >= target_lower {
            proof {
                assert forall|n: u64| #[trigger] entries@.contains_key(n) implies n
                    >= target_lower by {
                    assert(entries@.dom().contains(n));
                    if entries@.dom().len() <= 1 && n != upper_bound {
                        let both = set![n, upper_bound];
                        assert(both.len() == 2);
                        assert(both.subset_of(entries@.dom()));
                        vstd::set_lib::lemma_len_subset(both, entries@.dom());
                    }
                }
            }
            break;
        }
        let ghost before = entries@;
        pop_first(entries);
        proof {
            assert(before.dom().contains(first));
            assert(before.dom().contains(upper_bound));
        }
    }
    proof {
        assert forall|n: u64| entries@.contains_key(n) <==> keeps(numbers, max_blocks, n) by {
            if entries@.contains_key(n) {
                assert(sized.contains_key(n));
                assert(all.contains_key(n));
                assert(n >= target_lower);
            } else if all.contains_key(n) {
                if sized.contains_key(n) {
                    assert(n < target_lower);
                }
            }
        }
        assert(entries@ =~= all.restrict(kept(numbers, max_blocks)));
    }
}

} // verus!
