//! Part slots: where the blocks are kept until they are merged.
//!
//! The slot of block `i` is named by the artifact's path followed by the
//! decimal text of `i`, so a slot's name alone tells which block it holds.

use vstd::prelude::*;
use crate::decimal::{
    decimal_text, decimal_value, is_canonical, lemma_canonical_text, lemma_decimal_text,
    lemma_decimal_text_injective, parse_digits,
};
use crate::text::chars_of;

verus! {

/// Name of the slot that holds block `index` of the artifact at `prefix`.
pub open spec fn part_name(prefix: Seq<char>, index: nat) -> Seq<char> {
    prefix + decimal_text(index)
}

/// One of the first `n` entries names the slot of block `index`.
pub open spec fn listed_within(entries: Seq<String>, prefix: Seq<char>, index: u64, n: int) -> bool {
    exists|k: int| 0 <= k < n && k < entries.len() && (#[trigger] entries[k])@ == part_name(prefix, index as nat)
}

/// One of the entries names the slot of block `index`.
pub open spec fn listed(entries: Seq<String>, prefix: Seq<char>, index: u64) -> bool {
    listed_within(entries, prefix, index, entries.len() as int)
}

/// Each number is smaller than the ones after it.
pub open spec fn strictly_increasing(s: Seq<u64>) -> bool {
    forall|i: int, j: int| 0 <= i < j < s.len() ==> s[i] < s[j]
}

/// Two blocks with the same slot name are the same block.
pub proof fn lemma_part_name_injective(prefix: Seq<char>, a: nat, b: nat)
    requires
        part_name(prefix, a) == part_name(prefix, b),
    ensures
        a == b,
{
    let n = prefix.len() as int;
    assert(part_name(prefix, a).skip(n) =~= decimal_text(a));
    assert(part_name(prefix, b).skip(n) =~= decimal_text(b));
    lemma_decimal_text_injective(a, b);
}

/// Tells which block's slot `entry` names, for the artifact at `prefix`.
///
/// The entry names a slot when it is `prefix` followed by the shortest
/// decimal text of an index that fits 64 bits; no other entry does.
pub fn part_index_chars(entry: &Vec<char>, prefix: &Vec<char>) -> (index: Option<u64>)
    ensures
        match index {
            Some(i) => entry@ == part_name(prefix@, i as nat),
            None => forall|i: u64| entry@ != #[trigger] part_name(prefix@, i as nat),
        },
{
    let n = prefix.len();
    let ghost tail = entry@.skip(n as int);
    proof {
        assert forall|i: u64| entry@ == #[trigger] part_name(prefix@, i as nat) implies {
            &&& entry@.len() > n
            &&& entry@.take(n as int) == prefix@
            &&& is_canonical(tail)
            &&& decimal_value(tail) == i
        } by {
            lemma_decimal_text(i as nat);
            assert(tail =~= decimal_text(i as nat));
            assert(entry@.take(n as int) =~= prefix@);
        }
    }
    if entry.len() <= n {
        return None;
    }
    let mut k: usize = 0;
    while k < n
        invariant
            k <= n,
            n == prefix.len(),
            n < entry.len(),
            entry@.take(k as int) == prefix@.take(k as int),
            forall|i: u64| entry@ == #[trigger] part_name(prefix@, i as nat) ==> entry@.take(n as int) == prefix@,
        decreases n - k,
    {
        if entry[k] != prefix[k] {
            proof {
                if entry@.take(n as int) == prefix@ {
                    assert(entry@.take(n as int)[k as int] == prefix@[k as int]);
                }
            }
            return None;
        }
        proof {
            assert(entry@.take(k + 1) =~= entry@.take(k as int).push(entry@[k as int]));
            assert(prefix@.take(k + 1) =~= prefix@.take(k as int).push(prefix@[k as int]));
        }
        k += 1;
    }
    proof {
        assert(prefix@.take(n as int) =~= prefix@);
        assert(tail.len() == entry@.len() - n);
        assert(tail[0] == entry@[n as int]);
    }
    if entry.len() - n > 1 && entry[n] == '0' {
        return None;
    }
    match parse_digits(entry, n) {
        Some(i) => {
            proof {
                lemma_canonical_text(tail);
                assert(entry@ =~= entry@.take(n as int) + tail);
            }
            Some(i)
        },
        None => None,
    }
}

/// Tells which block's slot `entry` names, for the artifact at `prefix`.
pub fn part_index(entry: &str, prefix: &str) -> (index: Option<u64>)
    ensures
        match index {
            Some(i) => entry@ == part_name(prefix@, i as nat),
            None => forall|i: u64| entry@ != #[trigger] part_name(prefix@, i as nat),
        },
{
    let entry_chars = chars_of(entry);
    let prefix_chars = chars_of(prefix);
    part_index_chars(&entry_chars, &prefix_chars)
}

/// Puts `index` into the increasing list `indices`, unless it is there.
fn insert_index(indices: &mut Vec<u64>, index: u64)
    requires
        strictly_increasing(old(indices)@),
    ensures
        strictly_increasing(final(indices)@),
        forall|x: u64|
            final(indices)@.contains(x) <==> old(indices)@.contains(x) || x == index,
{
    let mut pos: usize = indices.len();
    while pos > 0 && indices[pos - 1] > index
        invariant
            pos <= indices.len(),
            indices@ == old(indices)@,
            forall|k: int| pos <= k < indices.len() ==> indices@[k] > index,
        decreases pos,
    {
        pos -= 1;
    }
    if pos > 0 && indices[pos - 1] == index {
        assert(indices@.contains(index));
        return ;
    }
    let ghost before = indices@;
    indices.insert(pos, index);
    proof {
        let after = indices@;
        assert(after == before.insert(pos as int, index));
        assert forall|i: int, j: int| 0 <= i < j < after.len() implies after[i] < after[j] by {
            if i < pos {
                assert(after[i] == before[i]);
                if pos > 0 {
                    assert(before[i] <= before[pos - 1]);
                }
            }
            if j > pos {
                assert(after[j] == before[j - 1]);
            }
        }
        assert forall|x: u64| after.contains(x) <==> before.contains(x) || x == index by {
            if before.contains(x) {
                let k = choose|k: int| 0 <= k < before.len() && before[k] == x;
                if k < pos {
                    assert(after[k] == x);
                } else {
                    assert(after[k + 1] == x);
                }
            }
            if x == index {
                assert(after[pos as int] == x);
            }
            if after.contains(x) {
                let k = choose|k: int| 0 <= k < after.len() && after[k] == x;
                if k < pos {
                    assert(before[k] == x);
                } else if k > pos {
                    assert(before[k - 1] == x);
                }
            }
        }
    }
}

/// Finds the part slots of the artifact at `prefix` among `entries` and
/// gives their block indices in ascending order, each one once.
///
/// The order of `entries` plays no part: the result is the same for any
/// order in which a directory is listed.
pub fn part_indices(entries: &Vec<String>, prefix: &str) -> (indices: Vec<u64>)
    ensures
        strictly_increasing(indices@),
        forall|i: u64| indices@.contains(i) <==> listed(entries@, prefix@, i),
{
    let prefix_chars = chars_of(prefix);
    let mut indices: Vec<u64> = Vec::new();
    let mut n: usize = 0;
    while n < entries.len()
        invariant
            n <= entries.len(),
            prefix_chars@ == prefix@,
            strictly_increasing(indices@),
            forall|i: u64| indices@.contains(i) <==> listed_within(entries@, prefix@, i, n as int),
        decreases entries.len() - n,
    {
        let entry_chars = chars_of(entries[n].as_str());
        let ghost before = indices@;
        match part_index_chars(&entry_chars, &prefix_chars) {
            Some(found) => {
                insert_index(&mut indices, found);
                proof {
                    assert forall|i: u64| indices@.contains(i) <==> listed_within(
                        entries@,
                        prefix@,
                        i,
                        n + 1,
                    ) by {
                        if listed_within(entries@, prefix@, i, n + 1) && !listed_within(
                            entries@,
                            prefix@,
                            i,
                            n as int,
                        ) {
                            assert(entries@[n as int]@ == part_name(prefix@, i as nat));
                            lemma_part_name_injective(prefix@, i as nat, found as nat);
                        }
                        if i == found {
                            assert(entries@[n as int]@ == part_name(prefix@, i as nat));
                        }
                    }
                }
            },
            None => {
                proof {
                    assert forall|i: u64| indices@.contains(i) <==> listed_within(
                        entries@,
                        prefix@,
                        i,
                        n + 1,
                    ) by {
                        assert(entries@[n as int]@ != part_name(prefix@, i as nat));
                    }
                }
            },
        }
        n += 1;
    }
    indices
}

} // verus!
