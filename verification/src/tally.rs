//! Counting how often each label occurs, in order of first appearance.

use vstd::prelude::*;

verus! {

/// How often `label` occurs in `labels`.
pub open spec fn occurrences(labels: Seq<Seq<char>>, label: Seq<char>) -> nat
    decreases labels.len(),
{
    if labels.len() == 0 {
        0
    } else {
        occurrences(labels.drop_last(), label) + if labels.last() == label {
            1nat
        } else {
            0nat
        }
    }
}

/// The distinct labels, each at the place of its first occurrence.
pub open spec fn first_occurrences(labels: Seq<Seq<char>>) -> Seq<Seq<char>>
    decreases labels.len(),
{
    if labels.len() == 0 {
        Seq::empty()
    } else if labels.drop_last().contains(labels.last()) {
        first_occurrences(labels.drop_last())
    } else {
        first_occurrences(labels.drop_last()).push(labels.last())
    }
}

/// `tally` lists the distinct labels in order of first occurrence, each with
/// the number of times it occurs.
pub open spec fn is_tally(tally: Seq<(String, u64)>, labels: Seq<Seq<char>>) -> bool {
    &&& tally.len() == first_occurrences(labels).len()
    &&& forall|i: int|
        0 <= i < tally.len() ==> (#[trigger] tally[i]).0@ == first_occurrences(labels)[i]
            && tally[i].1 == occurrences(labels, first_occurrences(labels)[i])
}

/// The sum of the counts of a tally.
pub open spec fn tally_total(tally: Seq<(String, u64)>) -> int
    decreases tally.len(),
{
    if tally.len() == 0 {
        0
    } else {
        tally_total(tally.drop_last()) + tally.last().1
    }
}

/// A label occurs at most as often as there are labels, and never where it
/// is not among them.
pub proof fn lemma_occurrences_bounds(labels: Seq<Seq<char>>, label: Seq<char>)
    ensures
        occurrences(labels, label) <= labels.len(),
        !labels.contains(label) ==> occurrences(labels, label) == 0,
        labels.contains(label) ==> occurrences(labels, label) >= 1,
    decreases labels.len(),
{
    if labels.len() > 0 {
        let rest = labels.drop_last();
        lemma_occurrences_bounds(rest, label);
        if labels.contains(label) {
            let i = choose|i: int| 0 <= i < labels.len() && labels[i] == label;
            if i < rest.len() {
                assert(rest[i] == label);
            }
        } else {
            assert(labels[labels.len() - 1] != label);
            if rest.contains(label) {
                let i = choose|i: int| 0 <= i < rest.len() && rest[i] == label;
                assert(labels[i] == label);
            }
        }
    }
}

/// The first occurrences hold exactly the labels that occur, each once.
pub proof fn lemma_first_occurrences(labels: Seq<Seq<char>>)
    ensures
        forall|label: Seq<char>| #[trigger]
            first_occurrences(labels).contains(label) <==> labels.contains(label),
        forall|i: int, j: int|
            0 <= i < j < first_occurrences(labels).len() ==> first_occurrences(labels)[i]
                != first_occurrences(labels)[j],
    decreases labels.len(),
{
    if labels.len() > 0 {
        let rest = labels.drop_last();
        let last = labels.last();
        let seen = first_occurrences(rest);
        let now = first_occurrences(labels);
        lemma_first_occurrences(rest);
        assert forall|label: Seq<char>| #[trigger] now.contains(label) <==> labels.contains(
            label,
        ) by {
            if now.contains(label) {
                let i = choose|i: int| 0 <= i < now.len() && now[i] == label;
                if i < seen.len() {
                    assert(seen[i] == label);
                    assert(seen.contains(label));
                    assert(rest.contains(label));
                    let j = choose|j: int| 0 <= j < rest.len() && rest[j] == label;
                    assert(labels[j] == label);
                } else {
                    assert(label == last);
                    assert(labels[labels.len() - 1] == label);
                }
            }
            if labels.contains(label) {
                let j = choose|j: int| 0 <= j < labels.len() && labels[j] == label;
                if j < rest.len() {
                    assert(rest[j] == label);
                    assert(rest.contains(label));
                    assert(seen.contains(label));
                    let i = choose|i: int| 0 <= i < seen.len() && seen[i] == label;
                    assert(now[i] == label);
                } else {
                    assert(label == last);
                    if rest.contains(last) {
                        assert(seen.contains(last));
                    } else {
                        assert(now[now.len() - 1] == last);
                    }
                }
            }
        }
        assert forall|i: int, j: int| 0 <= i < j < now.len() implies now[i] != now[j] by {
            if j >= seen.len() {
                assert(now[j] == last);
                assert(!rest.contains(last));
                if now[i] == last {
                    assert(seen[i] == last);
                    assert(seen.contains(last));
                }
            }
        }
    }
}

/// The counts of a tally add up to the number of labels.
pub proof fn lemma_tally_total(tally: Seq<(String, u64)>, labels: Seq<Seq<char>>)
    requires
        is_tally(tally, labels),
    ensures
        tally_total(tally) == labels.len(),
    decreases labels.len(),
{
    if labels.len() == 0 {
        assert(tally.len() == 0);
    } else {
        let rest = labels.drop_last();
        let last = labels.last();
        let keys = first_occurrences(labels);
        lemma_first_occurrences(labels);
        lemma_first_occurrences(rest);
        lemma_occurrences_bounds(rest, last);
        assert(labels[labels.len() - 1] == last);
        assert(labels.contains(last));
        assert(keys.contains(last));
        let at = choose|i: int| 0 <= i < keys.len() && keys[i] == last;
        if rest.contains(last) {
            let before = tally.update(at, (tally[at].0, (tally[at].1 - 1) as u64));
            assert(is_tally(before, rest)) by {
                assert forall|i: int| 0 <= i < before.len() implies (#[trigger] before[i]).0@
                    == first_occurrences(rest)[i] && before[i].1 == occurrences(
                    rest,
                    first_occurrences(rest)[i],
                ) by {
                    assert(tally[i].0@ == keys[i]);
                    if i != at {
                        assert(keys[i] != keys[at]);
                    }
                }
            }
            lemma_tally_total(before, rest);
            lemma_total_after_update(tally, at, (tally[at].1 - 1) as u64);
        } else {
            assert(at == keys.len() - 1) by {
                if at < keys.len() - 1 {
                    assert(first_occurrences(rest)[at] == last);
                    assert(first_occurrences(rest).contains(last));
                }
            }
            let before = tally.drop_last();
            assert(is_tally(before, rest)) by {
                assert forall|i: int| 0 <= i < before.len() implies (#[trigger] before[i]).0@
                    == first_occurrences(rest)[i] && before[i].1 == occurrences(
                    rest,
                    first_occurrences(rest)[i],
                ) by {
                    assert(tally[i].0@ == keys[i]);
                    assert(keys[i] != keys[at]);
                }
            }
            lemma_tally_total(before, rest);
            assert(tally[at].1 == 1);
        }
    }
}

/// Changing one count changes the total by as much.
pub proof fn lemma_total_after_update(tally: Seq<(String, u64)>, at: int, count: u64)
    requires
        0 <= at < tally.len(),
    ensures
        tally_total(tally.update(at, (tally[at].0, count))) == tally_total(tally) - tally[at].1
            + count,
    decreases tally.len(),
{
    let changed = tally.update(at, (tally[at].0, count));
    if at == tally.len() - 1 {
        assert(changed.drop_last() == tally.drop_last());
    } else {
        lemma_total_after_update(tally.drop_last(), at, count);
        assert(changed.drop_last() == tally.drop_last().update(at, (tally[at].0, count)));
    }
}

/// The first place at which `label` stands in `tally`, or its length.
pub fn find_label(tally: &Vec<(String, u64)>, label: &String) -> (at: usize)
    ensures
        at <= tally.len(),
        forall|i: int| 0 <= i < at ==> (#[trigger] tally[i]).0@ != label@,
        at < tally.len() ==> tally[at as int].0@ == label@,
{
    let mut at: usize = 0;
    while at < tally.len()
        invariant
            at <= tally.len(),
            forall|i: int| 0 <= i < at ==> (#[trigger] tally[i]).0@ != label@,
        decreases tally.len() - at,
    {
        if tally[at].0 == *label {
            return at;
        }
        at += 1;
    }
    at
}

/// Counts one more occurrence of `label`, which is the next of `labels`.
pub(crate) fn count_label(tally: &mut Vec<(String, u64)>, label: String, Ghost(labels): Ghost<
    Seq<Seq<char>>,
>)
    requires
        is_tally(old(tally)@, labels),
        labels.len() < u64::MAX,
    ensures
        is_tally(final(tally)@, labels.push(label@)),
{
    let ghost next = labels.push(label@);
    let ghost keys = first_occurrences(labels);
    proof {
        assert(next.drop_last() == labels);
        assert(next.last() == label@);
        lemma_first_occurrences(labels);
        lemma_occurrences_bounds(labels, label@);
    }
    let at = find_label(tally, &label);
    if at < tally.len() {
        let count: u64 = tally[at].1;
        proof {
            assert(tally[at as int].0@ == keys[at as int]);
            assert(keys.contains(label@));
            lemma_occurrences_bounds(labels, keys[at as int]);
        }
        let ghost before = tally@;
        tally.set(at, (label, count + 1));
        proof {
            assert forall|i: int| 0 <= i < tally@.len() implies (#[trigger] tally@[i]).0@
                == first_occurrences(next)[i] && tally@[i].1 == occurrences(
                next,
                first_occurrences(next)[i],
            ) by {
                assert(before[i].0@ == keys[i]);
                if i != at {
                    assert(keys[i] != keys[at as int]);
                }
            }
        }
    } else {
        proof {
            if keys.contains(label@) {
                let i = choose|i: int| 0 <= i < keys.len() && keys[i] == label@;
                assert(tally[i].0@ == keys[i]);
            }
            assert(!labels.contains(label@));
        }
        let ghost before = tally@;
        tally.push((label, 1));
        proof {
            assert forall|i: int| 0 <= i < tally@.len() implies (#[trigger] tally@[i]).0@
                == first_occurrences(next)[i] && tally@[i].1 == occurrences(
                next,
                first_occurrences(next)[i],
            ) by {
                if i < before.len() {
                    assert(before[i].0@ == keys[i]);
                    assert(keys[i] != label@);
                }
            }
        }
    }
}

} // verus!
