//! The remote groups offered by the remote filter, in key order, with counts.

use vstd::prelude::*;
use crate::history::Entry;
use crate::text::{chars_eq, chars_of};

verus! {

/// `a` sorts before `b`: character by character by code point, a proper
/// prefix first (the order of `String`, since UTF-8 keeps code-point order).
pub open spec fn text_lt(a: Seq<char>, b: Seq<char>) -> bool
    decreases a.len(),
{
    if a.len() == 0 {
        b.len() > 0
    } else if b.len() == 0 {
        false
    } else if a[0] != b[0] {
        (a[0] as u32) < (b[0] as u32)
    } else {
        text_lt(a.drop_first(), b.drop_first())
    }
}

proof fn lemma_char_u32_injective(c: char, d: char)
    requires
        c != d,
    ensures
        (c as u32) != (d as u32),
{
    if (c as u32) == (d as u32) {
        vstd::utf8::char_u32_cast(c, c as u32);
        vstd::utf8::char_u32_cast(d, d as u32);
    }
}

/// No text sorts before itself.
pub proof fn lemma_text_lt_irreflexive(a: Seq<char>)
    ensures
        !text_lt(a, a),
    decreases a.len(),
{
    if a.len() > 0 {
        lemma_text_lt_irreflexive(a.drop_first());
    }
}

/// Of two different texts, exactly one sorts before the other.
pub proof fn lemma_text_lt_total(a: Seq<char>, b: Seq<char>)
    requires
        a != b,
    ensures
        text_lt(a, b) != text_lt(b, a),
    decreases a.len(),
{
    if a.len() > 0 && b.len() > 0 {
        if a[0] != b[0] {
            lemma_char_u32_injective(a[0], b[0]);
        } else {
            assert(a.drop_first() != b.drop_first()) by {
                if a.drop_first() == b.drop_first() {
                    assert(a == seq![a[0]] + a.drop_first());
                    assert(b == seq![b[0]] + b.drop_first());
                }
            }
            lemma_text_lt_total(a.drop_first(), b.drop_first());
        }
    } else if a.len() == 0 && b.len() == 0 {
        assert(a == b);
    }
}

/// The order is transitive.
pub proof fn lemma_text_lt_transitive(a: Seq<char>, b: Seq<char>, c: Seq<char>)
    requires
        text_lt(a, b),
        text_lt(b, c),
    ensures
        text_lt(a, c),
    decreases a.len(),
{
    if a.len() > 0 && b.len() > 0 && c.len() > 0 {
        if a[0] == b[0] && b[0] == c[0] {
            lemma_text_lt_transitive(a.drop_first(), b.drop_first(), c.drop_first());
        } else if a[0] == c[0] {
            lemma_char_u32_injective(a[0], b[0]);
        }
    }
}

/// Whether `a` sorts before `b`.
pub fn chars_lt(a: &[char], b: &[char]) -> (r: bool)
    ensures
        r == text_lt(a@, b@),
{
    let mut i: usize = 0;
    assert(a@.skip(0) == a@ && b@.skip(0) == b@);
    while i < a.len() && i < b.len() && a[i] == b[i]
        invariant
            i <= a@.len(),
            i <= b@.len(),
            text_lt(a@, b@) == text_lt(a@.skip(i as int), b@.skip(i as int)),
        decreases a.len() - i,
    {
        assert(a@.skip(i as int).drop_first() == a@.skip(i + 1));
        assert(b@.skip(i as int).drop_first() == b@.skip(i + 1));
        i = i + 1;
    }
    if i < a.len() && i < b.len() {
        (a[i] as u32) < (b[i] as u32)
    } else {
        i == a.len() && i < b.len()
    }
}

/// How many of `entries` have `key` as their group key.
pub open spec fn key_count(entries: Seq<Entry>, key: Seq<char>) -> nat
    decreases entries.len(),
{
    if entries.len() == 0 {
        0
    } else {
        key_count(entries.drop_last(), key) + if entries.last().remote_key@ == key {
            1nat
        } else {
            0nat
        }
    }
}

/// The sum of the counts of `groups`.
pub open spec fn sum_counts(groups: Seq<(String, usize)>) -> nat
    decreases groups.len(),
{
    if groups.len() == 0 {
        0
    } else {
        sum_counts(groups.drop_last()) + groups.last().1 as nat
    }
}

/// The keys of `groups` are strictly increasing.
pub open spec fn keys_sorted(groups: Seq<(String, usize)>) -> bool {
    forall|a: int, b: int| 0 <= a < b < groups.len() ==> text_lt(groups[a].0@, groups[b].0@)
}

/// `groups` are the remote groups of `entries`: one per distinct group key,
/// in key order, each with the number of entries in it.
pub open spec fn groups_of(groups: Seq<(String, usize)>, entries: Seq<Entry>) -> bool {
    &&& keys_sorted(groups)
    &&& forall|k: int|
        0 <= k < groups.len() ==> #[trigger] groups[k].1 == key_count(entries, groups[k].0@)
            && groups[k].1 > 0
    &&& forall|j: int|
        0 <= j < entries.len() ==> exists|k: int|
            0 <= k < groups.len() && groups[k].0@ == (#[trigger] entries[j]).remote_key@
}

proof fn lemma_key_count_bound(entries: Seq<Entry>, key: Seq<char>)
    ensures
        key_count(entries, key) <= entries.len(),
    decreases entries.len(),
{
    if entries.len() > 0 {
        lemma_key_count_bound(entries.drop_last(), key);
    }
}

proof fn lemma_key_count_zero(entries: Seq<Entry>, key: Seq<char>)
    requires
        forall|j: int| 0 <= j < entries.len() ==> (#[trigger] entries[j]).remote_key@ != key,
    ensures
        key_count(entries, key) == 0,
    decreases entries.len(),
{
    if entries.len() > 0 {
        lemma_key_count_zero(entries.drop_last(), key);
    }
}

proof fn lemma_sum_update(groups: Seq<(String, usize)>, p: int, x: (String, usize))
    requires
        0 <= p < groups.len(),
        x.1 == groups[p].1 + 1,
    ensures
        sum_counts(groups.update(p, x)) == sum_counts(groups) + 1,
    decreases groups.len(),
{
    if p == groups.len() - 1 {
        assert(groups.update(p, x).drop_last() == groups.drop_last());
    } else {
        assert(groups.update(p, x).drop_last() == groups.drop_last().update(p, x));
        lemma_sum_update(groups.drop_last(), p, x);
    }
}

proof fn lemma_sum_insert(groups: Seq<(String, usize)>, p: int, x: (String, usize))
    requires
        0 <= p <= groups.len(),
    ensures
        sum_counts(groups.insert(p, x)) == sum_counts(groups) + x.1,
    decreases groups.len(),
{
    if p == groups.len() {
        assert(groups.insert(p, x).drop_last() == groups);
    } else {
        assert(groups.insert(p, x).drop_last() == groups.drop_last().insert(p, x));
        lemma_sum_insert(groups.drop_last(), p, x);
    }
}

/// The first position whose key does not sort before `key`.
fn group_position(groups: &Vec<(String, usize)>, key: &[char]) -> (p: usize)
    requires
        keys_sorted(groups@),
    ensures
        p <= groups@.len(),
        forall|k: int| 0 <= k < p ==> text_lt(#[trigger] groups@[k].0@, key@),
        p < groups@.len() ==> !text_lt(groups@[p as int].0@, key@),
{
    let mut p: usize = 0;
    while p < groups.len()
        invariant
            p <= groups@.len(),
            forall|k: int| 0 <= k < p ==> text_lt(#[trigger] groups@[k].0@, key@),
        decreases groups.len() - p,
    {
        let g = chars_of(groups[p].0.as_str());
        if !chars_lt(g.as_slice(), key) {
            return p;
        }
        p = p + 1;
    }
    p
}

/// The remote groups of `entries`, in key order, with their counts.
pub fn remote_groups(entries: &Vec<Entry>) -> (groups: Vec<(String, usize)>)
    ensures
        groups_of(groups@, entries@),
        sum_counts(groups@) == entries@.len(),
{
    let mut groups: Vec<(String, usize)> = Vec::new();
    for i in 0..entries.len()
        invariant
            keys_sorted(groups@),
            forall|k: int|
                0 <= k < groups.len() ==> #[trigger] groups@[k].1 == key_count(
                    entries@.take(i as int),
                    groups@[k].0@,
                ) && groups@[k].1 > 0,
            forall|j: int|
                0 <= j < i ==> exists|k: int|
                    0 <= k < groups.len() && groups@[k].0@ == (#[trigger] entries@[j]).remote_key@,
            sum_counts(groups@) == i,
    {
        let ghost prefix = entries@.take(i as int);
        let ghost next = entries@.take(i + 1);
        assert(next.drop_last() == prefix);
        assert(next.last() == entries@[i as int]);
        let ghost before = groups@;
        let key = chars_of(entries[i].remote_key.as_str());
        let p = group_position(&groups, key.as_slice());
        let found = if p < groups.len() {
            let g = chars_of(groups[p].0.as_str());
            chars_eq(g.as_slice(), key.as_slice())
        } else {
            false
        };
        if found {
            let name = groups[p].0.clone();
            let count = groups[p].1;
            proof {
                lemma_key_count_bound(prefix, key@);
            }
            groups.set(p, (name, count + 1));
            proof {
                lemma_sum_update(before, p as int, (name, (count + 1) as usize));
                assert forall|k: int| 0 <= k < groups.len() implies #[trigger] groups@[k].1
                    == key_count(next, groups@[k].0@) && groups@[k].1 > 0 by {
                    assert(groups@[k].0@ == before[k].0@);
                }
                assert forall|j: int| 0 <= j < i + 1 implies exists|k: int|
                    0 <= k < groups.len() && groups@[k].0@ == (#[trigger] entries@[j]).remote_key@ by {
                    if j == i {
                        assert(groups@[p as int].0@ == entries@[j].remote_key@);
                    } else {
                        let k = choose|k: int|
                            0 <= k < before.len() && before[k].0@ == entries@[j].remote_key@;
                        assert(groups@[k].0@ == before[k].0@);
                    }
                }
            }
        } else {
            proof {
                if p < before.len() {
                    lemma_text_lt_total(before[p as int].0@, key@);
                }
                assert forall|k: int| 0 <= k < before.len() implies before[k].0@ != key@ by {
                    if k < p {
                        lemma_text_lt_irreflexive(key@);
                    } else if k > p {
                        lemma_text_lt_transitive(key@, before[p as int].0@, before[k].0@);
                        lemma_text_lt_irreflexive(key@);
                    }
                }
                assert forall|j: int| 0 <= j < prefix.len() implies (#[trigger] prefix[j]).remote_key@
                    != key@ by {
                    assert(prefix[j] == entries@[j]);
                    let k = choose|k: int|
                        0 <= k < before.len() && before[k].0@ == entries@[j].remote_key@;
                }
                lemma_key_count_zero(prefix, key@);
            }
            let name = entries[i].remote_key.clone();
            groups.insert(p, (name, 1));
            proof {
                lemma_sum_insert(before, p as int, (name, 1usize));
                assert forall|a: int, b: int| 0 <= a < b < groups.len() implies text_lt(
                    groups@[a].0@,
                    groups@[b].0@,
                ) by {
                    if b == p {
                        assert(groups@[a] == before[a]);
                    } else if a == p {
                        assert(groups@[b] == before[b - 1]);
                        if b - 1 > p {
                            lemma_text_lt_transitive(key@, before[p as int].0@, before[b - 1].0@);
                        }
                    } else if a < p && b < p {
                        assert(groups@[a] == before[a] && groups@[b] == before[b]);
                    } else if a < p {
                        assert(groups@[a] == before[a] && groups@[b] == before[b - 1]);
                    } else {
                        assert(groups@[a] == before[a - 1] && groups@[b] == before[b - 1]);
                    }
                }
                assert forall|k: int| 0 <= k < groups.len() implies #[trigger] groups@[k].1
                    == key_count(next, groups@[k].0@) && groups@[k].1 > 0 by {
                    if k < p {
                        assert(groups@[k] == before[k]);
                    } else if k > p {
                        assert(groups@[k] == before[k - 1]);
                    }
                }
                assert forall|j: int| 0 <= j < i + 1 implies exists|k: int|
                    0 <= k < groups.len() && groups@[k].0@ == (#[trigger] entries@[j]).remote_key@ by {
                    if j == i {
                        assert(groups@[p as int].0@ == entries@[j].remote_key@);
                    } else {
                        let k = choose|k: int|
                            0 <= k < before.len() && before[k].0@ == entries@[j].remote_key@;
                        if k < p {
                            assert(groups@[k] == before[k]);
                        } else {
                            assert(groups@[k + 1] == before[k]);
                        }
                    }
                }
            }
        }
    }
    assert(entries@.take(entries@.len() as int) == entries@);
    groups
}

} // verus!
