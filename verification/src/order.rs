//! The order of texts: character by character, by code point, a shorter text
//! before its extensions. This is the order in which Rust sorts strings.

use vstd::prelude::*;
use vstd::relations::{sorted_by, total_ordering};
use vstd::seq_lib::lemma_sorted_unique;
use crate::text::{chars_of, texts};

verus! {

/// Whether `a` comes no later than `b`, given that they agree before position `i`.
pub open spec fn text_le_from(a: Seq<char>, b: Seq<char>, i: int) -> bool
    decreases a.len() - i,
{
    if i >= a.len() {
        true
    } else if i >= b.len() {
        false
    } else if a[i] != b[i] {
        a[i] < b[i]
    } else {
        text_le_from(a, b, i + 1)
    }
}

/// Whether `a` comes no later than `b`.
pub open spec fn text_le(a: Seq<char>, b: Seq<char>) -> bool {
    text_le_from(a, b, 0)
}

/// The order of texts, as a relation.
pub open spec fn text_order() -> spec_fn(Seq<char>, Seq<char>) -> bool {
    |a: Seq<char>, b: Seq<char>| text_le(a, b)
}

/// The texts of `items` in ascending order.
pub open spec fn sorted_texts(items: Seq<Seq<char>>) -> Seq<Seq<char>> {
    items.sort_by(text_order())
}

proof fn lemma_le_reflexive(a: Seq<char>, i: int)
    requires
        0 <= i,
    ensures
        text_le_from(a, a, i),
    decreases a.len() - i,
{
    if i < a.len() {
        lemma_le_reflexive(a, i + 1);
    }
}

proof fn lemma_le_connected(a: Seq<char>, b: Seq<char>, i: int)
    requires
        0 <= i,
    ensures
        text_le_from(a, b, i) || text_le_from(b, a, i),
    decreases a.len() - i,
{
    if i < a.len() && i < b.len() {
        if a[i] == b[i] {
            lemma_le_connected(a, b, i + 1);
        } else {
            assert(a[i] < b[i] || b[i] < a[i]);
        }
    }
}

proof fn lemma_le_antisymmetric(a: Seq<char>, b: Seq<char>, i: int)
    requires
        0 <= i <= a.len(),
        i <= b.len(),
        a.take(i) == b.take(i),
        text_le_from(a, b, i),
        text_le_from(b, a, i),
    ensures
        a == b,
    decreases a.len() - i,
{
    if i < a.len() {
        assert(i < b.len());
        assert(a[i] == b[i]);
        assert(a.take(i + 1) =~= a.take(i).push(a[i]));
        assert(b.take(i + 1) =~= b.take(i).push(b[i]));
        lemma_le_antisymmetric(a, b, i + 1);
    } else {
        assert(i >= b.len());
        assert(a.take(i) =~= a);
        assert(b.take(i) =~= b);
    }
}

proof fn lemma_le_transitive(a: Seq<char>, b: Seq<char>, c: Seq<char>, i: int)
    requires
        0 <= i,
        text_le_from(a, b, i),
        text_le_from(b, c, i),
    ensures
        text_le_from(a, c, i),
    decreases a.len() - i,
{
    if i < a.len() {
        if a[i] == b[i] && b[i] == c[i] {
            lemma_le_transitive(a, b, c, i + 1);
        }
    }
}

/// The order of texts is total: any two texts compare, and two texts that
/// each come no later than the other are one text.
pub proof fn lemma_text_order_total()
    ensures
        total_ordering(text_order()),
{
    let r = text_order();
    assert forall|a: Seq<char>| #[trigger] r(a, a) by {
        lemma_le_reflexive(a, 0);
    }
    assert forall|a: Seq<char>, b: Seq<char>| #[trigger] r(a, b) && #[trigger] r(b, a) implies a
        == b by {
        assert(a.take(0) =~= b.take(0));
        lemma_le_antisymmetric(a, b, 0);
    }
    assert forall|a: Seq<char>, b: Seq<char>, c: Seq<char>| #[trigger]
        r(a, b) && #[trigger] r(b, c) implies r(a, c) by {
        lemma_le_transitive(a, b, c, 0);
    }
    assert forall|a: Seq<char>, b: Seq<char>| #[trigger] r(a, b) || #[trigger] r(b, a) by {
        lemma_le_connected(a, b, 0);
    }
}

/// `sorted_texts` puts the texts in ascending order, and neither adds nor
/// loses one.
pub proof fn lemma_sorted_texts(items: Seq<Seq<char>>)
    ensures
        sorted_by(sorted_texts(items), text_order()),
        sorted_texts(items).to_multiset() == items.to_multiset(),
        sorted_texts(items).len() == items.len(),
{
    lemma_text_order_total();
    items.lemma_sort_by_ensures(text_order());
    vstd::seq_lib::to_multiset_len(items);
    vstd::seq_lib::to_multiset_len(sorted_texts(items));
}

/// Whether `a` comes no later than `b`.
pub fn text_le_of(a: &Vec<char>, b: &Vec<char>) -> (r: bool)
    ensures
        r == text_le(a@, b@),
{
    let mut i: usize = 0;
    while i < a.len() && i < b.len()
        invariant
            i <= a.len(),
            i <= b.len(),
            text_le(a@, b@) == text_le_from(a@, b@, i as int),
        decreases a.len() - i,
    {
        if a[i] != b[i] {
            return a[i] < b[i];
        }
        i += 1;
    }
    i >= a.len()
}

/// Sorts strings in ascending order.
pub fn sort_strings(items: Vec<String>) -> (out: Vec<String>)
    ensures
        texts(out@) == sorted_texts(texts(items@)),
{
    let ghost view = |s: String| s@;
    let ghost given = items@.map_values(view);
    let mut keys: Vec<Vec<char>> = Vec::new();
    let mut out: Vec<String> = Vec::new();
    let mut rest = items;
    let ghost mut taken: Seq<Seq<char>> = Seq::empty();
    proof {
        broadcast use vstd::seq_lib::group_to_multiset_ensures;

        lemma_text_order_total();
        assert(out@.map_values(view) =~= taken);
        assert(rest@ == items@);
        assert(given.to_multiset() =~= taken.to_multiset().add(
            rest@.map_values(view).to_multiset(),
        ));
    }
    while rest.len() > 0
        invariant
            view == (|s: String| s@),
            total_ordering(text_order()),
            keys@.len() == out@.len(),
            forall|j: int| 0 <= j < out@.len() ==> #[trigger] keys@[j]@ == out@[j]@,
            sorted_by(out@.map_values(view), text_order()),
            out@.map_values(view).to_multiset() == taken.to_multiset(),
            given.to_multiset() == taken.to_multiset().add(rest@.map_values(view).to_multiset()),
        decreases rest.len(),
    {
        let ghost rest_before = rest@.map_values(view);
        let item = rest.pop().unwrap();
        let key = chars_of(item.as_str());
        let mut p: usize = 0;
        while p < keys.len() && text_le_of(&keys[p], &key)
            invariant
                p <= keys.len(),
                forall|j: int| 0 <= j < p ==> text_le(#[trigger] keys@[j]@, key@),
            decreases keys.len() - p,
        {
            p += 1;
        }
        let ghost before = out@.map_values(view);
        proof {
            vstd::seq_lib::to_multiset_insert(before, p as int, key@);
            vstd::seq_lib::to_multiset_build(rest@.map_values(view), key@);
            assert(rest_before =~= rest@.map_values(view).push(key@));
            vstd::seq_lib::to_multiset_build(taken, key@);
            if p < keys@.len() {
                lemma_le_connected(keys@[p as int]@, key@, 0);
            }
        }
        keys.insert(p, key);
        out.insert(p, item);
        proof {
            let after = out@.map_values(view);
            assert(after =~= before.insert(p as int, key@));
            assert forall|a: int, b: int| 0 <= a < b < after.len() implies text_order()(
                after[a],
                after[b],
            ) by {
                if b < p {
                    assert(text_order()(before[a], before[b]));
                } else if b == p {
                    assert(before[a] == keys@[a]@);
                } else if a < p {
                    assert(text_order()(before[a], before[b - 1]));
                } else if a == p {
                    if b - 1 > p {
                        assert(text_order()(before[p as int], before[b - 1]));
                        lemma_le_transitive(key@, before[p as int], before[b - 1], 0);
                    }
                } else {
                    assert(text_order()(before[a - 1], before[b - 1]));
                }
            }
            taken = taken.push(key@);
            assert(given.to_multiset() =~= taken.to_multiset().add(
                rest@.map_values(view).to_multiset(),
            ));
        }
    }
    proof {
        assert(rest@.map_values(view) =~= Seq::<Seq<char>>::empty());
        assert(given.to_multiset() =~= taken.to_multiset());
        given.lemma_sort_by_ensures(text_order());
        lemma_sorted_unique(out@.map_values(view), given.sort_by(text_order()), text_order());
    }
    out
}

} // verus!
