//! Sorting, with what it keeps and what it establishes.

use vstd::prelude::*;
use vstd::string::*;

use crate::text::{bytes_less, comes_before, text_less, texts};
use vstd::utf8::encode_utf8;

verus! {

/// A kind of values with a total order that can be decided.
pub trait Ordered: Sized {
    /// This value may stand before or beside another.
    spec fn may_precede(&self, other: &Self) -> bool;

    /// Of any two values one may precede the other.
    proof fn order_is_total(a: &Self, b: &Self)
        ensures
            a.may_precede(b) || b.may_precede(a),
    ;

    /// What may precede a value may precede what that value may precede.
    proof fn order_is_transitive(a: &Self, b: &Self, c: &Self)
        requires
            a.may_precede(b),
            b.may_precede(c),
        ensures
            a.may_precede(c),
    ;

    /// Decides whether this value may stand before or beside another.
    fn precedes(&self, other: &Self) -> (precedes: bool)
        ensures
            precedes == self.may_precede(other),
    ;
}

/// Every value may precede those after it.
pub open spec fn in_order<T: Ordered>(values: Seq<T>) -> bool {
    forall|i: int, j: int|
        #![trigger values[i], values[j]]
        0 <= i < j < values.len() ==> values[i].may_precede(&values[j])
}

/// Sorts values: the result holds the same values, in order.
pub fn sort<T: Ordered>(values: Vec<T>) -> (sorted: Vec<T>)
    ensures
        in_order(sorted@),
        sorted@.to_multiset() == values@.to_multiset(),
        sorted@.len() == values@.len(),
{
    let mut rest = values;
    let mut sorted: Vec<T> = Vec::new();
    let ghost all = rest@.to_multiset();
    proof {
        assert(sorted@.to_multiset() =~= vstd::multiset::Multiset::empty()) by {
            broadcast use vstd::seq_lib::group_to_multiset_ensures;
        }
        assert(sorted@.to_multiset().add(rest@.to_multiset()) =~= all);
        rest@.to_multiset_ensures();
    }
    while rest.len() > 0
        invariant
            in_order(sorted@),
            sorted@.to_multiset().add(rest@.to_multiset()) == all,
            sorted@.len() + rest@.len() == all.len(),
        decreases rest@.len(),
    {
        let ghost rest_before = rest@;
        let ghost sorted_before = sorted@;
        let value = match rest.pop() {
            Some(value) => value,
            None => {
                return sorted;
            },
        };
        let mut at: usize = 0;
        while at < sorted.len() && !value.precedes(&sorted[at])
            invariant
                0 <= at <= sorted@.len(),
                forall|j: int|
                    #![trigger sorted@[j]]
                    0 <= j < at ==> !value.may_precede(&sorted@[j]),
            decreases sorted.len() - at,
        {
            at = at + 1;
        }
        sorted.insert(at, value);
        proof {
            broadcast use vstd::seq_lib::group_to_multiset_ensures;

            lemma_insert_keeps_order(sorted_before, at as int, value);
            assert(rest_before =~= rest@.push(value));
            assert(rest_before.to_multiset() =~= rest@.to_multiset().insert(value));
            assert(sorted@ == sorted_before.insert(at as int, value));
            lemma_insert_multiset(sorted_before, at as int, value);
            assert(sorted@.to_multiset().add(rest@.to_multiset()) =~= all);
        }
    }
    proof {
        broadcast use vstd::seq_lib::group_to_multiset_ensures;

        assert(rest@ =~= Seq::empty());
        assert(sorted@.to_multiset() =~= all);
    }
    sorted
}

/// Inserting before the first value that may follow keeps the order.
proof fn lemma_insert_keeps_order<T: Ordered>(sorted: Seq<T>, at: int, value: T)
    requires
        in_order(sorted),
        0 <= at <= sorted.len(),
        at < sorted.len() ==> value.may_precede(&sorted[at]),
        forall|j: int|
            #![trigger sorted[j]]
            0 <= j < at ==> !value.may_precede(&sorted[j]),
    ensures
        in_order(sorted.insert(at, value)),
{
    let longer = sorted.insert(at, value);
    assert forall|i: int, j: int|
        #![trigger longer[i], longer[j]]
        0 <= i < j < longer.len() implies longer[i].may_precede(&longer[j]) by {
        if j < at {
            assert(longer[i] == sorted[i] && longer[j] == sorted[j]);
        } else if j == at {
            assert(longer[i] == sorted[i]);
            T::order_is_total(&value, &sorted[i]);
        } else if i < at {
            assert(longer[i] == sorted[i] && longer[j] == sorted[j - 1]);
        } else if i == at {
            assert(longer[j] == sorted[j - 1]);
            if j - 1 > at {
                assert(sorted[at].may_precede(&sorted[j - 1]));
                T::order_is_transitive(&value, &sorted[at], &sorted[j - 1]);
            }
        } else {
            assert(longer[i] == sorted[i - 1] && longer[j] == sorted[j - 1]);
        }
    }
}

/// Inserting a value adds it to the multiset.
proof fn lemma_insert_multiset<T>(values: Seq<T>, at: int, value: T)
    requires
        0 <= at <= values.len(),
    ensures
        values.insert(at, value).to_multiset() == values.to_multiset().insert(value),
{
    broadcast use vstd::seq_lib::group_to_multiset_ensures;

    let longer = values.insert(at, value);
    assert(longer[at] == value);
    assert(longer.remove(at) =~= values);
    vstd::seq_lib::to_multiset_remove(longer, at);
    assert(longer.to_multiset().contains(value)) by {
        assert(longer.contains(value));
        longer.to_multiset_ensures();
    }
    assert(longer.to_multiset() =~= values.to_multiset().insert(value));
}

/// The lexicographic order of byte strings is total and transitive.
pub proof fn lemma_bytes_order(a: Seq<u8>, b: Seq<u8>, c: Seq<u8>)
    ensures
        !(bytes_less(a, b) && bytes_less(b, a)),
        !bytes_less(b, a) && !bytes_less(c, b) ==> !bytes_less(c, a),
    decreases a.len() + b.len() + c.len(),
{
    if a.len() > 0 && b.len() > 0 && c.len() > 0 {
        lemma_bytes_order(a.skip(1), b.skip(1), c.skip(1));
    } else if a.len() > 0 && b.len() > 0 {
        lemma_bytes_order(a.skip(1), b.skip(1), c);
    }
}

/// The texts stand in the order of their bytes.
pub open spec fn sorted_texts(listing: Seq<Seq<char>>) -> bool {
    forall|i: int, j: int|
        0 <= i < j < listing.len() ==> !text_less(#[trigger] listing[j], #[trigger] listing[i])
}

impl Ordered for String {
    open spec fn may_precede(&self, other: &Self) -> bool {
        !text_less(other@, self@)
    }

    proof fn order_is_total(a: &Self, b: &Self) {
        lemma_bytes_order(encode_utf8(a@), encode_utf8(b@), encode_utf8(b@));
    }

    proof fn order_is_transitive(a: &Self, b: &Self, c: &Self) {
        lemma_bytes_order(encode_utf8(a@), encode_utf8(b@), encode_utf8(c@));
    }

    fn precedes(&self, other: &Self) -> (precedes: bool) {
        !comes_before(other.as_str(), self.as_str())
    }
}

/// Sorts texts by their bytes.
pub fn sort_texts(values: Vec<String>) -> (sorted: Vec<String>)
    ensures
        in_order(sorted@),
        sorted@.to_multiset() == values@.to_multiset(),
        sorted@.len() == values@.len(),
{
    sort(values)
}

/// Sorted strings show the same texts as before, in order, and repeat none that
/// was not repeated.
pub proof fn lemma_sorted_strings(before: Seq<String>, after: Seq<String>)
    requires
        in_order(after),
        after.to_multiset() == before.to_multiset(),
        after.len() == before.len(),
    ensures
        sorted_texts(texts(after)),
        forall|text: Seq<char>|
            texts(after).contains(text) <==> #[trigger] texts(before).contains(text),
        texts(before).no_duplicates() ==> texts(after).no_duplicates(),
{
    assert forall|i: int, j: int| 0 <= i < j < texts(after).len() implies !text_less(
        #[trigger] texts(after)[j],
        #[trigger] texts(after)[i],
    ) by {
        assert(after[i].may_precede(&after[j]));
    }
    before.to_multiset_ensures();
    after.to_multiset_ensures();
    assert forall|text: Seq<char>|
        texts(after).contains(text) <==> #[trigger] texts(before).contains(text) by {
        if texts(after).contains(text) {
            let k = choose|k: int| 0 <= k < texts(after).len() && texts(after)[k] == text;
            assert(after.contains(after[k]));
            assert(before.to_multiset().count(after[k]) > 0);
            assert(before.contains(after[k]));
            let m = choose|m: int| 0 <= m < before.len() && before[m] == after[k];
            assert(texts(before)[m] == text);
        }
        if texts(before).contains(text) {
            let k = choose|k: int| 0 <= k < texts(before).len() && texts(before)[k] == text;
            assert(before.contains(before[k]));
            assert(after.to_multiset().count(before[k]) > 0);
            assert(after.contains(before[k]));
            let m = choose|m: int| 0 <= m < after.len() && after[m] == before[k];
            assert(texts(after)[m] == text);
        }
    }
    if texts(before).no_duplicates() {
        texts_distinct_after(before, after);
    }
}

/// Distinct texts stay distinct under rearrangement.
proof fn texts_distinct_after(before: Seq<String>, after: Seq<String>)
    requires
        after.to_multiset() == before.to_multiset(),
        texts(before).no_duplicates(),
    ensures
        texts(after).no_duplicates(),
{
    before.to_multiset_ensures();
    after.to_multiset_ensures();
    assert(before.no_duplicates()) by {
        assert forall|i: int, j: int| 0 <= i < j < before.len() implies before[i] != before[j] by {
            assert(texts(before)[i] != texts(before)[j]);
        }
    }
    before.lemma_multiset_has_no_duplicates();
    after.lemma_multiset_has_no_duplicates_conv();
    assert forall|i: int, j: int| 0 <= i < j < after.len() implies texts(after)[i] != texts(
        after,
    )[j] by {
        assert(after.contains(after[i]));
        assert(after.contains(after[j]));
        assert(before.to_multiset().count(after[i]) > 0);
        assert(before.to_multiset().count(after[j]) > 0);
        assert(before.contains(after[i]));
        assert(before.contains(after[j]));
        let p = choose|p: int| 0 <= p < before.len() && before[p] == after[i];
        let q = choose|q: int| 0 <= q < before.len() && before[q] == after[j];
        if texts(after)[i] == texts(after)[j] {
            assert(texts(before)[p] == texts(before)[q]);
            assert(p == q);
            assert(after[i] == after[j]);
        }
    }
}

} // verus!
