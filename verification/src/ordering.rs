//! Sorting by a total order.

use crate::number::Number;
use vstd::prelude::*;
use vstd::relations::*;
use vstd::seq_lib::*;
use vstd::utf8::*;

verus! {

/// A type whose values are sorted by a total order on their views.
pub trait Ordered: View + Sized {
    /// Whether `a` may stand before `b`.
    spec fn precedes(a: Self::V, b: Self::V) -> bool;

    /// The order is total.
    proof fn order_is_total()
        ensures
            total_ordering(|a: Self::V, b: Self::V| Self::precedes(a, b)),
    ;

    /// Decides the order.
    fn is_before(&self, other: &Self) -> (result: bool)
        ensures
            result == Self::precedes(self@, other@),
    ;
}

/// The order of `T` as a relation.
pub open spec fn order<T: Ordered>() -> spec_fn(T::V, T::V) -> bool {
    |a: T::V, b: T::V| T::precedes(a, b)
}

/// The views of a sequence of values.
pub open spec fn views<T: View>(items: Seq<T>) -> Seq<T::V> {
    items.map_values(|item: T| item@)
}

/// Whether one sequence of bytes stands at or before another in lexicographic
/// order.
pub open spec fn bytes_precede(a: Seq<u8>, b: Seq<u8>) -> bool
    decreases a.len(),
{
    if a.len() == 0 {
        true
    } else if b.len() == 0 {
        false
    } else if a[0] != b[0] {
        a[0] < b[0]
    } else {
        bytes_precede(a.drop_first(), b.drop_first())
    }
}

/// The order of texts: that of their UTF-8 bytes.
pub open spec fn text_precedes(a: Seq<char>, b: Seq<char>) -> bool {
    bytes_precede(encode_utf8(a), encode_utf8(b))
}

proof fn lemma_bytes_reflexive(a: Seq<u8>)
    ensures
        bytes_precede(a, a),
    decreases a.len(),
{
    if a.len() > 0 {
        lemma_bytes_reflexive(a.drop_first());
    }
}

proof fn lemma_bytes_connected(a: Seq<u8>, b: Seq<u8>)
    ensures
        bytes_precede(a, b) || bytes_precede(b, a),
    decreases a.len(),
{
    if a.len() > 0 && b.len() > 0 && a[0] == b[0] {
        lemma_bytes_connected(a.drop_first(), b.drop_first());
    }
}

proof fn lemma_bytes_antisymmetric(a: Seq<u8>, b: Seq<u8>)
    requires
        bytes_precede(a, b),
        bytes_precede(b, a),
    ensures
        a == b,
    decreases a.len(),
{
    if a.len() > 0 && b.len() > 0 {
        lemma_bytes_antisymmetric(a.drop_first(), b.drop_first());
        assert(a =~= seq![a[0]] + a.drop_first());
        assert(b =~= seq![b[0]] + b.drop_first());
    } else {
        assert(a =~= b);
    }
}

proof fn lemma_bytes_transitive(a: Seq<u8>, b: Seq<u8>, c: Seq<u8>)
    requires
        bytes_precede(a, b),
        bytes_precede(b, c),
    ensures
        bytes_precede(a, c),
    decreases a.len(),
{
    if a.len() > 0 && b.len() > 0 && c.len() > 0 && a[0] == b[0] && b[0] == c[0] {
        lemma_bytes_transitive(a.drop_first(), b.drop_first(), c.drop_first());
    }
}

/// Of two texts that start with different ASCII letters, the one with the later
/// letter does not stand before the other.
pub proof fn lemma_first_letter_orders(a: Seq<char>, b: Seq<char>)
    requires
        a.len() > 0,
        b.len() > 0,
        'a' <= a[0],
        a[0] < b[0],
        b[0] <= 'z',
    ensures
        !text_precedes(b, a),
{
    let left = a[0] as u32;
    let right = b[0] as u32;
    assert((left & 0x7f) as u8 == left && (right & 0x7f) as u8 == right) by (bit_vector)
        requires
            left < 128,
            right < 128,
    ;
    assert(encode_utf8(a)[0] == left);
    assert(encode_utf8(b)[0] == right);
}

impl Ordered for String {
    open spec fn precedes(a: Seq<char>, b: Seq<char>) -> bool {
        text_precedes(a, b)
    }

    proof fn order_is_total() {
        let leq = |a: Seq<char>, b: Seq<char>| Self::precedes(a, b);
        assert forall|a: Seq<char>| #[trigger] leq(a, a) by {
            lemma_bytes_reflexive(encode_utf8(a));
        }
        assert forall|a: Seq<char>, b: Seq<char>| #[trigger] leq(a, b) && #[trigger] leq(b, a) implies a
            == b by {
            lemma_bytes_antisymmetric(encode_utf8(a), encode_utf8(b));
            encode_utf8_decode_utf8(a);
            encode_utf8_decode_utf8(b);
        }
        assert forall|a: Seq<char>, b: Seq<char>, c: Seq<char>| #[trigger]
            leq(a, b) && #[trigger] leq(b, c) implies leq(a, c) by {
            lemma_bytes_transitive(encode_utf8(a), encode_utf8(b), encode_utf8(c));
        }
        assert forall|a: Seq<char>, b: Seq<char>| #[trigger] leq(a, b) || #[trigger] leq(b, a) by {
            lemma_bytes_connected(encode_utf8(a), encode_utf8(b));
        }
    }

    fn is_before(&self, other: &Self) -> (result: bool) {
        let left = self.as_str().as_bytes();
        let right = other.as_str().as_bytes();
        let ghost a = left@;
        let ghost b = right@;
        let mut i: usize = 0;
        proof {
            assert(a.skip(0) =~= a);
            assert(b.skip(0) =~= b);
        }
        while i < left.len() && i < right.len()
            invariant
                i <= left.len(),
                i <= right.len(),
                left@ == a,
                right@ == b,
                bytes_precede(a, b) == bytes_precede(a.skip(i as int), b.skip(i as int)),
                a == encode_utf8(self@),
                b == encode_utf8(other@),
            decreases left.len() - i,
        {
            if left[i] != right[i] {
                return left[i] < right[i];
            }
            proof {
                assert(a.skip(i as int).drop_first() =~= a.skip(i + 1));
                assert(b.skip(i as int).drop_first() =~= b.skip(i + 1));
            }
            i += 1;
        }
        i == left.len()
    }
}

impl Ordered for Number {
    open spec fn precedes(a: Number, b: Number) -> bool {
        a.total_rank() <= b.total_rank()
    }

    proof fn order_is_total() {
    }

    fn is_before(&self, other: &Self) -> (result: bool) {
        self.is_ordered_before(*other)
    }
}

/// Inserts an item into a sorted vector, behind the items that stand before it.
fn insert_sorted<T: Ordered>(items: &mut Vec<T>, item: T)
    requires
        sorted_by(views(old(items)@), order::<T>()),
    ensures
        sorted_by(views(final(items)@), order::<T>()),
        views(final(items)@).to_multiset() == views(old(items)@).to_multiset().insert(item@),
{
    proof {
        T::order_is_total();
    }
    let ghost before = views(items@);
    let mut low: usize = 0;
    let mut high: usize = items.len();
    while low < high
        invariant
            low <= high <= items.len(),
            items@ == old(items)@,
            before == views(items@),
            sorted_by(before, order::<T>()),
            total_ordering(order::<T>()),
            forall|k: int| 0 <= k < low ==> T::precedes(#[trigger] before[k], item@),
            forall|k: int| high <= k < before.len() ==> T::precedes(item@, #[trigger] before[k]),
        decreases high - low,
    {
        let middle: usize = low + (high - low) / 2;
        if items[middle].is_before(&item) {
            assert forall|k: int| 0 <= k < middle + 1 implies T::precedes(#[trigger] before[k], item@) by {
                if k < middle {
                    assert(order::<T>()(before[k], before[middle as int]));
                    assert(order::<T>()(before[middle as int], item@));
                }
            }
            low = middle + 1;
        } else {
            assert forall|k: int| middle <= k < before.len() implies T::precedes(item@, #[trigger] before[k]) by {
                assert(order::<T>()(item@, before[middle as int]) || order::<T>()(
                    before[middle as int],
                    item@,
                ));
                if k > middle {
                    assert(order::<T>()(before[middle as int], before[k]));
                }
            }
            high = middle;
        }
    }
    let ghost placed = item@;
    items.insert(low, item);
    proof {
        assert(views(items@) =~= before.insert(low as int, placed));
        broadcast use to_multiset_insert;

    }
}

/// The items in ascending order.
pub fn sorted<T: Ordered>(items: Vec<T>) -> (result: Vec<T>)
    ensures
        views(result@) == views(items@).sort_by(order::<T>()),
{
    let ghost all = views(items@);
    let mut rest = items;
    let mut result: Vec<T> = Vec::new();
    proof {
        T::order_is_total();
        broadcast use group_to_multiset_ensures;

        assert(views(result@) =~= Seq::<T::V>::empty());
        assert(all.to_multiset() =~= views(rest@).to_multiset().add(views(result@).to_multiset()));
    }
    while rest.len() > 0
        invariant
            sorted_by(views(result@), order::<T>()),
            all.to_multiset() == views(rest@).to_multiset().add(views(result@).to_multiset()),
        decreases rest.len(),
    {
        let ghost previous = views(rest@);
        let ghost placed = views(result@);
        match rest.pop() {
            Some(item) => {
                proof {
                    broadcast use group_to_multiset_ensures;

                    assert(previous =~= views(rest@).push(item@));
                }
                insert_sorted(&mut result, item);
                assert(all.to_multiset() =~= views(rest@).to_multiset().add(
                    views(result@).to_multiset(),
                ));
            },
            None => {},
        }
    }
    proof {
        broadcast use group_to_multiset_ensures;

        assert(views(rest@) =~= Seq::<T::V>::empty());
        assert(all.to_multiset() =~= views(result@).to_multiset());
        all.lemma_sort_by_ensures(order::<T>());
        lemma_sorted_unique(views(result@), all.sort_by(order::<T>()), order::<T>());
    }
    result
}

} // verus!
