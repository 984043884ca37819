//! Counting and summing over sequences: the vocabulary in which the statistics are specified.

use vstd::prelude::*;

verus! {

/// The number of elements of `s` that satisfy `p`.
pub open spec fn count_where<A>(s: Seq<A>, p: spec_fn(A) -> bool) -> nat
    decreases s.len(),
{
    if s.len() == 0 {
        0
    } else {
        count_where(s.drop_last(), p) + if p(s.last()) {
            1nat
        } else {
            0nat
        }
    }
}

/// The sum of `f` over the elements of `s`.
pub open spec fn sum_of<A>(s: Seq<A>, f: spec_fn(A) -> int) -> int
    decreases s.len(),
{
    if s.len() == 0 {
        0
    } else {
        sum_of(s.drop_last(), f) + f(s.last())
    }
}

/// The concatenation of `f` applied to each element of `s`, in order.
pub open spec fn flat_map<A, B>(s: Seq<A>, f: spec_fn(A) -> Seq<B>) -> Seq<B>
    decreases s.len(),
{
    if s.len() == 0 {
        Seq::empty()
    } else {
        flat_map(s.drop_last(), f) + f(s.last())
    }
}

/// Appending one element appends its image.
pub broadcast proof fn lemma_flat_map_push<A, B>(s: Seq<A>, x: A, f: spec_fn(A) -> Seq<B>)
    ensures
        #[trigger] flat_map(s.push(x), f) == flat_map(s, f) + f(x),
{
    assert(s.push(x).drop_last() =~= s);
}

/// The image of a concatenation is the concatenation of the images.
pub proof fn lemma_flat_map_concat<A, B>(s: Seq<A>, t: Seq<A>, f: spec_fn(A) -> Seq<B>)
    ensures
        flat_map(s + t, f) =~= flat_map(s, f) + flat_map(t, f),
    decreases t.len(),
{
    if t.len() == 0 {
        assert(s + t =~= s);
    } else {
        lemma_flat_map_concat(s, t.drop_last(), f);
        assert((s + t).drop_last() =~= s + t.drop_last());
    }
}

/// The images of a prefix and of the next element fit in the image of the whole sequence.
pub proof fn lemma_flat_map_prefix_len<A, B>(s: Seq<A>, i: int, f: spec_fn(A) -> Seq<B>)
    requires
        0 <= i < s.len(),
    ensures
        flat_map(s.take(i), f).len() + f(s[i]).len() <= flat_map(s, f).len(),
{
    lemma_flat_map_concat(s.take(i + 1), s.skip(i + 1), f);
    assert(s.take(i + 1) + s.skip(i + 1) =~= s);
    assert(s.take(i + 1) =~= s.take(i).push(s[i]));
    lemma_flat_map_push(s.take(i), s[i], f);
}

/// Appending one element adds one to the count exactly when the element satisfies `p`.
pub broadcast proof fn lemma_count_where_push<A>(s: Seq<A>, x: A, p: spec_fn(A) -> bool)
    ensures
        #[trigger] count_where(s.push(x), p) == count_where(s, p) + if p(x) {
            1nat
        } else {
            0nat
        },
{
    assert(s.push(x).drop_last() =~= s);
}

/// Appending one element adds its value to the sum.
pub broadcast proof fn lemma_sum_of_push<A>(s: Seq<A>, x: A, f: spec_fn(A) -> int)
    ensures
        #[trigger] sum_of(s.push(x), f) == sum_of(s, f) + f(x),
{
    assert(s.push(x).drop_last() =~= s);
}

/// A count never exceeds the length of the sequence.
pub broadcast proof fn lemma_count_where_le_len<A>(s: Seq<A>, p: spec_fn(A) -> bool)
    ensures
        #[trigger] count_where(s, p) <= s.len(),
    decreases s.len(),
{
    if s.len() > 0 {
        lemma_count_where_le_len(s.drop_last(), p);
    }
}

/// Summing over a concatenation adds the sums of the parts.
pub proof fn lemma_sum_of_concat<A>(s: Seq<A>, t: Seq<A>, f: spec_fn(A) -> int)
    ensures
        sum_of(s + t, f) == sum_of(s, f) + sum_of(t, f),
    decreases t.len(),
{
    if t.len() == 0 {
        assert(s + t =~= s);
    } else {
        lemma_sum_of_concat(s, t.drop_last(), f);
        assert((s + t).drop_last() =~= s + t.drop_last());
    }
}

/// A predicate that implies another is counted at most as often.
pub proof fn lemma_count_where_mono<A>(s: Seq<A>, p: spec_fn(A) -> bool, q: spec_fn(A) -> bool)
    requires
        forall|x: A| #[trigger] p(x) ==> q(x),
    ensures
        count_where(s, p) <= count_where(s, q),
    decreases s.len(),
{
    if s.len() > 0 {
        lemma_count_where_mono(s.drop_last(), p, q);
    }
}

/// Two predicates that split every element into exactly one of them split the length.
pub proof fn lemma_count_where_split<A>(s: Seq<A>, p: spec_fn(A) -> bool, q: spec_fn(A) -> bool)
    requires
        forall|x: A| #[trigger] p(x) != q(x),
    ensures
        count_where(s, p) + count_where(s, q) == s.len(),
    decreases s.len(),
{
    if s.len() > 0 {
        lemma_count_where_split(s.drop_last(), p, q);
    }
}

/// A sum of values that all lie in `[0, bound]` lies in `[0, len * bound]`.
pub proof fn lemma_sum_of_bounds<A>(s: Seq<A>, f: spec_fn(A) -> int, bound: int)
    requires
        forall|x: A| 0 <= #[trigger] f(x) <= bound,
    ensures
        0 <= sum_of(s, f) <= s.len() * bound,
    decreases s.len(),
{
    if s.len() > 0 {
        lemma_sum_of_bounds(s.drop_last(), f, bound);
        assert((s.len() - 1) * bound + bound == s.len() * bound) by (nonlinear_arith);
    }
}

/// A sum of nonnegative values is nonnegative.
pub proof fn lemma_sum_of_nonneg<A>(s: Seq<A>, f: spec_fn(A) -> int)
    requires
        forall|x: A| 0 <= #[trigger] f(x),
    ensures
        0 <= sum_of(s, f),
    decreases s.len(),
{
    if s.len() > 0 {
        lemma_sum_of_nonneg(s.drop_last(), f);
    }
}

/// A sum is bounded by the sum of a pointwise larger function.
pub proof fn lemma_sum_of_le<A>(s: Seq<A>, f: spec_fn(A) -> int, g: spec_fn(A) -> int)
    requires
        forall|x: A| #[trigger] f(x) <= g(x),
    ensures
        sum_of(s, f) <= sum_of(s, g),
    decreases s.len(),
{
    if s.len() > 0 {
        lemma_sum_of_le(s.drop_last(), f, g);
    }
}

/// A sum over a prefix of nonnegative values is bounded by the sum over the whole sequence.
pub proof fn lemma_sum_of_prefix_le<A>(s: Seq<A>, i: int, f: spec_fn(A) -> int)
    requires
        0 <= i <= s.len(),
        forall|x: A| 0 <= #[trigger] f(x),
    ensures
        sum_of(s.take(i), f) <= sum_of(s, f),
{
    lemma_sum_of_concat(s.take(i), s.skip(i), f);
    assert(s.take(i) + s.skip(i) =~= s);
    lemma_sum_of_nonneg(s.skip(i), f);
}

/// Taking one more element of a sequence appends that element.
pub proof fn lemma_take_push<A>(s: Seq<A>, i: int)
    requires
        0 <= i < s.len(),
    ensures
        s.take(i + 1) =~= s.take(i).push(s[i]),
{
}

pub broadcast group group_seqs {
    lemma_count_where_push,
    lemma_sum_of_push,
    lemma_count_where_le_len,
}

} // verus!
