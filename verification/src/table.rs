//! Keyed-table reasoning.
//!
//! The metadata registries are sequences of rows with a uniqueness key.
//! This module gives the shared vocabulary: the first row matching a
//! predicate, how many rows match, and the ordered projection of matching
//! rows — with the lemmas that connect them.

use vstd::prelude::*;

verus! {

/// Index of the first element of `s` satisfying `p`, or -1 when none does.
pub open spec fn find_first<T>(s: Seq<T>, p: spec_fn(T) -> bool) -> int
    decreases s.len(),
{
    if s.len() == 0 {
        -1
    } else if p(s[0]) {
        0
    } else {
        let r = find_first(s.drop_first(), p);
        if r < 0 {
            -1
        } else {
            r + 1
        }
    }
}

/// How many elements of `s` satisfy `p`.
pub open spec fn count_matching<T>(s: Seq<T>, p: spec_fn(T) -> bool) -> nat
    decreases s.len(),
{
    if s.len() == 0 {
        0
    } else {
        count_matching(s.drop_last(), p) + if p(s.last()) {
            1nat
        } else {
            0nat
        }
    }
}

/// The elements of `s` satisfying `p`, in order, each mapped through `f`.
pub open spec fn project_matching<T, U>(s: Seq<T>, p: spec_fn(T) -> bool, f: spec_fn(T) -> U) -> Seq<
    U,
>
    decreases s.len(),
{
    if s.len() == 0 {
        Seq::empty()
    } else {
        let rest = project_matching(s.drop_last(), p, f);
        if p(s.last()) {
            rest.push(f(s.last()))
        } else {
            rest
        }
    }
}

/// `find_first` returns -1 or a valid index.
pub proof fn lemma_find_first_bounds<T>(s: Seq<T>, p: spec_fn(T) -> bool)
    ensures
        -1 <= find_first(s, p) < s.len(),
    decreases s.len(),
{
    if s.len() > 0 && !p(s[0]) {
        lemma_find_first_bounds(s.drop_first(), p);
    }
}

/// When `find_first` reports no match, no element matches.
pub proof fn lemma_find_first_none<T>(s: Seq<T>, p: spec_fn(T) -> bool)
    requires
        find_first(s, p) == -1,
    ensures
        forall|i: int| 0 <= i < s.len() ==> !p(#[trigger] s[i]),
    decreases s.len(),
{
    if s.len() > 0 {
        lemma_find_first_none(s.drop_first(), p);
        assert forall|i: int| 0 <= i < s.len() implies !p(#[trigger] s[i]) by {
            if i > 0 {
                assert(s.drop_first()[i - 1] == s[i]);
            }
        }
    }
}

/// `find_first` points at a match, and at the first one.
pub proof fn lemma_find_first_some<T>(s: Seq<T>, p: spec_fn(T) -> bool)
    requires
        find_first(s, p) >= 0,
    ensures
        find_first(s, p) < s.len(),
        p(s[find_first(s, p)]),
        forall|j: int| 0 <= j < find_first(s, p) ==> !p(#[trigger] s[j]),
    decreases s.len(),
{
    let f = find_first(s, p);
    if s.len() > 0 && !p(s[0]) {
        lemma_find_first_some(s.drop_first(), p);
        assert(s.drop_first()[f - 1] == s[f]);
        assert forall|j: int| 0 <= j < f implies !p(#[trigger] s[j]) by {
            if j > 0 {
                assert(s.drop_first()[j - 1] == s[j]);
            }
        }
    }
}

/// Conversely: the first matching index is what `find_first` returns.
pub proof fn lemma_find_first_at<T>(s: Seq<T>, p: spec_fn(T) -> bool, i: int)
    requires
        0 <= i < s.len(),
        p(s[i]),
        forall|j: int| 0 <= j < i ==> !p(#[trigger] s[j]),
    ensures
        find_first(s, p) == i,
    decreases s.len(),
{
    if i > 0 {
        assert(!p(s[0]));
        assert(s.drop_first()[i - 1] == s[i]);
        assert forall|j: int| 0 <= j < i - 1 implies !p(#[trigger] s.drop_first()[j]) by {
            assert(s.drop_first()[j] == s[j + 1]);
        }
        lemma_find_first_at(s.drop_first(), p, i - 1);
    }
}

/// A sequence with no match has a zero match count.
pub proof fn lemma_count_matching_zero<T>(s: Seq<T>, p: spec_fn(T) -> bool)
    requires
        forall|i: int| 0 <= i < s.len() ==> !p(#[trigger] s[i]),
    ensures
        count_matching(s, p) == 0,
    decreases s.len(),
{
    if s.len() > 0 {
        assert(forall|i: int|
            0 <= i < s.drop_last().len() ==> !p(#[trigger] s.drop_last()[i]));
        lemma_count_matching_zero(s.drop_last(), p);
    }
}

/// A sequence whose only match sits at index `i` has a match count of one.
pub proof fn lemma_count_matching_one<T>(s: Seq<T>, p: spec_fn(T) -> bool, i: int)
    requires
        0 <= i < s.len(),
        p(s[i]),
        forall|j: int| 0 <= j < s.len() && j != i ==> !p(#[trigger] s[j]),
    ensures
        count_matching(s, p) == 1,
    decreases s.len(),
{
    if i == s.len() - 1 {
        assert(forall|j: int|
            0 <= j < s.drop_last().len() ==> !p(#[trigger] s.drop_last()[j]));
        lemma_count_matching_zero(s.drop_last(), p);
    } else {
        assert(s.drop_last()[i] == s[i]);
        assert(forall|j: int|
            0 <= j < s.drop_last().len() && j != i ==> !p(#[trigger] s.drop_last()[j]));
        lemma_count_matching_one(s.drop_last(), p, i);
        assert(!p(s.last()));
    }
}

/// A projection keeps nothing when nothing matches.
pub proof fn lemma_project_matching_empty<T, U>(s: Seq<T>, p: spec_fn(T) -> bool, f: spec_fn(T) -> U)
    requires
        forall|i: int| 0 <= i < s.len() ==> !p(#[trigger] s[i]),
    ensures
        project_matching(s, p, f) == Seq::<U>::empty(),
    decreases s.len(),
{
    if s.len() > 0 {
        assert(forall|i: int|
            0 <= i < s.drop_last().len() ==> !p(#[trigger] s.drop_last()[i]));
        lemma_project_matching_empty(s.drop_last(), p, f);
    }
}

/// The identity mapping, for projections that keep rows whole.
pub open spec fn id_fn<T>() -> spec_fn(T) -> T {
    |x: T| x
}

/// Every row an identity projection keeps satisfies the predicate it was
/// filtered by.
pub proof fn lemma_project_matching_all<T>(s: Seq<T>, p: spec_fn(T) -> bool)
    ensures
        forall|k: int|
            0 <= k < project_matching(s, p, id_fn::<T>()).len() ==> p(
                #[trigger] project_matching(s, p, id_fn::<T>())[k],
            ),
    decreases s.len(),
{
    if s.len() > 0 {
        lemma_project_matching_all(s.drop_last(), p);
        let proj = project_matching(s, p, id_fn::<T>());
        let proj1 = project_matching(s.drop_last(), p, id_fn::<T>());
        assert forall|k: int| 0 <= k < proj.len() implies p(#[trigger] proj[k]) by {
            if p(s.last()) && k == proj.len() - 1 {
                assert(proj[k] == id_fn::<T>()(s.last()));
                assert(proj[k] == s.last());
            } else {
                assert(proj[k] == proj1[k]);
            }
        }
    }
}

/// Every row an identity projection keeps comes from the sequence it was
/// projected from.
pub proof fn lemma_project_matching_subset<T>(s: Seq<T>, p: spec_fn(T) -> bool)
    ensures
        forall|k: int|
            0 <= k < project_matching(s, p, id_fn::<T>()).len() ==> exists|i: int|
                0 <= i < s.len() && #[trigger] project_matching(s, p, id_fn::<T>())[k] == s[i],
    decreases s.len(),
{
    let proj = project_matching(s, p, id_fn::<T>());
    if s.len() > 0 {
        let s1 = s.drop_last();
        let proj1 = project_matching(s1, p, id_fn::<T>());
        lemma_project_matching_subset(s1, p);
        assert forall|k: int| 0 <= k < proj.len() implies exists|i: int|
            0 <= i < s.len() && #[trigger] proj[k] == s[i] by {
            if p(s.last()) && k == proj.len() - 1 {
                assert(proj[k] == s[s.len() - 1]);
            } else {
                assert(proj[k] == proj1[k]);
                let i = choose|i: int| 0 <= i < s1.len() && proj1[k] == s1[i];
                assert(proj[k] == s[i]);
            }
        }
    }
}

/// An identity projection of a sequence whose rows are pairwise
/// conflict-free is itself pairwise conflict-free.
pub proof fn lemma_project_matching_pairwise<T>(
    s: Seq<T>,
    p: spec_fn(T) -> bool,
    c: spec_fn(T, T) -> bool,
)
    requires
        forall|i: int, j: int| 0 <= i < j < s.len() ==> !c(#[trigger] s[i], #[trigger] s[j]),
    ensures
        forall|i: int, j: int|
            0 <= i < j < project_matching(s, p, id_fn::<T>()).len() ==> !c(
                #[trigger] project_matching(s, p, id_fn::<T>())[i],
                #[trigger] project_matching(s, p, id_fn::<T>())[j],
            ),
    decreases s.len(),
{
    let proj = project_matching(s, p, id_fn::<T>());
    if s.len() > 0 {
        let s1 = s.drop_last();
        let proj1 = project_matching(s1, p, id_fn::<T>());
        assert(forall|i: int, j: int|
            0 <= i < j < s1.len() ==> !c(#[trigger] s1[i], #[trigger] s1[j]));
        lemma_project_matching_pairwise(s1, p, c);
        lemma_project_matching_subset(s1, p);
        assert forall|i: int, j: int| 0 <= i < j < proj.len() implies !c(
            #[trigger] proj[i],
            #[trigger] proj[j],
        ) by {
            if p(s.last()) && j == proj.len() - 1 {
                assert(proj[i] == proj1[i]);
                let k = choose|k: int| 0 <= k < s1.len() && proj1[i] == s1[k];
                assert(!c(s[k], s[s.len() - 1]));
                assert(proj[j] == s[s.len() - 1]);
            } else {
                assert(proj[i] == proj1[i]);
                assert(proj[j] == proj1[j]);
            }
        }
    }
}

} // verus!
