//! First matches and selections in sequences.
use vstd::prelude::*;

verus! {

/// Where the first element that satisfies `p` stands, or the length of `s`
/// where none does.
pub open spec fn first_index<T>(s: Seq<T>, p: spec_fn(T) -> bool) -> int
    decreases s.len(),
{
    if s.len() == 0 {
        0
    } else if first_index(s.drop_last(), p) < s.len() - 1 {
        first_index(s.drop_last(), p)
    } else if p(s.last()) {
        s.len() - 1
    } else {
        s.len() as int
    }
}

/// The first element that satisfies `p`.
pub open spec fn first<T>(s: Seq<T>, p: spec_fn(T) -> bool) -> Option<T> {
    let i = first_index(s, p);
    if i < s.len() {
        Some(s[i])
    } else {
        None
    }
}

/// The first match satisfies `p`, and no element before it does.
pub proof fn lemma_first_index<T>(s: Seq<T>, p: spec_fn(T) -> bool)
    ensures
        0 <= first_index(s, p) <= s.len(),
        first_index(s, p) < s.len() ==> p(s[first_index(s, p)]),
        forall|j: int| 0 <= j < first_index(s, p) ==> !p(#[trigger] s[j]),
    decreases s.len(),
{
    if s.len() > 0 {
        let rest = s.drop_last();
        lemma_first_index(rest, p);
        assert forall|j: int| 0 <= j < first_index(s, p) implies !p(#[trigger] s[j]) by {
            if j < rest.len() {
                assert(rest[j] == s[j]);
            }
        }
    }
}

/// An element that satisfies `p` with none before it is the first match.
pub proof fn lemma_is_first<T>(s: Seq<T>, p: spec_fn(T) -> bool, i: int)
    requires
        0 <= i <= s.len(),
        i < s.len() ==> p(s[i]),
        forall|j: int| 0 <= j < i ==> !p(#[trigger] s[j]),
    ensures
        first_index(s, p) == i,
{
    lemma_first_index(s, p);
}

/// The elements that satisfy `p`, in order.
pub open spec fn select<T>(s: Seq<T>, p: spec_fn(T) -> bool) -> Seq<T>
    decreases s.len(),
{
    if s.len() == 0 {
        Seq::empty()
    } else if p(s.last()) {
        select(s.drop_last(), p).push(s.last())
    } else {
        select(s.drop_last(), p)
    }
}

/// Selecting from one element more.
pub proof fn lemma_select_take<T>(s: Seq<T>, p: spec_fn(T) -> bool, i: int)
    requires
        0 <= i < s.len(),
    ensures
        select(s.take(i + 1), p) == if p(s[i]) {
            select(s.take(i), p).push(s[i])
        } else {
            select(s.take(i), p)
        },
{
    assert(s.take(i + 1).drop_last() =~= s.take(i));
}

/// Every selected element satisfies `p` and comes from the sequence.
pub proof fn lemma_selected<T>(s: Seq<T>, p: spec_fn(T) -> bool)
    ensures
        select(s, p).len() <= s.len(),
        forall|j: int|
            0 <= j < select(s, p).len() ==> p(#[trigger] select(s, p)[j]) && s.contains(
                select(s, p)[j],
            ),
        forall|i: int|
            0 <= i < s.len() && p(#[trigger] s[i]) ==> select(s, p).contains(s[i]),
    decreases s.len(),
{
    if s.len() > 0 {
        let rest = s.drop_last();
        lemma_selected(rest, p);
        let sel = select(s, p);
        let before = select(rest, p);
        assert forall|j: int| 0 <= j < sel.len() implies p(#[trigger] sel[j]) && s.contains(
            sel[j],
        ) by {
            if j < before.len() {
                assert(before[j] == sel[j]);
                let k = choose|k: int| 0 <= k < rest.len() && rest[k] == before[j];
                assert(s[k] == sel[j]);
            } else {
                assert(s[s.len() - 1] == sel[j]);
            }
        }
        assert forall|i: int| 0 <= i < s.len() && p(#[trigger] s[i]) implies sel.contains(s[i]) by {
            if i < rest.len() {
                assert(rest[i] == s[i]);
                let k = choose|k: int| 0 <= k < before.len() && before[k] == s[i];
                assert(sel[k] == s[i]);
            } else {
                assert(sel[sel.len() - 1] == s[i]);
            }
        }
    }
}

/// Selecting keeps exactly the elements that filtering keeps, in their order.
pub proof fn selecting_is_filtering<T>(s: Seq<T>, p: spec_fn(T) -> bool)
    ensures
        select(s, p) == s.filter(p),
    decreases s.len(),
{
    reveal(Seq::filter);
    if s.len() > 0 {
        selecting_is_filtering(s.drop_last(), p);
    } else {
        assert(s.filter(p) =~= Seq::empty());
    }
}

/// The first match is an element that satisfies `p`, with none before it that
/// does; where there is no first match, no element satisfies `p`.
pub proof fn first_comes_before_all_others<T>(s: Seq<T>, p: spec_fn(T) -> bool)
    ensures
        first(s, p) matches Some(x) ==> exists|i: int|
            0 <= i < s.len() && #[trigger] s[i] == x && p(s[i]) && forall|j: int|
                0 <= j < i ==> !p(#[trigger] s[j]),
        first(s, p) is None ==> forall|j: int| 0 <= j < s.len() ==> !p(#[trigger] s[j]),
{
    lemma_first_index(s, p);
    if first(s, p) is Some {
        assert(s[first_index(s, p)] == first(s, p)->0);
    }
}

} // verus!
