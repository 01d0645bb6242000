//! Lists: appending, concatenating.

use vstd::prelude::*;

verus! {

/// Appends `x`; what the list stands for grows by what `x` stands for.
pub fn add_item<T: DeepView>(v: &mut Vec<T>, x: T)
    ensures
        final(v).deep_view() == old(v).deep_view().push(x.deep_view()),
{
    v.push(x);
    assert(v.deep_view() =~= old(v).deep_view().push(x.deep_view()));
}

/// Moves the items of `more` to the end of `v`.
pub fn add_items<T: DeepView>(v: &mut Vec<T>, mut more: Vec<T>)
    ensures
        final(v).deep_view() == old(v).deep_view() + more.deep_view(),
{
    let ghost whole = more.deep_view();
    v.append(&mut more);
    assert(v.deep_view() =~= old(v).deep_view() + whole);
}

/// The lists one after the other.
pub open spec fn concatenated<T>(lists: Seq<Seq<T>>) -> Seq<T>
    decreases lists.len(),
{
    if lists.len() == 0 {
        Seq::empty()
    } else {
        concatenated(lists.drop_last()) + lists.last()
    }
}

/// One list more at the end.
pub proof fn lemma_concatenated_push<T>(lists: Seq<Seq<T>>, l: Seq<T>)
    ensures
        concatenated(lists.push(l)) == concatenated(lists) + l,
{
    assert(lists.push(l).drop_last() =~= lists);
}

/// The list, or an empty one when it is absent.
pub open spec fn or_empty<T>(list: Option<Seq<T>>) -> Seq<T> {
    match list {
        Some(l) => l,
        None => Seq::empty(),
    }
}

/// The elements at the places `at`, in that order; places past the end give
/// nothing.
pub open spec fn picked<T>(items: Seq<T>, at: Seq<usize>) -> Seq<T> {
    at.filter(|i: usize| i < items.len()).map_values(|i: usize| items[i as int])
}

/// Concatenating two lists of lists is concatenating each of them; one list
/// alone stays as it is.
pub proof fn concatenating_goes_list_by_list<T>(a: Seq<Seq<T>>, b: Seq<Seq<T>>)
    ensures
        concatenated(a + b) == concatenated(a) + concatenated(b),
        a.len() == 1 ==> concatenated(a) == a[0],
        a.len() == 0 ==> concatenated(a) == Seq::<T>::empty(),
    decreases b.len(),
{
    reveal_with_fuel(concatenated, 2);
    if a.len() == 1 {
        assert(concatenated(a) =~= a[0]);
    }
    if b.len() == 0 {
        assert(a + b =~= a);
        assert(concatenated(a) + concatenated(b) =~= concatenated(a));
    } else {
        concatenating_goes_list_by_list(a, b.drop_last());
        assert((a + b).drop_last() =~= a + b.drop_last());
        assert(concatenated(a) + concatenated(b.drop_last()) + b.last() =~= concatenated(a)
            + concatenated(b));
    }
}

/// Place by place: a place inside the list gives the element there, one past its
/// end gives nothing, and the elements keep the order of the places.
pub proof fn picking_goes_place_by_place<T>(items: Seq<T>, at: Seq<usize>, i: usize)
    ensures
        picked(items, at.push(i)) == if i < items.len() {
            picked(items, at).push(items[i as int])
        } else {
            picked(items, at)
        },
        picked(items, Seq::empty()) == Seq::<T>::empty(),
{
    let inside = |i: usize| i < items.len();
    at.lemma_filter_push(i, inside);
    assert(picked(items, at.push(i)) =~= if i < items.len() {
        picked(items, at).push(items[i as int])
    } else {
        picked(items, at)
    });
    Seq::<usize>::empty().lemma_filter_len(inside);
    assert(picked(items, Seq::empty()) =~= Seq::<T>::empty());
}

/// A list that is there is not replaced; one that is absent counts as empty.
pub proof fn an_absent_list_is_empty<T>(l: Seq<T>)
    ensures
        or_empty(Some(l)) == l,
        or_empty(None::<Seq<T>>) == Seq::<T>::empty(),
{
}

} // verus!
