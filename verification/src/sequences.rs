//! How a sequence that is filtered, and perhaps mapped, grows by one element.
use vstd::prelude::*;

verus! {

/// Filtering the first `i + 1` elements keeps what filtering the first `i`
/// keeps, and the next element where it passes. Nothing is kept of none, and
/// the first `elements.len()` elements are all.
pub(crate) proof fn lemma_filter_step<A>(elements: Seq<A>, keep: spec_fn(A) -> bool, i: int)
    requires
        0 <= i <= elements.len(),
    ensures
        elements.take(0).filter(keep) == Seq::<A>::empty(),
        elements.take(elements.len() as int) == elements,
        i < elements.len() ==> elements.take(i + 1).filter(keep) == (if keep(elements[i]) {
            elements.take(i).filter(keep).push(elements[i])
        } else {
            elements.take(i).filter(keep)
        }),
{
    reveal(Seq::filter);
    assert(elements.take(0) =~= Seq::empty());
    assert(elements.take(elements.len() as int) =~= elements);
    if i < elements.len() {
        assert(elements.take(i + 1).drop_last() =~= elements.take(i));
    }
}

/// The same of elements that are filtered, then mapped.
pub(crate) proof fn lemma_filter_map_step<A, B>(
    elements: Seq<A>,
    keep: spec_fn(A) -> bool,
    image: spec_fn(A) -> B,
    i: int,
)
    requires
        0 <= i <= elements.len(),
    ensures
        elements.take(0).filter(keep).map_values(image) == Seq::<B>::empty(),
        elements.take(elements.len() as int) == elements,
        i < elements.len() ==> elements.take(i + 1).filter(keep).map_values(image) == (
        if keep(elements[i]) {
            elements.take(i).filter(keep).map_values(image).push(image(elements[i]))
        } else {
            elements.take(i).filter(keep).map_values(image)
        }),
{
    lemma_filter_step(elements, keep, i);
    assert(elements.take(0).filter(keep).map_values(image) =~= Seq::empty());
    if i < elements.len() {
        let kept = elements.take(i).filter(keep);
        assert(kept.push(elements[i]).map_values(image) =~= kept.map_values(image).push(
            image(elements[i]),
        ));
    }
}

/// The same, told of an element that is added at the end.
pub(crate) proof fn lemma_filter_map_push<A, B>(
    elements: Seq<A>,
    keep: spec_fn(A) -> bool,
    image: spec_fn(A) -> B,
    next: A,
)
    ensures
        Seq::<A>::empty().filter(keep).map_values(image) == Seq::<B>::empty(),
        elements.push(next).filter(keep).map_values(image) == (if keep(next) {
            elements.filter(keep).map_values(image).push(image(next))
        } else {
            elements.filter(keep).map_values(image)
        }),
{
    let longer = elements.push(next);
    lemma_filter_map_step(longer, keep, image, elements.len() as int);
    assert(longer.take(elements.len() as int) =~= elements);
    assert(longer.take(longer.len() as int) =~= longer);
    assert(longer.take(0) =~= Seq::empty());
}

/// The same without an image.
pub(crate) proof fn lemma_filter_push<A>(elements: Seq<A>, keep: spec_fn(A) -> bool, next: A)
    ensures
        Seq::<A>::empty().filter(keep) == Seq::<A>::empty(),
        elements.push(next).filter(keep) == (if keep(next) {
            elements.filter(keep).push(next)
        } else {
            elements.filter(keep)
        }),
{
    let longer = elements.push(next);
    lemma_filter_step(longer, keep, elements.len() as int);
    assert(longer.take(elements.len() as int) =~= elements);
    assert(longer.take(longer.len() as int) =~= longer);
    assert(longer.take(0) =~= Seq::empty());
}

} // verus!
