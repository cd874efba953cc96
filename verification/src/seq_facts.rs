//! What filtered, mapped and flattened sequences hold.

use vstd::prelude::*;

verus! {

/// What a filtered sequence holds: the items of the sequence that pass the test.
pub(crate) proof fn lemma_filter_holds<A>(s: Seq<A>, test: spec_fn(A) -> bool, x: A)
    ensures
        s.filter(test).contains(x) <==> s.contains(x) && test(x),
{
    if s.filter(test).contains(x) {
        s.lemma_filter_contains_rev(test, x);
        let i = choose|i: int| 0 <= i < s.filter(test).len() && s.filter(test)[i] == x;
        s.lemma_filter_pred(test, i);
    }
    if s.contains(x) && test(x) {
        let i = choose|i: int| 0 <= i < s.len() && s[i] == x;
        s.lemma_filter_contains(test, i);
    }
}

/// What a mapped sequence holds: the images of the items of the sequence.
pub(crate) proof fn lemma_map_holds<A, B>(s: Seq<A>, image: spec_fn(A) -> B, y: B)
    ensures
        s.map_values(image).contains(y) <==> exists|i: int|
            0 <= i < s.len() && image(#[trigger] s[i]) == y,
{
    let mapped = s.map_values(image);
    if mapped.contains(y) {
        let i = choose|i: int| 0 <= i < mapped.len() && mapped[i] == y;
        assert(image(s[i]) == y);
    }
    if exists|i: int| 0 <= i < s.len() && image(#[trigger] s[i]) == y {
        let i = choose|i: int| 0 <= i < s.len() && image(#[trigger] s[i]) == y;
        assert(mapped[i] == y);
    }
}

/// What a flattened image holds: what the images of the items hold.
pub(crate) proof fn lemma_flat_map_holds<A, B>(s: Seq<A>, image: spec_fn(A) -> Seq<B>, y: B)
    ensures
        s.flat_map(image).contains(y) <==> exists|i: int|
            0 <= i < s.len() && image(#[trigger] s[i]).contains(y),
    decreases s.len(),
{
    if s.len() == 0 {
        assert(s.map_values(image) =~= Seq::<Seq<B>>::empty());
        assert(s.flat_map(image) =~= Seq::<B>::empty());
    } else {
        let front = s.drop_last();
        let last = s.last();
        assert(s =~= front.push(last));
        front.lemma_flat_map_push(image, last);
        lemma_flat_map_holds(front, image, y);
        let whole = front.flat_map(image) + image(last);
        assert(s.flat_map(image) == whole);
        if whole.contains(y) {
            let k = choose|k: int| 0 <= k < whole.len() && whole[k] == y;
            if k < front.flat_map(image).len() {
                assert(front.flat_map(image)[k] == y);
                let i = choose|i: int| 0 <= i < front.len() && image(#[trigger] front[i]).contains(y);
                assert(image(s[i]).contains(y));
            } else {
                assert(image(last)[k - front.flat_map(image).len()] == y);
                assert(image(s[s.len() - 1]).contains(y));
            }
        }
        if exists|i: int| 0 <= i < s.len() && image(#[trigger] s[i]).contains(y) {
            let i = choose|i: int| 0 <= i < s.len() && image(#[trigger] s[i]).contains(y);
            if i < front.len() {
                assert(image(front[i]).contains(y));
                let k = choose|k: int|
                    0 <= k < front.flat_map(image).len() && front.flat_map(image)[k] == y;
                assert(whole[k] == y);
            } else {
                let tail = image(last);
                let k = choose|k: int| 0 <= k < tail.len() && tail[k] == y;
                assert(whole[front.flat_map(image).len() + k] == y);
            }
        }
    }
}

/// What the image of a filtered sequence holds.
pub(crate) proof fn lemma_filter_map_holds<A, B>(
    s: Seq<A>,
    test: spec_fn(A) -> bool,
    image: spec_fn(A) -> B,
    y: B,
)
    ensures
        s.filter(test).map_values(image).contains(y) <==> exists|i: int|
            0 <= i < s.len() && test(#[trigger] s[i]) && image(s[i]) == y,
{
    let kept = s.filter(test);
    lemma_map_holds(kept, image, y);
    if kept.map_values(image).contains(y) {
        let k = choose|k: int| 0 <= k < kept.len() && image(#[trigger] kept[k]) == y;
        assert(kept.contains(kept[k]));
        lemma_filter_holds(s, test, kept[k]);
        let i = choose|i: int| 0 <= i < s.len() && s[i] == kept[k];
        assert(test(s[i]) && image(s[i]) == y);
    }
    if exists|i: int| 0 <= i < s.len() && test(#[trigger] s[i]) && image(s[i]) == y {
        let i = choose|i: int| 0 <= i < s.len() && test(#[trigger] s[i]) && image(s[i]) == y;
        assert(s.contains(s[i]));
        lemma_filter_holds(s, test, s[i]);
        let k = choose|k: int| 0 <= k < kept.len() && kept[k] == s[i];
        assert(image(kept[k]) == y);
    }
}

/// What the flattened image of a filtered sequence holds.
pub(crate) proof fn lemma_filter_flat_map_holds<A, B>(
    s: Seq<A>,
    test: spec_fn(A) -> bool,
    image: spec_fn(A) -> Seq<B>,
    y: B,
)
    ensures
        s.filter(test).flat_map(image).contains(y) <==> exists|i: int|
            0 <= i < s.len() && test(#[trigger] s[i]) && image(s[i]).contains(y),
{
    let kept = s.filter(test);
    lemma_flat_map_holds(kept, image, y);
    if kept.flat_map(image).contains(y) {
        let k = choose|k: int| 0 <= k < kept.len() && image(#[trigger] kept[k]).contains(y);
        assert(kept.contains(kept[k]));
        lemma_filter_holds(s, test, kept[k]);
        let i = choose|i: int| 0 <= i < s.len() && s[i] == kept[k];
        assert(test(s[i]) && image(s[i]).contains(y));
    }
    if exists|i: int| 0 <= i < s.len() && test(#[trigger] s[i]) && image(s[i]).contains(y) {
        let i = choose|i: int|
            0 <= i < s.len() && test(#[trigger] s[i]) && image(s[i]).contains(y);
        assert(s.contains(s[i]));
        lemma_filter_holds(s, test, s[i]);
        let k = choose|k: int| 0 <= k < kept.len() && kept[k] == s[i];
        assert(image(kept[k]).contains(y));
    }
}

/// A flattened image of two sequences, one after the other, is the two
/// flattened images, one after the other.
pub(crate) proof fn lemma_flat_map_add<A, B>(a: Seq<A>, b: Seq<A>, image: spec_fn(A) -> Seq<B>)
    ensures
        (a + b).flat_map(image) == a.flat_map(image) + b.flat_map(image),
    decreases b.len(),
{
    if b.len() == 0 {
        assert(a + b =~= a);
        assert(b.flat_map(image) =~= Seq::<B>::empty());
        assert(a.flat_map(image) + b.flat_map(image) =~= a.flat_map(image));
    } else {
        let front = b.drop_last();
        assert(b =~= front.push(b.last()));
        assert(a + b =~= (a + front).push(b.last()));
        lemma_flat_map_add(a, front, image);
        (a + front).lemma_flat_map_push(image, b.last());
        front.lemma_flat_map_push(image, b.last());
        assert((a.flat_map(image) + front.flat_map(image)) + image(b.last()) =~= a.flat_map(image)
            + (front.flat_map(image) + image(b.last())));
    }
}

/// Flattening twice is flattening once what each item gives in the end.
pub(crate) proof fn lemma_flat_map_twice<A, B, C>(
    s: Seq<A>,
    first: spec_fn(A) -> Seq<B>,
    second: spec_fn(B) -> Seq<C>,
)
    ensures
        s.flat_map(first).flat_map(second) == s.flat_map(|x: A| first(x).flat_map(second)),
    decreases s.len(),
{
    let both = |x: A| first(x).flat_map(second);
    if s.len() == 0 {
        assert(s.flat_map(first) =~= Seq::<B>::empty());
        assert(s.flat_map(first).flat_map(second) =~= Seq::<C>::empty());
        assert(s.flat_map(both) =~= Seq::<C>::empty());
    } else {
        let front = s.drop_last();
        assert(s =~= front.push(s.last()));
        front.lemma_flat_map_push(first, s.last());
        front.lemma_flat_map_push(both, s.last());
        lemma_flat_map_add(front.flat_map(first), first(s.last()), second);
        lemma_flat_map_twice(front, first, second);
    }
}

/// Flattening the image of a mapped sequence is flattening what the image of each
/// mapped item gives.
pub(crate) proof fn lemma_map_then_flat_map<A, B, C>(
    s: Seq<A>,
    image: spec_fn(A) -> B,
    rows: spec_fn(B) -> Seq<C>,
)
    ensures
        s.map_values(image).flat_map(rows) == s.flat_map(|x: A| rows(image(x))),
    decreases s.len(),
{
    let both = |x: A| rows(image(x));
    if s.len() == 0 {
        assert(s.map_values(image) =~= Seq::<B>::empty());
        assert(s.map_values(image).flat_map(rows) =~= Seq::<C>::empty());
        assert(s.flat_map(both) =~= Seq::<C>::empty());
    } else {
        let front = s.drop_last();
        assert(s =~= front.push(s.last()));
        front.lemma_push_map_commute(image, s.last());
        front.map_values(image).lemma_flat_map_push(rows, image(s.last()));
        front.lemma_flat_map_push(both, s.last());
        lemma_map_then_flat_map(front, image, rows);
    }
}

/// Two flattened images of a sequence are the same where the images of each
/// item are.
pub(crate) proof fn lemma_flat_map_same<A, B>(
    s: Seq<A>,
    one: spec_fn(A) -> Seq<B>,
    other: spec_fn(A) -> Seq<B>,
)
    requires
        forall|i: int| 0 <= i < s.len() ==> one(#[trigger] s[i]) == other(s[i]),
    ensures
        s.flat_map(one) == s.flat_map(other),
    decreases s.len(),
{
    if s.len() == 0 {
        assert(s.flat_map(one) =~= Seq::<B>::empty());
        assert(s.flat_map(other) =~= Seq::<B>::empty());
    } else {
        let front = s.drop_last();
        assert(s =~= front.push(s.last()));
        front.lemma_flat_map_push(one, s.last());
        front.lemma_flat_map_push(other, s.last());
        assert forall|i: int| 0 <= i < front.len() implies one(#[trigger] front[i]) == other(
            front[i],
        ) by {
            assert(front[i] == s[i]);
        }
        lemma_flat_map_same(front, one, other);
        assert(one(s[s.len() - 1]) == other(s[s.len() - 1]));
    }
}

} // verus!
