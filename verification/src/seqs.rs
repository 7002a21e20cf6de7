//! Facts about sequences that loops over vectors need.
use crate::model::other_than;
use vstd::prelude::*;

verus! {

/// Filtering one more element either keeps it at the end or drops it.
pub proof fn lemma_filter_step<A>(s: Seq<A>, keep: spec_fn(A) -> bool, i: int)
    requires
        0 <= i < s.len(),
    ensures
        s.take(i + 1).filter(keep) == if keep(s[i]) {
            s.take(i).filter(keep).push(s[i])
        } else {
            s.take(i).filter(keep)
        },
{
    reveal(Seq::filter);
    assert(s.take(i + 1).drop_last() =~= s.take(i));
}

/// Filtering nothing leaves nothing.
pub proof fn lemma_filter_none<A>(s: Seq<A>, keep: spec_fn(A) -> bool)
    ensures
        s.take(0).filter(keep) == Seq::<A>::empty(),
{
    reveal(Seq::filter);
}

/// Where nothing occurs twice, to remove a place is to drop its element.
pub proof fn lemma_remove_is_filter(s: Seq<u64>, i: int)
    requires
        s.no_duplicates(),
        0 <= i < s.len(),
    ensures
        s.remove(i) == s.filter(other_than(s[i])),
    decreases s.len(),
{
    reveal(Seq::filter);
    let keep = other_than(s[i]);
    let front = s.drop_last();
    if i == s.len() - 1 {
        lemma_filter_all(front, keep);
        assert(s.remove(i) =~= front);
    } else {
        lemma_remove_is_filter(front, i);
        assert(s.remove(i) =~= front.remove(i).push(s.last()));
    }
}

/// Where everything is kept, filtering changes nothing.
pub proof fn lemma_filter_all<A>(s: Seq<A>, keep: spec_fn(A) -> bool)
    requires
        forall|i: int| 0 <= i < s.len() ==> keep(#[trigger] s[i]),
    ensures
        s.filter(keep) == s,
    decreases s.len(),
{
    reveal(Seq::filter);
    if s.len() > 0 {
        lemma_filter_all(s.drop_last(), keep);
        assert(s =~= s.drop_last().push(s.last()));
    }
}

/// A filtered sequence holds exactly the elements that were there and are kept.
pub proof fn lemma_filter_has<A>(s: Seq<A>, keep: spec_fn(A) -> bool)
    ensures
        forall|a: A| #[trigger] s.filter(keep).contains(a) <==> s.contains(a) && keep(a),
    decreases s.len(),
{
    reveal(Seq::filter);
    if s.len() > 0 {
        let front = s.drop_last();
        lemma_filter_has(front, keep);
        assert(s =~= front.push(s.last()));
        assert forall|a: A| #[trigger] s.filter(keep).contains(a) <==> s.contains(a) && keep(
            a,
        ) by {
            lemma_push_has(front, s.last(), a);
            lemma_push_has(front.filter(keep), s.last(), a);
            assert(front.filter(keep).contains(a) <==> front.contains(a) && keep(a));
        }
    }
}

/// A pushed sequence holds what it held before and the new element.
pub proof fn lemma_push_has<A>(s: Seq<A>, last: A, a: A)
    ensures
        s.push(last).contains(a) <==> s.contains(a) || a == last,
{
    if s.contains(a) {
        let i = s.index_of(a);
        assert(s.push(last)[i] == a);
    }
    assert(s.push(last)[s.len() as int] == last);
    if s.push(last).contains(a) && a != last {
        let i = s.push(last).index_of(a);
        assert(s[i] == a);
    }
}

/// What is kept begins with the first element that is to be kept, and is empty where there is none.
pub proof fn lemma_filter_first<A>(s: Seq<A>, keep: spec_fn(A) -> bool)
    ensures
        s.filter(keep).len() == 0 ==> forall|i: int| 0 <= i < s.len() ==> !keep(#[trigger] s[i]),
        s.filter(keep).len() > 0 ==> exists|i: int|
            0 <= i < s.len() && keep(#[trigger] s[i]) && s.filter(keep)[0] == s[i] && forall|k: int|
                0 <= k < i ==> !keep(#[trigger] s[k]),
    decreases s.len(),
{
    reveal(Seq::filter);
    if s.len() > 0 {
        let front = s.drop_last();
        lemma_filter_first(front, keep);
        if front.filter(keep).len() > 0 {
            let i = choose|i: int|
                0 <= i < front.len() && keep(#[trigger] front[i]) && front.filter(keep)[0]
                    == front[i] && forall|k: int| 0 <= k < i ==> !keep(#[trigger] front[k]);
            assert(keep(s[i]) && s.filter(keep)[0] == s[i]);
            assert forall|k: int| 0 <= k < i implies !keep(#[trigger] s[k]) by {
                assert(front[k] == s[k]);
            }
        } else {
            assert forall|k: int| 0 <= k < s.len() - 1 implies !keep(#[trigger] s[k]) by {
                assert(front[k] == s[k]);
            }
            if keep(s.last()) {
                assert(s.filter(keep)[0] == s[s.len() - 1]);
            }
        }
    }
}

/// Filtering twice keeps what both conditions keep.
pub proof fn lemma_filter_twice<A>(
    s: Seq<A>,
    keep: spec_fn(A) -> bool,
    also: spec_fn(A) -> bool,
    both: spec_fn(A) -> bool,
)
    requires
        forall|i: int| 0 <= i < s.len() ==> both(#[trigger] s[i]) == (keep(s[i]) && also(s[i])),
    ensures
        s.filter(keep).filter(also) == s.filter(both),
    decreases s.len(),
{
    reveal(Seq::filter);
    if s.len() > 0 {
        let front = s.drop_last();
        assert forall|i: int| 0 <= i < front.len() implies both(#[trigger] front[i]) == (keep(
            front[i],
        ) && also(front[i])) by {
            assert(front[i] == s[i]);
        }
        lemma_filter_twice(front, keep, also, both);
        assert(both(s[s.len() - 1]) == (keep(s.last()) && also(s.last())));
        if keep(s.last()) {
            assert(s.filter(keep).drop_last() =~= front.filter(keep));
        }
    }
}

/// Filtering does not make anything occur twice.
pub proof fn lemma_filter_distinct<A>(s: Seq<A>, keep: spec_fn(A) -> bool)
    requires
        s.no_duplicates(),
    ensures
        s.filter(keep).no_duplicates(),
    decreases s.len(),
{
    reveal(Seq::filter);
    if s.len() > 0 {
        let front = s.drop_last();
        lemma_filter_distinct(front, keep);
        lemma_filter_has(front, keep);
        assert(!front.contains(s.last())) by {
            if front.contains(s.last()) {
                let i = front.index_of(s.last());
                assert(s[i] == s[s.len() - 1]);
            }
        }
        assert(!front.filter(keep).contains(s.last()));
    }
}

/// Where all elements differ in some respect, what is kept of them differs in it too.
pub proof fn lemma_filter_map_distinct<A, B>(
    s: Seq<A>,
    keep: spec_fn(A) -> bool,
    aspect: spec_fn(A) -> B,
)
    requires
        forall|i: int, j: int|
            0 <= i < j < s.len() ==> aspect(#[trigger] s[i]) != aspect(#[trigger] s[j]),
    ensures
        s.filter(keep).map_values(aspect).no_duplicates(),
    decreases s.len(),
{
    reveal(Seq::filter);
    if s.len() > 0 {
        let front = s.drop_last();
        assert forall|i: int, j: int| 0 <= i < j < front.len() implies aspect(
            #[trigger] front[i],
        ) != aspect(#[trigger] front[j]) by {
            assert(front[i] == s[i] && front[j] == s[j]);
        }
        lemma_filter_map_distinct(front, keep, aspect);
        let kept = front.filter(keep);
        lemma_filter_has(front, keep);
        assert forall|i: int| 0 <= i < kept.len() implies aspect(#[trigger] kept[i]) != aspect(
            s.last(),
        ) by {
            assert(kept.contains(kept[i]));
            let k = front.index_of(kept[i]);
            assert(s[k] == kept[i]);
            assert(aspect(s[k]) != aspect(s[s.len() - 1]));
        }
        let before = kept.map_values(aspect);
        let after = s.filter(keep).map_values(aspect);
        assert forall|i: int, j: int| 0 <= i < after.len() && 0 <= j < after.len() && i
            != j implies after[i] != after[j] by {
            if i < kept.len() {
                assert(after[i] == before[i] && before[i] == aspect(kept[i]));
            }
            if j < kept.len() {
                assert(after[j] == before[j] && before[j] == aspect(kept[j]));
            }
        }
    }
}

/// Doing something different for each of some different elements, nothing is done twice.
pub proof fn lemma_map_distinct<A, B>(s: Seq<A>, image: spec_fn(A) -> B)
    requires
        s.no_duplicates(),
        forall|a: A, b: A| #[trigger] image(a) == #[trigger] image(b) ==> a == b,
    ensures
        s.map_values(image).no_duplicates(),
{
    let images = s.map_values(image);
    assert forall|i: int, j: int| 0 <= i < images.len() && 0 <= j < images.len() && i
        != j implies images[i] != images[j] by {
        assert(images[i] == image(s[i]) && images[j] == image(s[j]));
        assert(s[i] != s[j]);
    }
}

/// What is kept of a prefix comes first in what is kept of the whole.
pub proof fn lemma_filter_prefix<A>(s: Seq<A>, keep: spec_fn(A) -> bool, n: int)
    requires
        0 <= n <= s.len(),
    ensures
        s.take(n).filter(keep).len() <= s.filter(keep).len(),
        forall|i: int|
            0 <= i < s.take(n).filter(keep).len() ==> s.filter(keep)[i] == #[trigger] s.take(
                n,
            ).filter(keep)[i],
{
    Seq::filter_distributes_over_add(s.take(n), s.skip(n), keep);
    assert(s.take(n) + s.skip(n) =~= s);
}

/// Two conditions that agree on every element keep the same.
pub proof fn lemma_filter_agrees<A>(s: Seq<A>, keep: spec_fn(A) -> bool, also: spec_fn(A) -> bool)
    requires
        forall|i: int| 0 <= i < s.len() ==> keep(#[trigger] s[i]) == also(s[i]),
    ensures
        s.filter(keep) == s.filter(also),
    decreases s.len(),
{
    reveal(Seq::filter);
    if s.len() > 0 {
        let front = s.drop_last();
        assert forall|i: int| 0 <= i < front.len() implies keep(#[trigger] front[i]) == also(
            front[i],
        ) by {
            assert(front[i] == s[i]);
        }
        lemma_filter_agrees(front, keep, also);
        assert(keep(s[s.len() - 1]) == also(s[s.len() - 1]));
    }
}

} // verus!
