//! Stable sorting of places by a given order.

use vstd::prelude::*;

verus! {

/// Whether one place comes before another.
pub type Before = spec_fn(usize, usize) -> bool;

/// A strict order on the places of some list.
pub trait Order {
    /// Whether one place comes before another.
    spec fn rule(&self) -> Before;

    /// Whether there is such a place.
    spec fn covers(&self, a: usize) -> bool;

    /// Whether place `a` comes before place `b`.
    fn before(&self, a: usize, b: usize) -> (r: bool)
        requires
            self.covers(a),
            self.covers(b),
        ensures
            r == (self.rule())(a, b),
    ;
}

/// `s` with `x` put in after everything that it does not come before, counting from the end.
pub open spec fn inserted(f: Before, s: Seq<usize>, x: usize) -> Seq<usize>
    decreases s.len(),
{
    if s.len() > 0 && f(x, s.last()) {
        inserted(f, s.drop_last(), x).push(s.last())
    } else {
        s.push(x)
    }
}

/// `s` sorted, with places that do not come before one another left in their order.
pub open spec fn sorted(f: Before, s: Seq<usize>) -> Seq<usize>
    decreases s.len(),
{
    if s.len() == 0 {
        s
    } else {
        inserted(f, sorted(f, s.drop_last()), s.last())
    }
}

/// The first `n` places.
pub open spec fn places(n: nat) -> Seq<usize> {
    Seq::new(n, |i: int| i as usize)
}

fn insert_place<O: Order>(o: &O, v: &mut Vec<usize>, x: usize)
    requires
        o.covers(x),
        forall|i: int| 0 <= i < old(v)@.len() ==> o.covers(#[trigger] old(v)@[i]),
    ensures
        final(v)@ == inserted(o.rule(), old(v)@, x),
{
    let mut i: usize = v.len();
    let ghost all = v@;
    assert(all.take(i as int) =~= all);
    assert(all.skip(i as int) =~= Seq::<usize>::empty());
    assert(inserted(o.rule(), all, x) + all.skip(i as int) =~= inserted(o.rule(), all, x));
    while i > 0 && o.before(x, v[i - 1])
        invariant
            v@ == all,
            i <= v@.len(),
            o.covers(x),
            forall|i: int| 0 <= i < v@.len() ==> o.covers(#[trigger] v@[i]),
            inserted(o.rule(), all, x) == inserted(o.rule(), all.take(i as int), x) + all.skip(i as int),
        decreases i,
    {
        assert(all.take(i as int).drop_last() =~= all.take(i - 1));
        assert(inserted(o.rule(), all.take(i - 1), x).push(all[i - 1]) + all.skip(i as int) =~= inserted(
            o.rule(),
            all.take(i - 1),
            x,
        ) + all.skip(i - 1));
        i = i - 1;
    }
    v.insert(i, x);
    assert(v@ =~= all.take(i as int).push(x) + all.skip(i as int));
}

/// Putting a place in adds it and loses none.
pub proof fn inserted_members(f: Before, s: Seq<usize>, x: usize)
    ensures
        inserted(f, s, x).len() == s.len() + 1,
        inserted(f, s, x).to_multiset() == s.to_multiset().insert(x),
    decreases s.len(),
{
    broadcast use vstd::seq_lib::group_to_multiset_ensures;

    if s.len() > 0 && f(x, s.last()) {
        inserted_members(f, s.drop_last(), x);
        let t = inserted(f, s.drop_last(), x);
        assert(s.drop_last().push(s.last()) =~= s);
        assert(t.push(s.last()).to_multiset() =~= t.to_multiset().insert(s.last()));
        assert(s.to_multiset() =~= s.drop_last().to_multiset().insert(s.last()));
        assert(inserted(f, s, x).to_multiset() =~= s.to_multiset().insert(x));
    } else {
        assert(s.push(x).to_multiset() =~= s.to_multiset().insert(x));
    }
}

/// Sorting rearranges: nothing is lost and nothing added.
pub proof fn sorted_rearranges(f: Before, s: Seq<usize>)
    ensures
        sorted(f, s).len() == s.len(),
        sorted(f, s).to_multiset() == s.to_multiset(),
        forall|x: usize| sorted(f, s).contains(x) == #[trigger] s.contains(x),
    decreases s.len(),
{
    broadcast use vstd::seq_lib::group_to_multiset_ensures;

    if s.len() > 0 {
        sorted_rearranges(f, s.drop_last());
        inserted_members(f, sorted(f, s.drop_last()), s.last());
        assert(s.drop_last().push(s.last()) =~= s);
        assert(s.to_multiset() =~= s.drop_last().to_multiset().insert(s.last()));
    }
    assert forall|x: usize| sorted(f, s).contains(x) == #[trigger] s.contains(x) by {
        assert(sorted(f, s).contains(x) <==> sorted(f, s).to_multiset().count(x) > 0);
        assert(s.contains(x) <==> s.to_multiset().count(x) > 0);
    }
}

/// Whether no place comes before one that stands ahead of it.
pub open spec fn in_order(f: Before, s: Seq<usize>) -> bool {
    forall|i: int, j: int| 0 <= i < j < s.len() ==> !f(#[trigger] s[j], #[trigger] s[i])
}

/// Whether an order is transitive, and incomparable places are alike to all others.
pub open spec fn weak_order(f: Before) -> bool {
    &&& forall|a: usize, b: usize, c: usize|
        #[trigger] f(a, b) && #[trigger] f(b, c) ==> f(a, c)
    &&& forall|a: usize, b: usize| !(#[trigger] f(a, b) && f(b, a))
    &&& forall|a: usize, b: usize, c: usize|
        !#[trigger] f(a, b) && !#[trigger] f(b, c) ==> !f(a, c)
}

proof fn inserting_keeps_order(f: Before, s: Seq<usize>, x: usize)
    requires
        weak_order(f),
        in_order(f, s),
    ensures
        in_order(f, inserted(f, s, x)),
        forall|y: usize| (forall|i: int| 0 <= i < s.len() ==> !f(y, #[trigger] s[i]))
            && !(#[trigger] f(y, x)) ==> (forall|i: int|
            0 <= i < inserted(f, s, x).len() ==> !f(y, #[trigger] inserted(f, s, x)[i])),
    decreases s.len(),
{
    let t = inserted(f, s, x);
    if s.len() > 0 && f(x, s.last()) {
        let front = s.drop_last();
        assert(in_order(f, front)) by {
            assert forall|i: int, j: int| 0 <= i < j < front.len() implies !f(
                #[trigger] front[j],
                #[trigger] front[i],
            ) by {
                assert(!f(s[j], s[i]));
            }
        }
        inserting_keeps_order(f, front, x);
        let g = inserted(f, front, x);
        assert(!f(s.last(), x));
        assert forall|i: int| 0 <= i < front.len() implies !f(s.last(), #[trigger] front[i]) by {
            assert(!f(s[s.len() - 1], s[i]));
        }
        assert forall|i: int, j: int| 0 <= i < j < t.len() implies !f(
            #[trigger] t[j],
            #[trigger] t[i],
        ) by {
            if j < t.len() - 1 {
                assert(!f(g[j], g[i]));
            } else {
                assert(!f(s.last(), g[i]));
            }
        }
        assert forall|y: usize|
            (forall|i: int| 0 <= i < s.len() ==> !f(y, #[trigger] s[i]))
                && !(#[trigger] f(y, x)) implies (forall|i: int|
            0 <= i < t.len() ==> !f(y, #[trigger] t[i])) by {
            assert forall|i: int| 0 <= i < front.len() implies !f(y, #[trigger] front[i]) by {
                assert(!f(y, s[i]));
            }
            assert forall|i: int| 0 <= i < t.len() implies !f(y, #[trigger] t[i]) by {
                if i < t.len() - 1 {
                    assert(!f(y, g[i]));
                } else {
                    assert(!f(y, s[s.len() - 1]));
                }
            }
        }
    } else {
        assert forall|i: int, j: int| 0 <= i < j < t.len() implies !f(
            #[trigger] t[j],
            #[trigger] t[i],
        ) by {
            if j < s.len() {
                assert(!f(s[j], s[i]));
            } else {
                assert(t[j] == x && t[i] == s[i]);
                assert(!f(x, s[s.len() - 1]));
                if i < s.len() - 1 {
                    assert(!f(s[s.len() - 1], s[i]));
                }
            }
        }
    }
}

/// Sorting puts places in order.
pub proof fn sorted_is_in_order(f: Before, s: Seq<usize>)
    requires
        weak_order(f),
    ensures
        in_order(f, sorted(f, s)),
    decreases s.len(),
{
    if s.len() > 0 {
        sorted_is_in_order(f, s.drop_last());
        inserting_keeps_order(f, sorted(f, s.drop_last()), s.last());
    }
}

/// Sort `items` by `o`, leaving places that do not come before one another in their order.
pub fn sort_places<O: Order>(o: &O, items: &Vec<usize>) -> (out: Vec<usize>)
    requires
        forall|i: int| 0 <= i < items@.len() ==> o.covers(#[trigger] items@[i]),
    ensures
        out@ == sorted(o.rule(), items@),
{
    let mut out: Vec<usize> = Vec::new();
    let mut i: usize = 0;
    assert(items@.take(0) =~= Seq::<usize>::empty());
    while i < items.len()
        invariant
            i <= items@.len(),
            forall|k: int| 0 <= k < items@.len() ==> o.covers(#[trigger] items@[k]),
            out@ == sorted(o.rule(), items@.take(i as int)),
        decreases items@.len() - i,
    {
        proof {
            let part = items@.take(i as int);
            sorted_rearranges(o.rule(), part);
            assert forall|k: int| 0 <= k < out@.len() implies o.covers(#[trigger] out@[k]) by {
                assert(sorted(o.rule(), part).contains(out@[k]));
                assert(part.contains(out@[k]));
                let j = choose|j: int| 0 <= j < part.len() && part[j] == out@[k];
                assert(items@[j] == out@[k]);
            }
            assert(items@.take(i + 1).drop_last() =~= part);
            assert(items@.take(i + 1).last() == items@[i as int]);
        }
        insert_place(o, &mut out, items[i]);
        i = i + 1;
    }
    assert(items@.take(items@.len() as int) =~= items@);
    out
}

} // verus!
