//! Sequences used as ordered sets: adding an element keeps the first
//! occurrence and appends only what is not yet present.
use vstd::prelude::*;

verus! {

/// `acc` with `x` appended unless it already occurs in `acc`.
pub open spec fn add_one<A>(acc: Seq<A>, x: A) -> Seq<A> {
    if acc.contains(x) {
        acc
    } else {
        acc.push(x)
    }
}

/// The elements of `b`, in order, each added to `acc` with [`add_one`].
pub open spec fn add_all<A>(acc: Seq<A>, b: Seq<A>) -> Seq<A>
    decreases b.len(),
{
    if b.len() == 0 {
        acc
    } else {
        add_one(add_all(acc, b.drop_last()), b.last())
    }
}

/// No element occurs twice.
pub open spec fn no_dups<A>(s: Seq<A>) -> bool {
    forall|i: int, j: int| 0 <= i < j < s.len() ==> s[i] != s[j]
}

/// `b` with every later repetition of an element removed.
pub open spec fn dedup<A>(b: Seq<A>) -> Seq<A> {
    add_all(Seq::empty(), b)
}

pub proof fn lemma_add_all_step<A>(acc: Seq<A>, b: Seq<A>, i: int)
    requires
        0 <= i < b.len(),
    ensures
        add_all(acc, b.take(i + 1)) == add_one(add_all(acc, b.take(i)), b[i]),
{
    assert(b.take(i + 1).drop_last() =~= b.take(i));
}

pub proof fn lemma_add_all_single<A>(acc: Seq<A>, x: A)
    ensures
        add_all(acc, seq![x]) == add_one(acc, x),
{
    assert(seq![x].drop_last() =~= Seq::<A>::empty());
    assert(add_all(acc, Seq::<A>::empty()) == acc);
}

pub proof fn lemma_add_all_contains<A>(acc: Seq<A>, b: Seq<A>, x: A)
    ensures
        add_all(acc, b).contains(x) <==> (acc.contains(x) || b.contains(x)),
    decreases b.len(),
{
    if b.len() > 0 {
        lemma_add_all_contains(acc, b.drop_last(), x);
        let r = add_all(acc, b.drop_last());
        if b.contains(x) && !acc.contains(x) {
            let k = choose|k: int| 0 <= k < b.len() && b[k] == x;
            if k < b.len() - 1 {
                assert(b.drop_last()[k] == x);
            } else if !r.contains(x) {
                assert(r.push(x)[r.len() as int] == x);
            }
        }
        if r.contains(x) && !add_one(r, b.last()).contains(x) {
            let k = choose|k: int| 0 <= k < r.len() && r[k] == x;
            assert(r.push(b.last())[k] == x);
        }
        if add_one(r, b.last()).contains(x) && !r.contains(x) {
            let k = choose|k: int| 0 <= k < r.len() + 1 && r.push(b.last())[k] == x;
            assert(b[b.len() - 1] == x);
        }
        if b.drop_last().contains(x) {
            let k = choose|k: int| 0 <= k < b.len() - 1 && b.drop_last()[k] == x;
            assert(b[k] == x);
        }
    }
}

pub proof fn lemma_add_all_no_dups<A>(acc: Seq<A>, b: Seq<A>)
    requires
        no_dups(acc),
    ensures
        no_dups(add_all(acc, b)),
    decreases b.len(),
{
    if b.len() > 0 {
        lemma_add_all_no_dups(acc, b.drop_last());
        let r = add_all(acc, b.drop_last());
        if !r.contains(b.last()) {
            assert forall|i: int, j: int| 0 <= i < j < r.len() + 1 implies r.push(b.last())[i] != r.push(
                b.last(),
            )[j] by {
                if j == r.len() {
                    assert(r[i] == r.push(b.last())[i]);
                }
            }
        }
    }
}

pub proof fn lemma_add_all_prefix<A>(acc: Seq<A>, b: Seq<A>)
    ensures
        acc.len() <= add_all(acc, b).len() <= acc.len() + b.len(),
        add_all(acc, b).take(acc.len() as int) == acc,
    decreases b.len(),
{
    if b.len() > 0 {
        lemma_add_all_prefix(acc, b.drop_last());
        let r = add_all(acc, b.drop_last());
        assert(r.push(b.last()).take(acc.len() as int) =~= r.take(acc.len() as int));
    }
}

/// Adding a sequence without repetitions, none of whose elements is already
/// present, appends it unchanged.
pub proof fn lemma_add_all_fresh<A>(acc: Seq<A>, b: Seq<A>)
    requires
        no_dups(b),
        forall|i: int| 0 <= i < b.len() ==> !acc.contains(#[trigger] b[i]),
    ensures
        add_all(acc, b) == acc + b,
    decreases b.len(),
{
    if b.len() > 0 {
        let bl = b.drop_last();
        assert forall|i: int| 0 <= i < bl.len() implies !acc.contains(#[trigger] bl[i]) by {
            assert(bl[i] == b[i]);
        }
        lemma_add_all_fresh(acc, bl);
        if (acc + bl).contains(b.last()) {
            let k = choose|k: int| 0 <= k < (acc + bl).len() && (acc + bl)[k] == b.last();
            if k < acc.len() {
                assert(acc[k] == b[b.len() - 1]);
            } else {
                assert(b[k - acc.len()] == b[b.len() - 1]);
            }
        }
        assert((acc + bl).push(b.last()) =~= acc + b);
    }
}

/// Adding elements that are all present changes nothing.
pub proof fn lemma_add_all_present<A>(acc: Seq<A>, b: Seq<A>)
    requires
        forall|i: int| 0 <= i < b.len() ==> acc.contains(#[trigger] b[i]),
    ensures
        add_all(acc, b) == acc,
    decreases b.len(),
{
    if b.len() > 0 {
        let bl = b.drop_last();
        assert forall|i: int| 0 <= i < bl.len() implies acc.contains(#[trigger] bl[i]) by {
            assert(bl[i] == b[i]);
        }
        lemma_add_all_present(acc, bl);
        assert(acc.contains(b[b.len() - 1]));
    }
}

} // verus!
