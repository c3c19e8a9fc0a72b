//! Sequences made by walking over another sequence.

use crate::text::{law_lines_cut, lines_of, strip_cr};
use vstd::prelude::*;

verus! {

/// What `f` makes of each element of `s`, one after the other.
pub open spec fn gathered<A, B>(s: Seq<A>, f: spec_fn(A) -> Seq<B>) -> Seq<B>
    decreases s.len(),
{
    if s.len() == 0 {
        Seq::empty()
    } else {
        gathered(s.drop_last(), f) + f(s.last())
    }
}

/// One element further, `gathered` holds what `f` makes of it as well.
pub proof fn lemma_gathered_step<A, B>(s: Seq<A>, f: spec_fn(A) -> Seq<B>, i: int)
    requires
        0 <= i < s.len(),
    ensures
        gathered(s.take(i + 1), f) == gathered(s.take(i), f) + f(s[i]),
{
    assert(s.take(i + 1).drop_last() =~= s.take(i));
}

/// What was gathered came from one of the elements, and what comes from an
/// element was gathered.
pub proof fn lemma_gathered_contains<A, B>(s: Seq<A>, f: spec_fn(A) -> Seq<B>, b: B)
    ensures
        gathered(s, f).contains(b) <==> exists|i: int|
            0 <= i < s.len() && (#[trigger] f(s[i])).contains(b),
    decreases s.len(),
{
    if s.len() > 0 {
        let t = s.drop_last();
        lemma_gathered_contains(t, f, b);
        let left = gathered(t, f);
        let right = f(s.last());
        if gathered(s, f).contains(b) {
            let k = choose|k: int| 0 <= k < gathered(s, f).len() && gathered(s, f)[k] == b;
            if k < left.len() {
                assert(left[k] == b);
                let i = choose|i: int| 0 <= i < t.len() && (#[trigger] f(t[i])).contains(b);
                assert(t[i] == s[i]);
                assert(f(s[i]).contains(b));
            } else {
                assert(right[k - left.len()] == b);
                assert(f(s[s.len() - 1]).contains(b));
            }
        }
        if exists|i: int| 0 <= i < s.len() && (#[trigger] f(s[i])).contains(b) {
            let i = choose|i: int| 0 <= i < s.len() && (#[trigger] f(s[i])).contains(b);
            if i < s.len() - 1 {
                assert(t[i] == s[i]);
                assert(f(t[i]).contains(b));
                let k = choose|k: int| 0 <= k < left.len() && left[k] == b;
                assert(gathered(s, f)[k] == b);
            } else {
                let k = choose|k: int| 0 <= k < right.len() && right[k] == b;
                assert(gathered(s, f)[left.len() + k] == b);
            }
        }
    }
}

/// Where no element yields anything, nothing is gathered.
pub proof fn lemma_gathered_nothing<A, B>(s: Seq<A>, f: spec_fn(A) -> Seq<B>)
    requires
        forall|i: int| 0 <= i < s.len() ==> (#[trigger] f(s[i])).len() == 0,
    ensures
        gathered(s, f) == Seq::<B>::empty(),
    decreases s.len(),
{
    if s.len() > 0 {
        let t = s.drop_last();
        assert forall|i: int| 0 <= i < t.len() implies (#[trigger] f(t[i])).len() == 0 by {
            assert(t[i] == s[i]);
        }
        lemma_gathered_nothing(t, f);
        assert(f(s[s.len() - 1]).len() == 0);
        assert(gathered(s, f) =~= Seq::<B>::empty());
    }
}

/// What is gathered from two sequences in a row is what is gathered from each.
pub proof fn lemma_gathered_add<A, B>(s: Seq<A>, t: Seq<A>, f: spec_fn(A) -> Seq<B>)
    ensures
        gathered(s + t, f) == gathered(s, f) + gathered(t, f),
    decreases t.len(),
{
    if t.len() == 0 {
        assert(s + t =~= s);
        assert(gathered(s + t, f) =~= gathered(s, f) + gathered(t, f));
    } else {
        assert((s + t).drop_last() =~= s + t.drop_last());
        lemma_gathered_add(s, t.drop_last(), f);
        assert(gathered(s + t, f) =~= gathered(s, f) + gathered(t, f));
    }
}

/// Where each element yields one thing or nothing, what is gathered is what the
/// elements that yield something do yield.
pub proof fn lemma_gathered_filter<A, B>(
    s: Seq<A>,
    f: spec_fn(A) -> Seq<B>,
    p: spec_fn(A) -> bool,
    g: spec_fn(A) -> B,
)
    requires
        forall|a: A| #[trigger] f(a) == if p(a) {
            seq![g(a)]
        } else {
            Seq::empty()
        },
    ensures
        gathered(s, f) == s.filter(p).map_values(g),
    decreases s.len(),
{
    reveal(Seq::filter);
    if s.len() > 0 {
        lemma_gathered_filter(s.drop_last(), f, p, g);
        assert(f(s.last()) == if p(s.last()) {
            seq![g(s.last())]
        } else {
            Seq::empty()
        });
        assert(gathered(s, f) =~= s.filter(p).map_values(g));
    } else {
        assert(gathered(s, f) =~= s.filter(p).map_values(g));
    }
}

/// What is gathered from the lines of a text is what its first line yields, and
/// then what is gathered from the rest; an empty text yields nothing.
pub proof fn lemma_gathered_lines<B>(
    line: Seq<char>,
    rest: Seq<char>,
    f: spec_fn(Seq<char>) -> Seq<B>,
)
    requires
        !line.contains('\n'),
    ensures
        gathered(lines_of(line.push('\n') + rest), f) == f(strip_cr(line)) + gathered(
            lines_of(rest),
            f,
        ),
        line.len() > 0 ==> gathered(lines_of(line), f) == f(line),
        gathered(lines_of(Seq::empty()), f) == Seq::<B>::empty(),
{
    law_lines_cut(line, rest);
    lemma_gathered_add(seq![strip_cr(line)], lines_of(rest), f);
    lemma_gathered_one(strip_cr(line), f);
    lemma_gathered_one(line, f);
    assert(gathered(Seq::<Seq<char>>::empty(), f) =~= Seq::empty());
    assert(lines_of(Seq::empty()) =~= Seq::<Seq<char>>::empty());
}

proof fn lemma_gathered_one<A, B>(a: A, f: spec_fn(A) -> Seq<B>)
    ensures
        gathered(seq![a], f) == f(a),
{
    assert(seq![a].drop_last() =~= Seq::empty());
    assert(gathered(Seq::<A>::empty(), f) =~= Seq::empty());
    assert(gathered(seq![a], f) =~= f(a));
}

/// The same yields give the same sequence.
pub proof fn lemma_gathered_same<A, B>(
    s: Seq<A>,
    f: spec_fn(A) -> Seq<B>,
    g: spec_fn(A) -> Seq<B>,
)
    requires
        forall|a: A| #[trigger] f(a) == g(a),
    ensures
        gathered(s, f) == gathered(s, g),
    decreases s.len(),
{
    if s.len() > 0 {
        lemma_gathered_same(s.drop_last(), f, g);
    }
}

} // verus!
