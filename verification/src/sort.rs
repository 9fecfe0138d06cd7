use vstd::prelude::*;
use crate::text::{lex_lt, lex_lt_exec, lemma_lex_trichotomy, lemma_lex_transitive};

verus! {

/// A value ordered by a string key that its plain value determines.
pub trait SortKey: View + Sized {
    /// The key of a plain value.
    spec fn key_of(v: Self::V) -> Seq<char>;

    /// The characters of the key.
    fn sort_key_chars(&self) -> (r: Vec<char>)
        ensures
            r@ == Self::key_of(self@),
    ;
}

/// The plain values of a sequence.
pub open spec fn views<T: View>(s: Seq<T>) -> Seq<T::V> {
    s.map_values(|x: T| x@)
}

/// No element has a key that sorts before the key of an earlier element.
pub open spec fn sorted_by_key<T: SortKey>(s: Seq<T::V>) -> bool {
    forall|i: int, j: int|
        0 <= i < j < s.len() ==> !lex_lt(#[trigger] T::key_of(s[j]), #[trigger] T::key_of(s[i]))
}

/// Holds of the plain values whose key is `k`.
pub open spec fn key_is<T: SortKey>(k: Seq<char>) -> spec_fn(T::V) -> bool {
    |v: T::V| T::key_of(v) == k
}

/// `out` is `input` sorted by key, with the elements of equal key in their order in `input`
/// (what std's stable `sort_by` on the key's `Ord` gives).
pub open spec fn stable_sort_of<T: SortKey>(out: Seq<T::V>, input: Seq<T::V>) -> bool {
    &&& sorted_by_key::<T>(out)
    &&& forall|k: Seq<char>| #[trigger] out.filter(key_is::<T>(k)) == input.filter(key_is::<T>(k))
}

proof fn lemma_filter_none<A>(s: Seq<A>, pred: spec_fn(A) -> bool)
    requires
        forall|i: int| 0 <= i < s.len() ==> !pred(#[trigger] s[i]),
    ensures
        s.filter(pred) =~= Seq::<A>::empty(),
    decreases s.len(),
{
    reveal(Seq::filter);
    if s.len() > 0 {
        lemma_filter_none(s.drop_last(), pred);
    }
}

proof fn lemma_filter_count<A>(s: Seq<A>, pred: spec_fn(A) -> bool, x: A)
    requires
        pred(x),
    ensures
        s.filter(pred).to_multiset().count(x) == s.to_multiset().count(x),
    decreases s.len(),
{
    broadcast use vstd::seq_lib::group_to_multiset_ensures;

    if s.len() > 0 {
        let p = s.drop_last();
        let y = s.last();
        lemma_filter_count(p, pred, x);
        assert(p.push(y) =~= s);
        p.lemma_filter_push(y, pred);
    } else {
        reveal(Seq::filter);
    }
}

/// A stable sort rearranges its input: every value occurs in the output as often as in the
/// input.
pub proof fn lemma_stable_sort_permutes<T: SortKey>(out: Seq<T::V>, input: Seq<T::V>)
    requires
        stable_sort_of::<T>(out, input),
    ensures
        out.to_multiset() == input.to_multiset(),
{
    assert forall|x: T::V| out.to_multiset().count(x) == input.to_multiset().count(x) by {
        let k = T::key_of(x);
        lemma_filter_count(out, key_is::<T>(k), x);
        lemma_filter_count(input, key_is::<T>(k), x);
        assert(out.filter(key_is::<T>(k)) == input.filter(key_is::<T>(k)));
    }
    assert(out.to_multiset() =~= input.to_multiset());
}

/// Sorts by key, keeping elements with equal keys in the order they came in.
pub fn stable_sort_by_key<T: SortKey>(v: Vec<T>) -> (res: Vec<T>)
    ensures
        stable_sort_of::<T>(views(res@), views(v@)),
{
    let ghost orig = views(v@);
    let mut input = v;
    let mut out: Vec<T> = Vec::new();
    let ghost mut done: Seq<T::V> = Seq::empty();
    proof {
        assert(done + views(input@) =~= orig);
        assert forall|k: Seq<char>| #[trigger] views(out@).filter(key_is::<T>(k)) == done.filter(
            key_is::<T>(k),
        ) by {
            reveal(Seq::filter);
            assert(views(out@) =~= Seq::<T::V>::empty());
        }
    }
    while input.len() > 0
        invariant
            orig == done + views(input@),
            sorted_by_key::<T>(views(out@)),
            forall|k: Seq<char>| #[trigger]
                views(out@).filter(key_is::<T>(k)) == done.filter(key_is::<T>(k)),
        decreases input.len(),
    {
        let ghost input0 = input@;
        let x = input.remove(0);
        let kx = x.sort_key_chars();
        let mut p: usize = 0;
        while p < out.len() && !lex_lt_exec(&kx, &out[p].sort_key_chars())
            invariant
                p <= out@.len(),
                kx@ == T::key_of(x@),
                forall|j: int| 0 <= j < p ==> !lex_lt(kx@, #[trigger] T::key_of(out@[j]@)),
            decreases out.len() - p,
        {
            p = p + 1;
        }
        let ghost o = views(out@);
        proof {
            assert forall|j: int| 0 <= j < p implies !lex_lt(kx@, #[trigger] T::key_of(o[j])) by {
                assert(o[j] == out@[j]@);
            }
            if p < out@.len() {
                assert(o[p as int] == out@[p as int]@);
            }
        }
        out.insert(p, x);
        proof {
            let xv = x@;
            let new = views(out@);
            let a = o.take(p as int);
            let b = o.skip(p as int);
            assert(new =~= a + seq![xv] + b);
            assert forall|i: int, j: int| 0 <= i < j < new.len() implies !lex_lt(
                #[trigger] T::key_of(new[j]),
                #[trigger] T::key_of(new[i]),
            ) by {
                if j < p {
                } else if j == p {
                    lemma_lex_trichotomy(T::key_of(new[j]), T::key_of(new[i]));
                } else if i < p {
                    assert(new[j] == o[j - 1]);
                } else if i == p {
                    let q = j - 1;
                    assert(new[j] == o[q]);
                    lemma_lex_trichotomy(T::key_of(o[p as int]), T::key_of(o[q]));
                    if q > p {
                        assert(!lex_lt(T::key_of(o[q]), T::key_of(o[p as int])));
                        if T::key_of(o[p as int]) != T::key_of(o[q]) {
                            lemma_lex_transitive(kx@, T::key_of(o[p as int]), T::key_of(o[q]));
                        }
                    }
                    lemma_lex_trichotomy(kx@, T::key_of(o[q]));
                } else {
                    assert(new[j] == o[j - 1]);
                    assert(new[i] == o[i - 1]);
                }
            }
            assert forall|k: Seq<char>| #[trigger] new.filter(key_is::<T>(k)) == done.push(
                xv,
            ).filter(key_is::<T>(k)) by {
                let pred = key_is::<T>(k);
                assert(o =~= a + b);
                assert(new =~= (a + seq![xv]) + b);
                assert(o.filter(pred) == done.filter(pred));
                Seq::filter_distributes_over_add(a, b, pred);
                Seq::filter_distributes_over_add(a + seq![xv], b, pred);
                assert(a.push(xv) =~= a + seq![xv]);
                a.lemma_filter_push(xv, pred);
                done.lemma_filter_push(xv, pred);
                if k == kx@ {
                    assert forall|i: int| 0 <= i < b.len() implies !pred(#[trigger] b[i]) by {
                        assert(b[i] == o[p + i]);
                        lemma_lex_trichotomy(T::key_of(o[p as int]), T::key_of(o[p + i]));
                        if i > 0 {
                            assert(!lex_lt(T::key_of(o[p + i]), T::key_of(o[p as int])));
                            if T::key_of(o[p as int]) != T::key_of(o[p + i]) {
                                lemma_lex_transitive(
                                    kx@,
                                    T::key_of(o[p as int]),
                                    T::key_of(o[p + i]),
                                );
                            }
                        }
                        lemma_lex_trichotomy(kx@, T::key_of(o[p + i]));
                    }
                    lemma_filter_none(b, pred);
                    assert(pred(xv));
                    assert(new.filter(pred) =~= a.filter(pred).push(xv) + b.filter(pred));
                    assert(o.filter(pred) =~= a.filter(pred));
                } else {
                    assert(!pred(xv));
                }
            }
            done = done.push(xv);
            assert(orig =~= done + views(input@)) by {
                assert(views(input0) =~= seq![xv] + views(input@));
            }
        }
    }
    proof {
        assert(done =~= orig);
    }
    out
}

} // verus!
