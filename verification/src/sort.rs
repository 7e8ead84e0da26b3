//! Stable sorting by an integer key, as `sort_by`/`sort_by_key` of std do it.
use vstd::prelude::*;

verus! {

/// A value with an integer sort key.
pub trait SortKey {
    /// The key of the value.
    spec fn key(&self) -> u64;

    /// Computes the key.
    fn sort_key(&self) -> (res: u64)
        ensures
            res == self.key(),
    ;
}

/// Whether key `a` may stand before key `b` (descending or ascending order).
pub open spec fn in_order(a: u64, b: u64, desc: bool) -> bool {
    if desc {
        a >= b
    } else {
        a <= b
    }
}

/// The keys of `s` are in order.
pub open spec fn sorted_by_key<T: SortKey>(s: Seq<T>, desc: bool) -> bool {
    forall|i: int, j: int| 0 <= i < j < s.len() ==> in_order(#[trigger] s[i].key(), #[trigger] s[j].key(), desc)
}

/// The elements of `s` whose key is `k`, in their order in `s`.
pub open spec fn with_key<T: SortKey>(s: Seq<T>, k: u64) -> Seq<T> {
    s.filter(|x: T| x.key() == k)
}

/// `out` is `input` sorted stably by key: it is in order, and the elements of each
/// key come in the order they had in `input`.
pub open spec fn stable_sorted<T: SortKey>(input: Seq<T>, out: Seq<T>, desc: bool) -> bool {
    &&& sorted_by_key(out, desc)
    &&& forall|k: u64| #[trigger] with_key(out, k) == with_key(input, k)
}

proof fn lemma_filter_insert<T: SortKey>(s: Seq<T>, p: int, x: T, k: u64)
    requires
        0 <= p <= s.len(),
    ensures
        with_key(s.insert(p, x), k) == with_key(s.take(p), k) + with_key(seq![x], k) + with_key(
            s.skip(p),
            k,
        ),
        with_key(s, k) == with_key(s.take(p), k) + with_key(s.skip(p), k),
{
    let f = |y: T| y.key() == k;
    assert(s.insert(p, x) =~= s.take(p) + seq![x] + s.skip(p));
    assert(s =~= s.take(p) + s.skip(p));
    Seq::filter_distributes_over_add(s.take(p) + seq![x], s.skip(p), f);
    Seq::filter_distributes_over_add(s.take(p), seq![x], f);
    Seq::filter_distributes_over_add(s.take(p), s.skip(p), f);
}

proof fn lemma_filter_single<T: SortKey>(x: T, k: u64)
    ensures
        with_key(seq![x], k) == (if x.key() == k {
            seq![x]
        } else {
            seq![]
        }),
{
    reveal_with_fuel(Seq::filter, 2);
    assert(seq![x].drop_last() =~= Seq::<T>::empty());
}

proof fn lemma_filter_none<T: SortKey>(s: Seq<T>, k: u64)
    requires
        forall|i: int| 0 <= i < s.len() ==> #[trigger] s[i].key() != k,
    ensures
        with_key(s, k) == Seq::<T>::empty(),
    decreases s.len(),
{
    reveal_with_fuel(Seq::filter, 1);
    if s.len() > 0 {
        lemma_filter_none(s.drop_last(), k);
    }
}

proof fn lemma_filter_push<T: SortKey>(s: Seq<T>, x: T, k: u64)
    ensures
        with_key(s.push(x), k) == with_key(s, k) + with_key(seq![x], k),
{
    let f = |y: T| y.key() == k;
    assert(s.push(x) =~= s + seq![x]);
    Seq::filter_distributes_over_add(s, seq![x], f);
}

proof fn lemma_with_key_contains<T: SortKey>(s: Seq<T>, i: int)
    requires
        0 <= i < s.len(),
    ensures
        with_key(s, s[i].key()).contains(s[i]),
    decreases s.len(),
{
    reveal_with_fuel(Seq::filter, 1);
    let k = s[i].key();
    if i == s.len() - 1 {
        assert(with_key(s, k).last() == s[i]);
    } else {
        lemma_with_key_contains(s.drop_last(), i);
        assert(s.drop_last()[i] == s[i]);
        let w = with_key(s.drop_last(), k);
        let j = choose|j: int| 0 <= j < w.len() && w[j] == s[i];
        if k == s.last().key() {
            assert(with_key(s, k) == w.push(s.last()));
            assert(with_key(s, k)[j] == s[i]);
        } else {
            assert(with_key(s, k) == w);
        }
    }
}

proof fn lemma_with_key_contains_rev<T: SortKey>(s: Seq<T>, k: u64, e: T)
    requires
        with_key(s, k).contains(e),
    ensures
        s.contains(e),
    decreases s.len(),
{
    reveal_with_fuel(Seq::filter, 1);
    if s.len() > 0 {
        let w = with_key(s.drop_last(), k);
        if e == s.last() {
            assert(s[s.len() - 1] == e);
        } else {
            let j = choose|j: int| 0 <= j < with_key(s, k).len() && with_key(s, k)[j] == e;
            if k == s.last().key() {
                assert(with_key(s, k) == w.push(s.last()));
                assert(j < w.len());
                assert(w[j] == e);
            } else {
                assert(with_key(s, k) == w);
            }
            assert(w.contains(e));
            lemma_with_key_contains_rev(s.drop_last(), k, e);
            let q = choose|q: int| 0 <= q < s.drop_last().len() && s.drop_last()[q] == e;
            assert(s[q] == e);
        }
    }
}

/// Every element of a stable sort comes from its input.
pub proof fn lemma_sorted_from_input<T: SortKey>(input: Seq<T>, out: Seq<T>, desc: bool)
    requires
        stable_sorted(input, out, desc),
    ensures
        forall|k: int| 0 <= k < out.len() ==> input.contains(#[trigger] out[k]),
{
    assert forall|k: int| 0 <= k < out.len() implies input.contains(#[trigger] out[k]) by {
        let key = out[k].key();
        lemma_with_key_contains(out, k);
        assert(with_key(out, key) == with_key(input, key));
        lemma_with_key_contains_rev(input, key, out[k]);
    }
}

/// Every element of the input of a stable sort is in its output.
pub proof fn lemma_sorted_covers_input<T: SortKey>(input: Seq<T>, out: Seq<T>, desc: bool)
    requires
        stable_sorted(input, out, desc),
    ensures
        forall|k: int| 0 <= k < input.len() ==> out.contains(#[trigger] input[k]),
{
    assert forall|k: int| 0 <= k < input.len() implies out.contains(#[trigger] input[k]) by {
        let key = input[k].key();
        lemma_with_key_contains(input, k);
        assert(with_key(out, key) == with_key(input, key));
        lemma_with_key_contains_rev(out, key, input[k]);
    }
}

/// Sorts `v` stably by key, descending when `desc` holds and ascending otherwise.
pub fn stable_sort<T: SortKey>(v: Vec<T>, desc: bool) -> (res: Vec<T>)
    ensures
        stable_sorted(v@, res@, desc),
        res@.len() == v@.len(),
{
    let ghost input = v@;
    assert(input.len() == v.len());
    let mut rest = v;
    assert(input.skip(0) =~= input);
    let mut res: Vec<T> = Vec::new();
    let mut n: usize = 0;
    while rest.len() > 0
        invariant
            rest@.len() + n == input.len(),
            n <= input.len(),
            input.len() <= usize::MAX,
            rest@ == input.skip(n as int),
            res@.len() == n,
            sorted_by_key(res@, desc),
            forall|k: u64| #[trigger] with_key(res@, k) == with_key(input.take(n as int), k),
        decreases rest.len(),
    {
        let x = rest.remove(0);
        assert(x == input[n as int]);
        assert(rest@ =~= input.skip(n + 1));
        let kx = x.sort_key();
        let mut p: usize = 0;
        while p < res.len() && in_order_exec(res[p].sort_key(), kx, desc)
            invariant
                p <= res@.len(),
                forall|i: int| 0 <= i < p ==> in_order(#[trigger] res@[i].key(), kx, desc),
            decreases res.len() - p,
        {
            p = p + 1;
        }
        let ghost old_res = res@;
        assert(forall|i: int| p <= i < old_res.len() ==> !in_order(#[trigger] old_res[i].key(), kx, desc)) by {
            assert forall|i: int| p <= i < old_res.len() implies !in_order(#[trigger] old_res[i].key(), kx, desc) by {
                if p < old_res.len() {
                    assert(!in_order(old_res[p as int].key(), kx, desc));
                    assert(in_order(old_res[p as int].key(), old_res[i].key(), desc) || i == p);
                }
            }
        }
        res.insert(p, x);
        assert(res@ == old_res.insert(p as int, x));
        assert forall|k: u64| #[trigger] with_key(res@, k) == with_key(input.take(n + 1), k) by {
            lemma_filter_insert(old_res, p as int, x, k);
            lemma_filter_single(x, k);
            assert(input.take(n + 1) =~= input.take(n as int).push(x));
            lemma_filter_push(input.take(n as int), x, k);
            if kx == k {
                assert forall|i: int| 0 <= i < old_res.skip(p as int).len() implies #[trigger] old_res.skip(p as int)[i].key() != k by {
                    assert(old_res.skip(p as int)[i] == old_res[p + i]);
                }
                lemma_filter_none(old_res.skip(p as int), k);
                assert(with_key(old_res.take(p as int), k) + with_key(seq![x], k) + Seq::<T>::empty() =~= with_key(old_res.take(p as int), k) + with_key(seq![x], k));
                assert(with_key(old_res, k) =~= with_key(old_res.take(p as int), k) + Seq::<T>::empty());
            } else {
                assert(with_key(old_res.take(p as int), k) + Seq::<T>::empty() =~= with_key(old_res.take(p as int), k));
            }
        }
        assert forall|i: int, j: int| 0 <= i < j < res@.len() implies in_order(#[trigger] res@[i].key(), #[trigger] res@[j].key(), desc) by {
            if j < p {
                assert(res@[i] == old_res[i] && res@[j] == old_res[j]);
            } else if j == p {
                assert(res@[i] == old_res[i]);
            } else if i == p {
                assert(res@[j] == old_res[j - 1]);
            } else if i < p {
                assert(res@[i] == old_res[i] && res@[j] == old_res[j - 1]);
            } else {
                assert(res@[i] == old_res[i - 1] && res@[j] == old_res[j - 1]);
            }
        }
        n = n + 1;
    }
    assert(input.take(n as int) =~= input);
    res
}

/// Whether key `a` may stand before key `b`.
fn in_order_exec(a: u64, b: u64, desc: bool) -> (res: bool)
    ensures
        res == in_order(a, b, desc),
{
    if desc {
        a >= b
    } else {
        a <= b
    }
}

} // verus!
