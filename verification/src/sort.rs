//! Stable sorting of installed entries into the list order.
use vstd::prelude::*;

use crate::model::{
    InstalledBloat, OrderKey, SortKey, key_before, key_less, order_key, lemma_key_irreflexive,
    lemma_key_total, lemma_key_transitive,
};

verus! {

/// No entry of `s` comes before an entry that precedes it.
pub open spec fn sorted(s: Seq<InstalledBloat>) -> bool {
    forall|i: int, j: int|
        0 <= i < j < s.len() ==> !key_before(order_key(#[trigger] s[j]), order_key(#[trigger] s[i]))
}

/// Whether an entry has order key `k`.
pub open spec fn has_key(k: OrderKey) -> spec_fn(InstalledBloat) -> bool {
    |b: InstalledBloat| order_key(b) == k
}

/// The entries of `s` whose order key is `k`, in their order in `s`.
pub open spec fn with_key(s: Seq<InstalledBloat>, k: OrderKey) -> Seq<InstalledBloat> {
    s.filter(has_key(k))
}

proof fn lemma_filter_none(s: Seq<InstalledBloat>, p: spec_fn(InstalledBloat) -> bool)
    requires
        forall|i: int| 0 <= i < s.len() ==> !p(#[trigger] s[i]),
    ensures
        s.filter(p) == Seq::<InstalledBloat>::empty(),
    decreases s.len(),
{
    reveal(Seq::filter);
    if s.len() > 0 {
        lemma_filter_none(s.drop_last(), p);
    }
}

proof fn lemma_filter_push(s: Seq<InstalledBloat>, x: InstalledBloat, p: spec_fn(InstalledBloat) -> bool)
    ensures
        s.push(x).filter(p) == if p(x) {
            s.filter(p).push(x)
        } else {
            s.filter(p)
        },
{
    reveal(Seq::filter);
    assert(s.push(x).drop_last() =~= s);
}

/// Inserting `x` at `pos` in the sorted `out`, where `pos` is the first place
/// whose key comes after the key of `x`, keeps `out` sorted and appends `x`
/// to the entries of its key.
proof fn lemma_insert_at(out: Seq<InstalledBloat>, x: InstalledBloat, pos: int)
    requires
        sorted(out),
        0 <= pos <= out.len(),
        forall|j: int| 0 <= j < pos ==> !key_before(order_key(x), order_key(#[trigger] out[j])),
        pos < out.len() ==> key_before(order_key(x), order_key(out[pos])),
    ensures
        sorted(out.insert(pos, x)),
        forall|k: OrderKey|
            #[trigger] with_key(out.insert(pos, x), k) == if order_key(x) == k {
                with_key(out, k).push(x)
            } else {
                with_key(out, k)
            },
{
    let new = out.insert(pos, x);
    let kx = order_key(x);
    assert forall|j: int| pos <= j < out.len() implies key_before(kx, order_key(
        #[trigger] out[j],
    )) by {
        if j > pos {
            lemma_key_total(order_key(out[j]), order_key(out[pos]));
            if order_key(out[j]) != order_key(out[pos]) {
                lemma_key_transitive(kx, order_key(out[pos]), order_key(out[j]));
            }
        }
    }
    assert forall|a: int, b: int| 0 <= a < b < new.len() implies !key_before(
        order_key(#[trigger] new[b]),
        order_key(#[trigger] new[a]),
    ) by {
        if a < pos && b == pos {
        } else if a == pos {
            lemma_key_total(kx, order_key(out[b - 1]));
        } else if b < pos {
        } else if a < pos {
            assert(new[b] == out[b - 1]);
        } else {
            assert(new[a] == out[a - 1]);
            assert(new[b] == out[b - 1]);
        }
    }
    assert forall|k: OrderKey| #[trigger]
        with_key(new, k) == if kx == k {
            with_key(out, k).push(x)
        } else {
            with_key(out, k)
        } by {
        let p = has_key(k);
        let front = out.take(pos);
        let back = out.skip(pos);
        assert(out =~= front + back);
        assert(new =~= front.push(x) + back);
        Seq::filter_distributes_over_add(front, back, p);
        Seq::filter_distributes_over_add(front.push(x), back, p);
        lemma_filter_push(front, x, p);
        if kx == k {
            assert forall|i: int| 0 <= i < back.len() implies !p(#[trigger] back[i]) by {
                assert(back[i] == out[pos + i]);
                lemma_key_irreflexive(kx);
            }
            lemma_filter_none(back, p);
            assert(front.filter(p) + Seq::<InstalledBloat>::empty() =~= front.filter(p));
            assert(front.filter(p).push(x) + Seq::<InstalledBloat>::empty() =~= front.filter(
                p,
            ).push(x));
        }
    }
}

/// `items` in the list order; entries with equal keys keep their order
/// (the sort is stable, as `slice::sort` is).
pub fn sort_entries(items: Vec<InstalledBloat>) -> (res: Vec<InstalledBloat>)
    ensures
        sorted(res@),
        forall|k: OrderKey| #[trigger] with_key(res@, k) == with_key(items@, k),
{
    let ghost orig = items@;
    let mut rest = items;
    let mut out: Vec<InstalledBloat> = Vec::new();
    let mut keys: Vec<SortKey> = Vec::new();
    let n = rest.len();
    let mut i: usize = 0;
    proof {
        reveal(Seq::filter);
        assert forall|k: OrderKey| #[trigger] with_key(out@, k) == with_key(orig.take(0), k) by {
            assert(orig.take(0) =~= out@);
        }
    }
    while i < n
        invariant
            n == orig.len(),
            i <= n,
            rest@ == orig.skip(i as int),
            out@.len() == i,
            keys@.len() == i,
            forall|j: int| 0 <= j < i ==> (#[trigger] keys@[j]).key() == order_key(out@[j]),
            sorted(out@),
            forall|k: OrderKey| #[trigger] with_key(out@, k) == with_key(orig.take(i as int), k),
        decreases n - i,
    {
        let x = rest.remove(0);
        assert(x == orig[i as int]);
        assert(rest@ =~= orig.skip(i + 1));
        let kx = x.sort_key();
        let mut pos: usize = 0;
        while pos < keys.len() && !key_less(&kx, &keys[pos])
            invariant
                keys@.len() == i,
                out@.len() == i,
                kx.key() == order_key(x),
                forall|j: int| 0 <= j < i ==> (#[trigger] keys@[j]).key() == order_key(out@[j]),
                pos <= i,
                forall|j: int| 0 <= j < pos ==> !key_before(kx.key(), (#[trigger] keys@[j]).key()),
            decreases i - pos,
        {
            pos = pos + 1;
        }
        let ghost old_out = out@;
        let ghost old_keys = keys@;
        proof {
            assert forall|j: int| 0 <= j < pos implies !key_before(
                order_key(x),
                order_key(#[trigger] old_out[j]),
            ) by {
                assert(keys@[j].key() == order_key(out@[j]));
            }
            lemma_insert_at(old_out, x, pos as int);
            assert forall|k: OrderKey| #[trigger]
                with_key(orig.take(i + 1), k) == if order_key(x) == k {
                    with_key(orig.take(i as int), k).push(x)
                } else {
                    with_key(orig.take(i as int), k)
                } by {
                assert(orig.take(i + 1) =~= orig.take(i as int).push(x));
                lemma_filter_push(orig.take(i as int), x, has_key(k));
            }
        }
        out.insert(pos, x);
        keys.insert(pos, kx);
        assert forall|j: int| 0 <= j < i + 1 implies (#[trigger] keys@[j]).key() == order_key(
            out@[j],
        ) by {
            if j < pos {
                assert(keys@[j] == old_keys[j]);
                assert(out@[j] == old_out[j]);
            } else if j > pos {
                assert(keys@[j] == old_keys[j - 1]);
                assert(out@[j] == old_out[j - 1]);
            }
        }
        i = i + 1;
    }
    assert(orig.take(n as int) =~= orig);
    out
}

} // verus!
