//! The order of `String` (lexicographic by Unicode scalar value, which is
//! the byte order of UTF-8) and sorting by it.
use vstd::prelude::*;
use vstd::relations::{sorted_by, total_ordering};
use crate::text::{chars_of, strings_view};

verus! {

/// `a <= b` in the order of `String`.
pub open spec fn str_le(a: Seq<char>, b: Seq<char>) -> bool
    decreases a.len(),
{
    if a.len() == 0 {
        true
    } else if b.len() == 0 {
        false
    } else if a[0] != b[0] {
        a[0] < b[0]
    } else {
        str_le(a.drop_first(), b.drop_first())
    }
}

pub open spec fn str_leq() -> spec_fn(Seq<char>, Seq<char>) -> bool {
    |a: Seq<char>, b: Seq<char>| str_le(a, b)
}

proof fn lemma_le_refl(a: Seq<char>)
    ensures
        str_le(a, a),
    decreases a.len(),
{
    if a.len() > 0 {
        lemma_le_refl(a.drop_first());
    }
}

proof fn lemma_le_antisym(a: Seq<char>, b: Seq<char>)
    requires
        str_le(a, b),
        str_le(b, a),
    ensures
        a == b,
    decreases a.len(),
{
    if a.len() > 0 && b.len() > 0 {
        if a[0] == b[0] {
            lemma_le_antisym(a.drop_first(), b.drop_first());
            assert(a.drop_first() =~= b.drop_first());
            assert(a.drop_first().len() == b.drop_first().len());
            assert(a.len() == b.len());
            assert forall|i: int| 0 <= i < a.len() implies a[i] == b[i] by {
                if i > 0 {
                    assert(a[i] == a.drop_first()[i - 1]);
                    assert(b[i] == b.drop_first()[i - 1]);
                }
            }
            assert(a =~= b);
        } else {
        }
    }
    if a.len() == 0 && b.len() == 0 {
        assert(a =~= b);
    }
}

proof fn lemma_le_trans(a: Seq<char>, b: Seq<char>, c: Seq<char>)
    requires
        str_le(a, b),
        str_le(b, c),
    ensures
        str_le(a, c),
    decreases a.len(),
{
    if a.len() > 0 && b.len() > 0 && c.len() > 0 {
        if a[0] == b[0] && b[0] == c[0] {
            lemma_le_trans(a.drop_first(), b.drop_first(), c.drop_first());
        }
    }
}

proof fn lemma_le_total(a: Seq<char>, b: Seq<char>)
    ensures
        str_le(a, b) || str_le(b, a),
    decreases a.len(),
{
    if a.len() > 0 && b.len() > 0 {
        if a[0] == b[0] {
            lemma_le_total(a.drop_first(), b.drop_first());
        }
    }
}

/// The order of strings is a total order.
pub proof fn law_str_order_total()
    ensures
        total_ordering(str_leq()),
{
    assert forall|a: Seq<char>| #[trigger] str_leq()(a, a) by {
        lemma_le_refl(a);
    }
    assert forall|a: Seq<char>, b: Seq<char>|
        #[trigger] str_leq()(a, b) && #[trigger] str_leq()(b, a) implies a == b by {
        lemma_le_antisym(a, b);
    }
    assert forall|a: Seq<char>, b: Seq<char>, c: Seq<char>|
        #[trigger] str_leq()(a, b) && #[trigger] str_leq()(b, c) implies str_leq()(a, c) by {
        lemma_le_trans(a, b, c);
    }
    assert forall|a: Seq<char>, b: Seq<char>| #[trigger] str_leq()(a, b) || str_leq()(b, a) by {
        lemma_le_total(a, b);
    }
}

/// `a <= b` as strings (`String` comparison).
pub fn str_le_exec(a: &str, b: &str) -> (r: bool)
    ensures
        r == str_le(a@, b@),
{
    let x = chars_of(a);
    let y = chars_of(b);
    let mut i: usize = 0;
    assert(x@.skip(0) =~= x@);
    assert(y@.skip(0) =~= y@);
    while i < x.len() && i < y.len() && x[i] == y[i]
        invariant
            x@ == a@,
            y@ == b@,
            i <= x@.len(),
            i <= y@.len(),
            str_le(a@, b@) == str_le(x@.skip(i as int), y@.skip(i as int)),
        decreases x.len() - i,
    {
        assert(x@.skip(i as int).drop_first() =~= x@.skip(i + 1));
        assert(y@.skip(i as int).drop_first() =~= y@.skip(i + 1));
        i = i + 1;
    }
    if i == x.len() {
        true
    } else if i == y.len() {
        false
    } else {
        assert(x@.skip(i as int)[0] == x@[i as int]);
        assert(y@.skip(i as int)[0] == y@[i as int]);
        x[i] < y[i]
    }
}

/// `v` sorted in the order of strings (what `Vec::sort` gives).
pub fn sorted_strings(v: &Vec<String>) -> (r: Vec<String>)
    ensures
        strings_view(r@) == strings_view(v@).sort_by(str_leq()),
{
    broadcast use vstd::seq_lib::group_to_multiset_ensures;

    let ghost keys = strings_view(v@);
    let mut out: Vec<String> = Vec::new();
    let mut i: usize = 0;
    proof {
        law_str_order_total();
        assert(keys.take(0) =~= Seq::<Seq<char>>::empty());
        assert(strings_view(out@) =~= Seq::<Seq<char>>::empty());
    }
    while i < v.len()
        invariant
            i <= v@.len(),
            keys == strings_view(v@),
            total_ordering(str_leq()),
            sorted_by(strings_view(out@), str_leq()),
            strings_view(out@).to_multiset() == keys.take(i as int).to_multiset(),
        decreases v.len() - i,
    {
        let k = v[i].clone();
        let mut j: usize = 0;
        while j < out.len() && str_le_exec(out[j].as_str(), k.as_str())
            invariant
                j <= out@.len(),
                forall|m: int| 0 <= m < j ==> str_le(#[trigger] out@[m]@, k@),
            decreases out.len() - j,
        {
            j = j + 1;
        }
        let ghost before = strings_view(out@);
        let ghost kv = k@;
        proof {
            if j < before.len() {
                lemma_le_total(before[j as int], kv);
            }
        }
        out.insert(j, k);
        proof {
            let after = strings_view(out@);
            assert(after =~= before.insert(j as int, kv));
            assert forall|a: int, b: int| 0 <= a < b < after.len() implies #[trigger] str_leq()(
                after[a],
                after[b],
            ) by {
                if b < j {
                    assert(after[a] == before[a] && after[b] == before[b]);
                } else if b == j {
                    assert(after[a] == before[a]);
                    assert(str_le(out@[a]@, kv));
                } else if a == j {
                    assert(after[b] == before[b - 1]);
                    assert(str_le(kv, before[j as int]));
                    if b - 1 > j {
                        assert(str_leq()(before[j as int], before[b - 1]));
                        lemma_le_trans(kv, before[j as int], before[b - 1]);
                    }
                } else if a < j {
                    assert(after[a] == before[a] && after[b] == before[b - 1]);
                    assert(str_leq()(before[a], before[b - 1]));
                } else {
                    assert(after[a] == before[a - 1] && after[b] == before[b - 1]);
                    assert(str_leq()(before[a - 1], before[b - 1]));
                }
            }
            assert(keys.take(i + 1) =~= keys.take(i as int).push(keys[i as int]));
            assert(keys[i as int] == kv);
            vstd::seq_lib::to_multiset_insert(before, j as int, kv);
            vstd::seq_lib::to_multiset_build(keys.take(i as int), kv);
        }
        i = i + 1;
    }
    proof {
        assert(keys.take(v@.len() as int) =~= keys);
        keys.lemma_sort_by_ensures(str_leq());
        vstd::seq_lib::lemma_sorted_unique(strings_view(out@), keys.sort_by(str_leq()), str_leq());
    }
    out
}

} // verus!
