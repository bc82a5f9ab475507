//! Lexicographic sort keys and a stable sort over them.
//!
//! A key is a list of fields; numbers order numerically and texts order
//! character by character by code point, which is how `str` compares
//! (UTF-8 byte order agrees with code point order). Keys compare field by
//! field, and a key that is a proper prefix of another comes first, as tuples
//! and strings do.

use vstd::prelude::*;

verus! {

/// One field of a sort key.
pub enum SortField {
    Num(u64),
    Text(Vec<char>),
}

/// The mathematical value of a key field.
pub enum FieldView {
    Num(nat),
    Text(Seq<char>),
}

impl View for SortField {
    type V = FieldView;

    open spec fn view(&self) -> FieldView {
        match self {
            SortField::Num(n) => FieldView::Num(*n as nat),
            SortField::Text(t) => FieldView::Text(t@),
        }
    }
}

/// The mathematical value of a whole key.
pub open spec fn key_view(k: Seq<SortField>) -> Seq<FieldView> {
    k.map_values(|f: SortField| f@)
}

/// Strict order of texts: character by character, a proper prefix first.
pub open spec fn text_lt(a: Seq<char>, b: Seq<char>) -> bool
    decreases a.len(),
{
    if a.len() == 0 {
        b.len() > 0
    } else if b.len() == 0 {
        false
    } else if a[0] != b[0] {
        a[0] < b[0]
    } else {
        text_lt(a.drop_first(), b.drop_first())
    }
}

/// Strict order of key fields. Fields of one position are of one kind in
/// every key this library builds; across kinds, numbers come first.
pub open spec fn field_lt(a: FieldView, b: FieldView) -> bool {
    match (a, b) {
        (FieldView::Num(x), FieldView::Num(y)) => x < y,
        (FieldView::Text(x), FieldView::Text(y)) => text_lt(x, y),
        (FieldView::Num(_), FieldView::Text(_)) => true,
        (FieldView::Text(_), FieldView::Num(_)) => false,
    }
}

/// Strict lexicographic order of keys.
pub open spec fn key_lt(a: Seq<FieldView>, b: Seq<FieldView>) -> bool
    decreases a.len(),
{
    if a.len() == 0 {
        b.len() > 0
    } else if b.len() == 0 {
        false
    } else if a[0] != b[0] {
        field_lt(a[0], b[0])
    } else {
        key_lt(a.drop_first(), b.drop_first())
    }
}

/// No text comes before itself.
pub proof fn lemma_text_lt_irreflexive(a: Seq<char>)
    ensures
        !text_lt(a, a),
    decreases a.len(),
{
    if a.len() > 0 {
        lemma_text_lt_irreflexive(a.drop_first());
    }
}

/// Of two texts, at most one comes before the other.
pub proof fn lemma_text_lt_asymmetric(a: Seq<char>, b: Seq<char>)
    ensures
        text_lt(a, b) ==> !text_lt(b, a),
    decreases a.len(),
{
    if a.len() > 0 && b.len() > 0 && a[0] == b[0] {
        lemma_text_lt_asymmetric(a.drop_first(), b.drop_first());
    }
}

/// The text order is transitive.
pub proof fn lemma_text_lt_transitive(a: Seq<char>, b: Seq<char>, c: Seq<char>)
    ensures
        text_lt(a, b) && text_lt(b, c) ==> text_lt(a, c),
    decreases a.len(),
{
    if a.len() > 0 && b.len() > 0 && c.len() > 0 {
        lemma_text_lt_transitive(a.drop_first(), b.drop_first(), c.drop_first());
    }
}

/// Of two different texts, one comes before the other.
pub proof fn lemma_text_lt_total(a: Seq<char>, b: Seq<char>)
    ensures
        a != b ==> text_lt(a, b) || text_lt(b, a),
    decreases a.len(),
{
    if a.len() > 0 && b.len() > 0 && a[0] == b[0] {
        lemma_text_lt_total(a.drop_first(), b.drop_first());
        if a.drop_first() == b.drop_first() {
            assert(a =~= seq![a[0]] + a.drop_first());
            assert(b =~= seq![b[0]] + b.drop_first());
        }
    } else if a.len() > 0 && b.len() > 0 {
        assert(a[0] < b[0] || b[0] < a[0]);
    } else if a.len() == 0 && b.len() == 0 {
        assert(a =~= b);
    }
}

/// The order of sort fields is a strict total order.
pub proof fn lemma_field_lt_facts(a: FieldView, b: FieldView, c: FieldView)
    ensures
        !field_lt(a, a),
        field_lt(a, b) ==> !field_lt(b, a),
        field_lt(a, b) && field_lt(b, c) ==> field_lt(a, c),
        a != b ==> field_lt(a, b) || field_lt(b, a),
{
    match (a, b, c) {
        (FieldView::Text(x), FieldView::Text(y), FieldView::Text(z)) => {
            lemma_text_lt_irreflexive(x);
            lemma_text_lt_asymmetric(x, y);
            lemma_text_lt_transitive(x, y, z);
            lemma_text_lt_total(x, y);
        },
        (FieldView::Text(x), FieldView::Text(y), _) => {
            lemma_text_lt_irreflexive(x);
            lemma_text_lt_asymmetric(x, y);
            lemma_text_lt_total(x, y);
        },
        (FieldView::Text(x), _, _) => {
            lemma_text_lt_irreflexive(x);
        },
        _ => {},
    }
}

/// No key comes before itself.
pub proof fn lemma_key_lt_irreflexive(a: Seq<FieldView>)
    ensures
        !key_lt(a, a),
    decreases a.len(),
{
    if a.len() > 0 {
        lemma_key_lt_irreflexive(a.drop_first());
    }
}

/// Of two keys, at most one comes before the other.
pub proof fn lemma_key_lt_asymmetric(a: Seq<FieldView>, b: Seq<FieldView>)
    ensures
        key_lt(a, b) ==> !key_lt(b, a),
    decreases a.len(),
{
    if a.len() > 0 && b.len() > 0 {
        lemma_field_lt_facts(a[0], b[0], b[0]);
        if a[0] == b[0] {
            lemma_key_lt_asymmetric(a.drop_first(), b.drop_first());
        }
    }
}

/// The key order is transitive.
pub proof fn lemma_key_lt_transitive(a: Seq<FieldView>, b: Seq<FieldView>, c: Seq<FieldView>)
    ensures
        key_lt(a, b) && key_lt(b, c) ==> key_lt(a, c),
    decreases a.len(),
{
    if a.len() > 0 && b.len() > 0 && c.len() > 0 {
        lemma_field_lt_facts(a[0], b[0], c[0]);
        lemma_field_lt_facts(a[0], c[0], b[0]);
        lemma_field_lt_facts(b[0], a[0], c[0]);
        lemma_key_lt_transitive(a.drop_first(), b.drop_first(), c.drop_first());
    }
}

/// Of two different keys, one comes before the other.
pub proof fn lemma_key_lt_total(a: Seq<FieldView>, b: Seq<FieldView>)
    ensures
        a != b ==> key_lt(a, b) || key_lt(b, a),
    decreases a.len(),
{
    if a.len() > 0 && b.len() > 0 {
        lemma_field_lt_facts(a[0], b[0], b[0]);
        if a[0] == b[0] {
            lemma_key_lt_total(a.drop_first(), b.drop_first());
            if a.drop_first() == b.drop_first() {
                assert(a =~= seq![a[0]] + a.drop_first());
                assert(b =~= seq![b[0]] + b.drop_first());
            }
        }
    } else if a.len() == 0 && b.len() == 0 {
        assert(a =~= b);
    }
}

/// Whether text `a` orders before text `b`.
pub fn text_less(a: &Vec<char>, b: &Vec<char>) -> (r: bool)
    ensures
        r == text_lt(a@, b@),
{
    let mut i: usize = 0;
    assert(a@.skip(0) =~= a@);
    assert(b@.skip(0) =~= b@);
    while i < a.len() && i < b.len()
        invariant
            i <= a.len(),
            i <= b.len(),
            text_lt(a@, b@) == text_lt(a@.skip(i as int), b@.skip(i as int)),
        decreases a.len() - i,
    {
        let x = a[i];
        let y = b[i];
        assert(a@.skip(i as int)[0] == x);
        assert(b@.skip(i as int)[0] == y);
        if x != y {
            return x < y;
        }
        assert(a@.skip(i as int).drop_first() == a@.skip(i as int + 1));
        assert(b@.skip(i as int).drop_first() == b@.skip(i as int + 1));
        i = i + 1;
    }
    i < b.len()
}

/// Whether key field `a` orders before key field `b`.
pub fn field_less(a: &SortField, b: &SortField) -> (r: bool)
    ensures
        r == field_lt(a@, b@),
{
    match (a, b) {
        (SortField::Num(x), SortField::Num(y)) => *x < *y,
        (SortField::Text(x), SortField::Text(y)) => text_less(x, y),
        (SortField::Num(_), SortField::Text(_)) => true,
        (SortField::Text(_), SortField::Num(_)) => false,
    }
}

/// Whether two key fields have the same value.
pub fn field_equal(a: &SortField, b: &SortField) -> (r: bool)
    ensures
        r == (a@ == b@),
{
    proof {
        lemma_field_lt_facts(a@, b@, b@);
    }
    !field_less(a, b) && !field_less(b, a)
}

/// Whether key `a` orders before key `b`.
pub fn key_less(a: &Vec<SortField>, b: &Vec<SortField>) -> (r: bool)
    ensures
        r == key_lt(key_view(a@), key_view(b@)),
{
    let ghost ka = key_view(a@);
    let ghost kb = key_view(b@);
    let mut i: usize = 0;
    assert(ka.skip(0) =~= ka);
    assert(kb.skip(0) =~= kb);
    while i < a.len() && i < b.len()
        invariant
            i <= a.len(),
            i <= b.len(),
            ka == key_view(a@),
            kb == key_view(b@),
            key_lt(ka, kb) == key_lt(ka.skip(i as int), kb.skip(i as int)),
        decreases a.len() - i,
    {
        assert(ka.skip(i as int)[0] == a@[i as int]@);
        assert(kb.skip(i as int)[0] == b@[i as int]@);
        if !field_equal(&a[i], &b[i]) {
            return field_less(&a[i], &b[i]);
        }
        assert(ka.skip(i as int).drop_first() == ka.skip(i as int + 1));
        assert(kb.skip(i as int).drop_first() == kb.skip(i as int + 1));
        i = i + 1;
    }
    i < b.len()
}

/// The key of an item paired with its key.
pub open spec fn item_key<T>(p: (Vec<SortField>, T)) -> Seq<FieldView> {
    key_view(p.0@)
}

/// Whether an item has key `k`.
pub open spec fn has_key<T>(k: Seq<FieldView>) -> spec_fn((Vec<SortField>, T)) -> bool {
    |p: (Vec<SortField>, T)| item_key(p) == k
}

/// Whether the items are in non-decreasing key order.
pub open spec fn sorted_by_key<T>(s: Seq<(Vec<SortField>, T)>) -> bool {
    forall|i: int, j: int| 0 <= i < j < s.len() ==> !key_lt(item_key(#[trigger] s[j]), item_key(#[trigger] s[i]))
}

/// Whether, for every key, the items with that key come in the same order in
/// both sequences. Together with `sorted_by_key` this says that `a` is the
/// stable sort of `b`: sorted, holding the same items, and keeping the
/// order that `b` gives items with equal keys.
pub open spec fn same_key_blocks<T>(a: Seq<(Vec<SortField>, T)>, b: Seq<(Vec<SortField>, T)>) -> bool {
    forall|k: Seq<FieldView>| #[trigger] a.filter(has_key::<T>(k)) == b.filter(has_key::<T>(k))
}

/// Whether the items of the pairs have pairwise different values under `v`.
pub open spec fn distinct_by<T>(s: Seq<(Vec<SortField>, T)>, v: spec_fn(T) -> Seq<char>) -> bool {
    forall|i: int, j: int| 0 <= i < j < s.len() ==> v((#[trigger] s[i]).1) != v((#[trigger] s[j]).1)
}

/// Sorts items by their keys, keeping the given order of items with equal
/// keys (as `sort_by_key` does).
pub fn sort_stable<T>(items: Vec<(Vec<SortField>, T)>) -> (out: Vec<(Vec<SortField>, T)>)
    ensures
        sorted_by_key(out@),
        same_key_blocks(out@, items@),
        out@.len() == items@.len(),
        forall|i: int| 0 <= i < out@.len() ==> items@.contains(#[trigger] out@[i]),
        forall|w: int| 0 <= w < items@.len() ==> out@.contains(#[trigger] items@[w]),
        forall|v: spec_fn(T) -> Seq<char>| #[trigger] distinct_by(items@, v) ==> distinct_by(out@, v),
{
    broadcast use vstd::seq_lib::group_seq_properties;
    let ghost orig = items@;
    let total = items.len();
    let mut rest = items;
    let mut out: Vec<(Vec<SortField>, T)> = Vec::new();
    let mut n: usize = 0;
    let ghost mut origin: Seq<int> = Seq::empty();
    let ghost mut pos: Seq<int> = Seq::empty();
    while rest.len() > 0
        invariant
            n + rest@.len() == orig.len(),
            orig.len() == total,
            rest@ == orig.skip(n as int),
            sorted_by_key(out@),
            out@.len() == n,
            origin.len() == n,
            pos.len() == n,
            forall|i: int| 0 <= i < n ==> 0 <= #[trigger] origin[i] < n && out@[i] == orig[origin[i]],
            forall|i: int, i2: int| 0 <= i < i2 < n ==> #[trigger] origin[i] != #[trigger] origin[i2],
            forall|w: int| 0 <= w < n ==> 0 <= #[trigger] pos[w] < n && out@[pos[w]] == orig[w],
            forall|k: Seq<FieldView>| #[trigger] out@.filter(has_key::<T>(k)) == orig.take(n as int).filter(has_key::<T>(k)),
        decreases rest@.len(),
    {
        let x = rest.remove(0);
        assert(x == orig[n as int]);
        let ghost kx = item_key(x);
        let mut j: usize = out.len();
        while j > 0 && key_less(&x.0, &out[j - 1].0)
            invariant
                j <= out@.len(),
                kx == item_key(x),
                forall|m: int| j <= m < out@.len() ==> key_lt(kx, item_key(#[trigger] out@[m])),
            decreases j,
        {
            j = j - 1;
        }
        let ghost before = out@;
        proof {
            // everything before position j has a key no greater than x's
            assert forall|m: int| 0 <= m < j implies !key_lt(kx, item_key(#[trigger] before[m])) by {
                if m < j - 1 {
                    let a = item_key(before[m]);
                    let b = item_key(before[j - 1]);
                    assert(!key_lt(b, a));
                    assert(!key_lt(kx, b));
                    lemma_key_lt_total(a, b);
                    lemma_key_lt_transitive(kx, a, b);
                }
            }
        }
        out.insert(j, x);
        proof {
            let after = out@;
            assert(after == before.take(j as int) + seq![x] + before.skip(j as int));
            assert forall|i: int, i2: int| 0 <= i < i2 < after.len() implies !key_lt(item_key(#[trigger] after[i2]), item_key(#[trigger] after[i])) by {
                if i2 == j {
                    assert(after[i] == before[i]);
                } else if i == j {
                    assert(after[i2] == before[i2 - 1]);
                    lemma_key_lt_asymmetric(kx, item_key(before[i2 - 1]));
                } else {
                    let bi = if i < j { i } else { i - 1 };
                    let bi2 = if i2 < j { i2 } else { i2 - 1 };
                    assert(after[i] == before[bi]);
                    assert(after[i2] == before[bi2]);
                }
            }
            let old_origin = origin;
            let old_pos = pos;
            origin = old_origin.insert(j as int, n as int);
            pos = old_pos.map_values(|q: int| if q >= j { q + 1 } else { q }).push(j as int);
            assert forall|i: int| 0 <= i < n + 1 implies 0 <= #[trigger] origin[i] < n + 1 && after[i] == orig[origin[i]] by {
                if i < j {
                    assert(origin[i] == old_origin[i]);
                    assert(after[i] == before[i]);
                } else if i > j {
                    assert(origin[i] == old_origin[i - 1]);
                    assert(after[i] == before[i - 1]);
                }
            }
            assert forall|i: int, i2: int| 0 <= i < i2 < n + 1 implies #[trigger] origin[i] != #[trigger] origin[i2] by {
                let oi = if i < j { i } else { i - 1 };
                let oi2 = if i2 < j { i2 } else { i2 - 1 };
                if i != j && i2 != j {
                    assert(origin[i] == old_origin[oi]);
                    assert(origin[i2] == old_origin[oi2]);
                } else if i == j {
                    assert(origin[i2] == old_origin[oi2]);
                } else {
                    assert(origin[i] == old_origin[oi]);
                }
            }
            assert forall|w: int| 0 <= w < n + 1 implies 0 <= #[trigger] pos[w] < n + 1 && after[pos[w]] == orig[w] by {
                if w < n {
                    let q = old_pos[w];
                    if q >= j {
                        assert(after[q + 1] == before[q]);
                    } else {
                        assert(after[q] == before[q]);
                    }
                }
            }
            assert forall|k: Seq<FieldView>| #[trigger] after.filter(has_key::<T>(k)) == orig.take(n + 1).filter(has_key::<T>(k)) by {
                let p = has_key::<T>(k);
                let lo = before.take(j as int);
                let hi = before.skip(j as int);
                assert(before == lo + hi);
                assert(orig.take(n + 1) == orig.take(n as int).push(x));
                assert(after == (lo + seq![x]) + hi);
                assert(lo + seq![x] == lo.push(x));
                Seq::filter_distributes_over_add(lo, hi, p);
                Seq::filter_distributes_over_add(lo.push(x), hi, p);
                lo.lemma_filter_push(x, p);
                orig.take(n as int).lemma_filter_push(x, p);
                if k == kx {
                    assert forall|m: int| 0 <= m < hi.len() implies !p(#[trigger] hi[m]) by {
                        assert(hi[m] == before[j + m]);
                        lemma_key_lt_irreflexive(kx);
                    }
                    hi.lemma_all_neg_filter_empty(p);
                    assert(hi.filter(p) =~= Seq::<(Vec<SortField>, T)>::empty());
                    assert(lo.filter(p) + hi.filter(p) =~= lo.filter(p));
                    assert(lo.filter(p).push(x) + hi.filter(p) =~= lo.filter(p).push(x));
                } else {
                    assert(!p(x));
                }
            }
        }
        n = n + 1;
    }
    assert(orig.take(n as int) == orig);
    assert forall|i: int| 0 <= i < out@.len() implies orig.contains(#[trigger] out@[i]) by {
        assert(out@[i] == orig[origin[i]]);
    }
    assert forall|w: int| 0 <= w < orig.len() implies out@.contains(#[trigger] orig[w]) by {
        assert(out@[pos[w]] == orig[w]);
    }
    assert forall|v: spec_fn(T) -> Seq<char>| #[trigger] distinct_by(orig, v) implies distinct_by(out@, v) by {
        assert forall|i: int, i2: int| 0 <= i < i2 < out@.len() implies v((#[trigger] out@[i]).1) != v((#[trigger] out@[i2]).1) by {
            let a = origin[i];
            let b = origin[i2];
            if a < b {
                assert(v(orig[a].1) != v(orig[b].1));
            } else {
                assert(v(orig[b].1) != v(orig[a].1));
            }
        }
    }
    out
}

/// Filtering and then mapping is mapping and then filtering, when the two
/// conditions agree on each element.
pub proof fn lemma_filter_map<A, B>(
    s: Seq<A>,
    f: spec_fn(A) -> B,
    on_a: spec_fn(A) -> bool,
    on_b: spec_fn(B) -> bool,
)
    requires
        forall|i: int| 0 <= i < s.len() ==> on_a(#[trigger] s[i]) == on_b(f(s[i])),
    ensures
        s.filter(on_a).map_values(f) == s.map_values(f).filter(on_b),
    decreases s.len(),
{
    broadcast use vstd::seq_lib::group_seq_properties;
    reveal(Seq::filter);
    if s.len() == 0 {
        assert(s.filter(on_a) =~= s);
        assert(s.map_values(f) =~= Seq::<B>::empty());
        assert(s.filter(on_a).map_values(f) =~= Seq::<B>::empty());
    } else {
        let init = s.drop_last();
        let x = s.last();
        assert(s == init.push(x));
        lemma_filter_map(init, f, on_a, on_b);
        init.lemma_filter_push(x, on_a);
        assert(s.map_values(f) =~= init.map_values(f).push(f(x)));
        init.map_values(f).lemma_filter_push(f(x), on_b);
        if on_a(x) {
            assert(init.filter(on_a).push(x).map_values(f) =~= init.filter(on_a).map_values(f).push(f(x)));
        }
    }
}

/// Drops the keys of key/item pairs.
pub fn strip_keys<T>(v: Vec<(Vec<SortField>, T)>) -> (r: Vec<T>)
    ensures
        r@ == v@.map_values(|p: (Vec<SortField>, T)| p.1),
{
    let ghost orig = v@;
    let total = v.len();
    let mut rest = v;
    let mut out: Vec<T> = Vec::new();
    let mut n: usize = 0;
    while rest.len() > 0
        invariant
            n + rest@.len() == orig.len(),
            orig.len() == total,
            rest@ == orig.skip(n as int),
            out@ == orig.take(n as int).map_values(|p: (Vec<SortField>, T)| p.1),
        decreases rest@.len(),
    {
        let p = rest.remove(0);
        assert(p == orig[n as int]);
        out.push(p.1);
        assert(orig.take(n + 1) == orig.take(n as int).push(p));
        assert(orig.take(n + 1).map_values(|p: (Vec<SortField>, T)| p.1) =~= orig.take(n as int).map_values(|p: (Vec<SortField>, T)| p.1).push(p.1));
        n = n + 1;
    }
    assert(orig.take(n as int) == orig);
    out
}

/// Whether the values are in non-decreasing order of `key`.
pub open spec fn key_sorted<V>(a: Seq<V>, key: spec_fn(V) -> Seq<FieldView>) -> bool {
    forall|i: int, j: int| 0 <= i < j < a.len() ==> !key_lt(key(#[trigger] a[j]), key(#[trigger] a[i]))
}

/// Whether a value has key `k` under `key`.
pub open spec fn has_key_by<V>(key: spec_fn(V) -> Seq<FieldView>, k: Seq<FieldView>) -> spec_fn(V) -> bool {
    |x: V| key(x) == k
}

/// Whether `a` is `b` stably sorted by `key`: in key order, and with the
/// values of each key in the order they had in `b`.
pub open spec fn is_key_sort_of<V>(a: Seq<V>, b: Seq<V>, key: spec_fn(V) -> Seq<FieldView>) -> bool {
    &&& key_sorted(a, key)
    &&& forall|k: Seq<FieldView>| #[trigger] a.filter(has_key_by(key, k)) == b.filter(has_key_by(key, k))
}

/// The stable sort of key/item pairs, seen through a map `f` that determines
/// each pair's key, is the stable sort of the mapped values.
pub proof fn lemma_sort_views<T, V>(
    sorted: Seq<(Vec<SortField>, T)>,
    unsorted: Seq<(Vec<SortField>, T)>,
    f: spec_fn((Vec<SortField>, T)) -> V,
    key: spec_fn(V) -> Seq<FieldView>,
)
    requires
        sorted_by_key(sorted),
        same_key_blocks(sorted, unsorted),
        forall|i: int| 0 <= i < sorted.len() ==> item_key(#[trigger] sorted[i]) == key(f(sorted[i])),
        forall|i: int| 0 <= i < unsorted.len() ==> item_key(#[trigger] unsorted[i]) == key(f(unsorted[i])),
    ensures
        is_key_sort_of(sorted.map_values(f), unsorted.map_values(f), key),
{
    let sv = sorted.map_values(f);
    let uv = unsorted.map_values(f);
    assert forall|i: int, j: int| 0 <= i < j < sv.len() implies !key_lt(key(#[trigger] sv[j]), key(#[trigger] sv[i])) by {
        assert(!key_lt(item_key(sorted[j]), item_key(sorted[i])));
    }
    assert forall|k: Seq<FieldView>| #[trigger] sv.filter(has_key_by(key, k)) == uv.filter(has_key_by(key, k)) by {
        let hk = has_key::<T>(k);
        let hv = has_key_by(key, k);
        assert forall|q: int| 0 <= q < sorted.len() implies hk(#[trigger] sorted[q]) == hv(f(sorted[q])) by {}
        assert forall|q: int| 0 <= q < unsorted.len() implies hk(#[trigger] unsorted[q]) == hv(f(unsorted[q])) by {}
        lemma_filter_map(sorted, f, hk, hv);
        lemma_filter_map(unsorted, f, hk, hv);
        assert(sorted.filter(hk) == unsorted.filter(hk));
    }
}

/// A stable sort keeps the same items: an item is in the sorted sequence
/// exactly when it is in the unsorted one.
pub proof fn lemma_key_sort_contains<V>(a: Seq<V>, b: Seq<V>, key: spec_fn(V) -> Seq<FieldView>, t: V)
    requires
        is_key_sort_of(a, b, key),
    ensures
        a.contains(t) <==> b.contains(t),
{
    let hk = has_key_by(key, key(t));
    assert(a.filter(hk) == b.filter(hk));
    if a.contains(t) {
        let i = choose|i: int| 0 <= i < a.len() && a[i] == t;
        a.lemma_filter_contains(hk, i);
        b.lemma_filter_contains_rev(hk, t);
    }
    if b.contains(t) {
        let i = choose|i: int| 0 <= i < b.len() && b[i] == t;
        b.lemma_filter_contains(hk, i);
        a.lemma_filter_contains_rev(hk, t);
    }
}

/// A prefix of a sequence in key order is in key order.
proof fn lemma_key_sorted_drop_last<V>(a: Seq<V>, key: spec_fn(V) -> Seq<FieldView>)
    requires
        key_sorted(a, key),
        a.len() > 0,
    ensures
        key_sorted(a.drop_last(), key),
{
    let d = a.drop_last();
    assert forall|i: int, j: int| 0 <= i < j < d.len() implies !key_lt(key(#[trigger] d[j]), key(#[trigger] d[i])) by {
        assert(d[i] == a[i] && d[j] == a[j]);
    }
}

/// In a sequence in key order, no value comes after the last one in key
/// order.
proof fn lemma_key_sorted_last_greatest<V>(a: Seq<V>, key: spec_fn(V) -> Seq<FieldView>, i: int)
    requires
        key_sorted(a, key),
        0 <= i < a.len(),
    ensures
        !key_lt(key(a.last()), key(a[i])),
{
    if i < a.len() - 1 {
        assert(!key_lt(key(a[a.len() - 1]), key(a[i])));
    } else {
        lemma_key_lt_irreflexive(key(a[i]));
    }
}

/// Two sequences in key order that hold, for every key, the same values in
/// the same order are equal: a stable sort has one result.
pub proof fn lemma_key_sorted_unique<V>(a: Seq<V>, b: Seq<V>, key: spec_fn(V) -> Seq<FieldView>)
    requires
        key_sorted(a, key),
        key_sorted(b, key),
        forall|k: Seq<FieldView>| #[trigger] a.filter(has_key_by(key, k)) == b.filter(has_key_by(key, k)),
    ensures
        a == b,
    decreases a.len() + b.len(),
{
    if a.len() == 0 && b.len() == 0 {
        assert(a =~= b);
    } else if a.len() == 0 || b.len() == 0 {
        let c = if a.len() == 0 { b } else { a };
        let e = if a.len() == 0 { a } else { b };
        let hk = has_key_by(key, key(c.last()));
        assert(c.filter(hk) == e.filter(hk));
        assert(e.filter(hk).len() == 0);
        c.lemma_filter_contains(hk, c.len() - 1);
        assert(c.filter(hk).len() > 0);
    } else {
        let x = a.last();
        let y = b.last();
        let hx = has_key_by(key, key(x));
        let hy = has_key_by(key, key(y));
        b.lemma_filter_contains(hy, b.len() - 1);
        assert(a.filter(hy) == b.filter(hy));
        a.lemma_filter_contains_rev(hy, b[b.len() - 1]);
        let i = choose|i: int| 0 <= i < a.len() && a[i] == y;
        lemma_key_sorted_last_greatest(a, key, i);
        a.lemma_filter_contains(hx, a.len() - 1);
        assert(a.filter(hx) == b.filter(hx));
        b.lemma_filter_contains_rev(hx, a[a.len() - 1]);
        let j = choose|j: int| 0 <= j < b.len() && b[j] == x;
        lemma_key_sorted_last_greatest(b, key, j);
        lemma_key_lt_total(key(x), key(y));
        assert(key(x) == key(y));
        assert(hx(x) && hx(y));
        let da = a.drop_last();
        let db = b.drop_last();
        assert(a =~= da.push(x));
        assert(b =~= db.push(y));
        da.lemma_filter_push(x, hx);
        db.lemma_filter_push(y, hx);
        assert(a.filter(hx) == da.filter(hx).push(x));
        assert(b.filter(hx) == db.filter(hx).push(y));
        assert(x == a.filter(hx).last());
        assert(x == y);
        assert forall|k: Seq<FieldView>| #[trigger] da.filter(has_key_by(key, k)) == db.filter(has_key_by(key, k)) by {
            let hk = has_key_by(key, k);
            assert(a.filter(hk) == b.filter(hk));
            da.lemma_filter_push(x, hk);
            db.lemma_filter_push(y, hk);
            if hk(x) {
                assert(da.filter(hk) == a.filter(hk).drop_last());
                assert(db.filter(hk) == b.filter(hk).drop_last());
            } else {
                assert(da.filter(hk) == a.filter(hk));
                assert(db.filter(hk) == b.filter(hk));
            }
        }
        lemma_key_sorted_drop_last(a, key);
        lemma_key_sorted_drop_last(b, key);
        lemma_key_sorted_unique(da, db, key);
    }
}

/// Two sequences in key order, each without repeats, holding the same values,
/// where no two of those values share a key, are equal.
pub proof fn lemma_key_sorted_same_values<V>(a: Seq<V>, b: Seq<V>, key: spec_fn(V) -> Seq<FieldView>)
    requires
        key_sorted(a, key),
        key_sorted(b, key),
        a.no_duplicates(),
        b.no_duplicates(),
        forall|v: V| a.contains(v) <==> b.contains(v),
        forall|v: V, w: V| #![trigger a.contains(v), a.contains(w)]
            a.contains(v) && a.contains(w) && key(v) == key(w) ==> v == w,
    ensures
        a == b,
    decreases a.len() + b.len(),
{
    if a.len() == 0 && b.len() == 0 {
        assert(a =~= b);
    } else if a.len() == 0 {
        assert(b.contains(b[0]));
        assert(false);
    } else if b.len() == 0 {
        assert(a.contains(a[0]));
        assert(false);
    } else {
        let x = a.last();
        let y = b.last();
        assert(a.contains(x));
        assert(b.contains(y));
        let i = choose|i: int| 0 <= i < a.len() && a[i] == y;
        lemma_key_sorted_last_greatest(a, key, i);
        let j = choose|j: int| 0 <= j < b.len() && b[j] == x;
        lemma_key_sorted_last_greatest(b, key, j);
        lemma_key_lt_total(key(x), key(y));
        assert(x == y);
        let da = a.drop_last();
        let db = b.drop_last();
        assert forall|v: V| da.contains(v) <==> db.contains(v) by {
            if da.contains(v) {
                let k = choose|k: int| 0 <= k < da.len() && da[k] == v;
                assert(a[k] == v && k != a.len() - 1);
                assert(v != x);
                assert(b.contains(v));
                let q = choose|q: int| 0 <= q < b.len() && b[q] == v;
                assert(q != b.len() - 1);
                assert(db[q] == v);
            }
            if db.contains(v) {
                let k = choose|k: int| 0 <= k < db.len() && db[k] == v;
                assert(b[k] == v && k != b.len() - 1);
                assert(v != y);
                assert(a.contains(v));
                let q = choose|q: int| 0 <= q < a.len() && a[q] == v;
                assert(q != a.len() - 1);
                assert(da[q] == v);
            }
        }
        assert forall|v: V, w: V| #![trigger da.contains(v), da.contains(w)]
            da.contains(v) && da.contains(w) && key(v) == key(w) implies v == w by {
            let k1 = choose|k: int| 0 <= k < da.len() && da[k] == v;
            let k2 = choose|k: int| 0 <= k < da.len() && da[k] == w;
            assert(a[k1] == v && a[k2] == w);
            assert(a.contains(v) && a.contains(w));
        }
        lemma_key_sorted_drop_last(a, key);
        lemma_key_sorted_drop_last(b, key);
        assert(da.no_duplicates());
        assert(db.no_duplicates());
        lemma_key_sorted_same_values(da, db, key);
        assert(a =~= da.push(x));
        assert(b =~= db.push(y));
    }
}

/// How keys that start with a field compare: by that field where they
/// differ there, else by the rest.
pub proof fn lemma_key_lt_cons(x: FieldView, a: Seq<FieldView>, y: FieldView, b: Seq<FieldView>)
    ensures
        key_lt(seq![x] + a, seq![y] + b) == (if x != y { field_lt(x, y) } else { key_lt(a, b) }),
{
    let ka = seq![x] + a;
    let kb = seq![y] + b;
    assert(ka[0] == x && kb[0] == y);
    assert(ka.drop_first() =~= a);
    assert(kb.drop_first() =~= b);
}

/// Two texts where neither comes before the other are equal.
pub proof fn lemma_text_not_lt_both(a: Seq<char>, b: Seq<char>)
    requires
        !text_lt(a, b),
        !text_lt(b, a),
    ensures
        a == b,
{
    lemma_text_lt_total(a, b);
}

} // verus!
