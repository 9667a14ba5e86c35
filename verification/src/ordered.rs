//! Ordered maps and sets on vectors: entries kept sorted by the byte order of their keys,
//! each key at most once, as `BTreeMap` and `BTreeSet` keep them.
use vstd::prelude::*;

verus! {

/// How two keys compare.
#[derive(Debug, Clone, Copy, PartialEq, Eq, Structural)]
pub enum KeyOrder {
    /// The first is smaller.
    Less,
    /// They are equal.
    Equal,
    /// The first is larger.
    Greater,
}

/// `a` comes before `b` in lexicographic byte order; a proper prefix comes first.
pub open spec fn lex_lt(a: Seq<u8>, b: Seq<u8>) -> bool
    decreases a.len(),
{
    if a.len() == 0 {
        b.len() > 0
    } else if b.len() == 0 {
        false
    } else if a[0] < b[0] {
        true
    } else if a[0] > b[0] {
        false
    } else {
        lex_lt(a.drop_first(), b.drop_first())
    }
}

/// No sequence comes before itself.
pub proof fn lemma_lex_irreflexive(a: Seq<u8>)
    ensures
        !lex_lt(a, a),
    decreases a.len(),
{
    if a.len() > 0 {
        lemma_lex_irreflexive(a.drop_first());
    }
}

/// The order is transitive.
pub proof fn lemma_lex_transitive(a: Seq<u8>, b: Seq<u8>, c: Seq<u8>)
    requires
        lex_lt(a, b),
        lex_lt(b, c),
    ensures
        lex_lt(a, c),
    decreases a.len(),
{
    if a.len() > 0 && b.len() > 0 && c.len() > 0 && a[0] == b[0] && b[0] == c[0] {
        lemma_lex_transitive(a.drop_first(), b.drop_first(), c.drop_first());
    }
}

/// Two sequences are equal or one comes before the other, and not both ways.
pub proof fn lemma_lex_total(a: Seq<u8>, b: Seq<u8>)
    ensures
        a == b || lex_lt(a, b) || lex_lt(b, a),
        !(lex_lt(a, b) && lex_lt(b, a)),
    decreases a.len(),
{
    if a.len() > 0 && b.len() > 0 && a[0] == b[0] {
        lemma_lex_total(a.drop_first(), b.drop_first());
        if a.drop_first() == b.drop_first() {
            assert(a =~= seq![a[0]] + a.drop_first());
            assert(b =~= seq![b[0]] + b.drop_first());
        }
    } else if a.len() == 0 && b.len() == 0 {
        assert(a =~= b);
    }
}

/// Compares two byte sequences lexicographically.
pub fn compare_bytes(a: &[u8], b: &[u8]) -> (r: KeyOrder)
    ensures
        r == KeyOrder::Less <==> lex_lt(a@, b@),
        r == KeyOrder::Equal <==> a@ == b@,
        r == KeyOrder::Greater <==> lex_lt(b@, a@),
{
    proof {
        lemma_lex_total(a@, b@);
        lemma_lex_irreflexive(a@);
        assert(a@.skip(0) =~= a@);
        assert(b@.skip(0) =~= b@);
    }
    let mut i: usize = 0;
    while i < a.len() && i < b.len()
        invariant
            i <= a.len(),
            i <= b.len(),
            a@.take(i as int) == b@.take(i as int),
            lex_lt(a@, b@) == lex_lt(a@.skip(i as int), b@.skip(i as int)),
            lex_lt(b@, a@) == lex_lt(b@.skip(i as int), a@.skip(i as int)),
        decreases a.len() - i,
    {
        if a[i] < b[i] {
            return KeyOrder::Less;
        }
        if a[i] > b[i] {
            return KeyOrder::Greater;
        }
        proof {
            assert(a@.skip(i as int).drop_first() =~= a@.skip(i + 1));
            assert(b@.skip(i as int).drop_first() =~= b@.skip(i + 1));
            assert(a@.take(i + 1) =~= a@.take(i as int).push(a@[i as int]));
            assert(b@.take(i + 1) =~= b@.take(i as int).push(b@[i as int]));
        }
        i = i + 1;
    }
    if a.len() == b.len() {
        proof {
            assert(a@ =~= a@.take(i as int));
            assert(b@ =~= b@.take(i as int));
        }
        KeyOrder::Equal
    } else if a.len() < b.len() {
        KeyOrder::Less
    } else {
        KeyOrder::Greater
    }
}

/// A key of an ordered map: it has a byte sequence that orders it, and no two keys share one.
pub trait OrderKey: Sized + Copy {
    /// The bytes by whose lexicographic order keys are ordered.
    spec fn order_key(&self) -> Seq<u8>;

    /// The ordering bytes.
    fn order_key_bytes(&self) -> (r: Vec<u8>)
        ensures
            r@ == self.order_key(),
    ;

    /// Keys with the same ordering bytes are equal.
    proof fn lemma_order_key_injective(a: Self, b: Self)
        ensures
            a.order_key() == b.order_key() ==> a == b,
    ;
}

/// `a` comes before `b`.
pub open spec fn key_lt<K: OrderKey>(a: K, b: K) -> bool {
    lex_lt(a.order_key(), b.order_key())
}

/// Compares two keys.
pub fn compare_keys<K: OrderKey>(a: &K, b: &K) -> (r: KeyOrder)
    ensures
        r == KeyOrder::Less <==> key_lt(*a, *b),
        r == KeyOrder::Equal <==> *a == *b,
        r == KeyOrder::Greater <==> key_lt(*b, *a),
{
    let ka = a.order_key_bytes();
    let kb = b.order_key_bytes();
    proof {
        K::lemma_order_key_injective(*a, *b);
        lemma_lex_irreflexive(a.order_key());
    }
    compare_bytes(ka.as_slice(), kb.as_slice())
}

/// The entries are sorted by key, strictly: each key at most once.
pub open spec fn sorted<K: OrderKey, V>(s: Seq<(K, V)>) -> bool {
    forall|i: int, j: int| 0 <= i < j < s.len() ==> key_lt(#[trigger] s[i].0, #[trigger] s[j].0)
}

/// Two sorted maps with the same entries are the same sequence.
pub proof fn lemma_sorted_same_entries<K: OrderKey, V>(a: Seq<(K, V)>, b: Seq<(K, V)>)
    requires
        sorted(a),
        sorted(b),
        a.to_set() == b.to_set(),
    ensures
        a == b,
    decreases a.len(),
{
    assert forall|x: (K, V)| a.contains(x) == b.contains(x) by {
        vstd::set::axiom_set_new(|y: (K, V)| a.contains(y), x);
        vstd::set::axiom_set_new(|y: (K, V)| b.contains(y), x);
        assert(a.to_set().contains(x) == b.to_set().contains(x));
    }
    if a.len() == 0 {
        if b.len() > 0 {
            assert(b.contains(b[0]));
        }
        assert(a =~= b);
    } else if b.len() == 0 {
        assert(a.contains(a[0]));
    } else {
        assert(a.contains(a[0]));
        let j = choose|j: int| 0 <= j < b.len() && b[j] == a[0];
        assert(b.contains(b[0]));
        let i = choose|i: int| 0 <= i < a.len() && a[i] == b[0];
        if j > 0 {
            assert(key_lt(b[0].0, b[j].0));
            if i > 0 {
                assert(key_lt(a[0].0, a[i].0));
                lemma_lex_transitive(a[0].0.order_key(), a[i].0.order_key(), a[0].0.order_key());
            }
            lemma_lex_irreflexive(a[0].0.order_key());
        }
        assert(a[0] == b[0]);
        let a1 = a.drop_first();
        let b1 = b.drop_first();
        assert forall|x: (K, V)| a1.to_set().contains(x) == b1.to_set().contains(x) by {
            vstd::set::axiom_set_new(|y: (K, V)| a1.contains(y), x);
            vstd::set::axiom_set_new(|y: (K, V)| b1.contains(y), x);
            if a1.contains(x) {
                let k = choose|k: int| 0 <= k < a1.len() && a1[k] == x;
                assert(a.contains(x)) by {
                    assert(a[k + 1] == x);
                }
                assert(b.contains(x));
                let m = choose|m: int| 0 <= m < b.len() && b[m] == x;
                if m == 0 {
                    assert(key_lt(a[0].0, a[k + 1].0));
                    lemma_lex_irreflexive(a[0].0.order_key());
                }
                assert(b1[m - 1] == x);
            }
            if b1.contains(x) {
                let k = choose|k: int| 0 <= k < b1.len() && b1[k] == x;
                assert(b.contains(x)) by {
                    assert(b[k + 1] == x);
                }
                assert(a.contains(x));
                let m = choose|m: int| 0 <= m < a.len() && a[m] == x;
                if m == 0 {
                    assert(key_lt(b[0].0, b[k + 1].0));
                    lemma_lex_irreflexive(b[0].0.order_key());
                }
                assert(a1[m - 1] == x);
            }
        }
        assert(a1.to_set() =~= b1.to_set());
        lemma_sorted_same_entries(a1, b1);
        assert(a =~= seq![a[0]] + a1);
        assert(b =~= seq![b[0]] + b1);
    }
}

/// How many entries come before key `k`.
pub open spec fn lower_bound<K: OrderKey, V>(s: Seq<(K, V)>, k: K) -> int
    decreases s.len(),
{
    if s.len() == 0 {
        0
    } else if key_lt(s[0].0, k) {
        1 + lower_bound(s.drop_first(), k)
    } else {
        0
    }
}

/// The value under `k`, if any.
pub open spec fn map_get<K: OrderKey, V>(s: Seq<(K, V)>, k: K) -> Option<V> {
    let i = lower_bound(s, k);
    if i < s.len() && s[i].0 == k {
        Some(s[i].1)
    } else {
        None
    }
}

/// The entries with `v` under `k`: replacing the entry of `k`, or inserted in order.
pub open spec fn map_insert<K: OrderKey, V>(s: Seq<(K, V)>, k: K, v: V) -> Seq<(K, V)> {
    let i = lower_bound(s, k);
    if i < s.len() && s[i].0 == k {
        s.update(i, (k, v))
    } else {
        s.insert(i, (k, v))
    }
}

/// The lower bound is a position in the entries, and in sorted entries every entry before
/// it comes before `k` and none after it does.
pub proof fn lemma_lower_bound<K: OrderKey, V>(s: Seq<(K, V)>, k: K)
    ensures
        0 <= lower_bound(s, k) <= s.len(),
        forall|j: int| 0 <= j < lower_bound(s, k) ==> key_lt(#[trigger] s[j].0, k),
        sorted(s) ==> forall|j: int| lower_bound(s, k) <= j < s.len() ==> !key_lt(#[trigger] s[j].0, k),
    decreases s.len(),
{
    if s.len() > 0 {
        let t = s.drop_first();
        lemma_lower_bound(t, k);
        assert forall|j: int| 0 <= j < lower_bound(s, k) implies key_lt(#[trigger] s[j].0, k) by {
            if j > 0 {
                assert(s[j] == t[j - 1]);
            }
        }
        if sorted(s) {
            assert(sorted(t)) by {
                assert forall|i: int, j: int| 0 <= i < j < t.len() implies key_lt(#[trigger] t[i].0, #[trigger] t[j].0) by {
                    assert(t[i] == s[i + 1]);
                    assert(t[j] == s[j + 1]);
                }
            }
            assert forall|j: int| lower_bound(s, k) <= j < s.len() implies !key_lt(#[trigger] s[j].0, k) by {
                if key_lt(s[0].0, k) {
                    assert(s[j] == t[j - 1]);
                } else if j > 0 && key_lt(s[j].0, k) {
                    lemma_lex_transitive(s[0].0.order_key(), s[j].0.order_key(), k.order_key());
                }
            }
        }
    }
}

/// In sorted entries, the key is present exactly at its lower bound, if at all.
pub proof fn lemma_map_get<K: OrderKey, V>(s: Seq<(K, V)>, k: K)
    requires
        sorted(s),
    ensures
        map_get(s, k) is Some <==> exists|i: int| 0 <= i < s.len() && #[trigger] s[i].0 == k,
        forall|i: int| 0 <= i < s.len() && #[trigger] s[i].0 == k ==> map_get(s, k) == Some(s[i].1),
{
    lemma_lower_bound(s, k);
    lemma_lex_irreflexive(k.order_key());
    let lb = lower_bound(s, k);
    assert forall|i: int| 0 <= i < s.len() && #[trigger] s[i].0 == k implies i == lb by {
        if i < lb {
            assert(key_lt(s[i].0, k));
        } else if i > lb {
            assert(key_lt(s[lb].0, s[i].0));
            lemma_lex_total(s[lb].0.order_key(), k.order_key());
            K::lemma_order_key_injective(s[lb].0, k);
        }
    }
}

/// Inserting keeps the entries sorted, puts `v` under `k`, and keeps every other entry.
pub proof fn lemma_map_insert<K: OrderKey, V>(s: Seq<(K, V)>, k: K, v: V)
    requires
        sorted(s),
    ensures
        sorted(map_insert(s, k, v)),
        map_get(map_insert(s, k, v), k) == Some(v),
        forall|k2: K| k2 != k ==> map_get(map_insert(s, k, v), k2) == #[trigger] map_get(s, k2),
        map_get(s, k) is Some ==> map_insert(s, k, v).len() == s.len(),
        map_get(s, k) is None ==> map_insert(s, k, v).len() == s.len() + 1,
{
    lemma_lower_bound(s, k);
    lemma_lex_irreflexive(k.order_key());
    let i = lower_bound(s, k);
    let r = map_insert(s, k, v);
    if i < s.len() && s[i].0 == k {
        assert(sorted(r)) by {
            assert forall|a: int, b: int| 0 <= a < b < r.len() implies key_lt(#[trigger] r[a].0, #[trigger] r[b].0) by {
                assert(r[a].0 == s[a].0);
                assert(r[b].0 == s[b].0);
            }
        }
    } else {
        assert(sorted(r)) by {
            assert forall|a: int, b: int| 0 <= a < b < r.len() implies key_lt(#[trigger] r[a].0, #[trigger] r[b].0) by {
                if b < i {
                    assert(r[a] == s[a] && r[b] == s[b]);
                } else if b == i {
                    assert(r[a] == s[a]);
                } else if a == i {
                    assert(r[b] == s[b - 1]);
                    assert(!key_lt(s[b - 1].0, k));
                    lemma_lex_total(s[b - 1].0.order_key(), k.order_key());
                    if s[b - 1].0.order_key() == k.order_key() {
                        K::lemma_order_key_injective(s[b - 1].0, k);
                        if b - 1 > i {
                            assert(key_lt(s[i].0, s[b - 1].0));
                            assert(!key_lt(s[i].0, k));
                        }
                    }
                } else if a < i {
                    assert(r[a] == s[a] && r[b] == s[b - 1]);
                    if b - 1 == a {
                    } else {
                    }
                } else {
                    assert(r[a] == s[a - 1] && r[b] == s[b - 1]);
                }
            }
        }
    }
    lemma_map_get(r, k);
    assert(r[i].0 == k);
    assert forall|k2: K| k2 != k implies map_get(r, k2) == #[trigger] map_get(s, k2) by {
        lemma_map_get(r, k2);
        lemma_map_get(s, k2);
        if map_get(s, k2) is Some {
            let j = choose|j: int| 0 <= j < s.len() && #[trigger] s[j].0 == k2;
            if i < s.len() && s[i].0 == k {
                assert(r[j] == s[j]);
            } else if j < i {
                assert(r[j] == s[j]);
            } else {
                assert(r[j + 1] == s[j]);
            }
        }
        if map_get(r, k2) is Some {
            let j = choose|j: int| 0 <= j < r.len() && #[trigger] r[j].0 == k2;
            if i < s.len() && s[i].0 == k {
                assert(r[j] == s[j]);
            } else if j < i {
                assert(r[j] == s[j]);
            } else {
                assert(j != i);
                assert(r[j] == s[j - 1]);
            }
        }
    }
}

/// The position at which `k` goes: the number of entries that come before it.
pub fn find_position<K: OrderKey, V>(entries: &Vec<(K, V)>, k: &K) -> (r: usize)
    requires
        sorted(entries@),
    ensures
        r == lower_bound(entries@, *k),
{
    proof {
        lemma_lower_bound(entries@, *k);
    }
    let mut i: usize = 0;
    while i < entries.len()
        invariant
            i <= entries@.len(),
            i <= lower_bound(entries@, *k),
            sorted(entries@),
            0 <= lower_bound(entries@, *k) <= entries@.len(),
            forall|j: int| 0 <= j < lower_bound(entries@, *k) ==> key_lt(#[trigger] entries@[j].0, *k),
            forall|j: int| lower_bound(entries@, *k) <= j < entries@.len() ==> !key_lt(#[trigger] entries@[j].0, *k),
        decreases entries@.len() - i,
    {
        match compare_keys(&entries[i].0, k) {
            KeyOrder::Less => {
                i = i + 1;
            },
            _ => {
                return i;
            },
        }
    }
    i
}

/// The value under `k`, if any.
pub fn map_get_exec<'a, K: OrderKey, V>(entries: &'a Vec<(K, V)>, k: &K) -> (r: Option<&'a V>)
    requires
        sorted(entries@),
    ensures
        match r {
            Some(v) => map_get(entries@, *k) == Some(*v),
            None => map_get(entries@, *k) is None,
        },
{
    let i = find_position(entries, k);
    if i < entries.len() {
        match compare_keys(&entries[i].0, k) {
            KeyOrder::Equal => Some(&entries[i].1),
            _ => None,
        }
    } else {
        None
    }
}

/// Puts `v` under `k`, replacing what was there.
pub fn map_insert_exec<K: OrderKey, V>(entries: &mut Vec<(K, V)>, k: K, v: V)
    requires
        sorted(old(entries)@),
    ensures
        final(entries)@ == map_insert(old(entries)@, k, v),
        sorted(final(entries)@),
{
    proof {
        lemma_map_insert(entries@, k, v);
        lemma_lower_bound(entries@, k);
    }
    let i = find_position(entries, &k);
    if i < entries.len() {
        match compare_keys(&entries[i].0, &k) {
            KeyOrder::Equal => {
                entries.set(i, (k, v));
            },
            _ => {
                entries.insert(i, (k, v));
            },
        }
    } else {
        entries.insert(i, (k, v));
    }
}

} // verus!

verus! {

/// The entries with each value taken through `f`.
pub open spec fn map_view<K, V, W>(s: Seq<(K, V)>, f: spec_fn(V) -> W) -> Seq<(K, W)> {
    s.map_values(|e: (K, V)| (e.0, f(e.1)))
}

/// Where a key goes depends on the keys alone.
pub proof fn lemma_lower_bound_view<K: OrderKey, V, W>(s: Seq<(K, V)>, f: spec_fn(V) -> W, k: K)
    ensures
        lower_bound(map_view(s, f), k) == lower_bound(s, k),
    decreases s.len(),
{
    if s.len() > 0 {
        assert(map_view(s, f).drop_first() =~= map_view(s.drop_first(), f));
        lemma_lower_bound_view(s.drop_first(), f, k);
    }
}

/// Taking values through `f` keeps the order of keys.
pub proof fn lemma_sorted_view<K: OrderKey, V, W>(s: Seq<(K, V)>, f: spec_fn(V) -> W)
    ensures
        sorted(s) <==> sorted(map_view(s, f)),
{
    let t = map_view(s, f);
    assert(sorted(s) ==> sorted(t)) by {
        if sorted(s) {
            assert forall|i: int, j: int| 0 <= i < j < t.len() implies key_lt(#[trigger] t[i].0, #[trigger] t[j].0) by {
                assert(t[i].0 == s[i].0 && t[j].0 == s[j].0);
            }
        }
    }
    assert(sorted(t) ==> sorted(s)) by {
        if sorted(t) {
            assert forall|i: int, j: int| 0 <= i < j < s.len() implies key_lt(#[trigger] s[i].0, #[trigger] s[j].0) by {
                assert(t[i].0 == s[i].0 && t[j].0 == s[j].0);
            }
        }
    }
}

/// Taking values through `f` keeps the order of keys, and commutes with inserting.
pub proof fn lemma_insert_view<K: OrderKey, V, W>(s: Seq<(K, V)>, f: spec_fn(V) -> W, k: K, v: V)
    ensures
        sorted(s) <==> sorted(map_view(s, f)),
        map_view(map_insert(s, k, v), f) == map_insert(map_view(s, f), k, f(v)),
{
    lemma_lower_bound_view(s, f, k);
    lemma_sorted_view(s, f);
    let t = map_view(s, f);
    lemma_lower_bound(s, k);
    let i = lower_bound(s, k);
    if i < s.len() && s[i].0 == k {
        assert(t[i].0 == k);
        assert(map_view(s.update(i, (k, v)), f) =~= t.update(i, (k, f(v))));
    } else {
        if i < t.len() {
            assert(t[i].0 == s[i].0);
        }
        assert(map_view(s.insert(i, (k, v)), f) =~= t.insert(i, (k, f(v))));
    }
}

} // verus!

verus! {

/// Looking a key up commutes with taking values through `f`.
pub proof fn lemma_get_view<K: OrderKey, V, W>(s: Seq<(K, V)>, f: spec_fn(V) -> W, k: K)
    ensures
        map_get(map_view(s, f), k) == match map_get(s, k) {
            Some(v) => Some(f(v)),
            None => None,
        },
{
    lemma_lower_bound_view(s, f, k);
    lemma_lower_bound(s, k);
}

} // verus!
