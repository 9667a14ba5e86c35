//! A reference pool for loaded objects.
//!
//! The pool deduplicates loads by keeping a weak handle to every object put into it: a load
//! of an object that is still in use elsewhere can be answered with the existing copy. It is
//! no cache: it holds no strong reference, and every `garbage_collect_interval`-th `put`
//! drops the handles whose objects are gone.
use vstd::prelude::*;
use crate::ordered::{
    OrderKey, key_lt, sorted, map_get, map_insert, map_get_exec, map_insert_exec, lemma_map_insert,
    lemma_map_get,
};

verus! {

/// A 32-byte digest orders as its bytes.
impl OrderKey for [u8; 32] {
    open spec fn order_key(&self) -> Seq<u8> {
        self@
    }

    fn order_key_bytes(&self) -> (r: Vec<u8>) {
        let mut r: Vec<u8> = Vec::new();
        let mut i: usize = 0;
        while i < 32
            invariant
                i <= 32,
                r@ == self@.take(i as int),
            decreases 32 - i,
        {
            r.push(self[i]);
            i = i + 1;
            assert(r@ =~= self@.take(i as int));
        }
        assert(self@.take(32) =~= self@);
        r
    }

    proof fn lemma_order_key_injective(a: Self, b: Self) {
        if a@ == b@ {
            assert(a =~= b);
        }
    }
}

/// A weak handle to a pooled object. Whether its object is still held elsewhere changes
/// with time: `answers_live` and `upgrades_to` name the answers a liveness check and an
/// upgrade may give, and nothing more is promised of either method.
pub trait PoolHandle {
    /// What the handle gives access to while its object lives.
    type Strong;

    /// `r` is an answer an upgrade of this handle may give: the object it refers to, or
    /// nothing once that object is gone.
    spec fn upgrades_to(&self, r: Option<Self::Strong>) -> bool;

    /// `live` is an answer a liveness check of this handle may give: whether the object it
    /// refers to was still held somewhere when asked.
    spec fn answers_live(&self, live: bool) -> bool;

    /// Whether the object is still held somewhere.
    fn is_live(&self) -> (r: bool)
        ensures
            self.answers_live(r),
    ;

    /// The object, if it is still held somewhere.
    fn upgrade(&self) -> (r: Option<Self::Strong>)
        ensures
            self.upgrades_to(r),
    ;
}

/// The entries of `s` whose flag in `keep` is set, in their order.
pub open spec fn select<T>(s: Seq<T>, keep: Seq<bool>) -> Seq<T>
    decreases s.len(),
{
    if s.len() == 0 {
        Seq::empty()
    } else {
        let rest = select(s.drop_last(), keep.drop_last());
        if keep.last() {
            rest.push(s.last())
        } else {
            rest
        }
    }
}

/// `keep` flags each entry with an answer its handle's liveness check gave.
pub open spec fn live_flags<I, W: PoolHandle>(items: Seq<(I, W)>, keep: Seq<bool>) -> bool {
    &&& keep.len() == items.len()
    &&& forall|i: int| 0 <= i < items.len() ==> items[i].1.answers_live(#[trigger] keep[i])
}

/// A pool of weak handles, keyed by id, purged of dead handles at a fixed interval of puts.
pub struct ObjectPool<I: OrderKey, W: PoolHandle> {
    items: Vec<(I, W)>,
    garbage_collect_interval: u16,
    put_count: u16,
}

impl<I: OrderKey, W: PoolHandle> ObjectPool<I, W> {
    /// The pooled entries, ordered by id.
    pub closed spec fn spec_items(&self) -> Seq<(I, W)> {
        self.items@
    }

    /// The number of puts between two purges.
    pub closed spec fn spec_interval(&self) -> u16 {
        self.garbage_collect_interval
    }

    /// The puts counted since the last purge.
    pub closed spec fn spec_put_count(&self) -> u16 {
        self.put_count
    }

    /// The entries are ordered by id, each id at most once.
    #[verifier::type_invariant]
    closed spec fn entries_sorted(&self) -> bool {
        sorted(self.items@)
    }

    /// Creates an empty pool that purges at every `garbage_collect_interval`-th put.
    pub fn new(garbage_collect_interval: u16) -> (r: Self)
        ensures
            r.spec_items() == Seq::<(I, W)>::empty(),
            r.spec_interval() == garbage_collect_interval,
            r.spec_put_count() == 0,
    {
        ObjectPool { items: Vec::new(), garbage_collect_interval, put_count: 0 }
    }

    /// The number of handles in the pool.
    pub fn num_entries(&self) -> (r: usize)
        ensures
            r == self.spec_items().len(),
    {
        self.items.len()
    }

    /// Stores the handle `item` under `id`, replacing what was there. When the puts counted
    /// since the last purge have reached the interval, each handle (the new one too) is
    /// checked for liveness, exactly those found live are kept, in order, and the count
    /// starts again; the put is then counted.
    pub fn put(&mut self, id: I, item: W)
        ensures
            sorted(final(self).spec_items()),
            final(self).spec_interval() == old(self).spec_interval(),
            old(self).spec_put_count() >= old(self).spec_interval() ==> {
                &&& final(self).spec_put_count() == 1
                &&& exists|keep: Seq<bool>|
                    live_flags(map_insert(old(self).spec_items(), id, item), keep)
                    && final(self).spec_items() == #[trigger] select(
                        map_insert(old(self).spec_items(), id, item),
                        keep,
                    )
                &&& forall|k: I|
                    #[trigger] map_get(final(self).spec_items(), k) is Some ==> map_get(
                        final(self).spec_items(),
                        k,
                    ) == map_get(map_insert(old(self).spec_items(), id, item), k)
            },
            old(self).spec_put_count() < old(self).spec_interval() ==> {
                &&& final(self).spec_put_count() == old(self).spec_put_count() + 1
                &&& final(self).spec_items() == map_insert(old(self).spec_items(), id, item)
                &&& map_get(final(self).spec_items(), id) == Some(item)
                &&& forall|k: I|
                    k != id ==> #[trigger] map_get(final(self).spec_items(), k) == map_get(
                        old(self).spec_items(),
                        k,
                    )
            },
    {
        proof {
            use_type_invariant(&*self);
            lemma_map_insert(self.items@, id, item);
        }
        let mut items: Vec<(I, W)> = Vec::new();
        std::mem::swap(&mut items, &mut self.items);
        map_insert_exec(&mut items, id, item);
        if self.put_count >= self.garbage_collect_interval {
            let ghost inserted = items@;
            let kept = Self::retain_live(items);
            proof {
                lemma_map_get(kept.0@, id);
                assert forall|k: I| #[trigger] map_get(kept.0@, k) is Some implies map_get(
                    kept.0@,
                    k,
                ) == map_get(inserted, k) by {
                    lemma_map_get(kept.0@, k);
                    lemma_map_get(inserted, k);
                    let i = choose|i: int| 0 <= i < kept.0@.len() && #[trigger] kept.0@[i].0 == k;
                    let j = choose|j: int| 0 <= j < inserted.len() && inserted[j] == kept.0@[i];
                    assert(inserted[j].0 == k);
                }
            }
            self.items = kept.0;
            self.put_count = 0;
        } else {
            self.items = items;
        }
        self.put_count = self.put_count + 1;
    }

    /// The entries whose objects are still live, in their order; with the flags read.
    fn retain_live(items: Vec<(I, W)>) -> (r: (Vec<(I, W)>, Ghost<Seq<bool>>))
        requires
            sorted(items@),
        ensures
            sorted(r.0@),
            live_flags(items@, r.1@),
            r.0@ == select(items@, r.1@),
            forall|i: int|
                0 <= i < r.0@.len() ==> items@.contains(#[trigger] r.0@[i]),
    {
        let ghost all = items@;
        let mut rest = items;
        let mut kept: Vec<(I, W)> = Vec::new();
        let ghost mut keep: Seq<bool> = Seq::empty();
        let ghost mut k: int = 0;
        while rest.len() > 0
            invariant
                0 <= k <= all.len(),
                rest@ == all.skip(k),
                keep.len() == k,
                live_flags(all.take(k), keep),
                kept@ == select(all.take(k), keep),
                sorted(all),
                sorted(kept@),
                forall|i: int|
                    0 <= i < kept@.len() ==> exists|j: int| 0 <= j < k && all[j] == #[trigger] kept@[i],
            decreases rest.len(),
        {
            let e = rest.remove(0);
            let live = e.1.is_live();
            proof {
                assert(e == all[k]);
                assert(all.take(k + 1).drop_last() =~= all.take(k));
                assert(live_flags(all.take(k + 1), keep.push(live))) by {
                    assert forall|i: int| 0 <= i < k + 1 implies all.take(k + 1)[i].1.answers_live(
                        #[trigger] keep.push(live)[i],
                    ) by {
                        if i < k {
                            assert(all.take(k)[i] == all.take(k + 1)[i]);
                            assert(keep[i] == keep.push(live)[i]);
                        }
                    }
                }
                assert(keep.push(live).drop_last() =~= keep);
                assert(all.take(k + 1).last() == all[k]);
            }
            if live {
                proof {
                    let pushed = kept@.push(e);
                    assert forall|a: int, b: int| 0 <= a < b < pushed.len() implies key_lt(
                        #[trigger] pushed[a].0,
                        #[trigger] pushed[b].0,
                    ) by {
                        if b == kept@.len() {
                            let j = choose|j: int| 0 <= j < k && all[j] == #[trigger] kept@[a];
                            assert(key_lt(all[j].0, all[k].0));
                        }
                    }
                    assert forall|i: int| 0 <= i < kept@.len() + 1 implies exists|j: int|
                        0 <= j < k + 1 && all[j] == #[trigger] kept@.push(e)[i] by {
                        if i == kept@.len() {
                            assert(all[k] == kept@.push(e)[i]);
                        } else {
                            let j = choose|j: int| 0 <= j < k && all[j] == #[trigger] kept@[i];
                            assert(all[j] == kept@.push(e)[i]);
                        }
                    }
                }
                kept.push(e);
            }
            proof {
                keep = keep.push(live);
                k = k + 1;
                assert(rest@ =~= all.skip(k));
            }
        }
        proof {
            assert(all.take(k) =~= all);
            assert forall|i: int| 0 <= i < kept@.len() implies all.contains(#[trigger] kept@[i]) by {
                let x = kept@[i];
                let j = choose|j: int| 0 <= j < k && all[j] == #[trigger] kept@[i];
                assert(all[j] == kept@[i]);
            }
        }
        (kept, Ghost(keep))
    }

    /// The object under `id`, if the pool holds a handle for it and the object is still
    /// live: the upgrade of the handle stored under `id`.
    pub fn get(&self, id: &I) -> (r: Option<W::Strong>)
        ensures
            match map_get(self.spec_items(), *id) {
                None => r is None,
                Some(h) => h.upgrades_to(r),
            },
    {
        proof {
            use_type_invariant(self);
        }
        match map_get_exec(&self.items, id) {
            Some(handle) => handle.upgrade(),
            None => None,
        }
    }
}

} // verus!
