use std::sync::{Arc, Weak};

use casper_core::object_pool::{ObjectPool, PoolHandle};
use rand::Rng;

struct WeakBytes(Weak<[u8]>);

impl PoolHandle for WeakBytes {
    type Strong = Arc<[u8]>;

    fn upgrades_to(&self, _r: Option<Arc<[u8]>>) -> bool {
        unreachable!("only used in proofs")
    }

    fn answers_live(&self, _live: bool) -> bool {
        unreachable!("only used in proofs")
    }

    fn is_live(&self) -> bool {
        self.0.strong_count() > 0
    }

    fn upgrade(&self) -> Option<Arc<[u8]>> {
        self.0.upgrade()
    }
}

fn random_item(rng: &mut impl Rng) -> ([u8; 32], Arc<[u8]>) {
    let id: [u8; 32] = rng.gen();
    let len = rng.gen_range(16..64);
    let bytes: Vec<u8> = (0..len).map(|_| rng.gen()).collect();
    (id, bytes.into())
}

#[test]
fn can_load_and_store_items() {
    let mut pool: ObjectPool<[u8; 32], WeakBytes> = ObjectPool::new(5);
    let mut rng = rand::thread_rng();

    let (txn1_id, txn1_shared) = random_item(&mut rng);
    let (txn2_id, txn2_shared) = random_item(&mut rng);

    assert!(pool.get(&txn1_id).is_none());
    assert!(pool.get(&txn2_id).is_none());

    pool.put(txn1_id, WeakBytes(Arc::downgrade(&txn1_shared)));
    assert!(Arc::ptr_eq(&pool.get(&txn1_id).expect("did not find d1"), &txn1_shared));
    assert!(pool.get(&txn2_id).is_none());

    pool.put(txn2_id, WeakBytes(Arc::downgrade(&txn2_shared)));
    assert!(Arc::ptr_eq(&pool.get(&txn1_id).expect("did not find d1"), &txn1_shared));
    assert!(Arc::ptr_eq(&pool.get(&txn2_id).expect("did not find d1"), &txn2_shared));
}

#[test]
fn frees_memory_after_reference_loss() {
    let mut pool: ObjectPool<[u8; 32], WeakBytes> = ObjectPool::new(5);
    let mut rng = rand::thread_rng();

    let (txn1_id, txn1_shared) = random_item(&mut rng);

    assert!(pool.get(&txn1_id).is_none());

    pool.put(txn1_id, WeakBytes(Arc::downgrade(&txn1_shared)));
    assert!(Arc::ptr_eq(&pool.get(&txn1_id).expect("did not find d1"), &txn1_shared));

    drop(txn1_shared);
    assert!(pool.get(&txn1_id).is_none());
}

#[test]
fn garbage_is_collected() {
    let mut pool: ObjectPool<[u8; 32], WeakBytes> = ObjectPool::new(5);
    let mut rng = rand::thread_rng();

    assert_eq!(pool.num_entries(), 0);

    for i in 0..5 {
        let (id, shared) = random_item(&mut rng);
        pool.put(id, WeakBytes(Arc::downgrade(&shared)));
        assert_eq!(pool.num_entries(), i + 1);
        drop(shared);
        assert_eq!(pool.num_entries(), i + 1);
    }

    let (id, shared) = random_item(&mut rng);
    pool.put(id, WeakBytes(Arc::downgrade(&shared)));
    assert_eq!(pool.num_entries(), 1);
    drop(shared);
    assert_eq!(pool.num_entries(), 1);
}

#[test]
fn put_replaces_the_handle_under_an_id() {
    let mut pool: ObjectPool<[u8; 32], WeakBytes> = ObjectPool::new(100);
    let first: Arc<[u8]> = vec![1u8, 2, 3].into();
    let second: Arc<[u8]> = vec![4u8, 5].into();
    pool.put([7u8; 32], WeakBytes(Arc::downgrade(&first)));
    pool.put([7u8; 32], WeakBytes(Arc::downgrade(&second)));
    assert_eq!(pool.num_entries(), 1);
    assert!(Arc::ptr_eq(&pool.get(&[7u8; 32]).unwrap(), &second));
}

#[test]
fn collection_keeps_live_handles_in_order() {
    let mut pool: ObjectPool<[u8; 32], WeakBytes> = ObjectPool::new(2);
    let a: Arc<[u8]> = vec![1u8].into();
    let c: Arc<[u8]> = vec![3u8].into();
    pool.put([1u8; 32], WeakBytes(Arc::downgrade(&a)));
    {
        let b: Arc<[u8]> = vec![2u8].into();
        pool.put([2u8; 32], WeakBytes(Arc::downgrade(&b)));
    }
    assert_eq!(pool.num_entries(), 2);
    pool.put([3u8; 32], WeakBytes(Arc::downgrade(&c)));
    assert_eq!(pool.num_entries(), 2);
    assert!(Arc::ptr_eq(&pool.get(&[1u8; 32]).unwrap(), &a));
    assert!(pool.get(&[2u8; 32]).is_none());
    assert!(Arc::ptr_eq(&pool.get(&[3u8; 32]).unwrap(), &c));
}
