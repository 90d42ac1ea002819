use sync_primitives::spinlock::SpinLock;

#[test]
fn it_works() {
    let mut lock: SpinLock<Vec<u64>> = SpinLock::new(Vec::new());
    // Two workers, serialized by the lock, each push one value.
    let mut g = lock.lock();
    g.deref_mut().push(1u64);
    lock.unlock(g);
    let mut g = lock.lock();
    g.deref_mut().push(2u64);
    lock.unlock(g);
    let g = lock.lock();
    assert!(g.deref().as_slice() == [1, 2] || g.deref().as_slice() == [2, 1]);
    lock.unlock(g);
}

#[test]
fn two_pushes_either_order() {
    for a_first in [true, false] {
        let mut lock: SpinLock<Vec<u64>> = SpinLock::new(Vec::new());
        let (first, second) = if a_first { (1u64, 2u64) } else { (2u64, 1u64) };
        let mut g = lock.lock();
        g.deref_mut().push(first);
        lock.unlock(g);
        let mut g = lock.lock();
        g.deref_mut().push(second);
        lock.unlock(g);
        let g = lock.lock();
        let list = g.deref().clone();
        lock.unlock(g);
        assert_eq!(list.len(), 2);
        assert!(list.contains(&1));
        assert!(list.contains(&2));
    }
}

#[test]
fn no_lost_updates() {
    // Two workers of a thousand increment critical sections each, their
    // sections interleaved alternately; the serialized total is exact.
    let mut lock: SpinLock<u64> = SpinLock::new(0);
    for _round in 0..1000 {
        for _worker in 0..2 {
            let mut g = lock.lock();
            *g.deref_mut() += 1;
            lock.unlock(g);
        }
    }
    let g = lock.lock();
    assert_eq!(*g.deref(), 2000);
    lock.unlock(g);
}

#[test]
fn unlock_publishes_critical_section_writes() {
    let mut lock: SpinLock<String> = SpinLock::new(String::from("before"));
    let mut g = lock.lock();
    let slot = g.deref_mut();
    slot.clear();
    slot.push_str("after");
    lock.unlock(g);
    let g = lock.lock();
    assert_eq!(g.deref(), "after");
    lock.unlock(g);
}
