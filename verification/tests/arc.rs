use sync_primitives::arc::Arc;

#[test]
fn payload_destroyed_exactly_once() {
    // Five handles via repeated duplication, then five releases: the payload
    // must come back for destruction exactly once, at the very last release.
    let mut arc = Arc::new(String::from("shared"));
    for _ in 0..4 {
        arc.clone();
    }
    let mut destroyed = 0;
    let mut current = Some(arc);
    for _ in 0..5 {
        match current.take().unwrap().drop_handle() {
            Ok(rest) => current = Some(rest),
            Err(payload) => {
                assert_eq!(payload, "shared");
                destroyed += 1;
            }
        }
    }
    assert_eq!(destroyed, 1);
    assert!(current.is_none());
}

#[test]
fn destruction_only_at_last_release() {
    let mut arc = Arc::new(7u64);
    arc.clone();
    arc.clone();
    // Three handles: the first two releases must keep the payload alive.
    let arc = arc.drop_handle().ok().expect("two handles remain");
    let arc = arc.drop_handle().ok().expect("one handle remains");
    let freed = arc.drop_handle().err().expect("last release frees");
    assert_eq!(freed, 7);
}

#[test]
fn deref_reads_shared_payload() {
    let mut arc = Arc::new(41u64);
    assert_eq!(*arc.deref(), 41);
    arc.clone();
    assert_eq!(*arc.deref(), 41);
}

#[test]
fn get_mut_only_when_unique() {
    let mut arc = Arc::new(1u64);
    assert!(arc.is_unique());
    *arc.get_mut() = 2;
    assert_eq!(*arc.deref(), 2);

    arc.clone();
    // A second handle is live: exclusive access is no longer on offer.
    assert!(!arc.is_unique());

    let arc = arc.drop_handle().ok().expect("one handle remains");
    // Unique again: exclusive access returns.
    assert!(arc.is_unique());
    assert_eq!(*arc.deref(), 2);
}
