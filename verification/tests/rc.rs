use cellkit::rc::Rc;

#[test]
fn new_box_has_one_handle_and_is_live() {
    let (inner, _h1) = Rc::new(10u64);
    assert_eq!(inner.count(), 1);
    assert!(inner.is_live());
}

#[test]
fn duplicate_increments_count_and_keeps_payload() {
    let (mut inner, h1) = Rc::new(5u64);
    let h2 = h1.duplicate(&mut inner);
    assert_eq!(inner.count(), 2);
    assert!(inner.is_live());
    assert_eq!(*h2.deref(&inner), 5);
    assert_eq!(*h1.deref(&inner), 5);
}

#[test]
fn destroy_of_last_handle_frees() {
    let (mut inner, h1) = Rc::new(3u64);
    h1.destroy(&mut inner);
    assert_eq!(inner.count(), 0);
    assert!(!inner.is_live());
}

#[test]
fn three_handles_freed_only_at_third_destroy() {
    // Start with one handle, duplicate twice (3 live handles), destroy one
    // (2 live), destroy one (1 live, not freed), destroy the last (freed).
    let (mut inner, h1) = Rc::new(10u64);
    let h2 = h1.duplicate(&mut inner);
    let h3 = h2.duplicate(&mut inner);
    assert_eq!(inner.count(), 3);
    h3.destroy(&mut inner);
    assert_eq!(inner.count(), 2);
    assert!(inner.is_live());
    h2.destroy(&mut inner);
    assert_eq!(inner.count(), 1);
    assert!(inner.is_live());
    assert_eq!(*h1.deref(&inner), 10);
    h1.destroy(&mut inner);
    assert_eq!(inner.count(), 0);
    assert!(!inner.is_live());
}

#[test]
fn deref_reads_payload_through_any_handle() {
    let (mut inner, h1) = Rc::new(String::from("shared"));
    let h2 = h1.duplicate(&mut inner);
    assert_eq!(h1.deref(&inner), "shared");
    assert_eq!(h2.deref(&inner), "shared");
    h1.destroy(&mut inner);
    assert_eq!(h2.deref(&inner), "shared");
    h2.destroy(&mut inner);
    assert!(!inner.is_live());
}
