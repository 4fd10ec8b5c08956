use cellkit::refcell::RefCell;
use cellkit::refcell::RefState;

#[test]
fn new_cell_is_unshared() {
    let c = RefCell::new(0u64);
    assert_eq!(c.state(), RefState::Unshared);
}

#[test]
fn borrow_then_borrow_mut_conflict_and_recovery() {
    // A first read borrow succeeds (Shared(1)); a write bid while the read
    // guard is alive yields nothing; after releasing the read guard the
    // write bid succeeds (Exclusive); a second write bid while the write
    // guard is alive yields nothing.
    let mut c = RefCell::new(5u64);
    let g = c.borrow().expect("read borrow from Unshared must succeed");
    assert_eq!(c.state(), RefState::Shared(1));
    assert!(c.borrow_mut().is_none());
    g.release(&mut c);
    assert_eq!(c.state(), RefState::Unshared);
    let w = c.borrow_mut().expect("write borrow from Unshared must succeed");
    assert_eq!(c.state(), RefState::Exclusive);
    assert!(c.borrow_mut().is_none());
    w.release(&mut c);
    assert_eq!(c.state(), RefState::Unshared);
}

#[test]
fn failed_borrow_mut_leaves_state_unchanged() {
    // Boundary: a write bid against a cell holding one read guard yields
    // nothing and leaves the cell at Shared(1).
    let mut c = RefCell::new(1u8);
    let g = c.borrow().unwrap();
    assert_eq!(c.state(), RefState::Shared(1));
    assert!(c.borrow_mut().is_none());
    assert_eq!(c.state(), RefState::Shared(1));
    g.release(&mut c);
}

#[test]
fn failed_borrow_leaves_exclusive_state_unchanged() {
    let mut c = RefCell::new(1u8);
    let w = c.borrow_mut().unwrap();
    assert!(c.borrow().is_none());
    assert_eq!(c.state(), RefState::Exclusive);
    w.release(&mut c);
}

#[test]
fn many_read_guards_coexist_and_release_to_unshared() {
    // Acquiring N read guards then releasing all N returns the cell to
    // Unshared, whatever order the releases come in.
    let mut c = RefCell::new(7u32);
    let g1 = c.borrow().unwrap();
    let g2 = c.borrow().unwrap();
    let g3 = c.borrow().unwrap();
    assert_eq!(c.state(), RefState::Shared(3));
    assert_eq!(*g2.deref(&c), 7);
    g2.release(&mut c);
    assert_eq!(c.state(), RefState::Shared(2));
    g1.release(&mut c);
    assert_eq!(c.state(), RefState::Shared(1));
    g3.release(&mut c);
    assert_eq!(c.state(), RefState::Unshared);
}

#[test]
fn read_guard_dereferences_value() {
    let mut c = RefCell::new(String::from("peek"));
    let g = c.borrow().unwrap();
    assert_eq!(g.deref(&c), "peek");
    g.release(&mut c);
}

#[test]
fn write_guard_reads_and_writes_value() {
    let mut c = RefCell::new(5u64);
    let w = c.borrow_mut().unwrap();
    assert_eq!(*w.deref(&c), 5);
    *w.deref_mut(&mut c) = 9;
    assert_eq!(*w.deref(&c), 9);
    w.release(&mut c);
    let g = c.borrow().unwrap();
    assert_eq!(*g.deref(&c), 9);
    g.release(&mut c);
}
