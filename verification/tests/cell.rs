use cellkit::cell::Cell;

#[test]
fn get_returns_initial_value() {
    let c = Cell::new(41u32);
    assert_eq!(c.get(), 41);
}

#[test]
fn get_after_set_returns_new_value() {
    let mut c = Cell::new(1u32);
    c.set(2);
    assert_eq!(c.get(), 2);
}

#[test]
fn set_discards_previous_value() {
    let mut c = Cell::new(10i64);
    c.set(-3);
    c.set(7);
    assert_eq!(c.get(), 7);
}

#[test]
fn cell_holds_non_integer_copy_values() {
    let mut c = Cell::new((1u8, true));
    assert_eq!(c.get(), (1u8, true));
    c.set((9u8, false));
    assert_eq!(c.get(), (9u8, false));
}
