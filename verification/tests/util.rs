use kernel::util::StaticCell;

#[test]
fn static_cell_hands_out_its_value() {
    let cell = StaticCell::new(7u32);
    assert_eq!(*cell.get(), 7);
    let cell = StaticCell::new(vec![1, 2, 3]);
    assert_eq!(cell.get().len(), 3);
}

#[test]
fn static_cell_set_returns_the_old_value() {
    let mut cell = StaticCell::new(String::from("old"));
    assert_eq!(cell.set(String::from("new")), "old");
    assert_eq!(cell.get(), "new");
    assert_eq!(cell.set(String::new()), "new");
    assert_eq!(cell.get(), "");
}

#[test]
fn static_cell_get_mut_changes_the_value_in_place() {
    let mut cell = StaticCell::new(0u32);
    *cell.get_mut() += 1;
    *cell.get_mut() += 1;
    assert_eq!(*cell.get(), 2);
    assert_eq!(cell.set(10), 2);
}
