use raymond::grid::Array2D;

#[test]
fn new_fills_every_cell() {
    let a = Array2D::new(2, 3, &7u32);
    assert_eq!(a.rows, 2);
    assert_eq!(a.columns, 3);
    for r in 0..2 {
        for c in 0..3 {
            assert_eq!(*a.get(r, c), 7);
        }
    }
}

#[test]
fn set_changes_one_cell() {
    let mut a = Array2D::new(3, 2, &0i64);
    a.set(1, 1, &-5);
    a.set(2, 0, &9);
    assert_eq!(*a.get(1, 1), -5);
    assert_eq!(*a.get(2, 0), 9);
    assert_eq!(*a.get(0, 0), 0);
    assert_eq!(*a.get(1, 0), 0);
    assert_eq!(*a.get(2, 1), 0);
}

#[test]
fn empty_grid_has_no_cells() {
    let a = Array2D::new(0, 4, &1u8);
    assert_eq!(a.rows, 0);
    assert!(a.iter_rows().is_empty());
}

#[test]
fn iter_rows_are_row_major() {
    let mut a = Array2D::new(2, 3, &0u32);
    for r in 0..2 {
        for c in 0..3 {
            a.set(r, c, &((r * 10 + c) as u32));
        }
    }
    let rows = a.iter_rows();
    assert_eq!(rows.len(), 2);
    assert_eq!(rows[0], &[0, 1, 2]);
    assert_eq!(rows[1], &[10, 11, 12]);
}

#[test]
fn iter_rows_mut_writes_through() {
    let mut a = Array2D::new(3, 2, &String::from("x"));
    {
        let mut rows = a.iter_rows_mut();
        assert_eq!(rows.len(), 3);
        rows[1][0] = String::from("left");
        rows[2][1] = String::from("right");
    }
    assert_eq!(a.get(1, 0), "left");
    assert_eq!(a.get(2, 1), "right");
    assert_eq!(a.get(0, 0), "x");
    assert_eq!(a.get(1, 1), "x");
}
