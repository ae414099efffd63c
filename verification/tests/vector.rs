use minecrust::vector::{Vector2D, Vector3D};

#[test]
fn new_2d_fills_every_cell() {
    let v = Vector2D::new(3, 7u8);
    assert_eq!(v.side_len(), 3);
    assert_eq!(v.len(), 9);
    assert!(v.as_slice().iter().all(|&c| c == 7));
}

#[test]
fn new_default_uses_the_default() {
    let v: Vector2D<Option<u32>> = Vector2D::new_default(5);
    assert_eq!(v.len(), 25);
    assert!(v.as_slice().iter().all(|c| c.is_none()));
    let w: Vector3D<i32> = Vector3D::new_default(3);
    assert_eq!(w.len(), 27);
    assert!(w.into_vec().iter().all(|&c| c == 0));
}

#[test]
fn centred_2d_coordinates() {
    let mut v = Vector2D::new(3, 0i32);
    assert_eq!(v.index_of(-1, -1), 0);
    assert_eq!(v.index_of(0, 0), 4);
    assert_eq!(v.index_of(1, 1), 8);
    assert_eq!(v.index_of(1, -1), 2);
    assert_eq!(v.index_of(-1, 1), 6);
    v.set_at(-1, -1, 5);
    v.set_at(0, -1, 6);
    assert_eq!(*v.at(-1, -1), 5);
    assert_eq!(*v.at(0, -1), 6);
    assert_eq!(*v.get(1), 6);
    assert_eq!(*v.at(1, 1), 0);
}

#[test]
fn centred_3d_coordinates() {
    let mut v = Vector3D::new(3, 0i32);
    assert_eq!(v.index_of(-1, -1, -1), 0);
    assert_eq!(v.index_of(0, 0, 0), 13);
    assert_eq!(v.index_of(1, 1, 1), 26);
    assert_eq!(v.index_of(1, 0, -1), 5);
    v.set_at(0, 2 - 2, 1, 9);
    assert_eq!(*v.at(0, 0, 1), 9);
    assert_eq!(*v.get(22), 9);
    v.set(0, 4);
    assert_eq!(*v.at(-1, -1, -1), 4);
}

#[test]
fn larger_grid_offsets() {
    let v = Vector3D::new(9, 0u8);
    assert_eq!(v.index_of(-4, -4, -4), 0);
    assert_eq!(v.index_of(4, 4, 4), 728);
    assert_eq!(v.index_of(0, 2, 0), 4 + 6 * 9 + 4 * 81);
    let w = Vector2D::new(1, 'x');
    assert_eq!(w.index_of(0, 0), 0);
    assert_eq!(*w.at(0, 0), 'x');
}

#[test]
fn grids_compare_by_side_and_cells() {
    let a = Vector2D::new(3, 1u8);
    let mut b = Vector2D::new(3, 1u8);
    assert!(a.eq(&b));
    b.set_at(1, 0, 2);
    assert!(!a.eq(&b));
    let c = Vector2D::new(1, 1u8);
    assert!(!a.eq(&c));
    let x: Vector3D<Option<u32>> = Vector3D::new_default(3);
    let mut y: Vector3D<Option<u32>> = Vector3D::new_default(3);
    assert!(x.eq(&y));
    y.set_at(-1, 0, 1, Some(4));
    assert!(!x.eq(&y));
}
