use tetris::geometry::Pos2D;

#[test]
fn xy_keeps_both_coordinates() {
    let p = Pos2D::xy(3, -4);
    assert_eq!(p.x, 3);
    assert_eq!(p.y, -4);
}

#[test]
fn add_sums_coordinate_by_coordinate() {
    let mut p = Pos2D::xy(5, 2);
    p.add(Pos2D::xy(-1, 1));
    assert_eq!(p, Pos2D::xy(4, 3));
}

#[test]
fn inv_negates_both_coordinates() {
    let p = Pos2D::xy(7, -9).inv();
    assert_eq!(p, Pos2D::xy(-7, 9));
    let mut q = Pos2D::xy(7, -9);
    q.add(p);
    assert_eq!(q, Pos2D::xy(0, 0));
}
