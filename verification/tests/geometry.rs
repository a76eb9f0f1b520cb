use pstools::bbox::BBox;
use pstools::decimal::fixed_to_string;
use pstools::fixed::Fixed;
use pstools::point::Point;

#[test]
fn it_works() {}

#[test]
fn fixed_construction() {
    assert_eq!(Fixed::from_int(5).milli(), 5000);
    assert_eq!(Fixed::from_int(-3).milli(), -3000);
    assert_eq!(Fixed::from_milli(250).milli(), 250);
    assert_eq!(Fixed::zero().milli(), 0);
}

#[test]
fn decimal_formatting() {
    assert_eq!(fixed_to_string(5000), "5");
    assert_eq!(fixed_to_string(0), "0");
    assert_eq!(fixed_to_string(33200), "33.2");
    assert_eq!(fixed_to_string(-250), "-0.25");
    assert_eq!(fixed_to_string(5), "0.005");
    assert_eq!(fixed_to_string(1100), "1.1");
    assert_eq!(fixed_to_string(-1000000), "-1000");
    assert_eq!(fixed_to_string(123456), "123.456");
}

#[test]
fn point_origin() {
    let p = Point::new();
    assert_eq!(p.x.milli(), 0);
    assert_eq!(p.y.milli(), 0);
}

#[test]
fn bbox_starts_invalid_and_seeds() {
    let mut b = BBox::new();
    assert!(!b.valid);
    b.addpoint(Fixed::from_int(1), Fixed::from_int(5));
    assert!(b.valid);
    assert_eq!(b.llx.milli(), 1000);
    assert_eq!(b.lly.milli(), 5000);
    assert_eq!(b.urx.milli(), 1000);
    assert_eq!(b.ury.milli(), 5000);
}

#[test]
fn bbox_contains_all_added_points() {
    // Each side of the accumulated box is achieved by one of the points.
    let pts = [(1i64, 5i64), (3, -2), (0, 4), (2, 2)];
    let mut b = BBox::new();
    for (x, y) in pts {
        b.addpoint(Fixed::from_int(x), Fixed::from_int(y));
    }
    assert_eq!(b.llx.milli(), 0);
    assert_eq!(b.lly.milli(), -2000);
    assert_eq!(b.urx.milli(), 3000);
    assert_eq!(b.ury.milli(), 5000);
    for (x, y) in pts {
        assert!(b.llx.milli() <= x * 1000 && x * 1000 <= b.urx.milli());
        assert!(b.lly.milli() <= y * 1000 && y * 1000 <= b.ury.milli());
    }
}

#[test]
fn bbox_measures() {
    let mut b = BBox::new();
    b.addpoint(Fixed::zero(), Fixed::zero());
    b.addpoint(Fixed::from_int(10), Fixed::from_int(20));
    assert_eq!(b.dx().milli(), 10000);
    assert_eq!(b.dy().milli(), 20000);
    assert_eq!(b.area().milli(), 200000);
    let c = b.center();
    assert_eq!(c.x.milli(), 5000);
    assert_eq!(c.y.milli(), 10000);
}

#[test]
fn bbox_expand_union() {
    let mut a = BBox::new();
    a.addpoint(Fixed::zero(), Fixed::zero());
    a.addpoint(Fixed::from_int(4), Fixed::from_int(4));
    let mut o = BBox::new();
    o.addpoint(Fixed::from_int(-1), Fixed::from_int(2));
    o.addpoint(Fixed::from_int(6), Fixed::from_int(3));
    a.expand(&o);
    assert_eq!(a.llx.milli(), -1000);
    assert_eq!(a.lly.milli(), 0);
    assert_eq!(a.urx.milli(), 6000);
    assert_eq!(a.ury.milli(), 4000);
}

#[test]
fn split_h_partitions_box() {
    // The partition line is shared, and the union reconstructs the box.
    let mut b = BBox::new();
    b.addpoint(Fixed::zero(), Fixed::zero());
    b.addpoint(Fixed::from_int(10), Fixed::from_int(10));
    let (bottom, top) = b.split_h(Fixed::from_milli(500));
    assert_eq!(bottom.ury.milli(), 5000);
    assert_eq!(top.lly.milli(), 5000);
    assert_eq!(bottom.lly.milli(), 0);
    assert_eq!(top.ury.milli(), 10000);
    let mut u = bottom;
    u.expand(&top);
    assert_eq!(u, b);
}

#[test]
fn split_v_partitions_box() {
    let mut b = BBox::new();
    b.addpoint(Fixed::from_int(2), Fixed::from_int(1));
    b.addpoint(Fixed::from_int(12), Fixed::from_int(9));
    let (left, right) = b.split_v(Fixed::from_milli(250));
    assert_eq!(left.urx.milli(), 4500);
    assert_eq!(right.llx.milli(), 4500);
    let mut u = left;
    u.expand(&right);
    assert_eq!(u, b);
}

#[test]
fn point_and_bbox_text() {
    let p = Point {
        x: Fixed::from_int(5),
        y: Fixed::from_milli(-250),
    };
    assert_eq!(p.describe(), "(5, -0.25)");
    let mut b = BBox::new();
    b.addpoint(Fixed::zero(), Fixed::zero());
    b.addpoint(Fixed::from_int(10), Fixed::from_int(20));
    assert_eq!(b.describe(), "[(0, 0) - (10, 20)]:200");
}

#[test]
fn split_at_extreme_bias() {
    let mut b = BBox::new();
    b.addpoint(Fixed::zero(), Fixed::zero());
    b.addpoint(Fixed::from_int(8), Fixed::from_int(8));
    let (bottom, top) = b.split_h(Fixed::zero());
    assert_eq!(bottom.ury.milli(), 0);
    assert_eq!(top.lly.milli(), 0);
    let (bottom2, top2) = b.split_h(Fixed::from_milli(1000));
    assert_eq!(bottom2.ury.milli(), 8000);
    assert_eq!(top2.lly.milli(), 8000);
}
