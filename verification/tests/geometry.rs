use canopy::geom::{Rect, View};

#[test]
fn view_set_inner() {
    let mut v = View::new(Rect::new(0, 0, 100, 100), Rect::new(50, 50, 10, 10)).unwrap();

    let err = v.set_inner(Rect::new(0, 0, 190, 190));
    assert!(err.is_err());

    v.set_inner(Rect::new(110, 110, 20, 20)).unwrap();
    assert_eq!(v.view(), Rect::new(80, 80, 20, 20));
}

#[test]
fn view_resize_outer() {
    let mut v = View::new(Rect::new(0, 0, 100, 100), Rect::new(50, 50, 10, 10)).unwrap();

    v.resize_outer(Rect::new(0, 0, 90, 90));
    assert_eq!(v.outer(), Rect::new(0, 0, 90, 90));
    assert_eq!(v.view(), Rect::new(50, 50, 10, 10));

    v.resize_outer(Rect::new(0, 0, 50, 50));
    assert_eq!(v.view(), Rect::new(40, 40, 10, 10));

    v.resize_outer(Rect::new(0, 0, 50, 50));
    assert_eq!(v.view(), Rect::new(40, 40, 10, 10));

    v.resize_outer(Rect::new(0, 0, 5, 5));
    assert_eq!(v.view(), Rect::new(0, 0, 5, 5));
}

#[test]
fn view_movement() {
    let mut v = View::new(Rect::new(0, 0, 100, 100), Rect::new(0, 0, 10, 10)).unwrap();

    v.scroll_by(10, 10);
    assert_eq!(v.view(), Rect::new(10, 10, 10, 10),);

    v.scroll_by(-20, -20);
    assert_eq!(v.view(), Rect::new(0, 0, 10, 10));

    v.page_down();
    assert_eq!(v.view(), Rect::new(0, 10, 10, 10));

    v.page_up();
    assert_eq!(v.view(), Rect::new(0, 0, 10, 10));

    v.scroll_to(50, 50);
    assert_eq!(v.view(), Rect::new(50, 50, 10, 10));

    v.scroll_to(150, 150);
    assert_eq!(v.view(), Rect::new(90, 90, 10, 10));
}
