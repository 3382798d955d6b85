use canopy::geom::{Direction, Expanse, Line, Point, Rect};
use canopy::{Error, NodeState, ViewPort};

fn pt(x: u16, y: u16) -> Point {
    Point { x, y }
}

#[test]
fn clamp_moves_as_little_as_needed() {
    let a = Rect::new(10, 10, 100, 100);
    assert_eq!(Rect::new(20, 20, 10, 10).clamp(a), Ok(Rect::new(20, 20, 10, 10)));
    assert_eq!(Rect::new(0, 0, 10, 10).clamp(a), Ok(Rect::new(10, 10, 10, 10)));
    assert_eq!(Rect::new(105, 5, 10, 10).clamp(a), Ok(Rect::new(100, 10, 10, 10)));
    assert_eq!(Rect::new(500, 500, 100, 100).clamp(a), Ok(a));
    assert_eq!(Rect::new(0, 0, 101, 1).clamp(a), Err(Error::Geometry));
    assert_eq!(Rect::new(0, 0, 1, 101).clamp(a), Err(Error::Geometry));
    assert_eq!(Rect::new(9, 9, 0, 0).clamp(a), Ok(Rect::new(10, 10, 0, 0)));
    let edge = Rect::new(65000, 65000, 1000, 1000);
    assert_eq!(Rect::new(65535, 0, 10, 10).clamp(edge), Ok(Rect::new(65535, 65000, 10, 10)));
}

#[test]
fn containment() {
    let r = Rect::new(10, 10, 5, 5);
    assert!(r.contains_point(pt(10, 10)));
    assert!(r.contains_point(pt(14, 14)));
    assert!(!r.contains_point(pt(15, 14)));
    assert!(!r.contains_point(pt(9, 10)));
    assert!(!Rect::new(3, 3, 0, 5).contains_point(pt(3, 3)));
    assert!(r.contains_rect(&r));
    assert!(r.contains_rect(&Rect::new(12, 12, 3, 3)));
    assert!(!r.contains_rect(&Rect::new(12, 12, 4, 3)));
    assert!(r.contains_rect(&Rect::new(15, 15, 0, 0)));
    assert!(!r.contains_rect(&Rect::new(16, 15, 0, 0)));
    assert!(Rect::new(65535, 0, 1, 1).contains_point(pt(65535, 0)));
    assert!(Rect::new(0, 0, 0, 0).is_empty() && !r.is_empty());
    assert_eq!(r.at(pt(1, 2)), Rect::new(1, 2, 5, 5));
    assert_eq!(r.expanse(), Expanse::new(5, 5));
    assert_eq!(Expanse::new(3, 4).rect(), Rect::new(0, 0, 3, 4));
    assert_eq!(Expanse::new(65535, 65535).area(), 4294836225);
}

#[test]
fn intersection() {
    let r = Rect::new(10, 10, 10, 10);
    assert_eq!(r.intersect(&Rect::new(15, 5, 10, 10)), Some(Rect::new(15, 10, 5, 5)));
    assert_eq!(r.intersect(&Rect::new(0, 0, 100, 100)), Some(r));
    assert_eq!(r.intersect(&Rect::new(20, 10, 5, 5)), None);
    assert_eq!(r.intersect(&Rect::new(12, 12, 0, 3)), None);
    assert_eq!(
        Rect::new(65530, 0, 10, 10).intersect(&Rect::new(65534, 5, 100, 100)),
        Some(Rect::new(65534, 5, 6, 5))
    );
}

#[test]
fn shifting_saturates() {
    let r = Rect::new(5, 5, 10, 10);
    assert_eq!(r.shift(-10, 3), Rect::new(0, 8, 10, 10));
    assert_eq!(Rect::new(65530, 0, 1, 1).shift(100, -1), Rect::new(65535, 0, 1, 1));
    assert_eq!(pt(3, 4).scroll(i16::MIN, i16::MAX), pt(0, 32771));
    assert!(Point::zero().is_zero() && !pt(0, 1).is_zero());
    let outer = Rect::new(0, 0, 20, 20);
    assert_eq!(r.shift_within(100, -100, outer), Rect::new(10, 0, 10, 10));
    assert_eq!(r.shift_within(1, 1, Rect::new(0, 0, 5, 5)), r);
}

#[test]
fn inner_and_first_line() {
    let r = Rect::new(10, 10, 10, 4);
    assert_eq!(r.inner(1), Rect::new(11, 11, 8, 2));
    assert_eq!(r.inner(2), Rect::new(12, 12, 6, 0));
    assert_eq!(r.inner(3), Rect::new(10, 10, 0, 0));
    assert_eq!(r.inner(0), r);
    assert_eq!(Rect::new(65535, 0, 10, 10).inner(1), Rect::new(65535, 0, 0, 0));
    assert_eq!(r.first_line(), Rect::new(10, 10, 10, 1));
    assert_eq!(Rect::new(1, 1, 5, 0).first_line(), Rect::new(1, 1, 5, 0));
    assert_eq!(Line::new(1, 2, 3).rect(), Rect::new(1, 2, 3, 1));
    assert_eq!(Line::default(), Line::new(0, 0, 0));
}

#[test]
fn carving() {
    let r = Rect::new(10, 20, 10, 6);
    assert_eq!(r.carve_hstart(3), (Rect::new(10, 20, 3, 6), Rect::new(13, 20, 7, 6)));
    assert_eq!(r.carve_hend(3), (Rect::new(10, 20, 7, 6), Rect::new(17, 20, 3, 6)));
    assert_eq!(r.carve_vstart(2), (Rect::new(10, 20, 10, 2), Rect::new(10, 22, 10, 4)));
    assert_eq!(r.carve_vend(2), (Rect::new(10, 20, 10, 4), Rect::new(10, 24, 10, 2)));
    assert_eq!(r.carve_hstart(10), (r, Rect::new(20, 20, 0, 6)));
    assert_eq!(r.carve_hstart(11), (Rect::new(10, 20, 0, 6), r));
    assert_eq!(r.carve_hend(11), (r, Rect::new(10, 20, 0, 6)));
    assert_eq!(r.carve_vstart(7), (Rect::new(10, 20, 10, 0), r));
    assert_eq!(r.carve_vend(7), (r, Rect::new(10, 20, 10, 0)));
    assert_eq!(r.carve_vend(0), (r, Rect::new(10, 26, 10, 0)));
}

#[test]
fn splitting() {
    let r = Rect::new(10, 20, 10, 7);
    assert_eq!(
        r.split_horizontal(3),
        Ok(vec![Rect::new(10, 20, 4, 7), Rect::new(14, 20, 3, 7), Rect::new(17, 20, 3, 7)])
    );
    assert_eq!(
        r.split_vertical(2),
        Ok(vec![Rect::new(10, 20, 10, 4), Rect::new(10, 24, 10, 3)])
    );
    assert_eq!(r.split_horizontal(1), Ok(vec![r]));
    assert_eq!(r.split_horizontal(0), Err(Error::Geometry));
    assert_eq!(r.split_vertical(0), Err(Error::Geometry));
    let thin = Rect::new(0, 0, 2, 1).split_horizontal(3).unwrap();
    assert_eq!(thin, [Rect::new(0, 0, 1, 1), Rect::new(1, 0, 1, 1), Rect::new(2, 0, 0, 1)]);
    let far = Rect::new(65535, 0, 4, 1).split_horizontal(2).unwrap();
    assert_eq!(far, [Rect::new(65535, 0, 2, 1), Rect::new(65535, 0, 2, 1)]);

    assert_eq!(
        Rect::new(0, 0, 100, 100).split_panes(&vec![2, 1]),
        Ok(vec![
            vec![Rect::new(0, 0, 50, 50), Rect::new(0, 50, 50, 50)],
            vec![Rect::new(50, 0, 50, 100)]
        ])
    );
    assert_eq!(r.split_panes(&vec![]), Err(Error::Geometry));
    assert_eq!(r.split_panes(&vec![1, 0]), Err(Error::Geometry));
}

#[test]
fn searching() {
    let r = Rect::new(10, 10, 2, 3);
    assert_eq!(r.search_lanes(Direction::Right), 3);
    assert_eq!(r.search_lanes(Direction::Up), 2);
    assert_eq!(r.search_at(Direction::Right, 0, 0), Some(pt(12, 10)));
    assert_eq!(r.search_at(Direction::Right, 1, 2), Some(pt(13, 12)));
    assert_eq!(r.search_at(Direction::Right, 0, 3), None);
    assert_eq!(r.search_at(Direction::Left, 0, 1), Some(pt(9, 11)));
    assert_eq!(r.search_at(Direction::Left, 9, 0), Some(pt(0, 10)));
    assert_eq!(r.search_at(Direction::Left, 10, 0), None);
    assert_eq!(r.search_at(Direction::Down, 0, 1), Some(pt(11, 13)));
    assert_eq!(r.search_at(Direction::Down, 0, 2), None);
    assert_eq!(r.search_at(Direction::Up, 0, 0), Some(pt(10, 9)));
    assert_eq!(r.search_at(Direction::Up, 9, 1), Some(pt(11, 0)));
    assert_eq!(r.search_at(Direction::Up, 10, 1), None);
    assert_eq!(r.search_at(Direction::Right, 65523, 0), Some(pt(65535, 10)));
    assert_eq!(r.search_at(Direction::Right, 65524, 0), None);
}

fn sample() -> ViewPort {
    ViewPort::new(Expanse::new(100, 100), Rect::new(30, 30, 20, 10), pt(5, 7)).unwrap()
}

#[test]
fn viewport_parts() {
    let vp = sample();
    assert_eq!(vp.canvas(), Expanse::new(100, 100));
    assert_eq!(vp.view(), Rect::new(30, 30, 20, 10));
    assert_eq!(vp.position(), pt(5, 7));
    assert_eq!(vp.screen_rect(), Rect::new(5, 7, 20, 10));
    assert_eq!(
        ViewPort::new(Expanse::new(10, 10), Rect::new(5, 5, 6, 1), pt(0, 0)),
        Err(Error::Geometry)
    );
    let empty = ViewPort::empty();
    assert_eq!(empty.screen_rect(), Rect::new(0, 0, 0, 0));
    assert_eq!(NodeState::new().viewport, empty);
    assert_eq!(NodeState::default(), NodeState::new());
}

#[test]
fn viewport_scrolls_within_the_canvas() {
    let mut vp = sample();
    vp.down();
    assert_eq!(vp.view(), Rect::new(30, 31, 20, 10));
    vp.up();
    assert_eq!(vp.view(), Rect::new(30, 30, 20, 10));
    vp.right();
    vp.left();
    vp.left();
    assert_eq!(vp.view(), Rect::new(29, 30, 20, 10));
    vp.page_down();
    assert_eq!(vp.view(), Rect::new(29, 40, 20, 10));
    vp.page_up();
    vp.page_up();
    vp.page_up();
    vp.page_up();
    vp.page_up();
    assert_eq!(vp.view(), Rect::new(29, 0, 20, 10));
    vp.scroll_by(1000, 1000);
    assert_eq!(vp.view(), Rect::new(80, 90, 20, 10));
    vp.down();
    assert_eq!(vp.view(), Rect::new(80, 90, 20, 10));
    vp.scroll_to(10, 95);
    assert_eq!(vp.view(), Rect::new(10, 90, 20, 10));
    assert_eq!(vp.screen_rect(), Rect::new(5, 7, 20, 10));
    assert_eq!(vp.canvas(), Expanse::new(100, 100));
}

#[test]
fn scrolling_down_then_up_comes_back() {
    for start in [0u16, 1, 45, 89] {
        for n in [0i16, 1, 7] {
            let mut vp = sample();
            vp.scroll_to(30, start);
            if start as i32 + n as i32 + 10 > 100 {
                continue;
            }
            let before = vp;
            vp.scroll_by(0, n);
            vp.scroll_by(0, -n);
            assert_eq!(vp, before);
        }
    }
    // At the bottom the way down is cut short, and the way up is not.
    let mut vp = sample();
    vp.scroll_to(30, 90);
    vp.scroll_by(0, 5);
    vp.scroll_by(0, -5);
    assert_eq!(vp.view(), Rect::new(30, 85, 20, 10));
}

#[test]
fn viewport_resizing() {
    let mut vp = sample();
    assert_eq!(vp.set_view(Rect::new(95, 0, 10, 10)), Ok(()));
    assert_eq!(vp.view(), Rect::new(90, 0, 10, 10));
    assert_eq!(vp.set_view(Rect::new(0, 0, 101, 1)), Err(Error::Geometry));
    assert_eq!(vp.view(), Rect::new(90, 0, 10, 10));
    vp.set_canvas(Expanse::new(50, 50));
    assert_eq!(vp.view(), Rect::new(40, 0, 10, 10));
    vp.set_canvas(Expanse::new(5, 50));
    assert_eq!(vp.view(), Rect::new(0, 0, 5, 50));
    vp.set_position(pt(1, 1));
    assert_eq!(vp.screen_rect(), Rect::new(1, 1, 5, 50));

    let mut vp = sample();
    vp.update(Expanse::new(40, 200), Rect::new(2, 3, 60, 20));
    assert_eq!(vp.canvas(), Expanse::new(40, 200));
    assert_eq!(vp.view(), Rect::new(0, 30, 40, 20));
    assert_eq!(vp.screen_rect(), Rect::new(2, 3, 40, 20));
}

#[test]
fn viewport_wrap() {
    let parent = sample();
    let child = parent.wrap(Expanse::new(200, 35));
    assert_eq!(child.canvas(), Expanse::new(200, 35));
    assert_eq!(child.view(), Rect::new(30, 25, 20, 10));
    assert_eq!(child.position(), pt(5, 7));
    let small = parent.wrap(Expanse::new(4, 3));
    assert_eq!(small.view(), Rect::new(0, 0, 4, 3));
    assert_eq!(small.screen_rect(), Rect::new(5, 7, 4, 3));
    assert_eq!(parent.wrap(Expanse::new(200, 35)).wrap(Expanse::new(200, 35)), child);
}

#[test]
fn viewport_projection() {
    let vp = sample();
    assert_eq!(vp.project_point(pt(30, 30)), Some(pt(5, 7)));
    assert_eq!(vp.project_point(pt(49, 39)), Some(pt(24, 16)));
    assert_eq!(vp.project_point(pt(50, 39)), None);
    assert_eq!(vp.project_point(pt(29, 30)), None);
    assert_eq!(vp.project_rect(Rect::new(0, 0, 100, 100)), Some(Rect::new(5, 7, 20, 10)));
    assert_eq!(vp.project_rect(Rect::new(40, 35, 100, 2)), Some(Rect::new(15, 12, 10, 2)));
    assert_eq!(vp.project_rect(Rect::new(0, 0, 30, 30)), None);
    let far = ViewPort::new(Expanse::new(10, 10), Rect::new(0, 0, 10, 10), pt(65530, 0)).unwrap();
    assert_eq!(far.project_point(pt(5, 0)), Some(pt(65535, 0)));
    assert_eq!(far.project_point(pt(6, 0)), None);
}
