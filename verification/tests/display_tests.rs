use ceros::display::{Display, DisplayElement, Element, Shape, TouchEvent};

fn button(x1: i32, y1: i32, x2: i32, y2: i32) -> Element {
    Element {
        shapes: vec![
            Shape::Rectangle { x1, y1, x2, y2, color: 0x202020, fill: true },
            Shape::Rectangle { x1, y1, x2, y2, color: 0xffffff, fill: false },
        ],
    }
}

#[test]
fn touch_event_codes_decode() {
    assert_eq!(TouchEvent::from_code(0), Some(TouchEvent::Release));
    assert_eq!(TouchEvent::from_code(1), Some(TouchEvent::Press));
    assert_eq!(TouchEvent::from_code(2), Some(TouchEvent::AutoPress));
    assert_eq!(TouchEvent::from_code(3), None);
    assert_eq!(TouchEvent::from_code(u32::MAX), None);
}

#[test]
fn set_color_keeps_geometry_and_fill() {
    let mut s = Shape::Rectangle { x1: 1, y1: 2, x2: 3, y2: 4, color: 0, fill: true };
    s.set_color(0xabcdef);
    assert_eq!(s, Shape::Rectangle { x1: 1, y1: 2, x2: 3, y2: 4, color: 0xabcdef, fill: true });
    let mut c = Shape::Circle { cx: 5, cy: 6, r: 7, color: 0x123456, fill: false };
    c.set_color(0);
    assert_eq!(c, Shape::Circle { cx: 5, cy: 6, r: 7, color: 0, fill: false });
}

#[test]
fn set_fill_keeps_geometry_and_color() {
    let mut s = Shape::Rectangle { x1: 1, y1: 2, x2: 3, y2: 4, color: 9, fill: true };
    s.set_fill(false);
    assert_eq!(s, Shape::Rectangle { x1: 1, y1: 2, x2: 3, y2: 4, color: 9, fill: false });
    let mut c = Shape::Circle { cx: 5, cy: 6, r: 7, color: 8, fill: false };
    c.set_fill(true);
    assert_eq!(c, Shape::Circle { cx: 5, cy: 6, r: 7, color: 8, fill: true });
}

#[test]
fn rectangle_hit_test_is_strict() {
    let e = Element {
        shapes: vec![Shape::Rectangle { x1: 0, y1: 0, x2: 10, y2: 10, color: 0, fill: true }],
    };
    assert!(e.intersects(5, 5));
    assert!(e.intersects(1, 9));
    // The edges are outside: the comparison is strict.
    assert!(!e.intersects(0, 5));
    assert!(!e.intersects(10, 5));
    assert!(!e.intersects(5, 0));
    assert!(!e.intersects(5, 10));
    assert!(!e.intersects(-3, 5));
}

#[test]
fn circle_hit_test_includes_the_rim() {
    let e = Element {
        shapes: vec![Shape::Circle { cx: 0, cy: 0, r: 5, color: 0, fill: true }],
    };
    assert!(e.intersects(0, 0));
    // 3*3 + 4*4 == 5*5: the rim counts as a hit.
    assert!(e.intersects(3, 4));
    assert!(e.intersects(-3, -4));
    assert!(!e.intersects(4, 4));
    assert!(!e.intersects(0, 6));
}

#[test]
fn hit_test_survives_extreme_coordinates() {
    let e = Element {
        shapes: vec![Shape::Circle { cx: i32::MIN, cy: i32::MIN, r: i32::MAX, color: 0, fill: false }],
    };
    // The squared distance here overflows any 64-bit computation; the
    // answer must still come out, and come out false.
    assert!(!e.intersects(i32::MAX, i32::MAX));
    assert!(e.intersects(i32::MIN, i32::MIN));
}

#[test]
fn element_with_several_shapes_hits_if_any_does() {
    let e = Element {
        shapes: vec![
            Shape::Rectangle { x1: 0, y1: 0, x2: 2, y2: 2, color: 0, fill: true },
            Shape::Circle { cx: 100, cy: 100, r: 3, color: 0, fill: true },
        ],
    };
    assert!(e.intersects(1, 1));
    assert!(e.intersects(100, 102));
    assert!(!e.intersects(50, 50));
}

#[test]
fn press_recolors_the_highlight_shape() {
    let mut e = button(0, 0, 10, 10);
    e.touch(TouchEvent::Press, 5, 5);
    match e.shapes[1] {
        Shape::Rectangle { color, .. } => assert_eq!(color, 0xff00ff),
        _ => panic!("highlight shape changed kind"),
    }
    e.touch(TouchEvent::Release, 5, 5);
    match e.shapes[1] {
        Shape::Rectangle { color, .. } => assert_eq!(color, 0xffffff),
        _ => panic!("highlight shape changed kind"),
    }
    // The backing shape is untouched either way.
    match e.shapes[0] {
        Shape::Rectangle { color, .. } => assert_eq!(color, 0x202020),
        _ => panic!("backing shape changed kind"),
    }
}

#[test]
fn auto_press_changes_nothing() {
    let mut e = button(0, 0, 10, 10);
    let before = e.shapes.clone();
    e.touch(TouchEvent::AutoPress, 5, 5);
    assert_eq!(e.shapes, before);
}

#[test]
fn display_add_and_clear() {
    let mut d = Display::new();
    assert_eq!(d.elements.len(), 0);
    d.add(button(0, 0, 10, 10));
    d.add(button(20, 0, 30, 10));
    assert_eq!(d.elements.len(), 2);
    d.clear_elements();
    assert_eq!(d.elements.len(), 0);
    d.add(button(0, 0, 10, 10));
    d.clear();
    assert_eq!(d.elements.len(), 0);
}

#[test]
fn touch_is_delivered_to_the_first_intersecting_element_only() {
    let mut d = Display::new();
    d.add(button(0, 0, 10, 10));
    d.add(button(20, 0, 30, 10));
    // A point over the second button: only that one reacts.
    d.on_touch(TouchEvent::Press, 25, 5);
    match d.elements[0].shapes[1] {
        Shape::Rectangle { color, .. } => assert_eq!(color, 0xffffff),
        _ => panic!("shape changed kind"),
    }
    match d.elements[1].shapes[1] {
        Shape::Rectangle { color, .. } => assert_eq!(color, 0xff00ff),
        _ => panic!("shape changed kind"),
    }
}

#[test]
fn overlapping_elements_give_the_touch_to_the_earlier_one() {
    let mut d = Display::new();
    d.add(button(0, 0, 10, 10));
    d.add(button(5, 5, 15, 15));
    d.on_touch(TouchEvent::Press, 7, 7);
    match d.elements[0].shapes[1] {
        Shape::Rectangle { color, .. } => assert_eq!(color, 0xff00ff),
        _ => panic!("shape changed kind"),
    }
    match d.elements[1].shapes[1] {
        Shape::Rectangle { color, .. } => assert_eq!(color, 0xffffff),
        _ => panic!("shape changed kind"),
    }
}

#[test]
fn touch_missing_every_element_changes_nothing() {
    let mut d = Display::new();
    d.add(button(0, 0, 10, 10));
    d.on_touch(TouchEvent::Press, 50, 50);
    match d.elements[0].shapes[1] {
        Shape::Rectangle { color, .. } => assert_eq!(color, 0xffffff),
        _ => panic!("shape changed kind"),
    }
}
