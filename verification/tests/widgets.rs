use gooey::box_widget::{Border, Box};
use gooey::collection::{Collection, WidgetNode};
use gooey::widget::{Widget, WidgetCommon, WidgetManager};
use gooey::{Color, MouseEvent};

fn plain_border() -> Border {
    Border::new_all_same(1, Color::from_components(1, 2, 3))
}

fn background() -> Color {
    Color::from_components(9, 9, 9)
}

#[test]
fn ids_start_at_one_in_call_order() {
    let mut m = WidgetManager::new();
    assert_eq!(m.next_id(), 1);
    assert_eq!(m.next_id(), 2);
    assert_eq!(m.next_id(), 3);
}

#[test]
fn widgets_under_one_manager_get_distinct_ids() {
    let mut m = WidgetManager::new();
    let b1 = Box::new(&mut m, 0, 0, 1, 1, plain_border(), background());
    let b2 = Box::new(&mut m, 0, 0, 1, 1, plain_border(), background());
    let c = Collection::new(&mut m);
    assert_eq!(b1.common.id, 1);
    assert_eq!(b2.common.id, 2);
    assert_eq!(c.common.id, 3);
    assert_ne!(b1.common.id, b2.common.id);
    assert_ne!(b1.common.id, c.common.id);
    assert_ne!(b2.common.id, c.common.id);
}

#[test]
fn root_collection_has_reserved_id_zero() {
    let m = WidgetManager::new();
    assert_eq!(m.widgets.common.id, 0);
}

#[test]
fn new_with_id_zeroes_rect() {
    let c = WidgetCommon::new_with_id(7);
    assert_eq!((c.x, c.y, c.w, c.h, c.id), (0, 0, 0, 0, 7));
}

#[test]
fn add_accumulates_bounding_box() {
    let mut m = WidgetManager::new();
    let b1 = Box::new(&mut m, 10, 20, 30, 40, plain_border(), background());
    let mut c = Collection::new(&mut m);
    c.add(WidgetNode::Boxed(b1));
    assert_eq!(c.common.w, 40); // 10 + 30
    assert_eq!(c.common.h, 60); // 20 + 40
    let b2 = Box::new(&mut m, 0, 0, 5, 100, plain_border(), background());
    c.add(WidgetNode::Boxed(b2));
    assert_eq!(c.common.w, 40); // unchanged: 5 < 40
    assert_eq!(c.common.h, 100); // grown: 100 > 60
}

#[test]
fn remove_rescans_bounding_box() {
    let mut m = WidgetManager::new();
    let b1 = Box::new(&mut m, 10, 20, 30, 40, plain_border(), background());
    let b2 = Box::new(&mut m, 0, 0, 5, 100, plain_border(), background());
    let mut c = Collection::new(&mut m);
    c.add(WidgetNode::Boxed(b1));
    c.add(WidgetNode::Boxed(b2));
    assert_eq!((c.common.w, c.common.h), (40, 100));
    // the removed child defined the width: a full rescan must shrink it
    c.remove(&b1);
    assert_eq!((c.common.w, c.common.h), (5, 100));
    // removing the last child leaves an empty collection at (0, 0)
    c.remove(&b2);
    assert_eq!((c.common.w, c.common.h), (0, 0));
}

#[test]
fn remove_unknown_id_is_silent_no_op() {
    let mut m = WidgetManager::new();
    let b1 = Box::new(&mut m, 10, 20, 30, 40, plain_border(), background());
    let b2 = Box::new(&mut m, 1, 1, 2, 2, plain_border(), background());
    let mut c = Collection::new(&mut m);
    c.add(WidgetNode::Boxed(b1));
    assert_eq!((c.common.w, c.common.h), (40, 60));
    c.remove(&b2);
    assert_eq!((c.common.w, c.common.h), (40, 60));
}

#[test]
fn remove_takes_first_match_only() {
    let mut m = WidgetManager::new();
    let b1 = Box::new(&mut m, 10, 20, 30, 40, plain_border(), background());
    let b2 = Box::new(&mut m, 0, 0, 50, 5, plain_border(), background());
    let mut c = Collection::new(&mut m);
    c.add(WidgetNode::Boxed(b1));
    c.add(WidgetNode::Boxed(b2));
    c.remove(&b1);
    assert_eq!((c.common.w, c.common.h), (50, 5));
    assert_eq!(c.elements.len(), 1);
}

#[test]
fn manager_add_and_remove_delegate_to_root() {
    let mut m = WidgetManager::new();
    let b = Box::new(&mut m, 10, 20, 30, 40, plain_border(), background());
    m.add(WidgetNode::Boxed(b));
    assert_eq!((m.widgets.common.w, m.widgets.common.h), (40, 60));
    m.remove(&b);
    assert_eq!((m.widgets.common.w, m.widgets.common.h), (0, 0));
    assert_eq!(m.widgets.elements.len(), 0);
}

#[test]
fn bounding_box_at_largest_extent() {
    let mut m = WidgetManager::new();
    let b = Box::new(&mut m, u32::MAX - 10, 0, 10, 1, plain_border(), background());
    let mut c = Collection::new(&mut m);
    c.add(WidgetNode::Boxed(b));
    assert_eq!(c.common.w, u32::MAX);
    assert_eq!(c.common.h, 1);
}

#[test]
fn common_from_manager_takes_the_next_id() {
    let mut m = WidgetManager::new();
    let c1 = WidgetCommon::new(&mut m);
    let c2 = WidgetCommon::new(&mut m);
    assert_eq!((c1.x, c1.y, c1.w, c1.h, c1.id), (0, 0, 0, 0, 1));
    assert_eq!(c2.id, 2);
    assert_eq!(m.next_id(), 3);
}

#[test]
fn mouse_events_carry_their_coordinates() {
    let ev = MouseEvent::Click { x: 3, y: 4, button: 1 };
    match ev {
        MouseEvent::Click { x, y, button } => {
            assert_eq!((x, y, button), (3, 4, 1));
        }
        _ => panic!("wrong variant"),
    }
    let ev = MouseEvent::WheelUp { x: 1, y: 2, amount: 9 };
    assert!(matches!(ev, MouseEvent::WheelUp { amount: 9, .. }));
}

#[test]
fn focus_slot_is_settable_and_gettable() {
    let mut m = WidgetManager::new();
    assert_eq!(m.focused(), None);
    m.focus(Some(5));
    assert_eq!(m.focused(), Some(5));
    m.focus(None);
    assert_eq!(m.focused(), None);
}

#[test]
fn widget_accessors_read_common_state() {
    let mut m = WidgetManager::new();
    let b = Box::new(&mut m, 10, 20, 30, 40, plain_border(), background());
    assert_eq!(b.x(), 10);
    assert_eq!(b.y(), 20);
    assert_eq!(b.width(), 30);
    assert_eq!(b.height(), 40);
    assert_eq!(b.id(), 1);
    assert_eq!(*b.common(), b.common);
}
