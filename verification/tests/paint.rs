use gooey::box_widget::{Border, Box};
use gooey::collection::{Collection, WidgetNode};
use gooey::widget::{Widget, WidgetManager};
use gooey::{Color, DrawCmd, RecordingBackend};

#[test]
fn box_paints_background_then_edges_in_order() {
    let mut m = WidgetManager::new();
    let bg = Color::from_components(0, 0, 0);
    let top = Color::from_components(1, 0, 0);
    let left = Color::from_components(2, 0, 0);
    let bottom = Color::from_components(3, 0, 0);
    let right = Color::from_components(4, 0, 0);
    let mut border = Border::new_all_same(2, top);
    border.left_color = left;
    border.bottom_color = bottom;
    border.right_color = right;
    let b = Box::new(&mut m, 10, 20, 30, 40, border, bg);
    let mut r = RecordingBackend::new();
    b.paint(&mut r, 0, 0);
    assert_eq!(
        r.recorded,
        vec![
            DrawCmd::FillRect { x: 10, y: 20, w: 30, h: 40, color: bg },
            DrawCmd::FillRect { x: 10, y: 20, w: 30, h: 2, color: top },
            DrawCmd::FillRect { x: 10, y: 20, w: 2, h: 40, color: left },
            DrawCmd::FillRect { x: 10, y: 58, w: 30, h: 2, color: bottom },
            DrawCmd::FillRect { x: 38, y: 20, w: 2, h: 40, color: right },
        ]
    );
    // corner precedence follows draw order: at the top-left corner the left
    // strip covers the top strip because it is drawn after it, and the right
    // strip, drawn last, covers the top strip at the top-right corner
    assert!(matches!(r.recorded[1], DrawCmd::FillRect { color, .. } if color == top));
    assert!(matches!(r.recorded[2], DrawCmd::FillRect { color, .. } if color == left));
    assert!(matches!(r.recorded[4], DrawCmd::FillRect { color, .. } if color == right));
}

#[test]
fn box_paint_adds_offset_to_own_position() {
    let mut m = WidgetManager::new();
    let bg = Color::from_components(7, 7, 7);
    let b = Box::new(&mut m, 5, 6, 10, 10, Border::new_all_same(1, bg), bg);
    let mut r = RecordingBackend::new();
    b.paint(&mut r, 100, 200);
    assert!(matches!(r.recorded[0], DrawCmd::FillRect { x: 105, y: 206, w: 10, h: 10, .. }));
}

#[test]
fn collection_paint_composes_offsets() {
    let mut m = WidgetManager::new();
    let bg = Color::from_components(7, 7, 7);
    let child = Box::new(&mut m, 7, 9, 10, 10, Border::new_all_same(1, bg), bg);
    let mut c = Collection::new(&mut m);
    c.common.x = 4;
    c.common.y = 5;
    c.add(WidgetNode::Boxed(child));
    let mut r = RecordingBackend::new();
    c.paint(&mut r, 100, 200);
    // the child is painted with offset (100 + 4, 200 + 5)
    assert!(matches!(r.recorded[0], DrawCmd::FillRect { x: 111, y: 214, w: 10, h: 10, .. }));
}

#[test]
fn nested_collections_compose_offsets_additively() {
    let mut m = WidgetManager::new();
    let bg = Color::from_components(7, 7, 7);
    let child = Box::new(&mut m, 7, 9, 10, 10, Border::new_all_same(1, bg), bg);
    let mut inner = Collection::new(&mut m);
    inner.common.x = 4;
    inner.common.y = 5;
    inner.add(WidgetNode::Boxed(child));
    let mut outer = Collection::new(&mut m);
    outer.common.x = 30;
    outer.common.y = 40;
    outer.add(WidgetNode::Group(inner));
    let mut r = RecordingBackend::new();
    outer.paint(&mut r, 1, 2);
    // 1 + 30 + 4 + 7 and 2 + 40 + 5 + 9
    assert!(matches!(r.recorded[0], DrawCmd::FillRect { x: 42, y: 56, w: 10, h: 10, .. }));
}

#[test]
fn collection_paints_children_in_insertion_order() {
    let mut m = WidgetManager::new();
    let bg1 = Color::from_components(1, 0, 0);
    let bg2 = Color::from_components(2, 0, 0);
    let b1 = Box::new(&mut m, 0, 0, 1, 1, Border::new_all_same(0, bg1), bg1);
    let b2 = Box::new(&mut m, 0, 0, 1, 1, Border::new_all_same(0, bg2), bg2);
    let mut c = Collection::new(&mut m);
    c.add(WidgetNode::Boxed(b1));
    c.add(WidgetNode::Boxed(b2));
    let mut r = RecordingBackend::new();
    c.paint(&mut r, 0, 0);
    assert_eq!(r.recorded.len(), 10);
    // later children paint after earlier ones, so they end up on top
    assert!(matches!(r.recorded[0], DrawCmd::FillRect { color, .. } if color == bg1));
    assert!(matches!(r.recorded[5], DrawCmd::FillRect { color, .. } if color == bg2));
}

#[test]
fn manager_paint_starts_at_zero_offset() {
    let mut m = WidgetManager::new();
    let bg = Color::from_components(7, 7, 7);
    let b = Box::new(&mut m, 10, 20, 5, 5, Border::new_all_same(1, bg), bg);
    m.add(WidgetNode::Boxed(b));
    let mut r = RecordingBackend::new();
    m.paint(&mut r);
    assert!(matches!(r.recorded[0], DrawCmd::FillRect { x: 10, y: 20, w: 5, h: 5, .. }));
}

#[test]
fn empty_collection_paints_nothing() {
    let mut m = WidgetManager::new();
    let c = Collection::new(&mut m);
    let mut r = RecordingBackend::new();
    c.paint(&mut r, 50, 50);
    assert!(r.recorded.is_empty());
}
