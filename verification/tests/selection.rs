use live_preview::geometry::LogicalPoint;
use live_preview::geometry::LogicalRect;
use live_preview::scene::root_element;
use live_preview::scene::self_or_embedded_component_root;
use live_preview::scene::Element;
use live_preview::scene::Scene;
use live_preview::scene::SourceLocation;
use live_preview::scene::SourcePosition;
use live_preview::scene::TextSpan;
use live_preview::select::element_covers_point;
use live_preview::select::reset_selections;
use live_preview::select::select_element_at;
use live_preview::select::PickResult;
use live_preview::select::select_element_at_impl;
use live_preview::select::select_element_into;
use live_preview::select::set_selections;
use live_preview::select::ComponentKind;
use live_preview::select::ComponentPositions;
use live_preview::select::PRIMARY_ELEMENT_COLOR;
use live_preview::select::PRIMARY_LAYOUT_COLOR;
use live_preview::select::SECONDARY_ELEMENT_COLOR;
use live_preview::select::SECONDARY_LAYOUT_COLOR;

fn rect(x: i32, y: i32, w: i32, h: i32) -> LogicalRect {
    LogicalRect { x, y, width: w, height: h }
}

fn span(start: u32, end: u32, line: u32, col: u32) -> TextSpan {
    TextSpan {
        start_offset: start,
        end_offset: end,
        start: SourcePosition { line, column: col },
        end: SourcePosition { line, column: col + (end - start) },
    }
}

fn plain_element(geometry: Option<LogicalRect>, location: Option<SourceLocation>) -> Element {
    Element { children: Vec::new(), geometry, repeated_root: None, location, is_layout: false }
}

fn located(file: u64, path: &str, s: u32, e: u32) -> SourceLocation {
    SourceLocation { file, path: String::from(path), span: span(s, e, 2, 5), sub_element: None }
}

/// A root with two overlapping children and one off to the side.
fn overlapping_scene() -> Scene {
    let child_a = plain_element(Some(rect(0, 0, 20, 20)), Some(located(1, "/a.ui", 10, 20)));
    let child_b = plain_element(Some(rect(0, 0, 20, 20)), Some(located(1, "/a.ui", 30, 40)));
    let child_c = plain_element(Some(rect(100, 0, 10, 10)), Some(located(1, "/a.ui", 50, 60)));
    let root = Element {
        children: vec![1, 2, 3],
        geometry: Some(rect(0, 0, 200, 200)),
        repeated_root: None,
        location: Some(located(1, "/a.ui", 0, 100)),
        is_layout: false,
    };
    Scene { elements: vec![root, child_a, child_b, child_c], root: 0 }
}

#[test]
fn rect_containment_is_half_open() {
    let r = rect(0, 0, 20, 20);
    assert!(r.contains(LogicalPoint { x: 0, y: 0 }));
    assert!(r.contains(LogicalPoint { x: 10, y: 10 }));
    assert!(r.contains(LogicalPoint { x: 19, y: 19 }));
    assert!(!r.contains(LogicalPoint { x: 20, y: 10 }));
    assert!(!r.contains(LogicalPoint { x: 10, y: 20 }));
    assert!(!r.contains(LogicalPoint { x: -1, y: 10 }));
}

#[test]
fn first_overlapping_child_in_document_order_wins() {
    let scene = overlapping_scene();
    let first = select_element_at_impl(10, 10, &scene, 0).expect("the point hits children");
    assert_eq!(first.selected, 1);
    // Deterministic: the same point picks the same child again.
    let again = select_element_at_impl(10, 10, &scene, 0).unwrap();
    assert_eq!(again.selected, 1);
    // A point only the third child covers picks it.
    let third = select_element_at_impl(105, 5, &scene, 0).unwrap();
    assert_eq!(third.selected, 3);
    assert_eq!(third.geometry, rect(100, 0, 10, 10));
}

#[test]
fn a_point_hitting_no_child_selects_nothing() {
    let scene = overlapping_scene();
    assert!(select_element_at_impl(150, 150, &scene, 0).is_none());
}

#[test]
fn second_click_on_selected_element_triggers_no_navigation() {
    let scene = overlapping_scene();
    // Pointer at (10,10) hits element 1 with geometry {0,0,20,20}.
    let first = match select_element_at(10, 10, &scene, None) {
        PickResult::Hit(outcome) => outcome,
        _ => panic!("a fresh pick over a child selects it"),
    };
    assert_eq!(first.selected, 1);
    assert!(first.navigate);
    // A second click at (10,10) with it selected short-circuits.
    let second = select_element_at(10, 10, &scene, Some(first.selected));
    assert!(matches!(second, PickResult::AlreadySelected));
}

#[test]
fn fresh_pick_that_misses_clears_the_selection() {
    let scene = overlapping_scene();
    // A fresh miss reports Miss (the caller clears the selection on it)...
    assert!(matches!(select_element_at(150, 150, &scene, None), PickResult::Miss));
    // ...also when another element was selected but does not cover the point.
    assert!(matches!(select_element_at(150, 150, &scene, Some(1)), PickResult::Miss));
}

#[test]
fn covers_check_uses_geometry() {
    let scene = overlapping_scene();
    assert!(element_covers_point(10, 10, &scene, 1));
    assert!(!element_covers_point(50, 50, &scene, 1));
    // An element the renderer reports no geometry for covers nothing.
    let mut no_geometry = overlapping_scene();
    no_geometry.elements[1].geometry = None;
    assert!(!element_covers_point(10, 10, &no_geometry, 1));
}

#[test]
fn drill_down_scopes_to_selected_children() {
    let grandchild = plain_element(Some(rect(2, 2, 5, 5)), Some(located(1, "/a.ui", 12, 15)));
    let child = Element {
        children: vec![2],
        geometry: Some(rect(0, 0, 20, 20)),
        repeated_root: None,
        location: Some(located(1, "/a.ui", 10, 20)),
        is_layout: false,
    };
    let root = Element {
        children: vec![1],
        geometry: Some(rect(0, 0, 200, 200)),
        repeated_root: None,
        location: None,
        is_layout: false,
    };
    let scene = Scene { elements: vec![root, child, grandchild], root: 0 };
    let inner = select_element_into(4, 4, &scene, 1).expect("drill-down hits the grandchild");
    assert_eq!(inner.selected, 2);
}

#[test]
fn repeated_child_is_replaced_by_its_component_root() {
    // Element 1 instantiates a repeated sub-component whose root is 2.
    let sub_root = plain_element(Some(rect(0, 0, 20, 20)), Some(located(2, "/lib.ui", 0, 10)));
    let repeater = Element {
        children: Vec::new(),
        geometry: None,
        repeated_root: Some(2),
        location: Some(located(1, "/a.ui", 10, 20)),
        is_layout: false,
    };
    let root = Element {
        children: vec![1],
        geometry: Some(rect(0, 0, 100, 100)),
        repeated_root: None,
        location: None,
        is_layout: false,
    };
    let scene = Scene { elements: vec![root, repeater, sub_root], root: 0 };
    assert_eq!(self_or_embedded_component_root(&scene, 1), 2);
    assert_eq!(self_or_embedded_component_root(&scene, 2), 2);
    let picked = select_element_at_impl(5, 5, &scene, 0).unwrap();
    assert_eq!(picked.selected, 2);
    assert_eq!(picked.document_path, "/lib.ui");
}

#[test]
fn synthetic_window_wrapper_is_skipped() {
    // Root and its single child occupy the same span of the same file.
    let child = plain_element(Some(rect(0, 0, 50, 50)), Some(located(1, "/a.ui", 0, 40)));
    let root = Element {
        children: vec![1],
        geometry: Some(rect(0, 0, 50, 50)),
        repeated_root: None,
        location: Some(located(1, "/a.ui", 0, 40)),
        is_layout: false,
    };
    let scene = Scene { elements: vec![root, child], root: 0 };
    assert_eq!(root_element(&scene), 1);
    // A differing span keeps the nominal root.
    let mut differing = Scene {
        elements: vec![
            Element {
                children: vec![1],
                geometry: Some(rect(0, 0, 50, 50)),
                repeated_root: None,
                location: Some(located(1, "/a.ui", 0, 41)),
                is_layout: false,
            },
            plain_element(Some(rect(0, 0, 50, 50)), Some(located(1, "/a.ui", 0, 40))),
        ],
        root: 0,
    };
    assert_eq!(root_element(&differing), 0);
    // Another file keeps the nominal root too.
    differing.elements[0].location = Some(located(9, "/a.ui", 0, 40));
    assert_eq!(root_element(&differing), 0);
    // Two children keep the nominal root.
    let two = overlapping_scene();
    assert_eq!(root_element(&two), 0);
}

#[test]
fn overlay_geometry_and_colours() {
    let scene = overlapping_scene();
    let positions = ComponentPositions {
        kind: Some(ComponentKind::Layout),
        geometries: vec![rect(1, 2, 3, 4), rect(5, 6, 7, 8)],
    };
    let overlay = set_selections(&scene, Some((1, rect(0, 0, 20, 20))), &positions);
    assert_eq!(overlay.len(), 3);
    assert_eq!(overlay[0].x, 0);
    assert_eq!(overlay[0].width, 20);
    assert_eq!(overlay[0].border_color, PRIMARY_ELEMENT_COLOR);
    assert_eq!(overlay[1].x, 1);
    assert_eq!(overlay[1].height, 4);
    assert_eq!(overlay[1].border_color, SECONDARY_LAYOUT_COLOR);
    assert_eq!(overlay[2].y, 6);
    assert_eq!(overlay[2].border_color, SECONDARY_LAYOUT_COLOR);
}

#[test]
fn overlay_colours_for_layouts_and_plain_groups() {
    let mut scene = overlapping_scene();
    scene.elements[1].is_layout = true;
    let plain_group = ComponentPositions { kind: None, geometries: vec![rect(1, 1, 1, 1)] };
    let overlay = set_selections(&scene, Some((1, rect(0, 0, 20, 20))), &plain_group);
    assert_eq!(overlay[0].border_color, PRIMARY_LAYOUT_COLOR);
    assert_eq!(overlay[1].border_color, SECONDARY_ELEMENT_COLOR);
    // Without a primary element only the secondary boxes remain.
    let secondary_only = set_selections(&scene, None, &plain_group);
    assert_eq!(secondary_only.len(), 1);
    assert_eq!(secondary_only[0].border_color, SECONDARY_ELEMENT_COLOR);
}

#[test]
fn overlay_reset_is_empty() {
    assert_eq!(reset_selections().len(), 0);
}

#[test]
fn selection_reports_secondary_query_from_source_node() {
    let scene = overlapping_scene();
    let outcome = select_element_at_impl(10, 10, &scene, 0).unwrap();
    let (path, offset) = outcome.secondary_query.expect("the child has a source node");
    assert_eq!(path, "/a.ui");
    assert_eq!(offset, 10);
}
