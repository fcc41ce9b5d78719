//! The selection engine: hit-testing pointer coordinates against a compiled
//! scene, drill-down selection, and the overlay geometry of a selection.

use crate::bridge::element_offset;
use crate::bridge::element_offset_spec;
use crate::bridge::element_position_spec;
use crate::bridge::lsp_element_position;
use crate::bridge::path_offset_opt_view;
use crate::bridge::DocRange;
use crate::geometry::LogicalPoint;
use crate::geometry::LogicalRect;
use crate::scene::covers_spec;
use crate::scene::embedded_root_spec;
use crate::scene::root_element;
use crate::scene::self_or_embedded_component_root;
use crate::scene::Scene;
use vstd::prelude::*;

verus! {

/// Does child `c` receive the point `p`? The test looks at the geometry of
/// the element the child stands for (its embedded root, if it is one).
pub open spec fn child_hit(s: Scene, c: int, p: LogicalPoint) -> bool {
    covers_spec(s, embedded_root_spec(s, c), p)
}

/// The first child in document order whose geometry contains `p`, reported
/// as its embedded root; `None` when the point hits no child. First match
/// wins: later siblings are assumed to paint over earlier ones, so no
/// z-order re-sorting takes place.
pub open spec fn first_hit(s: Scene, children: Seq<usize>, p: LogicalPoint) -> Option<int>
    decreases children.len(),
{
    if children.len() == 0 {
        None
    } else if child_hit(s, children[0] as int, p) {
        Some(embedded_root_spec(s, children[0] as int))
    } else {
        first_hit(s, children.drop_first(), p)
    }
}

/// Everything one selection decides: the selected element, its on-screen
/// geometry, the query for the secondary geometries of its logical group,
/// its document position, and whether the editor should navigate there.
pub struct SelectionOutcome {
    pub selected: usize,
    pub geometry: LogicalRect,
    pub secondary_query: Option<(String, u32)>,
    pub document_path: String,
    pub document_range: DocRange,
    pub navigate: bool,
}

/// Does `o` report exactly the selection of element `e`?
pub open spec fn hit_outcome_matches(s: Scene, e: int, o: SelectionOutcome) -> bool {
    &&& o.selected as int == e
    &&& s.elements@[e].geometry matches Some(g) && o.geometry == g
    &&& path_offset_opt_view(o.secondary_query) == element_offset_spec(s, e)
    &&& o.document_path@ == element_position_spec(s, e).0
    &&& o.document_range == element_position_spec(s, e).1
    &&& o.navigate == (element_position_spec(s, e).0.len() > 0)
}

/// Does `r` report exactly the selection `hit` asks for?
pub open spec fn outcome_matches(s: Scene, hit: Option<int>, r: Option<SelectionOutcome>) -> bool {
    match hit {
        None => r is None,
        Some(e) => r matches Some(o) && hit_outcome_matches(s, e, o),
    }
}

/// Does the on-screen geometry of `selected_element` contain the point?
/// Used to short-circuit re-selection when the pointer is still over the
/// already selected element.
pub fn element_covers_point(x: i32, y: i32, scene: &Scene, selected_element: usize) -> (r: bool)
    requires
        scene.wf(),
        (selected_element as int) < scene.elements@.len(),
    ensures
        r == covers_spec(*scene, selected_element as int, (LogicalPoint { x, y })),
{
    let p = LogicalPoint { x, y };
    match &scene.elements[selected_element].geometry {
        Some(g) => g.contains(p),
        None => false,
    }
}

/// Hit-tests the direct children of `root_element` in document order and
/// reports the selection of the first child whose geometry contains the
/// point, or nothing when no child does.
pub fn select_element_at_impl(x: i32, y: i32, scene: &Scene, root_element: usize) -> (r: Option<
    SelectionOutcome,
>)
    requires
        scene.wf(),
        (root_element as int) < scene.elements@.len(),
    ensures
        outcome_matches(
            *scene,
            first_hit(
                *scene,
                scene.elements@[root_element as int].children@,
                (LogicalPoint { x, y }),
            ),
            r,
        ),
{
    let p = LogicalPoint { x, y };
    let ghost all: Seq<usize> = scene.elements@[root_element as int].children@;
    let n = scene.elements[root_element].children.len();
    proof {
        assert(all.skip(0) =~= all);
    }
    let mut i: usize = 0;
    while i < n
        invariant
            scene.wf(),
            (root_element as int) < scene.elements@.len(),
            all == scene.elements@[root_element as int].children@,
            n == all.len(),
            i <= n,
            p == (LogicalPoint { x, y }),
            first_hit(*scene, all, p) == first_hit(*scene, all.skip(i as int), p),
        decreases n - i,
    {
        proof {
            assert(scene.element_in_bounds(scene.elements@[root_element as int]));
            assert(all.skip(i as int)[0] == all[i as int]);
        }
        let c = scene.elements[root_element].children[i];
        let c = self_or_embedded_component_root(scene, c);
        let hit = match &scene.elements[c].geometry {
            Some(g) => g.contains(p),
            None => false,
        };
        if hit {
            let geometry = match &scene.elements[c].geometry {
                Some(g) => *g,
                None => LogicalRect { x: 0, y: 0, width: 0, height: 0 },
            };
            let secondary_query = element_offset(scene, c);
            let position = lsp_element_position(scene, c);
            let navigate = !position.0.as_str().is_empty();
            return Some(
                SelectionOutcome {
                    selected: c,
                    geometry,
                    secondary_query,
                    document_path: position.0,
                    document_range: position.1,
                    navigate,
                },
            );
        }
        proof {
            assert(!child_hit(*scene, all[i as int] as int, p));
            assert(all.skip(i as int).drop_first() =~= all.skip(i as int + 1));
        }
        i = i + 1;
    }
    None
}

/// What a fresh top-level pick decided.
pub enum PickResult {
    /// The pointer is still over the already selected element: nothing
    /// happens, in particular no new navigation request.
    AlreadySelected,
    /// No child of the resolved root contains the point: nothing is under
    /// the pointer, and a fresh pick that misses clears the selection.
    Miss,
    /// A new element was selected.
    Hit(SelectionOutcome),
}

/// A fresh top-level pick: when the point is still over the already
/// selected element nothing happens; otherwise the children of the
/// resolved root are hit-tested, and a miss clears the selection while a
/// hit replaces it.
pub fn select_element_at(x: i32, y: i32, scene: &Scene, selected_element: Option<usize>) -> (r:
    PickResult)
    requires
        scene.wf(),
        match selected_element {
            Some(e) => (e as int) < scene.elements@.len(),
            None => true,
        },
    ensures
        (match selected_element {
            Some(e) => covers_spec(*scene, e as int, (LogicalPoint { x, y })),
            None => false,
        }) ==> r is AlreadySelected,
        !(match selected_element {
            Some(e) => covers_spec(*scene, e as int, (LogicalPoint { x, y })),
            None => false,
        }) ==> match first_hit(
            *scene,
            scene.elements@[crate::scene::resolved_root_spec(*scene)].children@,
            (LogicalPoint { x, y }),
        ) {
            None => r is Miss,
            Some(e) => r matches PickResult::Hit(o) && hit_outcome_matches(*scene, e, o),
        },
{
    if let Some(selected) = selected_element {
        if element_covers_point(x, y, scene, selected) {
            return PickResult::AlreadySelected;
        }
    }
    let root = root_element(scene);
    match select_element_at_impl(x, y, scene, root) {
        Some(outcome) => PickResult::Hit(outcome),
        None => PickResult::Miss,
    }
}

/// Drill-down selection: the same hit-test scoped to the children of the
/// currently selected element.
pub fn select_element_into(x: i32, y: i32, scene: &Scene, selected_element: usize) -> (r: Option<
    SelectionOutcome,
>)
    requires
        scene.wf(),
        (selected_element as int) < scene.elements@.len(),
    ensures
        outcome_matches(
            *scene,
            first_hit(
                *scene,
                scene.elements@[selected_element as int].children@,
                (LogicalPoint { x, y }),
            ),
            r,
        ),
{
    select_element_at_impl(x, y, scene, selected_element)
}

/// The visual style of the primary overlay box around a layout element.
pub const PRIMARY_LAYOUT_COLOR: u32 = 0xffff0000;

/// The visual style of the primary overlay box around a plain element.
pub const PRIMARY_ELEMENT_COLOR: u32 = 0xff0000ff;

/// The visual style of the secondary overlay boxes of a layout group.
pub const SECONDARY_LAYOUT_COLOR: u32 = 0x80ff0000;

/// The visual style of the secondary overlay boxes of a plain group.
pub const SECONDARY_ELEMENT_COLOR: u32 = 0x800000ff;

/// What kind of logical group the renderer reported secondary geometries
/// for.
#[derive(Clone, Copy, PartialEq, Eq, Structural, Debug)]
pub enum ComponentKind {
    Layout,
    Element,
}

/// The secondary geometries belonging to the selected element's logical
/// group, classified by kind.
pub struct ComponentPositions {
    pub kind: Option<ComponentKind>,
    pub geometries: Vec<LogicalRect>,
}

/// One overlay box: a rectangle and its border colour (encoded ARGB).
#[derive(Clone, Copy, PartialEq, Eq, Structural, Debug)]
pub struct Selection {
    pub x: i32,
    pub y: i32,
    pub width: i32,
    pub height: i32,
    pub border_color: u32,
}

/// The border colour of the primary overlay box.
pub open spec fn primary_border_color(is_layout: bool) -> u32 {
    if is_layout {
        PRIMARY_LAYOUT_COLOR
    } else {
        PRIMARY_ELEMENT_COLOR
    }
}

/// The border colour of the secondary overlay boxes.
pub open spec fn secondary_border_color(kind: Option<ComponentKind>) -> u32 {
    match kind {
        Some(ComponentKind::Layout) => SECONDARY_LAYOUT_COLOR,
        _ => SECONDARY_ELEMENT_COLOR,
    }
}

/// The overlay box of `rect` in colour `color`.
pub open spec fn selection_of(rect: LogicalRect, color: u32) -> Selection {
    Selection {
        x: rect.x,
        y: rect.y,
        width: rect.width,
        height: rect.height,
        border_color: color,
    }
}

/// Computes the whole overlay for a selection: the primary box around the
/// selected element first (red border for a layout, blue for a plain
/// element), then one lighter secondary box per geometry of its logical
/// group. The overlay is recomputed wholesale on every selection change.
pub fn set_selections(
    scene: &Scene,
    element_position: Option<(usize, LogicalRect)>,
    positions: &ComponentPositions,
) -> (r: Vec<Selection>)
    requires
        scene.wf(),
        match element_position {
            Some(e) => (e.0 as int) < scene.elements@.len(),
            None => true,
        },
    ensures
        r@.len() == positions.geometries@.len() + (match element_position {
            Some(_) => 1int,
            None => 0int,
        }),
        element_position matches Some(e) ==> r@[0] == selection_of(
            e.1,
            primary_border_color(scene.elements@[e.0 as int].is_layout),
        ),
        forall|j: int|
            0 <= j < positions.geometries@.len() ==> r@[j + (match element_position {
                Some(_) => 1int,
                None => 0int,
            })] == selection_of(
                positions.geometries@[j],
                secondary_border_color(positions.kind),
            ),
{
    let mut r: Vec<Selection> = Vec::new();
    let offset: usize = match element_position {
        Some((e, primary)) => {
            let color = if scene.elements[e].is_layout {
                PRIMARY_LAYOUT_COLOR
            } else {
                PRIMARY_ELEMENT_COLOR
            };
            r.push(
                Selection {
                    x: primary.x,
                    y: primary.y,
                    width: primary.width,
                    height: primary.height,
                    border_color: color,
                },
            );
            1
        },
        None => 0,
    };
    let secondary_color = match positions.kind {
        Some(ComponentKind::Layout) => SECONDARY_LAYOUT_COLOR,
        _ => SECONDARY_ELEMENT_COLOR,
    };
    let mut i: usize = 0;
    while i < positions.geometries.len()
        invariant
            i <= positions.geometries@.len(),
            r@.len() == i + offset,
            offset == (match element_position {
                Some(_) => 1int,
                None => 0int,
            }),
            element_position matches Some(e) ==> (e.0 as int) < scene.elements@.len() && r@[0]
                == selection_of(
                e.1,
                primary_border_color(scene.elements@[e.0 as int].is_layout),
            ),
            secondary_color == secondary_border_color(positions.kind),
            forall|j: int|
                0 <= j < i ==> r@[j + offset] == selection_of(
                    positions.geometries@[j],
                    secondary_color,
                ),
        decreases positions.geometries@.len() - i,
    {
        let g = positions.geometries[i];
        r.push(
            Selection {
                x: g.x,
                y: g.y,
                width: g.width,
                height: g.height,
                border_color: secondary_color,
            },
        );
        i = i + 1;
    }
    r
}

/// The empty overlay: no boxes at all.
pub fn reset_selections() -> (r: Vec<Selection>)
    ensures
        r@.len() == 0,
{
    Vec::new()
}

/// Hit-testing is deterministic and order-stable: a reported hit is a child
/// that really contains the point, and no earlier sibling in document order
/// does.
pub proof fn lemma_first_hit_is_first(s: Scene, children: Seq<usize>, p: LogicalPoint)
    ensures
        first_hit(s, children, p) matches Some(e) ==> exists|i: int|
            0 <= i < children.len() && child_hit(s, children[i] as int, p) && e
                == embedded_root_spec(s, children[i] as int) && (forall|j: int|
                0 <= j < i ==> !child_hit(s, children[j] as int, p)),
        first_hit(s, children, p) is None ==> forall|i: int|
            0 <= i < children.len() ==> !child_hit(s, children[i] as int, p),
    decreases children.len(),
{
    if children.len() > 0 {
        lemma_first_hit_is_first(s, children.drop_first(), p);
        assert(forall|j: int| 1 <= j < children.len() ==> children[j] == children.drop_first()[j - 1]);
        if !child_hit(s, children[0] as int, p) {
            let fh = first_hit(s, children.drop_first(), p);
            if fh is Some {
                let e = fh->Some_0;
                let i = choose|i: int|
                    0 <= i < children.drop_first().len() && child_hit(
                        s,
                        children.drop_first()[i] as int,
                        p,
                    ) && e == embedded_root_spec(s, children.drop_first()[i] as int) && (forall|
                        j: int,
                    |
                        0 <= j < i ==> !child_hit(s, children.drop_first()[j] as int, p));
                assert(children[i + 1] == children.drop_first()[i]);
                assert(forall|j: int|
                    0 <= j < i + 1 ==> !child_hit(s, children[j] as int, p)) by {
                    assert(forall|j: int|
                        1 <= j < i + 1 ==> children[j] == children.drop_first()[j - 1]);
                }
                assert(0 <= i + 1 < children.len() && child_hit(s, children[i + 1] as int, p) && e
                    == embedded_root_spec(s, children[i + 1] as int));
            }
        }
    }
}

} // verus!
