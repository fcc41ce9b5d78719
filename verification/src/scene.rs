//! The compiled scene, modelled as data: an arena of elements with their
//! on-screen geometry and their source locations. The arena is filled from a
//! freshly compiled artifact and replaced wholesale by the next one, so no
//! element reference outlives the compile it came from.

use crate::geometry::LogicalRect;
use vstd::prelude::*;

verus! {

/// A 1-based line/column position, as the compiler reports them.
#[derive(Clone, Copy, PartialEq, Eq, Structural, Debug)]
pub struct SourcePosition {
    pub line: u32,
    pub column: u32,
}

/// A byte span in a source file together with the positions of its ends.
#[derive(Clone, Copy, PartialEq, Eq, Structural, Debug)]
pub struct TextSpan {
    pub start_offset: u32,
    pub end_offset: u32,
    pub start: SourcePosition,
    pub end: SourcePosition,
}

/// Where an element comes from in the source tree. `file` identifies the
/// source file (two locations share a `file` exactly when they come from the
/// same loaded file), `path` is that file's path. When the element's node is
/// the direct child of a sub-element wrapper node, `sub_element` carries the
/// wrapper's span, so navigation can target the instantiation site.
pub struct SourceLocation {
    pub file: u64,
    pub path: String,
    pub span: TextSpan,
    pub sub_element: Option<TextSpan>,
}

/// One element of the compiled scene. `children` and `repeated_root` are
/// arena indices. An element that instantiates a repeated or embedded
/// sub-component carries that component's own root in `repeated_root`;
/// `geometry` is the on-screen rectangle the renderer reports for it, if it
/// is rendered at all.
pub struct Element {
    pub children: Vec<usize>,
    pub geometry: Option<LogicalRect>,
    pub repeated_root: Option<usize>,
    pub location: Option<SourceLocation>,
    pub is_layout: bool,
}

/// A compiled scene: the element arena and the index of the nominal root.
pub struct Scene {
    pub elements: Vec<Element>,
    pub root: usize,
}

impl Scene {
    /// All indices an element holds stay inside the arena.
    pub open spec fn element_in_bounds(self, e: Element) -> bool {
        &&& (forall|j: int|
            0 <= j < e.children@.len() ==> (e.children@[j] as int) < self.elements@.len())
        &&& (match e.repeated_root {
            Some(r) => (r as int) < self.elements@.len(),
            None => true,
        })
    }

    /// A well-formed scene: the root and every index in it are in bounds.
    pub open spec fn wf(&self) -> bool {
        &&& (self.root as int) < self.elements@.len()
        &&& (forall|i: int|
            0 <= i < self.elements@.len() ==> #[trigger] self.element_in_bounds(
                self.elements@[i],
            ))
    }
}

/// The element hit-testing reports for a child: a repeated or embedded
/// sub-component is represented by its own root, so hit-testing reports the
/// semantically meaningful element rather than an internal wrapper.
pub open spec fn embedded_root_spec(s: Scene, e: int) -> int {
    match s.elements@[e].repeated_root {
        Some(r) => r as int,
        None => e,
    }
}

/// Does the on-screen geometry of element `e` contain `p`? An element the
/// renderer reports no geometry for contains nothing.
pub open spec fn covers_spec(s: Scene, e: int, p: crate::geometry::LogicalPoint) -> bool {
    match s.elements@[e].geometry {
        Some(g) => g.spec_contains(p),
        None => false,
    }
}

/// An element's source file identity and byte span, used to recognize the
/// synthetic window wrapper, which occupies exactly its child's span.
pub open spec fn source_range_spec(s: Scene, e: int) -> Option<(u64, u32, u32)> {
    match s.elements@[e].location {
        Some(loc) => Some((loc.file, loc.span.start_offset, loc.span.end_offset)),
        None => None,
    }
}

/// Looks at an element and, if it is the instantiation of a repeated or
/// embedded sub-component, jumps to that component's root element.
pub fn self_or_embedded_component_root(scene: &Scene, element: usize) -> (r: usize)
    requires
        scene.wf(),
        (element as int) < scene.elements@.len(),
    ensures
        r as int == embedded_root_spec(*scene, element as int),
        (r as int) < scene.elements@.len(),
{
    proof {
        assert(scene.element_in_bounds(scene.elements@[element as int]));
    }
    match scene.elements[element].repeated_root {
        Some(r) => r,
        None => element,
    }
}

/// An element's source file identity and byte span.
pub fn element_source_range(scene: &Scene, element: usize) -> (r: Option<(u64, u32, u32)>)
    requires
        scene.wf(),
        (element as int) < scene.elements@.len(),
    ensures
        r == source_range_spec(*scene, element as int),
{
    match &scene.elements[element].location {
        Some(loc) => Some((loc.file, loc.span.start_offset, loc.span.end_offset)),
        None => None,
    }
}

/// The real root element: the nominal root is skipped in favour of its
/// single child when both occupy exactly the same span of the same file,
/// which undoes the synthetic wrapper a named-component preview adds.
pub open spec fn resolved_root_spec(s: Scene) -> int {
    let root = s.root as int;
    if s.elements@[root].children@.len() != 1 {
        root
    } else {
        let child = s.elements@[root].children@[0] as int;
        match (source_range_spec(s, root), source_range_spec(s, child)) {
            (Some(r), Some(c)) => if r == c {
                child
            } else {
                root
            },
            _ => root,
        }
    }
}

/// Returns the real root element, skipping a synthetic window wrapper.
pub fn root_element(scene: &Scene) -> (r: usize)
    requires
        scene.wf(),
    ensures
        r as int == resolved_root_spec(*scene),
        (r as int) < scene.elements@.len(),
{
    let root = scene.root;
    if scene.elements[root].children.len() != 1 {
        return root;
    }
    proof {
        assert(scene.element_in_bounds(scene.elements@[root as int]));
    }
    let child = scene.elements[root].children[0];
    let root_range = element_source_range(scene, root);
    let child_range = element_source_range(scene, child);
    match (root_range, child_range) {
        (Some(r), Some(c)) => {
            if r.0 == c.0 && r.1 == c.1 && r.2 == c.2 {
                child
            } else {
                root
            }
        },
        _ => root,
    }
}

} // verus!
