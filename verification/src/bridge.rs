//! The editor-facing bridge: turning elements into document positions and
//! positions into editor navigation requests.

use crate::diagnostics::is_absolute_path;
use crate::scene::Scene;
use crate::scene::SourceLocation;
use crate::scene::TextSpan;
use vstd::prelude::*;

verus! {

/// A 0-based position in a document, as the editor protocol counts.
#[derive(Clone, Copy, PartialEq, Eq, Structural, Debug)]
pub struct DocPosition {
    pub line: u32,
    pub character: u32,
}

/// A 0-based document range.
#[derive(Clone, Copy, PartialEq, Eq, Structural, Debug)]
pub struct DocRange {
    pub start: DocPosition,
    pub end: DocPosition,
}

/// Decrement that stops at zero, for turning 1-based positions into 0-based.
pub open spec fn saturating_dec(v: u32) -> u32 {
    if v >= 1 {
        (v - 1) as u32
    } else {
        0
    }
}

fn sub_one(v: u32) -> (r: u32)
    ensures
        r == saturating_dec(v),
{
    if v >= 1 {
        v - 1
    } else {
        0
    }
}

/// The span navigation reports for a location: the enclosing sub-element
/// wrapper when there is one, so navigating from a repeated element goes to
/// the instantiation site rather than the shared template definition.
pub open spec fn position_span(loc: SourceLocation) -> TextSpan {
    match loc.sub_element {
        Some(sp) => sp,
        None => loc.span,
    }
}

/// The 0-based document range of a span.
pub open spec fn doc_range_of_span(sp: TextSpan) -> DocRange {
    DocRange {
        start: DocPosition {
            line: saturating_dec(sp.start.line),
            character: saturating_dec(sp.start.column),
        },
        end: DocPosition {
            line: saturating_dec(sp.end.line),
            character: saturating_dec(sp.end.column),
        },
    }
}

/// The document path and range of an element: empty path and zero range for
/// an element without a source node.
pub open spec fn element_position_spec(s: Scene, e: int) -> (Seq<char>, DocRange) {
    match s.elements@[e].location {
        Some(loc) => (loc.path@, doc_range_of_span(position_span(loc))),
        None => (
            Seq::empty(),
            DocRange {
                start: DocPosition { line: 0, character: 0 },
                end: DocPosition { line: 0, character: 0 },
            },
        ),
    }
}

/// The file path and byte offset of an element's own source node.
pub open spec fn element_offset_spec(s: Scene, e: int) -> Option<(Seq<char>, u32)> {
    match s.elements@[e].location {
        Some(loc) => Some((loc.path@, loc.span.start_offset)),
        None => None,
    }
}

/// The view of an optional path/offset pair.
pub open spec fn path_offset_opt_view(r: Option<(String, u32)>) -> Option<(Seq<char>, u32)> {
    match r {
        Some(p) => Some((p.0@, p.1)),
        None => None,
    }
}

/// Converts an element's source node into a file path and a 0-based
/// document range; an element without a node yields an empty path and a
/// zero range.
pub fn lsp_element_position(scene: &Scene, element: usize) -> (r: (String, DocRange))
    requires
        scene.wf(),
        (element as int) < scene.elements@.len(),
    ensures
        r.0@ == element_position_spec(*scene, element as int).0,
        r.1 == element_position_spec(*scene, element as int).1,
{
    match &scene.elements[element].location {
        Some(loc) => {
            let span = match &loc.sub_element {
                Some(sp) => *sp,
                None => loc.span,
            };
            (
                loc.path.clone(),
                DocRange {
                    start: DocPosition {
                        line: sub_one(span.start.line),
                        character: sub_one(span.start.column),
                    },
                    end: DocPosition {
                        line: sub_one(span.end.line),
                        character: sub_one(span.end.column),
                    },
                },
            )
        },
        None => (
            String::new(),
            DocRange {
                start: DocPosition { line: 0, character: 0 },
                end: DocPosition { line: 0, character: 0 },
            },
        ),
    }
}

/// The file path and byte offset of an element's own source node, used to
/// ask the renderer for the secondary geometries of its logical group.
pub fn element_offset(scene: &Scene, element: usize) -> (r: Option<(String, u32)>)
    requires
        scene.wf(),
        (element as int) < scene.elements@.len(),
    ensures
        path_offset_opt_view(r) == element_offset_spec(*scene, element as int),
{
    match &scene.elements[element].location {
        Some(loc) => Some((loc.path.clone(), loc.span.start_offset)),
        None => None,
    }
}

#[verifier::external_type_specification]
#[verifier::external_body]
pub struct ExUrl(lsp_types::Url);

/// Relies on lsp_types::Url::from_file_path (the url crate), read on its
/// Unix branch: the conversion succeeds exactly when the path is absolute,
/// that is non-empty and rooted, which `is_absolute_path` states; it never
/// panics.
#[verifier::external_body]
pub(crate) fn url_for_file_path(file: &String) -> (r: Option<lsp_types::Url>)
    ensures
        r is Some <==> is_absolute_path(file@),
{
    lsp_types::Url::from_file_path(file.as_str()).ok()
}

/// An editor "navigate to this location" request, ready to be put on the
/// wire: the document's URL, the selection to reveal, whether to open in an
/// external program, and whether the editor should take focus.
pub struct ShowDocumentRequest {
    pub uri: lsp_types::Url,
    pub selection: DocRange,
    pub external: bool,
    pub take_focus: bool,
}

/// Is a navigation to `file` at `range` suppressed? An empty file or a
/// zero column at either end means "no meaningful location".
pub open spec fn show_document_suppressed(file: Seq<char>, range: DocRange) -> bool {
    file.len() == 0 || range.start.character == 0 || range.end.character == 0
}

/// Builds the navigation request for a URL the editor can open: it asks the
/// editor to take focus and reveal `selection` in its own window.
pub fn build_show_document_request(uri: lsp_types::Url, selection: DocRange) -> (r:
    ShowDocumentRequest)
    ensures
        r.selection == selection,
        r.take_focus == true,
        r.external == false,
{
    ShowDocumentRequest { uri, selection, external: false, take_focus: true }
}

/// Builds an editor navigation request for `file` and `range`: one is
/// returned exactly when the location is not degenerate (non-empty file,
/// no zero column) and the file is an absolute path, the only kind its URL
/// conversion accepts.
pub fn show_document_request_from_element_callback(file: &String, range: DocRange) -> (r: Option<
    ShowDocumentRequest,
>)
    ensures
        r is Some <==> !show_document_suppressed(file@, range) && is_absolute_path(file@),
        r matches Some(req) ==> req.selection == range && req.take_focus == true && req.external
            == false,
{
    if file.as_str().is_empty() || range.start.character == 0 || range.end.character == 0 {
        return None;
    }
    match url_for_file_path(file) {
        Some(uri) => Some(build_show_document_request(uri, range)),
        None => None,
    }
}

/// Round trip from a selected element to the editor: the range derived from
/// an element that carries a source node in a named file yields a
/// non-suppressed navigation request exactly when both of the range's
/// columns are non-zero. For an absolute path,
/// `show_document_request_from_element_callback`'s contract then returns a
/// request exactly in the non-suppressed case.
pub proof fn lemma_navigation_round_trip(s: Scene, e: int)
    requires
        0 <= e < s.elements@.len(),
        s.elements@[e].location is Some,
        s.elements@[e].location->Some_0.path@.len() > 0,
    ensures
        ({
            let (file, range) = element_position_spec(s, e);
            !show_document_suppressed(file, range) <==> (range.start.character != 0
                && range.end.character != 0)
        }),
{
}

} // verus!
