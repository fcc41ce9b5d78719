use live_preview::bridge::lsp_element_position;
use live_preview::bridge::show_document_request_from_element_callback;
use live_preview::bridge::DocPosition;
use live_preview::bridge::DocRange;
use live_preview::diagnostics::convert_diagnostics;
use live_preview::diagnostics::group_diagnostics_by_file;
use live_preview::diagnostics::Diagnostic;
use live_preview::diagnostics::DiagnosticLevel;
use live_preview::driver::wrapper_source;
use live_preview::geometry::LogicalRect;
use live_preview::scene::Element;
use live_preview::scene::Scene;
use live_preview::scene::SourceLocation;
use live_preview::scene::SourcePosition;
use live_preview::scene::TextSpan;

fn doc_range(sl: u32, sc: u32, el: u32, ec: u32) -> DocRange {
    DocRange {
        start: DocPosition { line: sl, character: sc },
        end: DocPosition { line: el, character: ec },
    }
}

fn one_element_scene(location: Option<SourceLocation>) -> Scene {
    Scene {
        elements: vec![Element {
            children: Vec::new(),
            geometry: Some(LogicalRect { x: 0, y: 0, width: 10, height: 10 }),
            repeated_root: None,
            location,
            is_layout: false,
        }],
        root: 0,
    }
}

fn location_at(line: u32, column: u32, sub_element: Option<TextSpan>) -> SourceLocation {
    SourceLocation {
        file: 1,
        path: String::from("/a.ui"),
        span: TextSpan {
            start_offset: 40,
            end_offset: 60,
            start: SourcePosition { line, column },
            end: SourcePosition { line: line + 1, column: column + 2 },
        },
        sub_element,
    }
}

fn diag(file: Option<&str>, message: &str) -> Diagnostic {
    Diagnostic {
        source_file: file.map(String::from),
        message: String::from(message),
        level: DiagnosticLevel::Error,
        line: 1,
        column: 1,
    }
}

#[test]
fn element_position_is_zero_based_and_saturating() {
    let scene = one_element_scene(Some(location_at(3, 7, None)));
    let (path, range) = lsp_element_position(&scene, 0);
    assert_eq!(path, "/a.ui");
    assert_eq!(range, doc_range(2, 6, 3, 8));
    // 1-based position 0 (out of range) saturates at 0 instead of wrapping.
    let odd = one_element_scene(Some(location_at(0, 0, None)));
    let (_, odd_range) = lsp_element_position(&odd, 0);
    assert_eq!(odd_range.start, DocPosition { line: 0, character: 0 });
}

#[test]
fn element_without_node_has_empty_position() {
    let scene = one_element_scene(None);
    let (path, range) = lsp_element_position(&scene, 0);
    assert_eq!(path, "");
    assert_eq!(range, doc_range(0, 0, 0, 0));
}

#[test]
fn sub_element_wrapper_position_wins() {
    let wrapper = TextSpan {
        start_offset: 30,
        end_offset: 70,
        start: SourcePosition { line: 9, column: 2 },
        end: SourcePosition { line: 12, column: 4 },
    };
    let scene = one_element_scene(Some(location_at(3, 7, Some(wrapper))));
    let (_, range) = lsp_element_position(&scene, 0);
    assert_eq!(range, doc_range(8, 1, 11, 3));
}

#[test]
fn navigation_request_round_trip() {
    // Non-suppressed exactly when both columns are non-zero.
    let scene = one_element_scene(Some(location_at(3, 7, None)));
    let (path, range) = lsp_element_position(&scene, 0);
    let req = show_document_request_from_element_callback(&path, range)
        .expect("non-zero columns navigate");
    assert_eq!(req.selection, range);
    assert!(req.take_focus);
    assert!(!req.external);
    assert_eq!(req.uri, lsp_types::Url::from_file_path("/a.ui").unwrap());
    // A node at column 1 becomes character 0 and is suppressed.
    let at_col_one = one_element_scene(Some(location_at(3, 1, None)));
    let (path1, range1) = lsp_element_position(&at_col_one, 0);
    assert_eq!(range1.start.character, 0);
    assert!(show_document_request_from_element_callback(&path1, range1).is_none());
}

#[test]
fn navigation_suppressed_for_degenerate_locations() {
    let good = doc_range(2, 6, 3, 8);
    assert!(show_document_request_from_element_callback(&String::new(), good).is_none());
    let zero_start = doc_range(2, 0, 3, 8);
    assert!(
        show_document_request_from_element_callback(&String::from("/a.ui"), zero_start).is_none()
    );
    let zero_end = doc_range(2, 6, 3, 0);
    assert!(
        show_document_request_from_element_callback(&String::from("/a.ui"), zero_end).is_none()
    );
    // A relative path yields no URL, so no request either.
    assert!(show_document_request_from_element_callback(&String::from("rel.ui"), good).is_none());
}

#[test]
fn diagnostics_group_by_file_and_drop_unattributable() {
    let diags = vec![
        diag(Some("/a.ui"), "first"),
        diag(Some("/b.ui"), "second"),
        diag(Some("rel.ui"), "relative path dropped"),
        diag(None, "internal location dropped"),
        diag(Some("/a.ui"), "third"),
    ];
    let groups = group_diagnostics_by_file(&diags);
    assert_eq!(groups.len(), 2);
    assert_eq!(groups[0].0, "/a.ui");
    assert_eq!(groups[0].1.len(), 2);
    assert_eq!(groups[0].1[0].message, "first");
    assert_eq!(groups[0].1[1].message, "third");
    assert_eq!(groups[1].0, "/b.ui");
    assert_eq!(groups[1].1.len(), 1);
    assert_eq!(groups[1].1[0].message, "second");
}

#[test]
fn diagnostics_are_addressed_to_file_urls() {
    let diags = vec![
        diag(Some("/a.ui"), "first"),
        diag(Some("/b.ui"), "second"),
        diag(None, "dropped"),
    ];
    let published = convert_diagnostics(&diags);
    assert_eq!(published.len(), 2);
    assert_eq!(published[0].0, lsp_types::Url::from_file_path("/a.ui").unwrap());
    assert_eq!(published[0].1.len(), 1);
    assert_eq!(published[1].0, lsp_types::Url::from_file_path("/b.ui").unwrap());
    assert_eq!(published[1].1[0].message, "second");
}

#[test]
fn no_reportable_diagnostics_publish_nothing() {
    let diags = vec![diag(None, "internal"), diag(Some("not-absolute.ui"), "relative")];
    assert!(convert_diagnostics(&diags).is_empty());
    assert!(group_diagnostics_by_file(&diags).is_empty());
    assert!(convert_diagnostics(&Vec::new()).is_empty());
}

#[test]
fn wrapper_source_appends_preview_component() {
    let wrapped = wrapper_source(String::from("component A { }"), &String::from("A"));
    assert_eq!(wrapped, "component A { }\nexport component _Preview inherits A { }\n");
}
