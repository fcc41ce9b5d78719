//! The compilation driver's verified half: the status notifications that
//! bracket a compile, the synthetic wrapper document for previewing a named
//! component, and the resolution of the request's source text through the
//! cache.

use crate::reload::ComponentView;
use crate::reload::CoordView;
use crate::reload::Coordinator;
use crate::reload::PreviewComponent;
use vstd::prelude::*;
use vstd::string::StringExecFns;

verus! {

/// The preview's health, as reported to the editor.
#[derive(Clone, Copy, PartialEq, Eq, Structural, Debug)]
pub enum Health {
    Good,
    Error,
}

/// A status update for the editor: the text shown in the preview's status
/// area, whether the previously shown diagnostics are cleared, and the
/// health notification sent over the wire.
pub struct StatusUpdate {
    pub status_text: String,
    pub clear_diagnostics: bool,
    pub message: String,
    pub health: Health,
}

/// The status update that starts a compile: the preview shows that it is
/// updating, previously published diagnostics are superseded, and the
/// editor is told that loading is under way and all is well.
pub fn start_parsing() -> (r: StatusUpdate)
    ensures
        r.status_text@ == "Updating Preview..."@,
        r.clear_diagnostics == true,
        r.message@ == "Loading Preview…"@,
        r.health == Health::Good,
{
    StatusUpdate {
        status_text: String::from_str("Updating Preview..."),
        clear_diagnostics: true,
        message: String::from_str("Loading Preview…"),
        health: Health::Good,
    }
}

/// The status update that ends a compile: the status area is cleared and
/// the editor is told whether the preview was loaded or left as it was.
pub fn finish_parsing(ok: bool) -> (r: StatusUpdate)
    ensures
        r.status_text@ == ""@,
        r.clear_diagnostics == false,
        ok ==> r.message@ == "Preview Loaded"@ && r.health == Health::Good,
        !ok ==> r.message@ == "Preview not updated"@ && r.health == Health::Error,
{
    proof {
        reveal_strlit("");
    }
    if ok {
        StatusUpdate {
            status_text: String::new(),
            clear_diagnostics: false,
            message: String::from_str("Preview Loaded"),
            health: Health::Good,
        }
    } else {
        StatusUpdate {
            status_text: String::new(),
            clear_diagnostics: false,
            message: String::from_str("Preview not updated"),
            health: Health::Error,
        }
    }
}

/// The style a compile pass runs with: a non-empty override carried by the
/// request wins and must also become the UI's current style (the second
/// component says so); an empty override keeps the UI's current style.
pub fn choose_style(request_style: &String, ui_style: String) -> (r: (String, bool))
    ensures
        request_style@.len() == 0 ==> r.0@ == ui_style@ && r.1 == false,
        request_style@.len() > 0 ==> r.0@ == request_style@ && r.1 == true,
{
    if request_style.as_str().is_empty() {
        (ui_style, false)
    } else {
        (request_style.clone(), true)
    }
}

/// The document compiled when a named component is previewed: the source
/// text followed by a synthetic root component that inherits the named one,
/// so the previewed unit is always a single root component.
pub open spec fn synthesized_wrapper(source: Seq<char>, component: Seq<char>) -> Seq<char> {
    source + "\nexport component _Preview inherits "@ + component + " { }\n"@
}

/// Appends the synthetic preview wrapper for `component` to `source`.
pub fn wrapper_source(source: String, component: &String) -> (r: String)
    ensures
        r@ == synthesized_wrapper(source@, component@),
{
    let mut r = source;
    r.append("\nexport component _Preview inherits ");
    r.append(component.as_str());
    r.append(" { }\n");
    r
}

/// What the compiler is fed for a request whose target is cached: the
/// cached text, wrapped when a named component is requested. A request
/// whose target is not cached compiles from the file on disk instead.
pub open spec fn compile_source_spec(s: CoordView, request: ComponentView) -> Option<Seq<char>> {
    if s.source.contains_key(request.path) {
        Some(
            match request.component {
                Some(name) => synthesized_wrapper(s.source[request.path], name),
                None => s.source[request.path],
            },
        )
    } else {
        None
    }
}

impl Coordinator {
    /// Resolves the source text to compile for `request` through the cache,
    /// tracking the request's target as a dependency either way; `None`
    /// defers to a read of the file on disk.
    pub fn prepare_compile_source(&mut self, request: &PreviewComponent) -> (r: Option<String>)
        requires
            old(self).wf(),
        ensures
            final(self).wf(),
            final(self)@ == (CoordView {
                dependencies: old(self)@.dependencies.insert(request.path@),
                ..old(self)@
            }),
            match r {
                Some(text) => compile_source_spec(old(self)@, request@) matches Some(t) && text@
                    == t,
                None => compile_source_spec(old(self)@, request@) is None,
            },
    {
        match self.get_file_from_cache(request.path.clone()) {
            Some(text) => match &request.component {
                Some(name) => Some(wrapper_source(text, name)),
                None => Some(text),
            },
            None => None,
        }
    }
}

} // verus!
