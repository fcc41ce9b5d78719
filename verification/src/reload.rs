//! The reload state machine: process-wide preview state that coalesces
//! concurrent reload requests into at most one in-flight compile followed by
//! at most one queued retry, and never publishes a superseded result.
//!
//! The `Coordinator` owns everything that must sit under one lock: the
//! source cache, the current request, the configuration, the reload state
//! and the stored highlight. Callers that run a worker hold the coordinator
//! under their own mutual exclusion and call the transition methods; the
//! methods say exactly which step of the machine they take, as a spec-level
//! function of the coordinator's view.

use crate::source_cache::SourceCache;
use vstd::prelude::*;

verus! {

/// The reload state machine's states.
#[derive(Clone, Copy, PartialEq, Eq, Structural, Debug)]
pub enum ReloadState {
    /// No compile is pending or running.
    Idle,
    /// A compile has been requested but the worker has not yet begun.
    Scheduled,
    /// A compile is actively in progress.
    Running,
    /// A compile is in progress but has been superseded by a newer request;
    /// its result will be discarded and another pass started.
    RunningStale,
}

/// What to preview: a target file, an optional named component inside it and
/// an optional style override. A newer request replaces an older one.
pub struct PreviewComponent {
    pub path: String,
    pub component: Option<String>,
    pub style: String,
}

/// The mathematical content of a request.
pub struct ComponentView {
    pub path: Seq<char>,
    pub component: Option<Seq<char>>,
    pub style: Seq<char>,
}

impl View for PreviewComponent {
    type V = ComponentView;

    open spec fn view(&self) -> ComponentView {
        ComponentView {
            path: self.path@,
            component: match self.component {
                Some(c) => Some(c@),
                None => None,
            },
            style: self.style@,
        }
    }
}

impl PreviewComponent {
    /// An empty request: no target path, no component, no style.
    pub fn new() -> (r: Self)
        ensures
            r@ == (ComponentView { path: Seq::<char>::empty(), component: None, style: Seq::<char>::empty() }),
    {
        PreviewComponent { path: String::new(), component: None, style: String::new() }
    }

    /// A copy with the same content.
    pub fn duplicate(&self) -> (r: Self)
        ensures
            r@ == self@,
    {
        PreviewComponent {
            path: self.path.clone(),
            component: match &self.component {
                Some(c) => Some(c.clone()),
                None => None,
            },
            style: self.style.clone(),
        }
    }
}

/// Preview configuration handed over by the editor.
pub struct PreviewConfig {
    pub hide_ui: Option<bool>,
    pub style: String,
    pub include_paths: Vec<String>,
    pub library_paths: Vec<String>,
}

/// The mathematical content of a configuration.
pub struct ConfigView {
    pub hide_ui: Option<bool>,
    pub style: Seq<char>,
    pub include_paths: Seq<Seq<char>>,
    pub library_paths: Seq<Seq<char>>,
}

impl View for PreviewConfig {
    type V = ConfigView;

    open spec fn view(&self) -> ConfigView {
        ConfigView {
            hide_ui: self.hide_ui,
            style: self.style@,
            include_paths: self.include_paths.deep_view(),
            library_paths: self.library_paths.deep_view(),
        }
    }
}

fn clone_strings(v: &Vec<String>) -> (r: Vec<String>)
    ensures
        r.deep_view() == v.deep_view(),
{
    let mut r: Vec<String> = Vec::new();
    let mut i: usize = 0;
    while i < v.len()
        invariant
            i <= v@.len(),
            r.deep_view() =~= v.deep_view().subrange(0, i as int),
        decreases v@.len() - i,
    {
        let ghost prev = r.deep_view();
        r.push(v[i].clone());
        i = i + 1;
        proof {
            assert(r.deep_view() =~= prev.push(v@[i - 1].deep_view()));
        }
    }
    proof {
        assert(r.deep_view() =~= v.deep_view());
    }
    r
}

fn string_vecs_equal(a: &Vec<String>, b: &Vec<String>) -> (r: bool)
    ensures
        r == (a.deep_view() == b.deep_view()),
{
    if a.len() != b.len() {
        proof {
            assert(a.deep_view().len() == a@.len());
            assert(b.deep_view().len() == b@.len());
        }
        return false;
    }
    let mut i: usize = 0;
    while i < a.len()
        invariant
            a@.len() == b@.len(),
            i <= a@.len(),
            forall|j: int| 0 <= j < i ==> a.deep_view()[j] == b.deep_view()[j],
        decreases a@.len() - i,
    {
        if !(a[i] == b[i]) {
            proof {
                assert(a.deep_view()[i as int] != b.deep_view()[i as int]);
            }
            return false;
        }
        i = i + 1;
    }
    proof {
        assert(a.deep_view() =~= b.deep_view());
    }
    true
}

impl PreviewConfig {
    /// The configuration everything starts from: nothing hidden, no style,
    /// no search paths.
    pub fn new() -> (r: Self)
        ensures
            r@ == (ConfigView {
                hide_ui: None,
                style: Seq::<char>::empty(),
                include_paths: Seq::<Seq<char>>::empty(),
                library_paths: Seq::<Seq<char>>::empty(),
            }),
    {
        let r = PreviewConfig {
            hide_ui: None,
            style: String::new(),
            include_paths: Vec::new(),
            library_paths: Vec::new(),
        };
        proof {
            assert(r.include_paths.deep_view() =~= Seq::<Seq<char>>::empty());
            assert(r.library_paths.deep_view() =~= Seq::<Seq<char>>::empty());
        }
        r
    }

    /// A copy with the same content.
    pub fn duplicate(&self) -> (r: Self)
        ensures
            r@ == self@,
    {
        PreviewConfig {
            hide_ui: self.hide_ui,
            style: self.style.clone(),
            include_paths: clone_strings(&self.include_paths),
            library_paths: clone_strings(&self.library_paths),
        }
    }

    /// Content equality.
    pub fn config_equals(&self, other: &PreviewConfig) -> (r: bool)
        ensures
            r == (self@ == other@),
    {
        let hide_eq = match (self.hide_ui, other.hide_ui) {
            (None, None) => true,
            (Some(a), Some(b)) => a == b,
            _ => false,
        };
        hide_eq && self.style == other.style && string_vecs_equal(
            &self.include_paths,
            &other.include_paths,
        ) && string_vecs_equal(&self.library_paths, &other.library_paths)
    }
}

/// A request to visually mark the element at `offset` in `path`; an empty
/// path clears the mark.
pub struct HighlightUpdate {
    pub path: String,
    pub offset: u32,
}

/// The action a configuration change asks its caller to take: switch the
/// preview UI on or off, and reload the current request.
pub struct ConfigAction {
    pub set_show_ui: Option<bool>,
    pub reload: Option<PreviewComponent>,
}

/// The whole preview state, meant to live under the process's single lock.
pub struct Coordinator {
    cache: SourceCache,
    current: PreviewComponent,
    config: PreviewConfig,
    loading_state: ReloadState,
    highlight: Option<(String, u32)>,
    ui_is_visible: bool,
}

/// The mathematical content of the coordinator.
pub struct CoordView {
    pub source: Map<Seq<char>, Seq<char>>,
    pub dependencies: Set<Seq<char>>,
    pub current: ComponentView,
    pub config: ConfigView,
    pub loading_state: ReloadState,
    pub highlight: Option<(Seq<char>, u32)>,
    pub ui_is_visible: bool,
}

impl View for Coordinator {
    type V = CoordView;

    closed spec fn view(&self) -> CoordView {
        CoordView {
            source: self.cache.source(),
            dependencies: self.cache.dependencies(),
            current: self.current@,
            config: self.config@,
            loading_state: self.loading_state,
            highlight: match self.highlight {
                Some((ref p, o)) => Some((p@, o)),
                None => None,
            },
            ui_is_visible: self.ui_is_visible,
        }
    }
}

/// The view of the state a fresh coordinator is in.
pub open spec fn initial_view() -> CoordView {
    CoordView {
        source: Map::empty(),
        dependencies: Set::empty(),
        current: ComponentView { path: Seq::empty(), component: None, style: Seq::empty() },
        config: ConfigView {
            hide_ui: None,
            style: Seq::empty(),
            include_paths: Seq::empty(),
            library_paths: Seq::empty(),
        },
        loading_state: ReloadState::Idle,
        highlight: None,
        ui_is_visible: false,
    }
}

/// The view of an optional request.
pub open spec fn component_opt_view(r: Option<PreviewComponent>) -> Option<ComponentView> {
    match r {
        Some(c) => Some(c@),
        None => None,
    }
}

/// The view of an optional highlight update.
pub open spec fn highlight_update_view(r: Option<HighlightUpdate>) -> Option<(Seq<char>, u32)> {
    match r {
        Some(u) => Some((u.path@, u.offset)),
        None => None,
    }
}

/// Does storing `content` for `path` request a reload? Only when the path is
/// a tracked dependency, the content actually changed, the preview UI is
/// visible and there is a current request to re-run.
pub open spec fn set_contents_requests_reload(
    s: CoordView,
    path: Seq<char>,
    content: Seq<char>,
) -> bool {
    &&& s.dependencies.contains(path)
    &&& !(s.source.contains_key(path) && s.source[path] == content)
    &&& s.ui_is_visible
    &&& s.current.path.len() > 0
}

/// One `set_contents` step: the new state and the reload request it asks
/// its caller to pass on to `load_preview`, if any.
pub open spec fn set_contents_step(s: CoordView, path: Seq<char>, content: Seq<char>) -> (
    CoordView,
    Option<ComponentView>,
) {
    let t = CoordView { source: s.source.insert(path, content), ..s };
    if set_contents_requests_reload(s, path, content) {
        (t, Some(s.current))
    } else {
        (t, None)
    }
}

/// One reload request: the new state and whether a worker must be spawned.
/// While the UI is hidden the request is only absorbed into the current
/// slot; while a compile is scheduled or already stale nothing more is
/// needed; while one is running it is marked stale.
pub open spec fn load_preview_step(s: CoordView, request: ComponentView) -> (CoordView, bool) {
    let t = CoordView { current: request, ..s };
    if !s.ui_is_visible {
        (t, false)
    } else {
        match s.loading_state {
            ReloadState::Idle => (CoordView { loading_state: ReloadState::Scheduled, ..t }, true),
            ReloadState::Scheduled => (t, false),
            ReloadState::Running => (
                CoordView { loading_state: ReloadState::RunningStale, ..t },
                false,
            ),
            ReloadState::RunningStale => (t, false),
        }
    }
}

/// The worker picking up a scheduled compile: if the UI went invisible the
/// machine falls back to `Idle` and nothing is compiled; otherwise the
/// machine moves to `Running`, the dependency set is reset for the compile
/// about to start, the current request and configuration are snapshotted and
/// the stored style override is consumed.
pub open spec fn begin_compile_step(s: CoordView) -> (
    CoordView,
    Option<(ComponentView, ConfigView)>,
) {
    if !s.ui_is_visible {
        (CoordView { loading_state: ReloadState::Idle, ..s }, None)
    } else {
        let t = CoordView {
            loading_state: ReloadState::Running,
            dependencies: Set::empty(),
            current: ComponentView { style: Seq::empty(), ..s.current },
            ..s
        };
        (t, Some((s.current, s.config)))
    }
}

/// The worker finishing a compile: a compile still marked `Running` is
/// published and the machine comes to rest; one marked `RunningStale` is
/// discarded and the machine re-enters `Scheduled` for the fresh pass.
pub open spec fn finish_compile_step(s: CoordView) -> (CoordView, bool) {
    match s.loading_state {
        ReloadState::Running => (CoordView { loading_state: ReloadState::Idle, ..s }, true),
        ReloadState::RunningStale => (
            CoordView { loading_state: ReloadState::Scheduled, ..s },
            false,
        ),
        _ => (s, false),
    }
}

/// One `highlight` step: the new state and the visual-mark request it asks
/// its caller to pass to the renderer, if any. Identical arguments are a
/// no-op; a mark for a file the preview never loaded is stored but produces
/// no visible effect.
pub open spec fn highlight_step(s: CoordView, path: Option<Seq<char>>, offset: u32) -> (
    CoordView,
    Option<(Seq<char>, u32)>,
) {
    let h = match path {
        Some(p) => Some((p, offset)),
        None => None,
    };
    if s.highlight == h {
        (s, None)
    } else {
        let t = CoordView { highlight: h, ..s };
        let notify = match path {
            Some(p) => s.dependencies.contains(p),
            None => true,
        };
        if notify {
            (
                t,
                Some(
                    (
                        match path {
                            Some(p) => p,
                            None => Seq::empty(),
                        },
                        offset,
                    ),
                ),
            )
        } else {
            (t, None)
        }
    }
}

/// One configuration change: the new state, whether to show or hide the
/// preview UI, and the reload to run.
pub open spec fn config_changed_step(s: CoordView, config: ConfigView) -> (
    CoordView,
    Option<bool>,
    Option<ComponentView>,
) {
    if s.config == config {
        (s, None, None)
    } else {
        let t = CoordView { config, ..s };
        if s.ui_is_visible {
            (
                t,
                match config.hide_ui {
                    Some(h) => Some(!h),
                    None => None,
                },
                if s.current.path.len() > 0 {
                    Some(s.current)
                } else {
                    None
                },
            )
        } else {
            (t, None, None)
        }
    }
}

/// A style change reloads the current request, if the UI shows one.
pub open spec fn change_style_step(s: CoordView) -> Option<ComponentView> {
    if s.ui_is_visible && s.current.path.len() > 0 {
        Some(s.current)
    } else {
        None
    }
}

/// Turning the UI visible synthesizes a reload of the stored request, so the
/// preview catches up with edits absorbed while it was hidden.
pub open spec fn set_visible_step(s: CoordView, visible: bool) -> (CoordView, Option<ComponentView>) {
    let t = CoordView { ui_is_visible: visible, ..s };
    if visible && !s.ui_is_visible && s.current.path.len() > 0 {
        (t, Some(s.current))
    } else {
        (t, None)
    }
}

impl Coordinator {
    /// The coordinator's invariant: its source cache is well formed.
    pub closed spec fn wf(&self) -> bool {
        self.cache.wf()
    }

    /// A fresh coordinator: empty cache, no request, hidden UI, `Idle`.
    pub fn new() -> (r: Self)
        ensures
            r.wf(),
            r@ == initial_view(),
    {
        Coordinator {
            cache: SourceCache::new(),
            current: PreviewComponent::new(),
            config: PreviewConfig::new(),
            loading_state: ReloadState::Idle,
            highlight: None,
            ui_is_visible: false,
        }
    }

    /// Stores `content` for `path` and, when that edit matters to the live
    /// preview, returns the request to reload.
    pub fn set_contents(&mut self, path: &String, content: String) -> (r: Option<PreviewComponent>)
        requires
            old(self).wf(),
        ensures
            final(self).wf(),
            final(self)@ == set_contents_step(old(self)@, path@, content@).0,
            component_opt_view(r) == set_contents_step(old(self)@, path@, content@).1,
    {
        let outcome = self.cache.put(path, content);
        if outcome.is_dependency && outcome.changed && self.ui_is_visible
            && !self.current.path.as_str().is_empty() {
            Some(self.current.duplicate())
        } else {
            None
        }
    }

    /// Returns the cached text for `path` if present and, either way,
    /// records the path as a dependency of the compile in progress.
    pub fn get_file_from_cache(&mut self, path: String) -> (r: Option<String>)
        requires
            old(self).wf(),
        ensures
            final(self).wf(),
            final(self)@ == (CoordView {
                dependencies: old(self)@.dependencies.insert(path@),
                ..old(self)@
            }),
            match r {
                Some(t) => old(self)@.source.contains_key(path@) && t@ == old(self)@.source[path@],
                None => !old(self)@.source.contains_key(path@),
            },
    {
        self.cache.get_and_track(path)
    }

    /// Takes a reload request: stores it as the current one and reports
    /// whether the caller must spawn a worker for it.
    pub fn load_preview(&mut self, preview_component: PreviewComponent) -> (r: bool)
        requires
            old(self).wf(),
        ensures
            final(self).wf(),
            final(self)@ == load_preview_step(old(self)@, preview_component@).0,
            r == load_preview_step(old(self)@, preview_component@).1,
    {
        self.current = preview_component;
        if !self.ui_is_visible {
            return false;
        }
        match self.loading_state {
            ReloadState::Idle => {
                self.loading_state = ReloadState::Scheduled;
                true
            },
            ReloadState::Scheduled => false,
            ReloadState::Running => {
                self.loading_state = ReloadState::RunningStale;
                false
            },
            ReloadState::RunningStale => false,
        }
    }

    /// The worker starting its pass over a scheduled compile; returns the
    /// snapshot of the request and configuration to compile, or nothing if
    /// the UI went invisible and the worker must exit.
    pub fn begin_compile(&mut self) -> (r: Option<(PreviewComponent, PreviewConfig)>)
        requires
            old(self).wf(),
            old(self)@.loading_state == ReloadState::Scheduled,
        ensures
            final(self).wf(),
            final(self)@ == begin_compile_step(old(self)@).0,
            match r {
                Some(s) => begin_compile_step(old(self)@).1 matches Some(v) && v.0 == s.0@ && v.1
                    == s.1@,
                None => begin_compile_step(old(self)@).1 is None,
            },
    {
        if !self.ui_is_visible {
            self.loading_state = ReloadState::Idle;
            return None;
        }
        self.loading_state = ReloadState::Running;
        self.cache.reset_dependencies();
        let request = self.current.duplicate();
        let config = self.config.duplicate();
        self.current.style = String::new();
        Some((request, config))
    }

    /// The worker finishing its compile; `true` means the result is current
    /// and must be published, `false` that it was superseded, must be
    /// discarded, and a fresh pass is scheduled.
    pub fn finish_compile(&mut self) -> (r: bool)
        requires
            old(self).wf(),
            old(self)@.loading_state == ReloadState::Running || old(self)@.loading_state
                == ReloadState::RunningStale,
        ensures
            final(self).wf(),
            final(self)@ == finish_compile_step(old(self)@).0,
            r == finish_compile_step(old(self)@).1,
    {
        match self.loading_state {
            ReloadState::Running => {
                self.loading_state = ReloadState::Idle;
                true
            },
            _ => {
                self.loading_state = ReloadState::Scheduled;
                false
            },
        }
    }

    /// Stores the highlight designated by `path` and `offset` (`None`
    /// clears it) and returns the visual-mark request to pass on, if any.
    pub fn highlight(&mut self, path: &Option<String>, offset: u32) -> (r: Option<HighlightUpdate>)
        requires
            old(self).wf(),
        ensures
            final(self).wf(),
            final(self)@ == highlight_step(old(self)@, path_opt_view(path), offset).0,
            highlight_update_view(r) == highlight_step(old(self)@, path_opt_view(path), offset).1,
    {
        let same = match (&self.highlight, path) {
            (None, None) => true,
            (Some((sp, so)), Some(p)) => *so == offset && *sp == *p,
            _ => false,
        };
        if same {
            return None;
        }
        self.highlight = match path {
            Some(p) => Some((p.clone(), offset)),
            None => None,
        };
        let notify = match path {
            Some(p) => self.cache.is_dependency(p),
            None => true,
        };
        if notify {
            Some(
                HighlightUpdate {
                    path: match path {
                        Some(p) => p.clone(),
                        None => String::new(),
                    },
                    offset,
                },
            )
        } else {
            None
        }
    }

    /// Applies a configuration change and returns what to do about it.
    pub fn config_changed(&mut self, config: PreviewConfig) -> (r: ConfigAction)
        requires
            old(self).wf(),
        ensures
            final(self).wf(),
            final(self)@ == config_changed_step(old(self)@, config@).0,
            r.set_show_ui == config_changed_step(old(self)@, config@).1,
            component_opt_view(r.reload) == config_changed_step(old(self)@, config@).2,
    {
        if self.config.config_equals(&config) {
            return ConfigAction { set_show_ui: None, reload: None };
        }
        self.config = config;
        if self.ui_is_visible {
            let set_show_ui = match self.config.hide_ui {
                Some(h) => Some(!h),
                None => None,
            };
            let reload = if !self.current.path.as_str().is_empty() {
                Some(self.current.duplicate())
            } else {
                None
            };
            ConfigAction { set_show_ui, reload }
        } else {
            ConfigAction { set_show_ui: None, reload: None }
        }
    }

    /// A style change: reload the current request if the UI shows one.
    pub fn change_style(&self) -> (r: Option<PreviewComponent>)
        ensures
            component_opt_view(r) == change_style_step(self@),
    {
        if self.ui_is_visible && !self.current.path.as_str().is_empty() {
            Some(self.current.duplicate())
        } else {
            None
        }
    }

    /// Shows or hides the preview UI; turning it on returns the stored
    /// request to catch up with, if there is one.
    pub fn set_ui_visible(&mut self, visible: bool) -> (r: Option<PreviewComponent>)
        requires
            old(self).wf(),
        ensures
            final(self).wf(),
            final(self)@ == set_visible_step(old(self)@, visible).0,
            component_opt_view(r) == set_visible_step(old(self)@, visible).1,
    {
        let catch_up = visible && !self.ui_is_visible && !self.current.path.as_str().is_empty();
        self.ui_is_visible = visible;
        if catch_up {
            Some(self.current.duplicate())
        } else {
            None
        }
    }

    /// The reload state, for observation.
    pub fn loading_state(&self) -> (r: ReloadState)
        ensures
            r == self@.loading_state,
    {
        self.loading_state
    }

    /// The stored highlight, for the rendering hook that re-applies it when
    /// a freshly compiled instance is embedded.
    pub fn stored_highlight(&self) -> (r: Option<(String, u32)>)
        ensures
            (match r {
                Some(h) => Some((h.0@, h.1)),
                None => None::<(Seq<char>, u32)>,
            }) == self@.highlight,
    {
        match &self.highlight {
            Some((p, o)) => Some((p.clone(), *o)),
            None => None,
        }
    }

    /// Is `path` a dependency of the current compile?
    pub fn is_dependency(&self, path: &String) -> (r: bool)
        ensures
            r == self@.dependencies.contains(path@),
    {
        self.cache.is_dependency(path)
    }
}

/// The view of an optional path.
pub open spec fn path_opt_view(path: &Option<String>) -> Option<Seq<char>> {
    match path {
        Some(p) => Some(p@),
        None => None,
    }
}

/// A sequence of edits to one path, applied through `set_contents`.
pub open spec fn apply_edits(s: CoordView, path: Seq<char>, texts: Seq<Seq<char>>) -> CoordView
    decreases texts.len(),
{
    if texts.len() == 0 {
        s
    } else {
        apply_edits(set_contents_step(s, path, texts[0]).0, path, texts.drop_first())
    }
}

/// Does any edit of the sequence request a reload?
pub open spec fn any_edit_requests_reload(
    s: CoordView,
    path: Seq<char>,
    texts: Seq<Seq<char>>,
) -> bool
    decreases texts.len(),
{
    if texts.len() == 0 {
        false
    } else {
        set_contents_step(s, path, texts[0]).1 is Some || any_edit_requests_reload(
            set_contents_step(s, path, texts[0]).0,
            path,
            texts.drop_first(),
        )
    }
}

/// For any sequence of `set_contents` calls on a path outside the dependency
/// set, no reload is ever requested, and the dependency set and reload state
/// never change.
pub proof fn lemma_untracked_edits_never_reload(
    s: CoordView,
    path: Seq<char>,
    texts: Seq<Seq<char>>,
)
    requires
        !s.dependencies.contains(path),
    ensures
        !any_edit_requests_reload(s, path, texts),
        apply_edits(s, path, texts).dependencies == s.dependencies,
        apply_edits(s, path, texts).loading_state == s.loading_state,
    decreases texts.len(),
{
    if texts.len() > 0 {
        let t = set_contents_step(s, path, texts[0]).0;
        lemma_untracked_edits_never_reload(t, path, texts.drop_first());
    }
}

/// A sequence of reload requests, applied through `load_preview`.
pub open spec fn apply_requests(s: CoordView, reqs: Seq<ComponentView>) -> CoordView
    decreases reqs.len(),
{
    if reqs.len() == 0 {
        s
    } else {
        apply_requests(load_preview_step(s, reqs[0]).0, reqs.drop_first())
    }
}

/// Does any request of the sequence spawn a worker?
pub open spec fn any_request_spawns(s: CoordView, reqs: Seq<ComponentView>) -> bool
    decreases reqs.len(),
{
    if reqs.len() == 0 {
        false
    } else {
        load_preview_step(s, reqs[0]).1 || any_request_spawns(
            load_preview_step(s, reqs[0]).0,
            reqs.drop_first(),
        )
    }
}

/// Requests arriving at a machine already marked stale are absorbed: no
/// worker is spawned and the machine stays `RunningStale`.
pub proof fn lemma_requests_absorbed(s: CoordView, reqs: Seq<ComponentView>)
    requires
        s.loading_state == ReloadState::RunningStale,
    ensures
        !any_request_spawns(s, reqs),
        apply_requests(s, reqs).loading_state == ReloadState::RunningStale,
    decreases reqs.len(),
{
    if reqs.len() > 0 {
        lemma_requests_absorbed(load_preview_step(s, reqs[0]).0, reqs.drop_first());
    }
}

/// Coalescing: any number of reload requests issued while a compile is
/// running spawn no worker of their own and leave the machine stale, so the
/// running compile's completion is discarded and exactly one fresh pass is
/// scheduled afterwards.
pub proof fn lemma_requests_coalesce(s: CoordView, reqs: Seq<ComponentView>)
    requires
        s.ui_is_visible,
        s.loading_state == ReloadState::Running,
        reqs.len() >= 1,
    ensures
        !any_request_spawns(s, reqs),
        apply_requests(s, reqs).loading_state == ReloadState::RunningStale,
        !finish_compile_step(apply_requests(s, reqs)).1,
        finish_compile_step(apply_requests(s, reqs)).0.loading_state == ReloadState::Scheduled,
{
    let t = load_preview_step(s, reqs[0]).0;
    lemma_requests_absorbed(t, reqs.drop_first());
    assert(reqs.drop_first().len() == reqs.len() - 1);
}

/// A compile marked stale before completion is never published: its
/// completion reports "discard" and schedules the fresh pass instead.
pub proof fn lemma_stale_result_never_published(s: CoordView)
    requires
        s.loading_state == ReloadState::RunningStale,
    ensures
        !finish_compile_step(s).1,
        finish_compile_step(s).0.loading_state == ReloadState::Scheduled,
{
}

/// Highlighting twice with identical arguments asks the renderer to mark at
/// most once: the second call is a no-op.
pub proof fn lemma_highlight_idempotent(s: CoordView, path: Option<Seq<char>>, offset: u32)
    ensures
        ({
            let first = highlight_step(s, path, offset);
            highlight_step(first.0, path, offset).1 is None
        }),
{
}

} // verus!
