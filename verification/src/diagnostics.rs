//! Publishing compile diagnostics to the editor: diagnostics are grouped by
//! the source file they belong to, and a diagnostic whose file cannot be
//! resolved to an absolute path is dropped from reporting (it cannot be
//! attributed to a document) without blocking the compile outcome.

use vstd::prelude::*;
use vstd::string::StrSliceExecFns;

verus! {

/// How severe a diagnostic is.
#[derive(Clone, Copy, PartialEq, Eq, Structural, Debug)]
pub enum DiagnosticLevel {
    Error,
    Warning,
}

/// One diagnostic of a compile: where it points, what it says, how bad it
/// is. A diagnostic with no source file has a synthetic or internal
/// location.
pub struct Diagnostic {
    pub source_file: Option<String>,
    pub message: String,
    pub level: DiagnosticLevel,
    pub line: usize,
    pub column: usize,
}

/// The mathematical content of a diagnostic.
pub struct DiagView {
    pub source_file: Option<Seq<char>>,
    pub message: Seq<char>,
    pub level: DiagnosticLevel,
    pub line: usize,
    pub column: usize,
}

impl View for Diagnostic {
    type V = DiagView;

    open spec fn view(&self) -> DiagView {
        DiagView {
            source_file: match self.source_file {
                Some(ref f) => Some(f@),
                None => None,
            },
            message: self.message@,
            level: self.level,
            line: self.line,
            column: self.column,
        }
    }
}

impl Diagnostic {
    /// A copy with the same content.
    pub fn duplicate(&self) -> (r: Self)
        ensures
            r@ == self@,
    {
        Diagnostic {
            source_file: match &self.source_file {
                Some(f) => Some(f.clone()),
                None => None,
            },
            message: self.message.clone(),
            level: self.level,
            line: self.line,
            column: self.column,
        }
    }
}

/// An absolute path: non-empty and rooted.
pub open spec fn is_absolute_path(s: Seq<char>) -> bool {
    s.len() > 0 && s[0] == '/'
}

/// Is `path` absolute?
pub fn path_is_absolute(path: &String) -> (r: bool)
    ensures
        r == is_absolute_path(path@),
{
    let s = path.as_str();
    if s.is_empty() {
        return false;
    }
    s.get_char(0) == '/'
}

/// Is this diagnostic reported to the editor? Only one with a source file
/// that resolves to an absolute path can be attributed to a document.
pub open spec fn diagnostic_kept(d: DiagView) -> bool {
    d.source_file matches Some(f) && is_absolute_path(f)
}

/// The file of a kept diagnostic.
pub open spec fn kept_file(d: DiagView) -> Seq<char> {
    d.source_file->Some_0
}

/// The views of a sequence of diagnostics.
pub open spec fn diag_views(s: Seq<Diagnostic>) -> Seq<DiagView> {
    s.map_values(|d: Diagnostic| d@)
}

/// The kept diagnostics of `file`, in input order.
pub open spec fn kept_for_file(s: Seq<Diagnostic>, file: Seq<char>) -> Seq<DiagView>
    decreases s.len(),
{
    if s.len() == 0 {
        Seq::empty()
    } else {
        let rest = kept_for_file(s.drop_last(), file);
        if diagnostic_kept(s.last()@) && kept_file(s.last()@) == file {
            rest.push(s.last()@)
        } else {
            rest
        }
    }
}

/// Every kept diagnostic appears in the group of its own file.
pub proof fn lemma_kept_diag_in_group(s: Seq<Diagnostic>, j: int)
    requires
        0 <= j < s.len(),
        diagnostic_kept(s[j]@),
    ensures
        kept_for_file(s, kept_file(s[j]@)).contains(s[j]@),
    decreases s.len(),
{
    if j == s.len() - 1 {
        let g = kept_for_file(s, kept_file(s[j]@));
        assert(g.last() == s[j]@);
        assert(g.contains(s[j]@)) by {
            assert(g[g.len() - 1] == s[j]@);
        }
    } else {
        lemma_kept_diag_in_group(s.drop_last(), j);
        assert(s.drop_last()[j] == s[j]);
        let rest = kept_for_file(s.drop_last(), kept_file(s[j]@));
        let k = choose|k: int| 0 <= k < rest.len() && rest[k] == s[j]@;
        let g = kept_for_file(s, kept_file(s[j]@));
        assert(g[k] == s[j]@);
    }
}

fn collect_diags_for_file(diagnostics: &Vec<Diagnostic>, file: &String) -> (r: Vec<Diagnostic>)
    ensures
        diag_views(r@) == kept_for_file(diagnostics@, file@),
{
    let mut r: Vec<Diagnostic> = Vec::new();
    let mut i: usize = 0;
    while i < diagnostics.len()
        invariant
            i <= diagnostics@.len(),
            diag_views(r@) =~= kept_for_file(diagnostics@.subrange(0, i as int), file@),
        decreases diagnostics@.len() - i,
    {
        let ghost prefix = diagnostics@.subrange(0, i as int);
        let keep = match &diagnostics[i].source_file {
            Some(f) => path_is_absolute(f) && *f == *file,
            None => false,
        };
        if keep {
            r.push(diagnostics[i].duplicate());
        }
        proof {
            assert(diagnostics@.subrange(0, i as int + 1).drop_last() =~= prefix);
            assert(diagnostics@.subrange(0, i as int + 1).last() == diagnostics@[i as int]);
            assert(diag_views(r@) =~= kept_for_file(
                diagnostics@.subrange(0, i as int + 1),
                file@,
            ));
        }
        i = i + 1;
    }
    proof {
        assert(diagnostics@.subrange(0, diagnostics@.len() as int) =~= diagnostics@);
    }
    r
}

fn contains_string(v: &Vec<String>, s: &String) -> (r: bool)
    ensures
        r == (exists|i: int| 0 <= i < v@.len() && v@[i]@ == s@),
{
    let mut i: usize = 0;
    while i < v.len()
        invariant
            i <= v@.len(),
            forall|j: int| 0 <= j < i ==> v@[j]@ != s@,
        decreases v@.len() - i,
    {
        if v[i] == *s {
            proof {
                assert(exists|j: int| 0 <= j < v@.len() && v@[j]@ == s@) by {
                    assert(v@[i as int]@ == s@);
                }
            }
            return true;
        }
        i = i + 1;
    }
    false
}

/// Is `file` the file of some kept diagnostic of `diags`?
pub open spec fn file_of_some_kept(diags: Seq<Diagnostic>, file: Seq<char>) -> bool {
    exists|j: int|
        0 <= j < diags.len() && diagnostic_kept(#[trigger] diags[j]@) && kept_file(diags[j]@)
            == file
}

/// Does the key list hold `file`?
pub open spec fn holds_file(keys: Seq<String>, file: Seq<char>) -> bool {
    exists|i: int| 0 <= i < keys.len() && (#[trigger] keys[i])@ == file
}

/// Does some group carry `file` as its key?
pub open spec fn group_for(groups: Seq<(String, Vec<Diagnostic>)>, file: Seq<char>) -> bool {
    exists|i: int| 0 <= i < groups.len() && (#[trigger] groups[i]).0@ == file
}

fn distinct_kept_files(diagnostics: &Vec<Diagnostic>) -> (r: Vec<String>)
    ensures
        forall|i: int, j: int| 0 <= i < j < r@.len() ==> (#[trigger] r@[i])@ != (#[trigger] r@[j])@,
        forall|i: int| 0 <= i < r@.len() ==> file_of_some_kept(diagnostics@, (#[trigger] r@[i])@),
        forall|j: int|
            0 <= j < diagnostics@.len() && diagnostic_kept(#[trigger] diagnostics@[j]@)
                ==> holds_file(r@, kept_file(diagnostics@[j]@)),
{
    let mut r: Vec<String> = Vec::new();
    let mut i: usize = 0;
    while i < diagnostics.len()
        invariant
            i <= diagnostics@.len(),
            forall|a: int, b: int|
                0 <= a < b < r@.len() ==> (#[trigger] r@[a])@ != (#[trigger] r@[b])@,
            forall|a: int|
                0 <= a < r@.len() ==> file_of_some_kept(diagnostics@, (#[trigger] r@[a])@),
            forall|j: int|
                0 <= j < i && diagnostic_kept(#[trigger] diagnostics@[j]@) ==> holds_file(
                    r@,
                    kept_file(diagnostics@[j]@),
                ),
        decreases diagnostics@.len() - i,
    {
        let kept = match &diagnostics[i].source_file {
            Some(f) => path_is_absolute(f),
            None => false,
        };
        if kept {
            let file = match &diagnostics[i].source_file {
                Some(f) => f.clone(),
                None => String::new(),
            };
            let ghost before = r@;
            if !contains_string(&r, &file) {
                r.push(file);
                proof {
                    assert(r@ == before.push(r@[before.len() as int]));
                    assert forall|a: int|
                        0 <= a < r@.len() implies file_of_some_kept(
                        diagnostics@,
                        (#[trigger] r@[a])@,
                    ) by {
                        if a < before.len() {
                            assert(r@[a] == before[a]);
                            assert(file_of_some_kept(diagnostics@, before[a]@));
                        } else {
                            assert(diagnostic_kept(diagnostics@[i as int]@) && kept_file(
                                diagnostics@[i as int]@,
                            ) == r@[a]@);
                        }
                    }
                    assert forall|j: int|
                        0 <= j < i + 1 && diagnostic_kept(
                            #[trigger] diagnostics@[j]@,
                        ) implies holds_file(r@, kept_file(diagnostics@[j]@)) by {
                        if j < i {
                            assert(holds_file(before, kept_file(diagnostics@[j]@)));
                            let a = choose|a: int|
                                0 <= a < before.len() && (#[trigger] before[a])@ == kept_file(
                                    diagnostics@[j]@,
                                );
                            assert((r@[a])@ == kept_file(diagnostics@[j]@));
                        } else {
                            assert((r@[r@.len() - 1])@ == kept_file(diagnostics@[j]@));
                        }
                    }
                }
            } else {
                proof {
                    assert forall|j: int|
                        0 <= j < i + 1 && diagnostic_kept(
                            #[trigger] diagnostics@[j]@,
                        ) implies holds_file(r@, kept_file(diagnostics@[j]@)) by {
                        if j == i {
                            let a = choose|a: int|
                                0 <= a < r@.len() && (#[trigger] r@[a])@ == file@;
                            assert((r@[a])@ == kept_file(diagnostics@[j]@));
                        }
                    }
                }
            }
        }
        i = i + 1;
    }
    r
}

/// Does `groups` group the kept diagnostics of `diags` by their file? Each
/// group holds, in input order, exactly the kept diagnostics of its file;
/// no two groups share a file; every group's file comes from a kept
/// diagnostic; and every kept diagnostic has a group.
pub open spec fn grouped_by_file(
    diags: Seq<Diagnostic>,
    groups: Seq<(String, Vec<Diagnostic>)>,
) -> bool {
    &&& (forall|i: int, j: int|
        0 <= i < j < groups.len() ==> (#[trigger] groups[i]).0@ != (#[trigger] groups[j]).0@)
    &&& (forall|i: int|
        0 <= i < groups.len() ==> diag_views((#[trigger] groups[i]).1@) == kept_for_file(
            diags,
            groups[i].0@,
        ))
    &&& (forall|i: int|
        0 <= i < groups.len() ==> file_of_some_kept(diags, (#[trigger] groups[i]).0@))
    &&& (forall|j: int|
        0 <= j < diags.len() && diagnostic_kept(#[trigger] diags[j]@) ==> group_for(
            groups,
            kept_file(diags[j]@),
        ))
}

/// Groups the diagnostics the editor is told about by their source file.
pub fn group_diagnostics_by_file(diagnostics: &Vec<Diagnostic>) -> (r: Vec<
    (String, Vec<Diagnostic>),
>)
    ensures
        grouped_by_file(diagnostics@, r@),
{
    let files = distinct_kept_files(diagnostics);
    let mut r: Vec<(String, Vec<Diagnostic>)> = Vec::new();
    let mut i: usize = 0;
    while i < files.len()
        invariant
            i <= files@.len(),
            r@.len() == i,
            forall|a: int, b: int|
                0 <= a < b < files@.len() ==> (#[trigger] files@[a])@ != (#[trigger] files@[b])@,
            forall|a: int|
                0 <= a < files@.len() ==> file_of_some_kept(diagnostics@, (#[trigger] files@[a])@),
            forall|j: int|
                0 <= j < diagnostics@.len() && diagnostic_kept(#[trigger] diagnostics@[j]@)
                    ==> holds_file(files@, kept_file(diagnostics@[j]@)),
            forall|a: int| 0 <= a < i ==> (#[trigger] r@[a]).0 == files@[a],
            forall|a: int|
                0 <= a < i ==> diag_views((#[trigger] r@[a]).1@) == kept_for_file(
                    diagnostics@,
                    files@[a]@,
                ),
        decreases files@.len() - i,
    {
        let file = files[i].clone();
        let group = collect_diags_for_file(diagnostics, &file);
        r.push((file, group));
        i = i + 1;
    }
    proof {
        assert forall|j: int|
            0 <= j < diagnostics@.len() && diagnostic_kept(
                #[trigger] diagnostics@[j]@,
            ) implies group_for(r@, kept_file(diagnostics@[j]@)) by {
            assert(holds_file(files@, kept_file(diagnostics@[j]@)));
            let a = choose|a: int|
                0 <= a < files@.len() && (#[trigger] files@[a])@ == kept_file(diagnostics@[j]@);
            assert((r@[a]).0@ == kept_file(diagnostics@[j]@));
        }
    }
    r
}

/// Groups the reportable diagnostics by source file and addresses each
/// group to its file's URL: every group's file is absolute (only such
/// diagnostics are kept), so the URL conversion never fails. The editor is
/// sent exactly the kept diagnostics, grouped by file.
#[verifier::rlimit(30)]
pub fn convert_diagnostics(diagnostics: &Vec<Diagnostic>) -> (r: Vec<
    (lsp_types::Url, Vec<Diagnostic>),
>)
    ensures
        exists|groups: Seq<(String, Vec<Diagnostic>)>|
            grouped_by_file(diagnostics@, groups) && r@.len() == groups.len() && (forall|m: int|
                0 <= m < r@.len() ==> (#[trigger] r@[m]).1 == groups[m].1),
{
    let mut groups = group_diagnostics_by_file(diagnostics);
    let ghost all_groups = groups@;
    let mut r: Vec<(lsp_types::Url, Vec<Diagnostic>)> = Vec::new();
    while groups.len() > 0
        invariant
            r@.len() + groups@.len() == all_groups.len(),
            groups@ == all_groups.subrange(r@.len() as int, all_groups.len() as int),
            forall|m: int| 0 <= m < r@.len() ==> (#[trigger] r@[m]).1 == all_groups[m].1,
            forall|m: int|
                0 <= m < all_groups.len() ==> file_of_some_kept(
                    diagnostics@,
                    (#[trigger] all_groups[m]).0@,
                ),
        decreases groups@.len(),
    {
        let ghost before = groups@;
        let pair = groups.remove(0);
        proof {
            assert(pair == all_groups[r@.len() as int]);
            assert(file_of_some_kept(diagnostics@, pair.0@));
            let j = choose|j: int|
                0 <= j < diagnostics@.len() && diagnostic_kept(#[trigger] diagnostics@[j]@)
                    && kept_file(diagnostics@[j]@) == pair.0@;
            assert(is_absolute_path(pair.0@));
        }
        let uri = match crate::bridge::url_for_file_path(&pair.0) {
            Some(u) => u,
            None => vstd::pervasive::unreached(),
        };
        r.push((uri, pair.1));
        proof {
            assert(pair == before[0]);
            assert(before[0] == all_groups[r@.len() - 1]);
            assert(groups@ =~= all_groups.subrange(r@.len() as int, all_groups.len() as int));
        }
    }
    proof {
        assert(grouped_by_file(diagnostics@, all_groups) && r@.len() == all_groups.len() && (
        forall|m: int| 0 <= m < r@.len() ==> (#[trigger] r@[m]).1 == all_groups[m].1));
    }
    r
}

} // verus!
