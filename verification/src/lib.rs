//! A declarative, rule-driven static asset pipeline.
//!
//! Given an ordered list of rules — glob patterns to match, glob patterns to
//! ignore, a destination format string, and a transformer — the engine
//! discovers matching source files, computes a destination path per file from
//! the pattern's captures, and asks the transformer for a planned
//! transformation, all before anything is written. Rule order is the sole
//! conflict-resolution policy: the first rule (and the first of its patterns)
//! that matches a file claims it for the whole run.
//!
//! Planning is split from execution so that a failure while planning leaves
//! the destination tree untouched: `plan` only reads, and the write actions
//! computed from its plans are performed by the caller afterwards.

use vstd::prelude::*;

pub mod cache;
pub mod format;
pub mod frontmatter;
pub mod glob;
pub mod lang;
pub mod liquid;
pub mod minijinja;
pub mod scss;
pub mod util;
pub mod wasm;

verus! {

use crate::format::{FormatErr, FormatErrorKind, format_from};
use crate::glob::{GlobEntry, GlobEntryV, glob_matches, glob_pattern_ok};

/// An error raised by the pipeline.
#[derive(Debug)]
pub enum ErrorKind {
    /// a glob pattern failed to compile; `pos` is the approximate character
    /// index of the fault inside the pattern
    Pattern { pattern: String, pos: usize, msg: String },
    /// walking the filesystem for a pattern failed at `path`
    Glob { path: String, message: String },
    /// a destination format string failed to expand
    Format(FormatErrorKind),
    /// liquid integration failure
    LiquidIntegration(crate::liquid::LiquidErrorKind),
    /// jinja integration failure
    MinijinjaIntegration(crate::minijinja::MinijinjaErrorKind),
    /// stylesheet compilation failure in the file at `path`
    SCSSIntegration { path: String, message: String },
    /// WebAssembly build failure
    WASMIntegration(crate::wasm::WASMErrorKind),
    /// template source language failure
    Lang(crate::lang::LangErrorKind),
    /// a filesystem operation failed
    Io { message: String },
    /// a path contained non-UTF-8 characters
    NonUTF8PathCharacters,
    /// a file contained non-UTF-8 characters
    NonUTF8Characters,
    /// an error during planning, enriched with the rule index, the index of
    /// the rule's glob pattern, and the source file, where known
    Planning { rule_index: usize, glob_index: Option<usize>, file: Option<String>, cause: Box<
        ErrorKind,
    > },
    /// something else, wrapped from an external collaborator
    Other { message: String },
}

/// One rule of the pipeline: which files to take, which of those to ignore,
/// and where the output goes. Rules are evaluated in the order given; the
/// first rule (and the first of its patterns) that matches a file claims it.
#[derive(Debug)]
pub struct Rule {
    /// glob patterns for the files this rule takes; `(...)` groups capture
    /// parts of the path (for example `src/(**)/(*).doll`)
    pub globs: Vec<String>,
    /// glob patterns for files this rule ignores even when matched
    pub ignore: Vec<String>,
    /// where output files are emitted; `{0}`, `{1}`, ... pull from the
    /// captures of whichever glob matched (for example `dist/{0}/{1}.html`)
    pub dst: String,
}

/// Mathematical image of a `Rule`.
pub ghost struct RuleV {
    pub globs: Seq<Seq<char>>,
    pub ignore: Seq<Seq<char>>,
    pub dst: Seq<char>,
}

impl View for Rule {
    type V = RuleV;

    open spec fn view(&self) -> RuleV {
        RuleV { globs: self.globs.deep_view(), ignore: self.ignore.deep_view(), dst: self.dst@ }
    }
}

impl DeepView for Rule {
    type V = RuleV;

    open spec fn deep_view(&self) -> RuleV {
        self.view()
    }
}

/// A planned transformation: what `execute` will do at a destination, decided
/// during planning but not yet performed. The closed set of built-in kinds
/// covers writing nothing, raw bytes, text, and copying a file; integrations
/// add their own kinds. A holder can inspect any variant before execution.
pub enum PlannedTransformation {
    /// write nothing
    Noop,
    /// write this binary blob to the destination
    Blob(Vec<u8>),
    /// write this string's bytes to the destination
    Text(String),
    /// copy this source file verbatim to the destination
    CopyFrom(String),
    /// render this liquid template with these globals
    Liquid(crate::liquid::LiquidPlan),
    /// render this jinja template with these globals
    Minijinja(crate::minijinja::MinijinjaPlan),
    /// place the outputs of a finished WebAssembly build
    Wasm(crate::wasm::WASMPlan),
}

/// A plan for one output file: where it goes and how it is produced.
pub struct Plan {
    /// the destination file
    pub dst: String,
    /// the planned transformation to perform there
    pub data: PlannedTransformation,
}

/// Plans transformations for matched files. The pipeline calls it once per
/// selected file, with the index of the rule that claimed the file, the
/// file's path, and the captures of the glob that matched.
pub trait Transformer {
    /// Returns the planned transformation for one matched file, or the error
    /// that aborts the run.
    fn plan_payload(&mut self, rule_index: usize, src: &String, captures: &Vec<String>) -> Result<
        PlannedTransformation,
        ErrorKind,
    >;
}

/// The most primitive transformation: absolutely nothing.
pub fn noop(src: String, captures: Vec<String>) -> (r: Result<PlannedTransformation, ErrorKind>)
    ensures
        r matches Ok(p) && p is Noop,
{
    Ok(PlannedTransformation::Noop)
}

/// A primitive transformation that copies its input file to its output path.
pub fn copy(src: String, captures: Vec<String>) -> (r: Result<PlannedTransformation, ErrorKind>)
    ensures
        r matches Ok(p) && p matches PlannedTransformation::CopyFrom(s) && s@ == src@,
{
    Ok(PlannedTransformation::CopyFrom(src))
}

/// A transformer for the built-in transformations, the same for every rule.
pub enum BuiltinTransformer {
    /// plan nothing for every file
    Noop,
    /// plan a verbatim copy for every file
    Copy,
}

impl Transformer for BuiltinTransformer {
    fn plan_payload(&mut self, rule_index: usize, src: &String, captures: &Vec<String>) -> Result<
        PlannedTransformation,
        ErrorKind,
    > {
        match self {
            BuiltinTransformer::Noop => Ok(PlannedTransformation::Noop),
            BuiltinTransformer::Copy => Ok(PlannedTransformation::CopyFrom(src.clone())),
        }
    }
}

/// One selection the engine made: which rule and glob claimed which source
/// file, with the captures and the expanded destination.
pub ghost struct SelectedV {
    /// index of the claiming rule
    pub rule: int,
    /// index of the glob pattern within the rule
    pub glob: int,
    /// index of the entry within that glob's matches
    pub entry: int,
    /// the source file
    pub src: Seq<char>,
    /// the captures of the matching glob
    pub captures: Seq<Seq<char>>,
    /// the expanded destination path
    pub dst: Seq<char>,
}

/// The engine's running state: the source files already claimed, and the
/// selections made so far, in order.
pub ghost struct SelectionState {
    pub visited: Set<Seq<char>>,
    pub sel: Seq<SelectedV>,
}

/// A planning failure, placed at the rule, glob and file it arose from.
pub ghost struct PlanErrV {
    pub rule: int,
    pub glob: int,
    pub file: Seq<char>,
    pub fmt: FormatErr,
}

/// Whether a path is matched by one of the rule's ignore patterns.
pub open spec fn excluded(rule: RuleV, path: Seq<char>) -> bool {
    exists|k: int| 0 <= k < rule.ignore.len() && glob_matches(#[trigger] rule.ignore[k], path)
}

/// The matched entries agree with the rules in shape: one list of entries per
/// glob pattern per rule.
pub open spec fn wf_matched(rules: Seq<RuleV>, matched: Seq<Seq<Seq<GlobEntryV>>>) -> bool {
    matched.len() == rules.len() && (forall|i: int|
        0 <= i < rules.len() ==> (#[trigger] matched[i]).len() == rules[i].globs.len())
}

/// One entry considered at position (`r`, `g`, `e`): skipped when it is not a
/// regular file, already claimed, or ignored by the rule; otherwise its
/// destination is expanded and it is selected.
pub open spec fn selection_step(
    rule: RuleV,
    r: int,
    g: int,
    e: int,
    en: GlobEntryV,
    st: SelectionState,
) -> Result<SelectionState, PlanErrV> {
    if !en.file || st.visited.contains(en.path) || excluded(rule, en.path) {
        Ok(st)
    } else {
        match format_from(rule.dst, en.captures) {
            Ok(d) => Ok(
                SelectionState {
                    visited: st.visited.insert(en.path),
                    sel: st.sel.push(
                        SelectedV {
                            rule: r,
                            glob: g,
                            entry: e,
                            src: en.path,
                            captures: en.captures,
                            dst: d,
                        },
                    ),
                },
            ),
            Err(fe) => Err(PlanErrV { rule: r, glob: g, file: en.path, fmt: fe }),
        }
    }
}

/// The engine's walk from position (`r`, `g`, `e`) on: rules in order, each
/// rule's globs in order, each glob's entries in order.
pub open spec fn selection_from(
    rules: Seq<RuleV>,
    matched: Seq<Seq<Seq<GlobEntryV>>>,
    r: int,
    g: int,
    e: int,
    st: SelectionState,
) -> Result<SelectionState, PlanErrV>
    decreases rules.len() - r, matched[r].len() - g, matched[r][g].len() - e,
{
    if r >= rules.len() {
        Ok(st)
    } else if g >= matched[r].len() {
        selection_from(rules, matched, r + 1, 0, 0, st)
    } else if e >= matched[r][g].len() {
        selection_from(rules, matched, r, g + 1, 0, st)
    } else {
        match selection_step(rules[r], r, g, e, matched[r][g][e], st) {
            Ok(st2) => selection_from(rules, matched, r, g, e + 1, st2),
            Err(err) => Err(err),
        }
    }
}

/// What planning selects, over the rules and the files their globs matched.
pub open spec fn selection_spec(rules: Seq<RuleV>, matched: Seq<Seq<Seq<GlobEntryV>>>) -> Result<
    SelectionState,
    PlanErrV,
> {
    selection_from(
        rules,
        matched,
        0,
        0,
        0,
        SelectionState { visited: Set::empty(), sel: Seq::empty() },
    )
}

/// Whether some string in the sequence reads `p`.
pub open spec fn seq_has_string(s: Seq<String>, p: Seq<char>) -> bool {
    exists|i: int| 0 <= i < s.len() && #[trigger] s[i]@ == p
}

/// The set of paths a list of visited strings stands for.
pub open spec fn visited_set(s: Seq<String>) -> Set<Seq<char>> {
    Set::new(|p: Seq<char>| seq_has_string(s, p))
}

proof fn lemma_visited_push(s: Seq<String>, x: String)
    ensures
        visited_set(s.push(x)) =~= visited_set(s).insert(x@),
{
    assert forall|p: Seq<char>| visited_set(s.push(x)).contains(p) implies visited_set(s).insert(
        x@,
    ).contains(p) by {
        let i = choose|i: int| 0 <= i < s.push(x).len() && s.push(x)[i]@ == p;
        if i < s.len() {
            assert(s[i]@ == p);
        }
    }
    assert forall|p: Seq<char>| visited_set(s).insert(x@).contains(p) implies visited_set(
        s.push(x),
    ).contains(p) by {
        if visited_set(s).contains(p) {
            let i = choose|i: int| 0 <= i < s.len() && s[i]@ == p;
            assert(s.push(x)[i]@ == p);
        } else {
            assert(s.push(x)[s.len() as int]@ == p);
        }
    }
}

/// Whether the visited list holds the path.
fn visited_contains(visited: &Vec<String>, p: &String) -> (r: bool)
    ensures
        r == visited_set(visited@).contains(p@),
{
    let mut i: usize = 0;
    while i < visited.len()
        invariant
            0 <= i <= visited@.len(),
            forall|k: int| 0 <= k < i ==> visited@[k]@ != p@,
        decreases visited@.len() - i,
    {
        if visited[i].eq(p) {
            assert(seq_has_string(visited@, p@));
            return true;
        }
        i += 1;
    }
    false
}

/// Whether one of the rule's ignore patterns matches the path.
fn is_excluded(rule: &Rule, path: &String) -> (r: bool)
    requires
        forall|k: int| 0 <= k < rule.ignore@.len() ==> glob_pattern_ok(#[trigger] rule@.ignore[k]),
    ensures
        r == excluded(rule@, path@),
{
    let mut k: usize = 0;
    while k < rule.ignore.len()
        invariant
            0 <= k <= rule.ignore@.len(),
            forall|j: int| 0 <= j < rule.ignore@.len() ==> glob_pattern_ok(
                #[trigger] rule@.ignore[j],
            ),
            forall|j: int| 0 <= j < k ==> !glob_matches(#[trigger] rule@.ignore[j], path@),
        decreases rule.ignore@.len() - k,
    {
        proof {
            assert(rule@.ignore[k as int] == rule.ignore@[k as int]@);
        }
        if crate::glob::pattern_matches(rule.ignore[k].as_str(), path.as_str()) {
            assert(glob_matches(rule@.ignore[k as int], path@));
            return true;
        }
        k += 1;
    }
    false
}


/// Every ignore pattern of every rule is a valid glob pattern.
pub open spec fn ignores_ok(rules: Seq<RuleV>) -> bool {
    forall|i: int, k: int|
        0 <= i < rules.len() && 0 <= k < rules[i].ignore.len() ==> glob_pattern_ok(
            #[trigger] rules[i].ignore[k],
        )
}

/// One selection the engine made, as executable data: which rule and glob
/// pattern claimed which source file, with the captures of the matching glob
/// and the expanded destination.
pub struct Selected {
    /// index of the claiming rule
    pub rule_index: usize,
    /// index of the glob pattern within the rule
    pub glob_index: usize,
    /// the source file
    pub src: String,
    /// the captures of the matching glob
    pub captures: Vec<String>,
    /// the expanded destination path
    pub dst: String,
}

/// A copy of a list of strings.
fn clone_strings(v: &Vec<String>) -> (r: Vec<String>)
    ensures
        r.deep_view() == v.deep_view(),
{
    let mut out: Vec<String> = Vec::new();
    let mut i: usize = 0;
    while i < v.len()
        invariant
            0 <= i <= v@.len(),
            out@.len() == i,
            forall|k: int| 0 <= k < i ==> #[trigger] out@[k]@ == v@[k]@,
        decreases v@.len() - i,
    {
        out.push(v[i].clone());
        i += 1;
    }
    proof {
        assert(out.deep_view() =~= v.deep_view());
    }
    out
}

/// Selects the files to transform from already-enumerated matches: rule
/// order, the first-match-wins visited set, exclusion, and destination
/// expansion, in the engine's canonical order. `matched` holds, for each rule
/// and each of its glob patterns, the entries that pattern matched on disk.
///
/// The result is exactly what `selection_spec` says: on success the
/// selections in order, each with its claiming rule and glob, source,
/// captures and destination; on failure the error of the first entry whose
/// destination would not expand, wrapped with its rule index, glob index and
/// file. The three skip reasons — not a regular file, already claimed,
/// ignored — never fail.
pub fn select(rules: &Vec<Rule>, matched: &Vec<Vec<Vec<GlobEntry>>>) -> (r: Result<
    Vec<Selected>,
    ErrorKind,
>)
    requires
        wf_matched(rules.deep_view(), matched.deep_view()),
        ignores_ok(rules.deep_view()),
    ensures
        match selection_spec(rules.deep_view(), matched.deep_view()) {
            Ok(stf) => r matches Ok(sel) && sel@.len() == stf.sel.len() && (forall|i: int|
                0 <= i < stf.sel.len() ==> ({
                    &&& (#[trigger] sel@[i]).rule_index as int == stf.sel[i].rule
                    &&& sel@[i].glob_index as int == stf.sel[i].glob
                    &&& sel@[i].src@ == stf.sel[i].src
                    &&& sel@[i].captures.deep_view() == stf.sel[i].captures
                    &&& sel@[i].dst@ == stf.sel[i].dst
                })),
            Err(ev) => r matches Err(e) && ({
                &&& e matches ErrorKind::Planning { rule_index, glob_index, file, cause }
                &&& rule_index as int == ev.rule
                &&& glob_index matches Some(g) && g as int == ev.glob
                &&& file matches Some(f) && f@ == ev.file
                &&& *cause matches ErrorKind::Format(k) && k@ == ev.fmt
            }),
        },
{
    let ghost rv = rules.deep_view();
    let ghost mv = matched.deep_view();
    let mut out: Vec<Selected> = Vec::new();
    let mut visited: Vec<String> = Vec::new();
    let ghost mut sel: Seq<SelectedV> = Seq::empty();
    let mut r_i: usize = 0;
    proof {
        assert(visited_set(visited@) =~= Set::<Seq<char>>::empty());
    }
    while r_i < rules.len()
        invariant
            0 <= r_i <= rules@.len(),
            rv == rules.deep_view(),
            mv == matched.deep_view(),
            wf_matched(rv, mv),
            ignores_ok(rv),
            selection_from(
                rv,
                mv,
                r_i as int,
                0,
                0,
                SelectionState { visited: visited_set(visited@), sel },
            ) == selection_spec(rv, mv),
            out@.len() == sel.len(),
            forall|i: int|
                0 <= i < sel.len() ==> ({
                    &&& (#[trigger] out@[i]).rule_index as int == sel[i].rule
                    &&& out@[i].glob_index as int == sel[i].glob
                    &&& out@[i].src@ == sel[i].src
                    &&& out@[i].captures.deep_view() == sel[i].captures
                    &&& out@[i].dst@ == sel[i].dst
                }),
        decreases rules@.len() - r_i,
    {
        let mut g_i: usize = 0;
        while g_i < matched[r_i].len()
            invariant
                0 <= r_i < rules@.len(),
                0 <= g_i <= mv[r_i as int].len(),
                rv == rules.deep_view(),
                mv == matched.deep_view(),
                wf_matched(rv, mv),
                ignores_ok(rv),
                selection_from(
                    rv,
                    mv,
                    r_i as int,
                    g_i as int,
                    0,
                    SelectionState { visited: visited_set(visited@), sel },
                ) == selection_spec(rv, mv),
                out@.len() == sel.len(),
                forall|i: int|
                    0 <= i < sel.len() ==> ({
                        &&& (#[trigger] out@[i]).rule_index as int == sel[i].rule
                        &&& out@[i].glob_index as int == sel[i].glob
                        &&& out@[i].src@ == sel[i].src
                        &&& out@[i].captures.deep_view() == sel[i].captures
                        &&& out@[i].dst@ == sel[i].dst
                    }),
            decreases mv[r_i as int].len() - g_i,
        {
            let mut e_i: usize = 0;
            while e_i < matched[r_i][g_i].len()
                invariant
                    0 <= r_i < rules@.len(),
                    0 <= g_i < mv[r_i as int].len(),
                    0 <= e_i <= mv[r_i as int][g_i as int].len(),
                    rv == rules.deep_view(),
                    mv == matched.deep_view(),
                    wf_matched(rv, mv),
                    ignores_ok(rv),
                    selection_from(
                        rv,
                        mv,
                        r_i as int,
                        g_i as int,
                        e_i as int,
                        SelectionState { visited: visited_set(visited@), sel },
                    ) == selection_spec(rv, mv),
                    out@.len() == sel.len(),
                    forall|i: int|
                        0 <= i < sel.len() ==> ({
                            &&& (#[trigger] out@[i]).rule_index as int == sel[i].rule
                            &&& out@[i].glob_index as int == sel[i].glob
                            &&& out@[i].src@ == sel[i].src
                            &&& out@[i].captures.deep_view() == sel[i].captures
                            &&& out@[i].dst@ == sel[i].dst
                        }),
                decreases mv[r_i as int][g_i as int].len() - e_i,
            {
                let ghost st_now = SelectionState { visited: visited_set(visited@), sel };
                let entry = &matched[r_i][g_i][e_i];
                proof {
                    assert(mv[r_i as int] == matched@[r_i as int].deep_view());
                    assert(mv[r_i as int][g_i as int] == matched@[r_i as int]@[g_i
                        as int].deep_view());
                    assert(mv[r_i as int][g_i as int][e_i as int] == entry@);
                    assert(rv[r_i as int] == rules@[r_i as int]@);
                }
                let not_file = !entry.file;
                let seen = visited_contains(&visited, &entry.path);
                let excl = is_excluded(&rules[r_i], &entry.path);
                if not_file || seen || excl {
                    proof {
                        assert(selection_step(
                            rv[r_i as int],
                            r_i as int,
                            g_i as int,
                            e_i as int,
                            entry@,
                            st_now,
                        ) == Ok::<SelectionState, PlanErrV>(st_now));
                        assert(selection_from(
                            rv,
                            mv,
                            r_i as int,
                            g_i as int,
                            e_i as int + 1,
                            st_now,
                        ) == selection_spec(rv, mv));
                    }
                } else {
                    let dst = match crate::format::format(rules[r_i].dst.as_str(), &entry.captures)
                        {
                        Ok(d) => d,
                        Err(err) => {
                            // the selection fails here, and the whole
                            // specification walk with it
                            proof {
                                assert(format_from(rv[r_i as int].dst, entry@.captures) is Err);
                                assert(selection_spec(rv, mv) matches Err(ev) && ev.rule == r_i
                                    as int && ev.glob == g_i as int && ev.file == entry@.path
                                    && Err::<Seq<char>, FormatErr>(ev.fmt) == format_from(
                                    rv[r_i as int].dst,
                                    entry@.captures,
                                ));
                            }
                            return Err(
                                ErrorKind::Planning {
                                    rule_index: r_i,
                                    glob_index: Some(g_i),
                                    file: Some(entry.path.clone()),
                                    cause: Box::new(err),
                                },
                            );
                        },
                    };
                    let ghost d_spec = dst@;
                    let ghost vis_old = visited@;
                    out.push(
                        Selected {
                            rule_index: r_i,
                            glob_index: g_i,
                            src: entry.path.clone(),
                            captures: clone_strings(&entry.captures),
                            dst,
                        },
                    );
                    visited.push(entry.path.clone());
                    proof {
                        assert(visited@ =~= vis_old.push(visited@.last()));
                        lemma_visited_push(vis_old, visited@.last());
                        assert(visited@.last()@ == entry@.path);
                        let chosen = SelectedV {
                            rule: r_i as int,
                            glob: g_i as int,
                            entry: e_i as int,
                            src: entry@.path,
                            captures: entry@.captures,
                            dst: d_spec,
                        };
                        sel = sel.push(chosen);
                        let st_next = SelectionState {
                            visited: st_now.visited.insert(entry@.path),
                            sel: st_now.sel.push(chosen),
                        };
                        assert(format_from(rv[r_i as int].dst, entry@.captures) == Ok::<
                            Seq<char>,
                            FormatErr,
                        >(d_spec));
                        assert(selection_step(
                            rv[r_i as int],
                            r_i as int,
                            g_i as int,
                            e_i as int,
                            entry@,
                            st_now,
                        ) == Ok::<SelectionState, PlanErrV>(st_next));
                        assert(visited_set(visited@) =~= st_next.visited);
                        assert(SelectionState { visited: visited_set(visited@), sel } == st_next);
                        assert(selection_from(
                            rv,
                            mv,
                            r_i as int,
                            g_i as int,
                            e_i as int + 1,
                            st_next,
                        ) == selection_spec(rv, mv));
                    }
                }
                e_i += 1;
            }
            proof {
                assert(selection_from(
                    rv,
                    mv,
                    r_i as int,
                    g_i as int + 1,
                    0,
                    SelectionState { visited: visited_set(visited@), sel },
                ) == selection_spec(rv, mv));
            }
            g_i += 1;
        }
        proof {
            assert(selection_from(
                rv,
                mv,
                r_i as int + 1,
                0,
                0,
                SelectionState { visited: visited_set(visited@), sel },
            ) == selection_spec(rv, mv));
        }
        r_i += 1;
    }
    proof {
        assert(selection_from(
            rv,
            mv,
            r_i as int,
            0,
            0,
            SelectionState { visited: visited_set(visited@), sel },
        ) == Ok::<SelectionState, PlanErrV>(
            SelectionState { visited: visited_set(visited@), sel },
        ));
    }
    Ok(out)
}

/// Plans transformations for already-enumerated matches: `select` decides
/// which files are claimed and where their output goes, and the transformer
/// is then asked for each claimed file's transformation, in selection order.
///
/// The selection part is exact: a failing selection surfaces as its own
/// error, attributed to the rule, glob pattern and file, and an empty
/// selection succeeds with no plans. When the selection succeeds, the
/// transformer decides the rest: on success the plans mirror the selection's
/// destinations, and a transformer failure comes back attributed to the
/// selected file that caused it.
pub fn plan_prepared<T: Transformer>(
    rules: &Vec<Rule>,
    matched: &Vec<Vec<Vec<GlobEntry>>>,
    tf: &mut T,
) -> (r: Result<Vec<Plan>, ErrorKind>)
    requires
        wf_matched(rules.deep_view(), matched.deep_view()),
        ignores_ok(rules.deep_view()),
    ensures
        r matches Ok(plans) ==> (selection_spec(rules.deep_view(), matched.deep_view()) matches Ok(
            stf,
        ) && plans@.len() == stf.sel.len() && (forall|i: int|
            0 <= i < stf.sel.len() ==> #[trigger] plans@[i].dst@ == stf.sel[i].dst)),
        selection_spec(rules.deep_view(), matched.deep_view()) matches Err(ev) ==> (r matches Err(
            e,
        ) && ({
            &&& e matches ErrorKind::Planning { rule_index, glob_index, file, cause }
            &&& rule_index as int == ev.rule
            &&& glob_index matches Some(g) && g as int == ev.glob
            &&& file matches Some(f) && f@ == ev.file
            &&& *cause matches ErrorKind::Format(k) && k@ == ev.fmt
        })),
        (selection_spec(rules.deep_view(), matched.deep_view()) is Ok && selection_spec(
            rules.deep_view(),
            matched.deep_view(),
        )->Ok_0.sel.len() == 0) ==> (r matches Ok(plans) && plans@.len() == 0),
        r matches Err(e) ==> e matches ErrorKind::Planning { .. },
        (selection_spec(rules.deep_view(), matched.deep_view()) is Ok && r is Err) ==> ({
            &&& r->Err_0 matches ErrorKind::Planning { rule_index, glob_index, file, cause }
            &&& glob_index matches Some(g)
            &&& file matches Some(f)
            &&& exists|i: int|
                0 <= i < selection_spec(rules.deep_view(), matched.deep_view())->Ok_0.sel.len()
                    && (#[trigger] selection_spec(
                    rules.deep_view(),
                    matched.deep_view(),
                )->Ok_0.sel[i]).rule == rule_index as int && selection_spec(
                    rules.deep_view(),
                    matched.deep_view(),
                )->Ok_0.sel[i].glob == g as int && selection_spec(
                    rules.deep_view(),
                    matched.deep_view(),
                )->Ok_0.sel[i].src == f@
        }),
{
    let ghost rv = rules.deep_view();
    let ghost mv = matched.deep_view();
    let selected = match select(rules, matched) {
        Ok(s) => s,
        Err(e) => {
            return Err(e);
        },
    };
    let ghost stf = selection_spec(rv, mv)->Ok_0;
    let mut plans: Vec<Plan> = Vec::new();
    let mut i: usize = 0;
    while i < selected.len()
        invariant
            0 <= i <= selected@.len(),
            rv == rules.deep_view(),
            mv == matched.deep_view(),
            selection_spec(rv, mv) == Ok::<SelectionState, PlanErrV>(stf),
            selected@.len() == stf.sel.len(),
            forall|k: int|
                0 <= k < stf.sel.len() ==> ({
                    &&& (#[trigger] selected@[k]).rule_index as int == stf.sel[k].rule
                    &&& selected@[k].glob_index as int == stf.sel[k].glob
                    &&& selected@[k].src@ == stf.sel[k].src
                    &&& selected@[k].dst@ == stf.sel[k].dst
                }),
            plans@.len() == i,
            forall|k: int| 0 <= k < i ==> #[trigger] plans@[k].dst@ == stf.sel[k].dst,
        decreases selected@.len() - i,
    {
        let data = match tf.plan_payload(
            selected[i].rule_index,
            &selected[i].src,
            &selected[i].captures,
        ) {
            Ok(d) => d,
            Err(err) => {
                proof {
                    // the failing transformer call belongs to selection i
                    assert((selection_spec(rv, mv)->Ok_0.sel[i as int]).rule == selected@[
                        i as int].rule_index as int);
                    assert((selection_spec(rv, mv)->Ok_0.sel[i as int]).glob == selected@[
                        i as int].glob_index as int);
                    assert((selection_spec(rv, mv)->Ok_0.sel[i as int]).src == selected@[
                        i as int].src@);
                }
                return Err(
                    ErrorKind::Planning {
                        rule_index: selected[i].rule_index,
                        glob_index: Some(selected[i].glob_index),
                        file: Some(selected[i].src.clone()),
                        cause: Box::new(err),
                    },
                );
            },
        };
        plans.push(Plan { dst: selected[i].dst.clone(), data });
        i += 1;
    }
    Ok(plans)
}

/// Plans the whole run: validates every rule's ignore patterns, enumerates
/// the files each rule's glob patterns match, and hands the matches to
/// `plan_prepared`. Planning writes nothing; the returned plans are executed
/// afterwards, so a failure here leaves the destination tree untouched.
///
/// An empty rule list succeeds with no plans; a rule list with an invalid
/// ignore pattern always fails; and every failure is a `Planning` error
/// naming the rule it arose in.
pub fn plan<T: Transformer>(rules: &Vec<Rule>, tf: &mut T) -> (r: Result<Vec<Plan>, ErrorKind>)
    ensures
        r matches Ok(plans) ==> exists|mv: Seq<Seq<Seq<GlobEntryV>>>|
            wf_matched(rules.deep_view(), mv) && (#[trigger] selection_spec(
                rules.deep_view(),
                mv,
            ) matches Ok(stf) && plans@.len() == stf.sel.len() && (forall|i: int|
                0 <= i < stf.sel.len() ==> #[trigger] plans@[i].dst@ == stf.sel[i].dst)),
        rules@.len() == 0 ==> (r matches Ok(plans) && plans@.len() == 0),
        !ignores_ok(rules.deep_view()) ==> r is Err,
        r matches Err(e) ==> e matches ErrorKind::Planning { .. },
{
    let ghost rv = rules.deep_view();
    // validate every rule's ignore patterns up front
    let mut i: usize = 0;
    while i < rules.len()
        invariant
            0 <= i <= rules@.len(),
            rv == rules.deep_view(),
            forall|a: int, k: int|
                0 <= a < i && 0 <= k < rv[a].ignore.len() ==> glob_pattern_ok(
                    #[trigger] rv[a].ignore[k],
                ),
        decreases rules@.len() - i,
    {
        let mut k: usize = 0;
        while k < rules[i].ignore.len()
            invariant
                0 <= i < rules@.len(),
                0 <= k <= rv[i as int].ignore.len(),
                rv == rules.deep_view(),
                forall|a: int, j: int|
                    0 <= a < i && 0 <= j < rv[a].ignore.len() ==> glob_pattern_ok(
                        #[trigger] rv[a].ignore[j],
                    ),
                forall|j: int| 0 <= j < k ==> glob_pattern_ok(#[trigger] rv[i as int].ignore[j]),
            decreases rv[i as int].ignore.len() - k,
        {
            match crate::glob::check_pattern(rules[i].ignore[k].as_str()) {
                Ok(_) => {},
                Err(e) => {
                    return Err(
                        ErrorKind::Planning {
                            rule_index: i,
                            glob_index: None,
                            file: None,
                            cause: Box::new(e),
                        },
                    );
                },
            }
            k += 1;
        }
        i += 1;
    }
    assert(ignores_ok(rv));
    // enumerate the matches of every glob pattern of every rule
    let mut matched: Vec<Vec<Vec<GlobEntry>>> = Vec::new();
    let mut i: usize = 0;
    while i < rules.len()
        invariant
            0 <= i <= rules@.len(),
            rv == rules.deep_view(),
            ignores_ok(rv),
            matched.deep_view().len() == i,
            forall|a: int|
                0 <= a < i ==> (#[trigger] matched.deep_view()[a]).len() == rv[a].globs.len(),
        decreases rules@.len() - i,
    {
        let mut per_rule: Vec<Vec<GlobEntry>> = Vec::new();
        let mut g: usize = 0;
        while g < rules[i].globs.len()
            invariant
                0 <= i < rules@.len(),
                0 <= g <= rv[i as int].globs.len(),
                rv == rules.deep_view(),
                per_rule.deep_view().len() == g,
            decreases rv[i as int].globs.len() - g,
        {
            match crate::glob::collect_entries(rules[i].globs[g].as_str()) {
                Ok(entries) => {
                    per_rule.push(entries);
                },
                Err(e) => {
                    return Err(
                        ErrorKind::Planning {
                            rule_index: i,
                            glob_index: Some(g),
                            file: None,
                            cause: Box::new(e),
                        },
                    );
                },
            }
            g += 1;
        }
        let ghost m_old = matched.deep_view();
        matched.push(per_rule);
        proof {
            assert forall|a: int| 0 <= a < i + 1 implies (#[trigger] matched.deep_view()[a]).len()
                == rv[a].globs.len() by {
                assert(matched.deep_view()[a] == matched@[a].deep_view());
                if a < i {
                    assert(matched@[a] == matched@.drop_last()[a]);
                    assert(m_old[a] == matched@.drop_last()[a].deep_view());
                } else {
                    assert(matched@[a] == per_rule);
                }
            }
        }
        i += 1;
    }
    assert(wf_matched(rv, matched.deep_view()));
    let ghost mv = matched.deep_view();
    proof {
        if rules@.len() == 0 {
            // nothing is walked, so the selection is empty
            assert(selection_spec(rv, mv) == Ok::<SelectionState, PlanErrV>(
                SelectionState { visited: Set::empty(), sel: Seq::empty() },
            ));
        }
    }
    let r = plan_prepared(rules, &matched, tf);
    proof {
        if r is Ok {
            assert(wf_matched(rules.deep_view(), mv) && (selection_spec(rules.deep_view(), mv)
                matches Ok(stf) && r->Ok_0@.len() == stf.sel.len() && (forall|i: int|
                0 <= i < stf.sel.len() ==> #[trigger] r->Ok_0@[i].dst@ == stf.sel[i].dst)));
        }
    }
    r
}


/// Lexicographically strictly earlier position in the engine's walk.
pub open spec fn pos_lt(r1: int, g1: int, e1: int, r2: int, g2: int, e2: int) -> bool {
    r1 < r2 || (r1 == r2 && (g1 < g2 || (g1 == g2 && e1 < e2)))
}

/// Lexicographically no-later position in the engine's walk.
pub open spec fn pos_le(r1: int, g1: int, e1: int, r2: int, g2: int, e2: int) -> bool {
    pos_lt(r1, g1, e1, r2, g2, e2) || (r1 == r2 && g1 == g2 && e1 == e2)
}

/// A position that names an actual entry.
pub open spec fn valid_pos(
    rules: Seq<RuleV>,
    matched: Seq<Seq<Seq<GlobEntryV>>>,
    r: int,
    g: int,
    e: int,
) -> bool {
    0 <= r < rules.len() && 0 <= g < matched[r].len() && 0 <= e < matched[r][g].len()
}

/// The entry at a position is a regular file with path `p` that the rule
/// there does not ignore: the engine must claim `p` at this position unless
/// an earlier one already did.
pub open spec fn eligible_at(
    rules: Seq<RuleV>,
    matched: Seq<Seq<Seq<GlobEntryV>>>,
    r: int,
    g: int,
    e: int,
    p: Seq<char>,
) -> bool {
    valid_pos(rules, matched, r, g, e) && matched[r][g][e].path == p && matched[r][g][e].file
        && !excluded(rules[r], p)
}

/// A selection is sound for a walk that started at (`r`, `g`, `e`) with the
/// claimed set `visited0`: it names an eligible entry at or after the start,
/// reproduces that entry's path and captures, carries the expanded
/// destination, claims a file nobody had claimed, and no eligible occurrence
/// of the same file stands between the start and it.
pub open spec fn sel_sound(
    rules: Seq<RuleV>,
    matched: Seq<Seq<Seq<GlobEntryV>>>,
    r: int,
    g: int,
    e: int,
    visited0: Set<Seq<char>>,
    s: SelectedV,
) -> bool {
    &&& valid_pos(rules, matched, s.rule, s.glob, s.entry)
    &&& pos_le(r, g, e, s.rule, s.glob, s.entry)
    &&& matched[s.rule][s.glob][s.entry].path == s.src
    &&& matched[s.rule][s.glob][s.entry].captures == s.captures
    &&& matched[s.rule][s.glob][s.entry].file
    &&& !excluded(rules[s.rule], s.src)
    &&& format_from(rules[s.rule].dst, s.captures) == Ok::<Seq<char>, FormatErr>(s.dst)
    &&& !visited0.contains(s.src)
    &&& (forall|r2: int, g2: int, e2: int|
        pos_le(r, g, e, r2, g2, e2) && pos_lt(r2, g2, e2, s.rule, s.glob, s.entry)
            && #[trigger] eligible_at(rules, matched, r2, g2, e2, s.src) ==> false)
}

/// The running state is consistent: every selection's source is claimed, and
/// no two selections share a source.
pub open spec fn inv_state(st: SelectionState) -> bool {
    &&& (forall|i: int| 0 <= i < st.sel.len() ==> st.visited.contains(#[trigger] st.sel[i].src))
    &&& (forall|i: int, j: int|
        0 <= i < j < st.sel.len() ==> (#[trigger] st.sel[i]).src != (#[trigger] st.sel[j]).src)
}

/// Everything the walk from (`r`, `g`, `e`) guarantees of a successful final
/// state: the old selections stay, each new one is sound, the claimed set
/// grows by exactly the new sources, consistency is kept, and every file
/// eligible somewhere at or after the start ends up claimed.
pub open spec fn walk_sound(
    rules: Seq<RuleV>,
    matched: Seq<Seq<Seq<GlobEntryV>>>,
    r: int,
    g: int,
    e: int,
    st: SelectionState,
    stf: SelectionState,
) -> bool {
    &&& stf.sel.len() >= st.sel.len()
    &&& (forall|i: int| 0 <= i < st.sel.len() ==> stf.sel[i] == st.sel[i])
    &&& (forall|i: int|
        st.sel.len() <= i < stf.sel.len() ==> sel_sound(
            rules,
            matched,
            r,
            g,
            e,
            st.visited,
            #[trigger] stf.sel[i],
        ))
    &&& (forall|p: Seq<char>|
        #[trigger] stf.visited.contains(p) <==> st.visited.contains(p) || (exists|i: int|
            st.sel.len() <= i < stf.sel.len() && (#[trigger] stf.sel[i]).src == p))
    &&& inv_state(stf)
    &&& (forall|r2: int, g2: int, e2: int, p: Seq<char>|
        pos_le(r, g, e, r2, g2, e2) && #[trigger] eligible_at(rules, matched, r2, g2, e2, p)
            ==> stf.visited.contains(p))
}

/// The engine's walk only makes sound selections, claims each file once, and
/// claims every file that is eligible anywhere in the walk.
proof fn lemma_selection_from_sound(
    rules: Seq<RuleV>,
    matched: Seq<Seq<Seq<GlobEntryV>>>,
    r: int,
    g: int,
    e: int,
    st: SelectionState,
)
    requires
        wf_matched(rules, matched),
        0 <= r,
        0 <= g,
        0 <= e,
        inv_state(st),
    ensures
        selection_from(rules, matched, r, g, e, st) matches Ok(stf) ==> walk_sound(
            rules,
            matched,
            r,
            g,
            e,
            st,
            stf,
        ),
    decreases rules.len() - r, matched[r].len() - g, matched[r][g].len() - e,
{
    if r >= rules.len() {
        // the walk is over: nothing new, and no valid position lies at or
        // after (r, g, e)
    } else if g >= matched[r].len() {
        lemma_selection_from_sound(rules, matched, r + 1, 0, 0, st);
        if selection_from(rules, matched, r, g, e, st) is Ok {
            let stf = selection_from(rules, matched, r, g, e, st)->Ok_0;
            assert forall|i: int|
                st.sel.len() <= i < stf.sel.len() implies sel_sound(
                rules,
                matched,
                r,
                g,
                e,
                st.visited,
                #[trigger] stf.sel[i],
            ) by {
                let s = stf.sel[i];
                assert(sel_sound(rules, matched, r + 1, 0, 0, st.visited, s));
                assert forall|r2: int, g2: int, e2: int|
                    pos_le(r, g, e, r2, g2, e2) && pos_lt(r2, g2, e2, s.rule, s.glob, s.entry)
                        && #[trigger] eligible_at(rules, matched, r2, g2, e2, s.src) implies false by {
                    assert(valid_pos(rules, matched, r2, g2, e2));
                    assert(pos_le(r + 1, 0, 0, r2, g2, e2));
                }
            }
            assert forall|r2: int, g2: int, e2: int, p: Seq<char>|
                pos_le(r, g, e, r2, g2, e2) && #[trigger] eligible_at(
                rules,
                matched,
                r2,
                g2,
                e2,
                p,
            ) implies stf.visited.contains(p) by {
                assert(pos_le(r + 1, 0, 0, r2, g2, e2));
            }
        }
    } else if e >= matched[r][g].len() {
        lemma_selection_from_sound(rules, matched, r, g + 1, 0, st);
        if selection_from(rules, matched, r, g, e, st) is Ok {
            let stf = selection_from(rules, matched, r, g, e, st)->Ok_0;
            assert forall|i: int|
                st.sel.len() <= i < stf.sel.len() implies sel_sound(
                rules,
                matched,
                r,
                g,
                e,
                st.visited,
                #[trigger] stf.sel[i],
            ) by {
                let s = stf.sel[i];
                assert(sel_sound(rules, matched, r, g + 1, 0, st.visited, s));
                assert forall|r2: int, g2: int, e2: int|
                    pos_le(r, g, e, r2, g2, e2) && pos_lt(r2, g2, e2, s.rule, s.glob, s.entry)
                        && #[trigger] eligible_at(rules, matched, r2, g2, e2, s.src) implies false by {
                    assert(valid_pos(rules, matched, r2, g2, e2));
                    assert(pos_le(r, g + 1, 0, r2, g2, e2));
                }
            }
            assert forall|r2: int, g2: int, e2: int, p: Seq<char>|
                pos_le(r, g, e, r2, g2, e2) && #[trigger] eligible_at(
                rules,
                matched,
                r2,
                g2,
                e2,
                p,
            ) implies stf.visited.contains(p) by {
                assert(pos_le(r, g + 1, 0, r2, g2, e2));
            }
        }
    } else {
        let en = matched[r][g][e];
        let step = selection_step(rules[r], r, g, e, en, st);
        if step is Ok {
            let st2 = step->Ok_0;
            if !en.file || st.visited.contains(en.path) || excluded(rules[r], en.path) {
                // skipped: the state is unchanged
                lemma_selection_from_sound(rules, matched, r, g, e + 1, st);
                if selection_from(rules, matched, r, g, e, st) is Ok {
            let stf = selection_from(rules, matched, r, g, e, st)->Ok_0;
                    assert forall|i: int|
                        st.sel.len() <= i < stf.sel.len() implies sel_sound(
                        rules,
                        matched,
                        r,
                        g,
                        e,
                        st.visited,
                        #[trigger] stf.sel[i],
                    ) by {
                        let s = stf.sel[i];
                        assert(sel_sound(rules, matched, r, g, e + 1, st.visited, s));
                        assert forall|r2: int, g2: int, e2: int|
                            pos_le(r, g, e, r2, g2, e2) && pos_lt(
                            r2,
                            g2,
                            e2,
                            s.rule,
                            s.glob,
                            s.entry,
                        ) && #[trigger] eligible_at(rules, matched, r2, g2, e2, s.src) implies false by {
                            if r2 == r && g2 == g && e2 == e {
                                // the occurrence here is s.src, eligible but
                                // skipped: it must have been claimed already,
                                // yet s claims an unclaimed file
                                assert(en.path == s.src);
                                assert(st.visited.contains(s.src));
                                assert(!st.visited.contains(s.src));
                            } else {
                                assert(pos_le(r, g, e + 1, r2, g2, e2));
                            }
                        }
                    }
                    assert forall|r2: int, g2: int, e2: int, p: Seq<char>|
                        pos_le(r, g, e, r2, g2, e2) && #[trigger] eligible_at(
                        rules,
                        matched,
                        r2,
                        g2,
                        e2,
                        p,
                    ) implies stf.visited.contains(p) by {
                        if r2 == r && g2 == g && e2 == e {
                            assert(st.visited.contains(p));
                        } else {
                            assert(pos_le(r, g, e + 1, r2, g2, e2));
                        }
                    }
                }
            } else {
                // selected here
                let d = format_from(rules[r].dst, en.captures)->Ok_0;
                let chosen = SelectedV {
                    rule: r,
                    glob: g,
                    entry: e,
                    src: en.path,
                    captures: en.captures,
                    dst: d,
                };
                assert(st2 == SelectionState {
                    visited: st.visited.insert(en.path),
                    sel: st.sel.push(chosen),
                });
                assert(inv_state(st2)) by {
                    assert(forall|i: int|
                        0 <= i < st.sel.len() ==> st2.sel[i] == #[trigger] st.sel[i]);
                    assert(st2.sel[st.sel.len() as int] == chosen);
                }
                lemma_selection_from_sound(rules, matched, r, g, e + 1, st2);
                if selection_from(rules, matched, r, g, e, st) is Ok {
            let stf = selection_from(rules, matched, r, g, e, st)->Ok_0;
                    assert(walk_sound(rules, matched, r, g, e + 1, st2, stf));
                    // the old prefix is kept
                    assert(forall|i: int|
                        0 <= i < st.sel.len() ==> stf.sel[i] == #[trigger] st.sel[i]);
                    assert(stf.sel[st.sel.len() as int] == chosen);
                    // each new selection is sound for the wider walk
                    assert forall|i: int|
                        st.sel.len() <= i < stf.sel.len() implies sel_sound(
                        rules,
                        matched,
                        r,
                        g,
                        e,
                        st.visited,
                        #[trigger] stf.sel[i],
                    ) by {
                        let s = stf.sel[i];
                        if i == st.sel.len() {
                            assert(s == chosen);
                            assert forall|r2: int, g2: int, e2: int|
                                pos_le(r, g, e, r2, g2, e2) && pos_lt(r2, g2, e2, r, g, e)
                                    && #[trigger] eligible_at(rules, matched, r2, g2, e2, s.src)
                                implies false by {}
                        } else {
                            assert(sel_sound(rules, matched, r, g, e + 1, st2.visited, s));
                            assert(!st2.visited.contains(s.src));
                            assert(!st.visited.contains(s.src));
                            assert forall|r2: int, g2: int, e2: int|
                                pos_le(r, g, e, r2, g2, e2) && pos_lt(
                                r2,
                                g2,
                                e2,
                                s.rule,
                                s.glob,
                                s.entry,
                            ) && #[trigger] eligible_at(rules, matched, r2, g2, e2, s.src)
                                implies false by {
                                if r2 == r && g2 == g && e2 == e {
                                    assert(en.path == s.src);
                                    assert(st2.visited.contains(s.src));
                                } else {
                                    assert(pos_le(r, g, e + 1, r2, g2, e2));
                                }
                            }
                        }
                    }
                    // the claimed set grows by exactly the new sources
                    assert forall|p: Seq<char>| #[trigger]
                        stf.visited.contains(p) <==> st.visited.contains(p) || (exists|i: int|
                            st.sel.len() <= i < stf.sel.len() && (#[trigger] stf.sel[i]).src
                                == p) by {
                        if stf.visited.contains(p) {
                            if !st.visited.contains(p) {
                                if st2.visited.contains(p) {
                                    assert(p == en.path);
                                    assert(stf.sel[st.sel.len() as int].src == p);
                                } else {
                                    let i = choose|i: int|
                                        st2.sel.len() <= i < stf.sel.len() && (#[trigger] stf.sel[i]).src
                                            == p;
                                    assert(st.sel.len() <= i < stf.sel.len());
                                }
                            }
                        } else {
                            if st.visited.contains(p) {
                                assert(st2.visited.contains(p));
                                assert(stf.visited.contains(p));
                            }
                            if exists|i: int|
                                st.sel.len() <= i < stf.sel.len() && (#[trigger] stf.sel[i]).src
                                    == p {
                                let i = choose|i: int|
                                    st.sel.len() <= i < stf.sel.len() && (#[trigger] stf.sel[i]).src
                                        == p;
                                if i == st.sel.len() {
                                    assert(p == en.path);
                                    assert(st2.visited.contains(p));
                                    assert(stf.visited.contains(p));
                                } else {
                                    assert(st2.sel.len() <= i < stf.sel.len());
                                    assert(stf.visited.contains(p));
                                }
                            }
                        }
                    }
                    // every eligible occurrence at or after here is claimed
                    assert forall|r2: int, g2: int, e2: int, p: Seq<char>|
                        pos_le(r, g, e, r2, g2, e2) && #[trigger] eligible_at(
                        rules,
                        matched,
                        r2,
                        g2,
                        e2,
                        p,
                    ) implies stf.visited.contains(p) by {
                        if r2 == r && g2 == g && e2 == e {
                            assert(st2.visited.contains(p));
                        } else {
                            assert(pos_le(r, g, e + 1, r2, g2, e2));
                        }
                    }
                }
            }
        }
        // on a step error the walk fails and there is nothing to show
    }
}

/// Positions are totally ordered.
proof fn lemma_pos_total(r1: int, g1: int, e1: int, r2: int, g2: int, e2: int)
    ensures
        pos_le(r1, g1, e1, r2, g2, e2) || pos_lt(r2, g2, e2, r1, g1, e1),
{
}

/// LAW (first-match-wins): when planning succeeds and some rule's glob
/// matched an eligible file — a regular file the rule does not ignore — then
/// that file is claimed, by a selection at or before that occurrence; every
/// selection of the file is at or before it, so a later rule never sees it.
pub proof fn lemma_first_match_wins(
    rules: Seq<RuleV>,
    matched: Seq<Seq<Seq<GlobEntryV>>>,
    r1: int,
    g1: int,
    e1: int,
    p: Seq<char>,
)
    requires
        wf_matched(rules, matched),
        eligible_at(rules, matched, r1, g1, e1, p),
        selection_spec(rules, matched) is Ok,
    ensures
        exists|i: int|
            0 <= i < selection_spec(rules, matched)->Ok_0.sel.len()
                && (#[trigger] selection_spec(rules, matched)->Ok_0.sel[i]).src == p,
        forall|i: int|
            0 <= i < selection_spec(rules, matched)->Ok_0.sel.len() && (#[trigger] selection_spec(
                rules,
                matched,
            )->Ok_0.sel[i]).src == p ==> pos_le(
                selection_spec(rules, matched)->Ok_0.sel[i].rule,
                selection_spec(rules, matched)->Ok_0.sel[i].glob,
                selection_spec(rules, matched)->Ok_0.sel[i].entry,
                r1,
                g1,
                e1,
            ),
{
    let st0 = SelectionState { visited: Set::empty(), sel: Seq::empty() };
    lemma_selection_from_sound(rules, matched, 0, 0, 0, st0);
    let stf = selection_spec(rules, matched)->Ok_0;
    assert(walk_sound(rules, matched, 0, 0, 0, st0, stf));
    assert(pos_le(0, 0, 0, r1, g1, e1));
    assert(stf.visited.contains(p));
    assert forall|i: int|
        0 <= i < stf.sel.len() && (#[trigger] stf.sel[i]).src == p implies pos_le(
        stf.sel[i].rule,
        stf.sel[i].glob,
        stf.sel[i].entry,
        r1,
        g1,
        e1,
    ) by {
        let s = stf.sel[i];
        assert(sel_sound(rules, matched, 0, 0, 0, st0.visited, s));
        lemma_pos_total(s.rule, s.glob, s.entry, r1, g1, e1);
        if pos_lt(r1, g1, e1, s.rule, s.glob, s.entry) {
            assert(eligible_at(rules, matched, r1, g1, e1, s.src));
        }
    }
}

/// LAW (exclusion overrides inclusion): when planning succeeds, a file that
/// one of a rule's ignore patterns matches is never selected by that rule,
/// whichever of its glob patterns also matched it.
pub proof fn lemma_exclusion_overrides(
    rules: Seq<RuleV>,
    matched: Seq<Seq<Seq<GlobEntryV>>>,
    rx: int,
    p: Seq<char>,
)
    requires
        wf_matched(rules, matched),
        0 <= rx < rules.len(),
        excluded(rules[rx], p),
        selection_spec(rules, matched) is Ok,
    ensures
        forall|i: int|
            0 <= i < selection_spec(rules, matched)->Ok_0.sel.len() ==> !((
            #[trigger] selection_spec(rules, matched)->Ok_0.sel[i]).rule == rx && selection_spec(
                rules,
                matched,
            )->Ok_0.sel[i].src == p),
{
    let st0 = SelectionState { visited: Set::empty(), sel: Seq::empty() };
    lemma_selection_from_sound(rules, matched, 0, 0, 0, st0);
    let stf = selection_spec(rules, matched)->Ok_0;
    assert forall|i: int|
        0 <= i < stf.sel.len() implies !((#[trigger] stf.sel[i]).rule == rx && stf.sel[i].src
        == p) by {
        assert(sel_sound(rules, matched, 0, 0, 0, st0.visited, stf.sel[i]));
    }
}

/// LAW (one claim per file): when planning succeeds, no two selections share
/// a source file — no source file is planned for more than once per run.
pub proof fn lemma_no_duplicate_claims(rules: Seq<RuleV>, matched: Seq<Seq<Seq<GlobEntryV>>>)
    requires
        wf_matched(rules, matched),
        selection_spec(rules, matched) is Ok,
    ensures
        forall|i: int, j: int|
            0 <= i < j < selection_spec(rules, matched)->Ok_0.sel.len() ==> (
            #[trigger] selection_spec(rules, matched)->Ok_0.sel[i]).src != (
            #[trigger] selection_spec(rules, matched)->Ok_0.sel[j]).src,
{
    let st0 = SelectionState { visited: Set::empty(), sel: Seq::empty() };
    lemma_selection_from_sound(rules, matched, 0, 0, 0, st0);
}

/// LAW (determinism): the selection is a function of the rules and of what
/// their globs matched. Running twice over an unchanged file set plans the
/// same destinations in the same order, so, with transformations that are
/// themselves functions of their inputs, the two runs write identical
/// destination trees.
pub proof fn lemma_selection_deterministic(
    rules1: Seq<RuleV>,
    matched1: Seq<Seq<Seq<GlobEntryV>>>,
    rules2: Seq<RuleV>,
    matched2: Seq<Seq<Seq<GlobEntryV>>>,
)
    requires
        rules1 == rules2,
        matched1 == matched2,
    ensures
        selection_spec(rules1, matched1) == selection_spec(rules2, matched2),
{
}


/// One write the execute phase performs: what lands at one destination path.
#[derive(Debug)]
pub struct WriteStep {
    /// the file to produce
    pub dst: String,
    /// what to produce it from
    pub content: WriteContent,
}

/// What one destination file is produced from.
#[derive(Debug)]
pub enum WriteContent {
    /// these bytes, verbatim
    Bytes(Vec<u8>),
    /// a verbatim copy of this file
    CopyFrom(String),
}

/// Turns one plan into the writes that execute it, rendering any template it
/// carries: nothing for a no-op; the plan's bytes, text (as UTF-8), rendered
/// template output, or file copy at the plan's destination; and for a
/// WebAssembly plan the copies `wasm_copy_steps` lists. Ancestor directories
/// of each step's destination are the caller's to create, before the write.
pub fn render_payload(data: PlannedTransformation, dst: &String) -> (r: Result<
    Vec<WriteStep>,
    ErrorKind,
>)
    ensures
        match data {
            PlannedTransformation::Noop => r matches Ok(steps) && steps@.len() == 0,
            PlannedTransformation::Blob(b) => ({
                &&& r matches Ok(steps)
                &&& steps@.len() == 1
                &&& steps@[0].dst@ == dst@
                &&& steps@[0].content matches WriteContent::Bytes(c)
                &&& c@ == b@
            }),
            PlannedTransformation::Text(s) => ({
                &&& r matches Ok(steps)
                &&& steps@.len() == 1
                &&& steps@[0].dst@ == dst@
                &&& steps@[0].content matches WriteContent::Bytes(c)
                &&& c@ == vstd::utf8::encode_utf8(s@)
            }),
            PlannedTransformation::CopyFrom(p) => ({
                &&& r matches Ok(steps)
                &&& steps@.len() == 1
                &&& steps@[0].dst@ == dst@
                &&& steps@[0].content matches WriteContent::CopyFrom(f)
                &&& f@ == p@
            }),
            PlannedTransformation::Liquid(_) => ({
                &&& (r matches Ok(steps) ==> steps@.len() == 1 && steps@[0].dst@ == dst@
                    && steps@[0].content is Bytes)
                &&& (r matches Err(e) ==> ({
                    &&& e matches ErrorKind::LiquidIntegration(k)
                    &&& k matches crate::liquid::LiquidErrorKind::LiquidRendering { path, .. }
                    &&& path@ == dst@
                }))
            }),
            PlannedTransformation::Minijinja(_) => ({
                &&& (r matches Ok(steps) ==> steps@.len() == 1 && steps@[0].dst@ == dst@
                    && steps@[0].content is Bytes)
                &&& (r matches Err(e) ==> ({
                    &&& e matches ErrorKind::MinijinjaIntegration(k)
                    &&& k matches crate::minijinja::MinijinjaErrorKind::MinijinjaRendering {
                        path,
                        ..
                    }
                    &&& path@ == dst@
                }))
            }),
            PlannedTransformation::Wasm(plan) => ({
                &&& r matches Ok(steps)
                &&& steps@.len() == crate::wasm::wasm_copy_steps_spec(plan, dst@).len()
                &&& (forall|i: int|
                    0 <= i < steps@.len() ==> ({
                        &&& (#[trigger] steps@[i]).dst@ == crate::wasm::wasm_copy_steps_spec(
                            plan,
                            dst@,
                        )[i].1
                        &&& steps@[i].content matches WriteContent::CopyFrom(f)
                        &&& f@ == crate::wasm::wasm_copy_steps_spec(plan, dst@)[i].0
                    }))
            }),
        },
{
    match data {
        PlannedTransformation::Noop => Ok(Vec::new()),
        PlannedTransformation::Blob(b) => {
            let mut steps: Vec<WriteStep> = Vec::new();
            steps.push(WriteStep { dst: dst.clone(), content: WriteContent::Bytes(b) });
            Ok(steps)
        },
        PlannedTransformation::Text(s) => {
            let bytes = s.as_str().as_bytes_vec();
            let mut steps: Vec<WriteStep> = Vec::new();
            steps.push(WriteStep { dst: dst.clone(), content: WriteContent::Bytes(bytes) });
            Ok(steps)
        },
        PlannedTransformation::CopyFrom(p) => {
            let mut steps: Vec<WriteStep> = Vec::new();
            steps.push(WriteStep { dst: dst.clone(), content: WriteContent::CopyFrom(p) });
            Ok(steps)
        },
        PlannedTransformation::Liquid(plan) => {
            match crate::liquid::render_liquid(&plan.template, &plan.globals) {
                Ok(rendered) => {
                    let bytes = rendered.as_str().as_bytes_vec();
                    let mut steps: Vec<WriteStep> = Vec::new();
                    steps.push(WriteStep { dst: dst.clone(), content: WriteContent::Bytes(bytes) });
                    Ok(steps)
                },
                Err(message) => Err(
                    ErrorKind::LiquidIntegration(
                        crate::liquid::LiquidErrorKind::LiquidRendering {
                            path: dst.clone(),
                            message,
                        },
                    ),
                ),
            }
        },
        PlannedTransformation::Minijinja(plan) => {
            match crate::minijinja::render_minijinja(
                &plan.env,
                plan.template.as_str(),
                &plan.globals,
            ) {
                Ok(rendered) => {
                    let bytes = rendered.as_str().as_bytes_vec();
                    let mut steps: Vec<WriteStep> = Vec::new();
                    steps.push(WriteStep { dst: dst.clone(), content: WriteContent::Bytes(bytes) });
                    Ok(steps)
                },
                Err(message) => Err(
                    ErrorKind::MinijinjaIntegration(
                        crate::minijinja::MinijinjaErrorKind::MinijinjaRendering {
                            path: dst.clone(),
                            message,
                        },
                    ),
                ),
            }
        },
        PlannedTransformation::Wasm(plan) => {
            let copies = crate::wasm::wasm_copy_steps(&plan, dst);
            let mut steps: Vec<WriteStep> = Vec::new();
            let mut i: usize = 0;
            while i < copies.len()
                invariant
                    0 <= i <= copies@.len(),
                    steps@.len() == i,
                    forall|k: int|
                        0 <= k < i ==> ({
                            &&& (#[trigger] steps@[k]).dst@ == copies@[k].1@
                            &&& steps@[k].content matches WriteContent::CopyFrom(f)
                            &&& f@ == copies@[k].0@
                        }),
                decreases copies@.len() - i,
            {
                steps.push(
                    WriteStep {
                        dst: copies[i].1.clone(),
                        content: WriteContent::CopyFrom(copies[i].0.clone()),
                    },
                );
                i += 1;
            }
            Ok(steps)
        },
    }
}

} // verus!
