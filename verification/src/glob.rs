//! Pattern matching with captures, over the `capturing_glob` crate.
//!
//! A pattern is carried as its source text and compiled where it is used.
//! Matching is case-sensitive, a separator only matches a literal separator,
//! and a leading dot in a path segment is only matched by a literal dot —
//! dotfiles require explicit opt-in.
//!
//! What a pattern matches is named, not restated: `glob_matches(pat, path)`
//! stands for what `capturing_glob::Pattern::matches_path_with` returns under
//! those options, and `glob_pattern_ok(pat)` for whether
//! `capturing_glob::Pattern::new` accepts the text. Filesystem enumeration
//! depends on what is on disk, so nothing is claimed of which entries come
//! back; the engine takes them as input.

use vstd::prelude::*;

verus! {

use crate::ErrorKind;

/// What `capturing_glob::Pattern::matches_path_with` returns for a pattern
/// text and a path under the engine's match options (case-sensitive,
/// separators literal, leading dots literal): a function of the two strings
/// alone.
pub uninterp spec fn glob_matches(pattern: Seq<char>, path: Seq<char>) -> bool;

/// Whether `capturing_glob::Pattern::new` accepts a pattern text: a function
/// of the text alone.
pub uninterp spec fn glob_pattern_ok(pattern: Seq<char>) -> bool;

#[verifier::external_type_specification]
#[verifier::external_body]
pub struct ExEntry(capturing_glob::Entry);

/// One file found for a pattern: its path, the substrings its capturing
/// groups matched, and whether it is a regular file.
#[derive(Debug)]
pub struct GlobEntry {
    /// the matched path
    pub path: String,
    /// the capturing groups' substrings, left to right
    pub captures: Vec<String>,
    /// whether the path is a regular file
    pub file: bool,
}

/// Mathematical image of a `GlobEntry`.
pub ghost struct GlobEntryV {
    pub path: Seq<char>,
    pub captures: Seq<Seq<char>>,
    pub file: bool,
}

impl View for GlobEntry {
    type V = GlobEntryV;

    open spec fn view(&self) -> GlobEntryV {
        GlobEntryV { path: self.path@, captures: self.captures.deep_view(), file: self.file }
    }
}

impl DeepView for GlobEntry {
    type V = GlobEntryV;

    open spec fn deep_view(&self) -> GlobEntryV {
        self.view()
    }
}

/// Validates a pattern text without using it.
///
/// Relies on `capturing_glob::Pattern::new`: it accepts or rejects a pattern
/// text deterministically, reporting a position and message on rejection.
#[verifier::external_body]
pub fn check_pattern(pattern: &str) -> (r: Result<(), ErrorKind>)
    ensures
        r is Ok <==> glob_pattern_ok(pattern@),
        r matches Err(e) ==> e matches ErrorKind::Pattern { pattern: p, pos, msg } && p@
            == pattern@,
{
    match capturing_glob::Pattern::new(pattern) {
        Ok(_) => Ok(()),
        Err(e) => Err(
            ErrorKind::Pattern {
                pattern: pattern.to_string(),
                pos: e.pos,
                msg: e.msg.to_string(),
            },
        ),
    }
}

/// Whether the pattern matches the path.
///
/// Relies on `capturing_glob::Pattern::matches_path_with`, case-sensitive,
/// with literal separators and literal leading dots: its result depends on
/// the pattern and path texts alone.
#[verifier::external_body]
pub fn pattern_matches(pattern: &str, path: &str) -> (r: bool)
    requires
        glob_pattern_ok(pattern@),
    ensures
        r == glob_matches(pattern@, path@),
{
    let options = capturing_glob::MatchOptions {
        case_sensitive: true,
        require_literal_separator: true,
        require_literal_leading_dot: true,
    };
    match capturing_glob::Pattern::new(pattern) {
        Ok(p) => p.matches_path_with(std::path::Path::new(path), &options),
        Err(_) => false,
    }
}

/// Enumerates the filesystem entries matching the pattern, in alphabetical
/// order, stopping at the first traversal failure.
///
/// Relies on `capturing_glob::glob_with`, case-sensitive with literal
/// leading dots (`glob_with` itself makes separators literal): which entries
/// come back depends on what is on disk, so nothing more is claimed.
#[verifier::external_body]
fn glob_entries_raw(pattern: &str) -> (r: Result<Vec<capturing_glob::Entry>, ErrorKind>)
    ensures
        r matches Err(e) ==> (e matches ErrorKind::Pattern { .. } || e matches ErrorKind::Glob {
            ..
        }),
{
    let mut options = capturing_glob::MatchOptions::new();
    options.require_literal_leading_dot = true;
    match capturing_glob::glob_with(pattern, &options) {
        Err(e) => Err(ErrorKind::Pattern {
            pattern: pattern.to_string(),
            pos: e.pos,
            msg: e.msg.to_string(),
        }),
        Ok(entries) => entries.collect::<Result<Vec<_>, _>>().map_err(|e| ErrorKind::Glob {
            path: e.path().display().to_string(),
            message: e.error().to_string(),
        }),
    }
}

/// The entry's path as a string; `None` when it is not UTF-8.
///
/// Relies on `capturing_glob::Entry::path` and `Path::to_str`.
#[verifier::external_body]
fn entry_path_str(e: &capturing_glob::Entry) -> (r: Option<String>)
{
    e.path().to_str().map(|s| s.to_string())
}

/// A capture group looked up on an entry.
pub enum CaptureLookup {
    /// no group with that number
    Missing,
    /// the group's text is not UTF-8
    NonUtf8,
    /// the group's text
    Found(String),
}

/// The text of the entry's capture group `n`; group numbers start at 1
/// (group 0 is the whole path and is never part of the capture list).
///
/// Relies on `capturing_glob::Entry::group` and `OsStr::to_str`.
#[verifier::external_body]
fn entry_group_str(e: &capturing_glob::Entry, n: usize) -> (r: CaptureLookup)
{
    match e.group(n) {
        None => CaptureLookup::Missing,
        Some(os) => match os.to_str() {
            None => CaptureLookup::NonUtf8,
            Some(s) => CaptureLookup::Found(s.to_string()),
        },
    }
}

/// Whether the path names a regular file on disk.
///
/// Relies on `std::path::Path::is_file`.
#[verifier::external_body]
fn path_is_file(p: &str) -> (r: bool)
{
    std::path::Path::new(p).is_file()
}

/// Enumerates the files matching a pattern, with their captures, rejecting
/// non-UTF-8 paths and captures.
pub fn collect_entries(pattern: &str) -> (r: Result<Vec<GlobEntry>, ErrorKind>)
    ensures
        r matches Err(e) ==> (e matches ErrorKind::Pattern { .. } || e matches ErrorKind::Glob {
            ..
        } || e is NonUTF8PathCharacters),
{
    let raw = match glob_entries_raw(pattern) {
        Ok(v) => v,
        Err(e) => {
            return Err(e);
        },
    };
    let mut out: Vec<GlobEntry> = Vec::new();
    let mut i: usize = 0;
    while i < raw.len()
        invariant
            0 <= i <= raw@.len(),
        decreases raw@.len() - i,
    {
        let path = match entry_path_str(&raw[i]) {
            Some(p) => p,
            None => {
                return Err(ErrorKind::NonUTF8PathCharacters);
            },
        };
        let mut captures: Vec<String> = Vec::new();
        let mut n: usize = 1;
        while n < usize::MAX
            invariant
                0 <= i < raw@.len(),
            decreases usize::MAX - n,
        {
            match entry_group_str(&raw[i], n) {
                CaptureLookup::Missing => {
                    break ;
                },
                CaptureLookup::NonUtf8 => {
                    return Err(ErrorKind::NonUTF8PathCharacters);
                },
                CaptureLookup::Found(s) => {
                    captures.push(s);
                },
            }
            n += 1;
        }
        let file = path_is_file(path.as_str());
        out.push(GlobEntry { path, captures, file });
        i += 1;
    }
    Ok(out)
}

} // verus!
