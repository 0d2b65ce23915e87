//! Source languages for templating rules.
//!
//! A language turns a source file into a frontmatter document and a rendered
//! body. Implementations do their own reading and parsing — a markup
//! compiler is an external collaborator the pipeline only calls.

use vstd::prelude::*;

verus! {

use crate::ErrorKind;

/// A source language: reads the file at `src` and hands back its frontmatter
/// text and its rendered body.
pub trait Lang {
    /// Returns `(frontmatter, body)` for the source file, or the error that
    /// aborts the run.
    fn parse(&mut self, src: &String) -> Result<(String, String), ErrorKind>;
}

/// An error while parsing a template source language.
#[derive(Debug)]
pub enum LangErrorKind {
    /// the markdoll compiler reported this many errors
    Markdoll { errors: usize },
}

} // verus!
