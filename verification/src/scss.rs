//! Compiles scss/sass stylesheets to css, through the `grass` compiler.

use vstd::prelude::*;

verus! {

use crate::{ErrorKind, PlannedTransformation, Transformer};

#[verifier::external_type_specification]
#[verifier::external_body]
pub struct ExOptions<'a>(grass::Options<'a>);

/// What compiling one stylesheet came to, with the compiler's error split
/// into the kinds the pipeline reports apart.
pub enum ScssOutcome {
    /// the compiled css
    Css(String),
    /// the stylesheet did not parse; `path` names the offending file
    Parse { path: String, message: String },
    /// reading the stylesheet failed
    Io { message: String },
    /// the stylesheet is not UTF-8
    NonUtf8,
    /// another compiler failure
    Other { message: String },
}

/// Compiles the stylesheet at a path.
///
/// Relies on `grass::from_path`: the compiled css, or the compiler's error,
/// told apart by its kind.
#[verifier::external_body]
fn compile_scss(path: &str, options: &grass::Options) -> (r: ScssOutcome)
{
    match grass::from_path(path, options) {
        Ok(css) => ScssOutcome::Css(css),
        Err(err) => match err.kind() {
            grass::ErrorKind::ParseError { message, loc, .. } => ScssOutcome::Parse {
                path: loc.file.name().to_string(),
                message,
            },
            grass::ErrorKind::IoError(io) => ScssOutcome::Io { message: io.to_string() },
            grass::ErrorKind::FromUtf8Error(_) => ScssOutcome::NonUtf8,
            _ => ScssOutcome::Other { message: "sass failure of an unrecognized kind".to_string() },
        },
    }
}

/// The planning result each compilation outcome stands for: compiled css
/// becomes a text transformation; each failure kind becomes the matching
/// pipeline error.
pub fn scss_plan(outcome: ScssOutcome) -> (r: Result<PlannedTransformation, ErrorKind>)
    ensures
        match outcome {
            ScssOutcome::Css(css) => (r matches Ok(p) && p matches PlannedTransformation::Text(t)
                && t@ == css@),
            ScssOutcome::Parse { path, message } => r matches Err(e) && ({
                &&& e matches ErrorKind::SCSSIntegration { path: p2, message: m2 }
                &&& p2@ == path@
                &&& m2@ == message@
            }),
            ScssOutcome::Io { message } => (r matches Err(e) && e matches ErrorKind::Io {
                message: m,
            } && m@ == message@),
            ScssOutcome::NonUtf8 => r matches Err(e) && e is NonUTF8Characters,
            ScssOutcome::Other { message } => (r matches Err(e) && e matches ErrorKind::Other {
                message: m,
            } && m@ == message@),
        },
{
    match outcome {
        ScssOutcome::Css(css) => Ok(PlannedTransformation::Text(css)),
        ScssOutcome::Parse { path, message } => Err(ErrorKind::SCSSIntegration { path, message }),
        ScssOutcome::Io { message } => Err(ErrorKind::Io { message }),
        ScssOutcome::NonUtf8 => Err(ErrorKind::NonUTF8Characters),
        ScssOutcome::Other { message } => Err(ErrorKind::Other { message }),
    }
}

/// A transformer that compiles each matched stylesheet to css.
pub struct ScssTransformer {
    /// the options stylesheets are compiled with
    pub options: grass::Options<'static>,
}

/// Compiles scss/sass with the given options.
pub fn create(options: grass::Options<'static>) -> (r: ScssTransformer)
    ensures
        r.options == options,
{
    ScssTransformer { options }
}

impl Transformer for ScssTransformer {
    fn plan_payload(&mut self, rule_index: usize, src: &String, captures: &Vec<String>) -> Result<
        PlannedTransformation,
        ErrorKind,
    > {
        scss_plan(compile_scss(src.as_str(), &self.options))
    }
}

} // verus!
