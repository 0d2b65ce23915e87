//! Compiles jinja templates, based on input languages.
//!
//! A language parses a source file and may provide a frontmatter string,
//! read as TOML: an optional `template` directive choosing the template (see
//! `crate::frontmatter`) and an optional `props` table fed to the template.
//! Templates live in a shared `minijinja::Environment`, looked up by name at
//! render time.

use vstd::prelude::*;

verus! {

use crate::ErrorKind;
use crate::cache::rc_clone;
use crate::frontmatter::{Frontmatter, Globals, GlobalsBuilder, directive_view, parse_frontmatter,
    resolve_template, resolve_template_spec};
use crate::lang::Lang;
use crate::{PlannedTransformation, Transformer};

#[verifier::external_type_specification]
#[verifier::external_body]
pub struct ExEnvironment<'a>(minijinja::Environment<'a>);

/// An error while using jinja templating.
#[derive(Debug)]
pub enum MinijinjaErrorKind {
    /// template parsing failed for the file at `path`
    MinijinjaParsing { path: String, message: String },
    /// template rendering failed for the output at `path`
    MinijinjaRendering { path: String, message: String },
    /// the frontmatter document could not be parsed
    FrontmatterParsing { message: String },
    /// the frontmatter asks for a local template but names an absolute path
    FrontmatterAbsoluteLocalPath { path: String },
}

/// Chooses the template for a source file, from its frontmatter, the default
/// template, and this backend's `jinja` extension; a local directive naming
/// an absolute path comes back as this backend's error.
pub fn choose_template(src: &String, frontmatter: &Frontmatter, default_template: &String) -> (r:
    Result<String, ErrorKind>)
    ensures
        match resolve_template_spec(
            src@,
            directive_view(&frontmatter.template),
            default_template@,
            "jinja"@,
        ) {
            Ok(t) => r matches Ok(out) && out@ == t,
            Err(p) => r matches Err(e) && ({
                &&& e matches ErrorKind::MinijinjaIntegration(k)
                &&& k matches MinijinjaErrorKind::FrontmatterAbsoluteLocalPath { path }
                &&& path@ == p
            }),
        },
{
    match resolve_template(
        src.as_str(),
        &frontmatter.template,
        default_template.as_str(),
        "jinja",
    ) {
        Ok(t) => Ok(t),
        Err(path) => Err(
            ErrorKind::MinijinjaIntegration(
                MinijinjaErrorKind::FrontmatterAbsoluteLocalPath { path },
            ),
        ),
    }
}

/// A plan to render a jinja template.
pub struct MinijinjaPlan {
    /// the environment the template lives in
    pub env: std::rc::Rc<minijinja::Environment<'static>>,
    /// the template's name in that environment
    pub template: String,
    /// the globals it is rendered with
    pub globals: Globals,
}

/// Renders the named template from the environment with the globals `body`
/// and `props`.
///
/// Relies on `minijinja::Environment::get_template` and
/// `minijinja::Template::render` (`props` absent renders as undefined).
#[verifier::external_body]
pub(crate) fn render_minijinja(
    env: &minijinja::Environment<'static>,
    name: &str,
    globals: &Globals,
) -> (r: Result<String, String>)
{
    let template = env.get_template(name).map_err(|e| e.to_string())?;
    let mut ctx = std::collections::BTreeMap::new();
    ctx.insert("body", minijinja::Value::from(globals.body.as_str()));
    match &globals.props {
        Some(props) => {
            ctx.insert("props", minijinja::Value::from_serialize(props));
        },
        None => {
            ctx.insert("props", minijinja::Value::UNDEFINED);
        },
    }
    template.render(minijinja::Value::from_serialize(&ctx)).map_err(|e| e.to_string())
}

/// The default globals for `create_templated`: the compiled body under
/// `body`, the frontmatter properties under `props`.
pub fn default_globals(src: String, props: Option<toml::Value>, body: String) -> (r: Globals)
    ensures
        r.body == body,
        r.props == props,
{
    Globals { body, props }
}

/// The `GlobalsBuilder` that `default_globals` describes.
pub struct DefaultGlobals;

impl GlobalsBuilder for DefaultGlobals {
    fn build(&mut self, src: &String, props: Option<toml::Value>, body: String) -> Globals {
        default_globals(src.clone(), props, body)
    }
}

/// A transformer that compiles a source language and renders it through a
/// jinja template chosen by the source file's frontmatter.
pub struct MinijinjaTemplated<L, G> {
    /// the template used when a source file does not choose its own
    pub default_template: String,
    /// the shared environment templates are looked up in
    pub env: std::rc::Rc<minijinja::Environment<'static>>,
    /// builds each file's globals
    pub globals: G,
    /// the source language
    pub lang: L,
}

/// Compiles jinja templates + a source language: for each matched file, the
/// language produces frontmatter and a body, the frontmatter chooses the
/// template (with `.jinja` as the engine extension), and the plan renders
/// that template, by name, from the shared environment.
pub fn create_templated<L: Lang, G: GlobalsBuilder>(
    default_template: String,
    env: std::rc::Rc<minijinja::Environment<'static>>,
    globals: G,
    lang: L,
) -> (r: MinijinjaTemplated<L, G>)
    ensures
        r.default_template == default_template,
        r.env == env,
{
    MinijinjaTemplated { default_template, env, globals, lang }
}

/// Plans one templated file: the language parses it, its frontmatter (as a
/// TOML document) chooses the template's name through `choose_template`, and
/// the globals builder shapes the rendering inputs. On success the payload is
/// a jinja plan rendering from the shared environment; the environment handle
/// and the default template are left as they were.
pub fn plan_templated<L: Lang, G: GlobalsBuilder>(t: &mut MinijinjaTemplated<L, G>, src: &String)
    -> (r: Result<PlannedTransformation, ErrorKind>)
    ensures
        r matches Ok(p) ==> ({
            &&& p matches PlannedTransformation::Minijinja(mp)
            &&& mp.env == old(t).env
        }),
        final(t).env == old(t).env,
        final(t).default_template == old(t).default_template,
{
    let (frontmatter_text, body) = match t.lang.parse(src) {
        Ok(pair) => pair,
        Err(e) => {
            return Err(e);
        },
    };
    let frontmatter = match parse_frontmatter(frontmatter_text.as_str()) {
        Ok(f) => f,
        Err(message) => {
            return Err(
                ErrorKind::MinijinjaIntegration(MinijinjaErrorKind::FrontmatterParsing { message }),
            );
        },
    };
    let template = match choose_template(src, &frontmatter, &t.default_template) {
        Ok(c) => c,
        Err(e) => {
            return Err(e);
        },
    };
    let globals = t.globals.build(src, frontmatter.props, body);
    Ok(
        PlannedTransformation::Minijinja(
            MinijinjaPlan { env: rc_clone(&t.env), template, globals },
        ),
    )
}

impl<L: Lang, G: GlobalsBuilder> Transformer for MinijinjaTemplated<L, G> {
    fn plan_payload(&mut self, rule_index: usize, src: &String, captures: &Vec<String>) -> Result<
        PlannedTransformation,
        ErrorKind,
    > {
        plan_templated(self, src)
    }
}

/// A transformer that renders each matched file as a jinja template named by
/// its own path, with no source language in front.
pub struct MinijinjaStandalone<G> {
    /// the shared environment templates are looked up in
    pub env: std::rc::Rc<minijinja::Environment<'static>>,
    /// builds each file's globals
    pub globals: G,
}

/// Compiles jinja templates standalone: each matched file's path is the
/// template name, rendered with globals built from an empty body and no
/// properties.
pub fn create_standalone<G: GlobalsBuilder>(
    env: std::rc::Rc<minijinja::Environment<'static>>,
    globals: G,
) -> (r: MinijinjaStandalone<G>)
    ensures
        r.env == env,
{
    MinijinjaStandalone { env, globals }
}

/// Plans one standalone file: its own path is the template's name in the
/// shared environment. Always succeeds, with a jinja plan naming exactly the
/// source path.
pub fn plan_standalone<G: GlobalsBuilder>(t: &mut MinijinjaStandalone<G>, src: &String) -> (r:
    Result<PlannedTransformation, ErrorKind>)
    ensures
        r matches Ok(p) && ({
            &&& p matches PlannedTransformation::Minijinja(mp)
            &&& mp.env == old(t).env
            &&& mp.template@ == src@
        }),
        final(t).env == old(t).env,
{
    let globals = t.globals.build(src, None, String::new());
    Ok(
        PlannedTransformation::Minijinja(
            MinijinjaPlan { env: rc_clone(&t.env), template: src.clone(), globals },
        ),
    )
}

impl<G: GlobalsBuilder> Transformer for MinijinjaStandalone<G> {
    fn plan_payload(&mut self, rule_index: usize, src: &String, captures: &Vec<String>) -> Result<
        PlannedTransformation,
        ErrorKind,
    > {
        plan_standalone(self, src)
    }
}

} // verus!
