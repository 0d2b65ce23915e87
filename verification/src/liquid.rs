//! Compiles liquid templates, based on input languages.
//!
//! A language parses a source file and may provide a frontmatter string,
//! read as TOML: an optional `template` directive choosing the template (see
//! `crate::frontmatter`) and an optional `props` table fed to the template.
//! Compiled templates are cached by path; clear the cache in case template
//! files change between builds.

use vstd::prelude::*;

verus! {

use crate::ErrorKind;
use crate::cache::TemplateCache;
use crate::frontmatter::{Frontmatter, Globals, GlobalsBuilder, directive_view, parse_frontmatter,
    resolve_template, resolve_template_spec};
use crate::lang::Lang;
use crate::{PlannedTransformation, Transformer};

#[verifier::external_type_specification]
#[verifier::external_body]
pub struct ExLiquidParser(liquid::Parser);

#[verifier::external_type_specification]
#[verifier::external_body]
pub struct ExLiquidTemplate(liquid::Template);

/// An error while using liquid templating.
#[derive(Debug)]
pub enum LiquidErrorKind {
    /// template parsing failed for the file at `path`
    LiquidParsing { path: String, message: String },
    /// template rendering failed for the output at `path`
    LiquidRendering { path: String, message: String },
    /// the frontmatter document could not be parsed
    FrontmatterParsing { message: String },
    /// the frontmatter asks for a local template but names an absolute path
    FrontmatterAbsoluteLocalPath { path: String },
}

/// Parses and caches liquid templates: the first `parse` for a path compiles
/// the file, later ones return the same shared handle without re-reading it.
pub struct Liquid {
    /// the parser templates are compiled with
    pub parser: liquid::Parser,
    cache: TemplateCache<liquid::Template>,
}

impl Liquid {
    /// The templates the cache holds, by path.
    pub closed spec fn templates(&self) -> Map<Seq<char>, std::rc::Rc<liquid::Template>> {
        self.cache@
    }

    /// The parser the instance was built around.
    pub closed spec fn parser_of(&self) -> liquid::Parser {
        self.parser
    }

    /// An instance around a liquid parser, with an empty cache.
    pub fn new(parser: liquid::Parser) -> (r: Liquid)
        ensures
            r.templates() == Map::<Seq<char>, std::rc::Rc<liquid::Template>>::empty(),
            r.parser_of() == parser,
    {
        Liquid { parser, cache: TemplateCache::new() }
    }

    /// Parses a template file, or retrieves it from the cache: one compiled
    /// instance per path per cache lifetime. A path already in the cache is
    /// answered from it, without touching the file; a fresh parse is stored
    /// under the path; a parse failure leaves the cache unchanged.
    pub fn parse(&mut self, path: &String) -> (r: Result<
        std::rc::Rc<liquid::Template>,
        ErrorKind,
    >)
        ensures
            old(self).templates().contains_key(path@) ==> ({
                &&& r matches Ok(t)
                &&& t == old(self).templates()[path@]
                &&& final(self).templates() == old(self).templates()
            }),
            r matches Ok(t) ==> ({
                &&& final(self).templates().contains_key(path@)
                &&& t == final(self).templates()[path@]
            }),
            (r is Ok && !old(self).templates().contains_key(path@)) ==> final(self).templates()
                == old(self).templates().insert(path@, r->Ok_0),
            r is Err ==> final(self).templates() == old(self).templates(),
            r matches Err(e) ==> ({
                &&& e matches ErrorKind::LiquidIntegration(k)
                &&& k matches LiquidErrorKind::LiquidParsing { path: p, .. }
                &&& p@ == path@
            }),
            final(self).parser_of() == old(self).parser_of(),
    {
        match self.cache.get(path) {
            Some(t) => Ok(t),
            None => {
                match parse_liquid_file(&self.parser, path.as_str()) {
                    Ok(template) => Ok(self.cache.insert(path.clone(), template)),
                    Err(message) => Err(
                        ErrorKind::LiquidIntegration(
                            LiquidErrorKind::LiquidParsing { path: path.clone(), message },
                        ),
                    ),
                }
            },
        }
    }

    /// Drops every cached template; the next `parse` of each path re-reads
    /// its file from disk.
    pub fn clear_cache(&mut self)
        ensures
            final(self).templates() == Map::<Seq<char>, std::rc::Rc<liquid::Template>>::empty(),
            final(self).parser_of() == old(self).parser_of(),
    {
        self.cache.clear();
    }
}

/// Compiles the template file at a path.
///
/// Relies on `liquid::Parser::parse_file`: the compiled template, or the
/// parser's message on failure.
#[verifier::external_body]
fn parse_liquid_file(parser: &liquid::Parser, path: &str) -> (r: Result<liquid::Template, String>)
{
    parser.parse_file(path).map_err(|e| e.to_string())
}

/// Renders a compiled template with the globals `body` and `props`.
///
/// Relies on `liquid::Template::render`, with the globals built as a liquid
/// object from the given values (`props` absent renders as an empty object).
#[verifier::external_body]
pub(crate) fn render_liquid(template: &liquid::Template, globals: &Globals) -> (r: Result<
    String,
    String,
>)
{
    let mut obj = liquid::Object::new();
    obj.insert("body".into(), liquid::model::Value::scalar(globals.body.clone()));
    let props = match &globals.props {
        Some(props) => liquid::model::to_value(props).map_err(|e| e.to_string())?,
        None => liquid::model::Value::Object(liquid::Object::new()),
    };
    obj.insert("props".into(), props);
    template.render(&obj).map_err(|e| e.to_string())
}

/// The default globals for `create_templated`: the compiled body under
/// `body`, the frontmatter properties under `props`.
pub fn default_globals(src: String, props: Option<toml::Value>, body: String) -> (r: Globals)
    ensures
        r.body == body,
        r.props == props,
{
    Globals { body, props }
}

/// The `GlobalsBuilder` that `default_globals` describes.
pub struct DefaultGlobals;

impl GlobalsBuilder for DefaultGlobals {
    fn build(&mut self, src: &String, props: Option<toml::Value>, body: String) -> Globals {
        default_globals(src.clone(), props, body)
    }
}

/// Chooses the template file for a source file, from its frontmatter, the
/// default template, and this backend's `liquid` extension; a local directive
/// naming an absolute path comes back as this backend's error.
pub fn choose_template(src: &String, frontmatter: &Frontmatter, default_template: &String) -> (r:
    Result<String, ErrorKind>)
    ensures
        match resolve_template_spec(
            src@,
            directive_view(&frontmatter.template),
            default_template@,
            "liquid"@,
        ) {
            Ok(t) => r matches Ok(out) && out@ == t,
            Err(p) => r matches Err(e) && ({
                &&& e matches ErrorKind::LiquidIntegration(k)
                &&& k matches LiquidErrorKind::FrontmatterAbsoluteLocalPath { path }
                &&& path@ == p
            }),
        },
{
    match resolve_template(
        src.as_str(),
        &frontmatter.template,
        default_template.as_str(),
        "liquid",
    ) {
        Ok(t) => Ok(t),
        Err(path) => Err(
            ErrorKind::LiquidIntegration(LiquidErrorKind::FrontmatterAbsoluteLocalPath { path }),
        ),
    }
}

/// A plan to render a liquid template.
pub struct LiquidPlan {
    /// the compiled template
    pub template: std::rc::Rc<liquid::Template>,
    /// the globals it is rendered with
    pub globals: Globals,
}

/// A transformer that compiles a source language and renders it through a
/// liquid template chosen by the source file's frontmatter.
pub struct LiquidTemplated<L, G> {
    /// the template used when a source file does not choose its own
    pub default_template: String,
    /// the parser and template cache
    pub liquid: Liquid,
    /// builds each file's globals
    pub globals: G,
    /// the source language
    pub lang: L,
}

/// Compiles liquid templates + a source language: for each matched file, the
/// language produces frontmatter and a body, the frontmatter chooses the
/// template (with `.liquid` as the engine extension), and the plan renders
/// that template with the file's globals.
pub fn create_templated<L: Lang, G: GlobalsBuilder>(
    default_template: String,
    liquid: Liquid,
    globals: G,
    lang: L,
) -> (r: LiquidTemplated<L, G>)
    ensures
        r.default_template == default_template,
        r.liquid == liquid,
{
    LiquidTemplated { default_template, liquid, globals, lang }
}

/// Plans one templated file: the language parses it, its frontmatter (as a
/// TOML document) chooses the template through `choose_template`, the cache
/// compiles it, and the globals builder shapes the rendering inputs. On
/// success the payload is a liquid plan whose template is the cached
/// compiled instance for the chosen path; the parser and the default
/// template are left as they were.
pub fn plan_templated<L: Lang, G: GlobalsBuilder>(t: &mut LiquidTemplated<L, G>, src: &String) -> (
    r: Result<PlannedTransformation, ErrorKind>)
    ensures
        r matches Ok(p) ==> ({
            &&& p matches PlannedTransformation::Liquid(lp)
            &&& exists|path: Seq<char>|
                final(t).liquid.templates().contains_key(path) && lp.template
                    == #[trigger] final(t).liquid.templates()[path]
        }),
        final(t).liquid.parser_of() == old(t).liquid.parser_of(),
        final(t).default_template == old(t).default_template,
{
    let (frontmatter_text, body) = match t.lang.parse(src) {
        Ok(pair) => pair,
        Err(e) => {
            return Err(e);
        },
    };
    let frontmatter = match parse_frontmatter(frontmatter_text.as_str()) {
        Ok(f) => f,
        Err(message) => {
            return Err(
                ErrorKind::LiquidIntegration(LiquidErrorKind::FrontmatterParsing { message }),
            );
        },
    };
    let template_path = match choose_template(src, &frontmatter, &t.default_template) {
        Ok(c) => c,
        Err(e) => {
            return Err(e);
        },
    };
    let template = match t.liquid.parse(&template_path) {
        Ok(c) => c,
        Err(e) => {
            return Err(e);
        },
    };
    let globals = t.globals.build(src, frontmatter.props, body);
    proof {
        assert(t.liquid.templates().contains_key(template_path@) && template
            == t.liquid.templates()[template_path@]);
    }
    Ok(PlannedTransformation::Liquid(LiquidPlan { template, globals }))
}

impl<L: Lang, G: GlobalsBuilder> Transformer for LiquidTemplated<L, G> {
    fn plan_payload(&mut self, rule_index: usize, src: &String, captures: &Vec<String>) -> Result<
        PlannedTransformation,
        ErrorKind,
    > {
        plan_templated(self, src)
    }
}

/// A transformer that renders each matched file as a standalone liquid
/// template, with no source language in front.
pub struct LiquidStandalone<G> {
    /// the parser and template cache
    pub liquid: Liquid,
    /// builds each file's globals
    pub globals: G,
}

/// Compiles liquid templates standalone: each matched file is itself the
/// template, rendered with globals built from an empty body and no
/// properties.
pub fn create_standalone<G: GlobalsBuilder>(liquid: Liquid, globals: G) -> (r: LiquidStandalone<G>)
    ensures
        r.liquid == liquid,
{
    LiquidStandalone { liquid, globals }
}

/// Plans one standalone file: the file itself is the template, compiled
/// through the cache. On success the payload is a liquid plan whose template
/// is the cached compiled instance for the source path itself.
pub fn plan_standalone<G: GlobalsBuilder>(t: &mut LiquidStandalone<G>, src: &String) -> (r: Result<
    PlannedTransformation,
    ErrorKind,
>)
    ensures
        r matches Ok(p) ==> ({
            &&& p matches PlannedTransformation::Liquid(lp)
            &&& final(t).liquid.templates().contains_key(src@)
            &&& lp.template == final(t).liquid.templates()[src@]
        }),
        final(t).liquid.parser_of() == old(t).liquid.parser_of(),
{
    let template = match t.liquid.parse(src) {
        Ok(c) => c,
        Err(e) => {
            return Err(e);
        },
    };
    let globals = t.globals.build(src, None, String::new());
    Ok(PlannedTransformation::Liquid(LiquidPlan { template, globals }))
}

impl<G: GlobalsBuilder> Transformer for LiquidStandalone<G> {
    fn plan_payload(&mut self, rule_index: usize, src: &String, captures: &Vec<String>) -> Result<
        PlannedTransformation,
        ErrorKind,
    > {
        plan_standalone(self, src)
    }
}

} // verus!
