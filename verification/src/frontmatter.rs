//! Frontmatter: the structured header a source language hands back beside a
//! rendered body. It is a TOML document with two optional keys: `template`,
//! which selects the template file, and `props`, a property bag passed
//! through to the template.
//!
//! Template selection follows a local/root/default priority:
//! - no `template` key: the caller's default template;
//! - `template.local = true` with a path: that path, relative to the source
//!   file's directory (an absolute path is an error);
//! - `template.local = true` without a path: the source file's own name with
//!   its extension replaced by the engine's;
//! - `template.local = false` (or unset) with a path: that path, relative to
//!   the build root;
//! - `template.local = false` without a path: the default template.
//!
//! A local choice names the template through the source file, so the engine's
//! extension is then appended, composing with any extension already there: a
//! data file keeps its human-meaningful name while still being recognized as
//! a template source. A root-relative path and the default template name
//! their file as it is.

use vstd::prelude::*;

verus! {

use crate::util;

/// The `template` directive of a frontmatter: an optional explicit path and
/// whether that path is local to the source file.
#[derive(Debug)]
pub struct TemplateDirective {
    /// the explicit template path, where given
    pub path: Option<String>,
    /// whether the template is looked up beside the source file
    pub local: bool,
}

/// Mathematical image of a `TemplateDirective`.
pub ghost struct TemplateDirectiveV {
    pub path: Option<Seq<char>>,
    pub local: bool,
}

impl View for TemplateDirective {
    type V = TemplateDirectiveV;

    open spec fn view(&self) -> TemplateDirectiveV {
        TemplateDirectiveV {
            path: match self.path {
                Some(p) => Some(p@),
                None => None,
            },
            local: self.local,
        }
    }
}

/// A parsed frontmatter: the template directive and the property bag, each
/// optional. The properties stay an opaque TOML value handed through to the
/// template engine.
pub struct Frontmatter {
    /// the template-selection directive
    pub template: Option<TemplateDirective>,
    /// the properties passed through to the template
    pub props: Option<toml::Value>,
}

/// The globals a template is rendered with: the compiled body of the source
/// document and the frontmatter's property bag.
pub struct Globals {
    /// the rendered body of the source document
    pub body: String,
    /// the frontmatter's property bag, passed through to the template
    pub props: Option<toml::Value>,
}

/// Builds the globals for one matched file. The pipeline hands it the source
/// path, the frontmatter properties and the compiled body; callers with no
/// special needs use the default, which passes `body` and `props` through.
pub trait GlobalsBuilder {
    /// Returns the globals for one file.
    fn build(&mut self, src: &String, props: Option<toml::Value>, body: String) -> Globals;
}

/// Mathematical image of an optional template directive.
pub open spec fn directive_view(d: &Option<TemplateDirective>) -> Option<TemplateDirectiveV> {
    match d {
        Some(x) => Some(x@),
        None => None,
    }
}

/// What `resolve_template` returns: the chosen template path, or the
/// offending absolute path when a local directive names one.
pub open spec fn resolve_template_spec(
    src: Seq<char>,
    directive: Option<TemplateDirectiveV>,
    default_template: Seq<char>,
    engine_ext: Seq<char>,
) -> Result<Seq<char>, Seq<char>> {
    match directive {
        None => Ok(default_template),
        Some(d) => {
            if d.local {
                match d.path {
                    Some(p) => if util::is_absolute_spec(p) {
                        Err(p)
                    } else {
                        Ok(
                            util::added_extension_spec(
                                util::join_spec(util::parent_spec(src), p),
                                engine_ext,
                            ),
                        )
                    },
                    None => Ok(
                        util::added_extension_spec(
                            util::with_extension_spec(src, Seq::empty()),
                            engine_ext,
                        ),
                    ),
                }
            } else {
                match d.path {
                    Some(p) => Ok(p),
                    None => Ok(default_template),
                }
            }
        },
    }
}

/// Resolves which template file applies to a source file, from its
/// frontmatter directive, the caller's default template, and the template
/// engine's file extension. `Err` carries the offending path when a local
/// directive names an absolute one.
pub fn resolve_template(
    src: &str,
    directive: &Option<TemplateDirective>,
    default_template: &str,
    engine_ext: &str,
) -> (r: Result<String, String>)
    ensures
        match resolve_template_spec(src@, directive_view(directive), default_template@, engine_ext@) {
            Ok(t) => r matches Ok(out) && out@ == t,
            Err(p) => r matches Err(out) && out@ == p,
        },
{
    proof {
        reveal_strlit("");
        assert(""@ =~= Seq::<char>::empty());
    }
    match directive {
        None => Ok(default_template.to_owned()),
        Some(d) => {
            if d.local {
                let base = match &d.path {
                    Some(p) => {
                        if util::is_absolute(p.as_str()) {
                            return Err(p.clone());
                        }
                        let dir = util::parent(src);
                        util::join(dir.as_str(), p.as_str())
                    },
                    None => util::with_extension(src, ""),
                };
                Ok(util::with_added_extension_but_stable(base.as_str(), engine_ext))
            } else {
                match &d.path {
                    Some(p) => Ok(p.clone()),
                    None => Ok(default_template.to_owned()),
                }
            }
        },
    }
}

#[verifier::external_type_specification]
#[verifier::external_body]
pub struct ExTomlValue(toml::Value);

#[verifier::external_type_specification]
#[verifier::external_body]
#[verifier::reject_recursive_types(K)]
#[verifier::reject_recursive_types(V)]
pub struct ExTomlMap<K, V>(toml::map::Map<K, V>);

/// Whether `str::parse::<toml::Table>` accepts a document: a function of the
/// text alone.
pub uninterp spec fn toml_parse_ok(text: Seq<char>) -> bool;

/// Parses a TOML document into a table.
///
/// Relies on `str::parse::<toml::Table>`: it accepts or rejects a document
/// deterministically; on failure the parser's message comes back.
#[verifier::external_body]
pub(crate) fn parse_toml_table(text: &str) -> (r: Result<toml::Table, String>)
    ensures
        r is Ok <==> toml_parse_ok(text@),
{
    text.parse::<toml::Table>().map_err(|e| e.to_string())
}

/// How a key read from a TOML table came back: absent, present with the
/// wrong type, or present with the value expected.
pub enum Reading<T> {
    /// the table has no such key
    Absent,
    /// the key is there but its value has another type
    WrongType,
    /// the key's value
    Found(T),
}

/// The table under a key, told apart from an absent key and a value of
/// another type.
///
/// Relies on `toml::map::Map::get` and `toml::Value::as_table`.
#[verifier::external_body]
pub(crate) fn table_get_table<'a>(table: &'a toml::Table, key: &str) -> (r: Reading<
    &'a toml::Table,
>)
{
    match table.get(key) {
        None => Reading::Absent,
        Some(v) => match v.as_table() {
            None => Reading::WrongType,
            Some(t) => Reading::Found(t),
        },
    }
}

/// The string under a key, told apart from an absent key and a value of
/// another type.
///
/// Relies on `toml::map::Map::get` and `toml::Value::as_str`.
#[verifier::external_body]
pub(crate) fn table_get_str(table: &toml::Table, key: &str) -> (r: Reading<String>)
{
    match table.get(key) {
        None => Reading::Absent,
        Some(v) => match v.as_str() {
            None => Reading::WrongType,
            Some(s) => Reading::Found(s.to_string()),
        },
    }
}

/// The boolean under a key, told apart from an absent key and a value of
/// another type.
///
/// Relies on `toml::map::Map::get` and `toml::Value::as_bool`.
#[verifier::external_body]
pub(crate) fn table_get_bool(table: &toml::Table, key: &str) -> (r: Reading<bool>)
{
    match table.get(key) {
        None => Reading::Absent,
        Some(v) => match v.as_bool() {
            None => Reading::WrongType,
            Some(b) => Reading::Found(b),
        },
    }
}

/// A copy of the table value under a key, told apart from an absent key and
/// a value of another type.
///
/// Relies on `toml::map::Map::get`, `toml::Value::is_table` and
/// `toml::Value::clone`.
#[verifier::external_body]
pub(crate) fn table_get_table_value(table: &toml::Table, key: &str) -> (r: Reading<toml::Value>)
{
    match table.get(key) {
        None => Reading::Absent,
        Some(v) => if v.is_table() {
            Reading::Found(v.clone())
        } else {
            Reading::WrongType
        },
    }
}

/// Assembles a template directive from what the `template` table held: the
/// directive's path is the `path` string where one was read (checked first),
/// its `local` flag is the `local` boolean, false where absent; a value of
/// the wrong type is an error.
pub fn assemble_directive(path: Reading<String>, local: Reading<bool>) -> (r: Result<
    TemplateDirective,
    String,
>)
    ensures
        match path {
            Reading::WrongType => r is Err,
            Reading::Absent => match local {
                Reading::WrongType => r is Err,
                Reading::Absent => r matches Ok(d) && d.path is None && d.local == false,
                Reading::Found(b) => r matches Ok(d) && d.path is None && d.local == b,
            },
            Reading::Found(p) => match local {
                Reading::WrongType => r is Err,
                Reading::Absent => (r matches Ok(d) && d.path matches Some(q) && q@ == p@
                    && d.local == false),
                Reading::Found(b) => (r matches Ok(d) && d.path matches Some(q) && q@ == p@
                    && d.local == b),
            },
        },
{
    let path = match path {
        Reading::Absent => None,
        Reading::WrongType => {
            return Err("the template path is not a string".to_owned());
        },
        Reading::Found(p) => Some(p),
    };
    let local = match local {
        Reading::Absent => false,
        Reading::WrongType => {
            return Err("the template local flag is not a boolean".to_owned());
        },
        Reading::Found(b) => b,
    };
    Ok(TemplateDirective { path, local })
}

/// Assembles the property bag from what the `props` key held: absent means
/// none, a table passes through, anything else is an error.
pub fn assemble_props(props: Reading<toml::Value>) -> (r: Result<Option<toml::Value>, String>)
    ensures
        match props {
            Reading::Absent => r matches Ok(p) && p is None,
            Reading::WrongType => r is Err,
            Reading::Found(v) => r matches Ok(p) && p matches Some(out) && out == v,
        },
{
    match props {
        Reading::Absent => Ok(None),
        Reading::WrongType => Err("the props key is not a table".to_owned()),
        Reading::Found(v) => Ok(Some(v)),
    }
}

/// Parses a frontmatter document: an optional `template` table with an
/// optional string `path` and boolean `local` (false when absent), and an
/// optional `props` table. `Err` carries a message naming what was wrong.
///
/// What the keys held decides the rest: `assemble_directive` and
/// `assemble_props` fix the outcome for every reading.
pub fn parse_frontmatter(text: &str) -> (r: Result<Frontmatter, String>)
    ensures
        r is Ok ==> toml_parse_ok(text@),
        !toml_parse_ok(text@) ==> r is Err,
{
    let table = match parse_toml_table(text) {
        Ok(t) => t,
        Err(msg) => {
            return Err(msg);
        },
    };
    let template = match table_get_table(&table, "template") {
        Reading::Absent => None,
        Reading::WrongType => {
            return Err("the template key is not a table".to_owned());
        },
        Reading::Found(t) => {
            let path = table_get_str(t, "path");
            let local = table_get_bool(t, "local");
            match assemble_directive(path, local) {
                Ok(d) => Some(d),
                Err(msg) => {
                    return Err(msg);
                },
            }
        },
    };
    let props = match assemble_props(table_get_table_value(&table, "props")) {
        Ok(p) => p,
        Err(msg) => {
            return Err(msg);
        },
    };
    Ok(Frontmatter { template, props })
}

} // verus!
