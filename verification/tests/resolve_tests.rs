use dollgen::frontmatter::{
    assemble_directive, assemble_props, parse_frontmatter, resolve_template, Reading,
    TemplateDirective,
};
use dollgen::util;

#[test]
fn no_directive_uses_default() {
    let r = resolve_template("src/a/page.doll", &None, "templates/default.liquid", "liquid");
    assert_eq!(r.unwrap(), "templates/default.liquid");
}

#[test]
fn local_without_path_uses_source_name() {
    let d = Some(TemplateDirective { path: None, local: true });
    let r = resolve_template("src/a/page.doll", &d, "templates/default.liquid", "liquid");
    assert_eq!(r.unwrap(), "src/a/page.liquid");
}

#[test]
fn local_with_absolute_path_fails() {
    let d = Some(TemplateDirective { path: Some("/abs".to_string()), local: true });
    let r = resolve_template("src/a/page.doll", &d, "templates/default.liquid", "liquid");
    assert_eq!(r.unwrap_err(), "/abs");
}

#[test]
fn local_with_relative_path_is_beside_the_source() {
    let d = Some(TemplateDirective { path: Some("other".to_string()), local: true });
    let r = resolve_template("src/a/page.doll", &d, "templates/default.liquid", "liquid");
    assert_eq!(r.unwrap(), "src/a/other.liquid");
}

#[test]
fn root_relative_path_is_used_as_named() {
    let d = Some(TemplateDirective { path: Some("t.liquid".to_string()), local: true });
    let local = resolve_template("src/a/page.doll", &d, "templates/default.liquid", "liquid");
    assert_eq!(local.unwrap(), "src/a/t.liquid.liquid");
    let d = Some(TemplateDirective { path: Some("t.liquid".to_string()), local: false });
    let r = resolve_template("src/a/page.doll", &d, "templates/default.liquid", "liquid");
    assert_eq!(r.unwrap(), "t.liquid");
}

#[test]
fn directive_without_path_or_local_uses_default() {
    let d = Some(TemplateDirective { path: None, local: false });
    let r = resolve_template("src/a/page.doll", &d, "templates/default.liquid", "liquid");
    assert_eq!(r.unwrap(), "templates/default.liquid");
}

#[test]
fn jinja_extension_composes() {
    let d = Some(TemplateDirective { path: None, local: true });
    let r = resolve_template("src/a/page.doll", &d, "d", "jinja");
    assert_eq!(r.unwrap(), "src/a/page.jinja");
}

#[test]
fn added_extension_composes_with_existing() {
    assert_eq!(util::with_added_extension_but_stable("page", "liquid"), "page.liquid");
    assert_eq!(util::with_added_extension_but_stable("page.txt", "liquid"), "page.txt.liquid");
}

#[test]
fn parent_of_paths() {
    assert_eq!(util::parent("src/a/page.doll"), "src/a");
    assert_eq!(util::parent("page.doll"), "");
    assert_eq!(util::parent("/page.doll"), "/");
}

#[test]
fn join_paths() {
    assert_eq!(util::join("src/a", "t.liquid"), "src/a/t.liquid");
    assert_eq!(util::join("", "t.liquid"), "t.liquid");
    assert_eq!(util::join("/", "t"), "/t");
}

#[test]
fn with_extension_replaces_or_strips() {
    assert_eq!(util::with_extension("a/x.doll", "html"), "a/x.html");
    assert_eq!(util::with_extension("a/x.doll", ""), "a/x");
    assert_eq!(util::with_extension("a/x", "html"), "a/x.html");
    assert_eq!(util::with_extension("a/.gitignore", "liquid"), "a/.gitignore.liquid");
    assert_eq!(util::with_extension("a/x.tar.gz", ""), "a/x.tar");
}

#[test]
fn is_absolute_checks_leading_separator() {
    assert!(util::is_absolute("/abs"));
    assert!(!util::is_absolute("rel/x"));
    assert!(!util::is_absolute(""));
}

#[test]
fn frontmatter_full_document() {
    let text = "[template]\npath = \"t\"\nlocal = true\n\n[props]\nx = 1\n";
    let fm = parse_frontmatter(text).unwrap();
    let d = fm.template.unwrap();
    assert_eq!(d.path.as_deref(), Some("t"));
    assert!(d.local);
    assert!(fm.props.is_some());
}

#[test]
fn frontmatter_empty_document() {
    let fm = parse_frontmatter("").unwrap();
    assert!(fm.template.is_none());
    assert!(fm.props.is_none());
}

#[test]
fn frontmatter_local_defaults_to_false() {
    let fm = parse_frontmatter("[template]\npath = \"t\"\n").unwrap();
    let d = fm.template.unwrap();
    assert!(!d.local);
}

#[test]
fn frontmatter_bad_toml_fails() {
    assert!(parse_frontmatter("= nonsense").is_err());
}

#[test]
fn frontmatter_template_not_a_table_fails() {
    assert!(parse_frontmatter("template = 3").is_err());
}

#[test]
fn frontmatter_path_not_a_string_fails() {
    assert!(parse_frontmatter("[template]\npath = 3\n").is_err());
}

#[test]
fn frontmatter_local_not_a_boolean_fails() {
    assert!(parse_frontmatter("[template]\nlocal = \"yes\"\n").is_err());
}

#[test]
fn frontmatter_props_not_a_table_fails() {
    assert!(parse_frontmatter("props = 3").is_err());
}

#[test]
fn directive_assembles_with_defaults() {
    let d = assemble_directive(Reading::Absent, Reading::Absent).unwrap();
    assert!(d.path.is_none());
    assert!(!d.local);
    let d = assemble_directive(Reading::Found("t".to_string()), Reading::Found(true)).unwrap();
    assert_eq!(d.path.as_deref(), Some("t"));
    assert!(d.local);
}

#[test]
fn directive_rejects_wrong_types_path_first() {
    assert!(assemble_directive(Reading::WrongType, Reading::Found(true)).is_err());
    assert!(assemble_directive(Reading::<String>::WrongType, Reading::WrongType).is_err());
    assert!(assemble_directive(Reading::Found("t".to_string()), Reading::WrongType).is_err());
}

#[test]
fn props_assemble_per_reading() {
    assert!(assemble_props(Reading::Absent).unwrap().is_none());
    assert!(assemble_props(Reading::WrongType).is_err());
    let table = "x = 1".parse::<toml::Table>().unwrap();
    let v = assemble_props(Reading::Found(toml::Value::Table(table))).unwrap();
    assert!(v.is_some());
}

#[test]
fn liquid_choose_template_wraps_the_absolute_path() {
    let fm = parse_frontmatter("[template]\npath = \"/abs\"\nlocal = true\n").unwrap();
    let err = match dollgen::liquid::choose_template(
        &"src/a/page.doll".to_string(),
        &fm,
        &"d".to_string(),
    ) {
        Err(e) => e,
        Ok(_) => panic!("an absolute local path resolved"),
    };
    assert!(matches!(
        &err,
        dollgen::ErrorKind::LiquidIntegration(
            dollgen::liquid::LiquidErrorKind::FrontmatterAbsoluteLocalPath { path }
        ) if path == "/abs"
    ));
}

#[test]
fn minijinja_choose_template_uses_the_jinja_extension() {
    let fm = parse_frontmatter("[template]\nlocal = true\n").unwrap();
    let chosen = dollgen::minijinja::choose_template(
        &"src/a/page.doll".to_string(),
        &fm,
        &"d".to_string(),
    )
    .unwrap();
    assert_eq!(chosen, "src/a/page.jinja");
}
