use dollgen::frontmatter::Globals;
use dollgen::liquid::{Liquid, LiquidErrorKind, LiquidPlan};
use dollgen::minijinja::MinijinjaPlan;
use dollgen::wasm::{WASMPlan, WASMPlanKind};
use dollgen::{render_payload, ErrorKind, PlannedTransformation, WriteContent};
use std::rc::Rc;

fn props_table(text: &str) -> toml::Value {
    toml::Value::Table(text.parse::<toml::Table>().unwrap())
}

#[test]
fn noop_writes_nothing() {
    let steps = render_payload(PlannedTransformation::Noop, &"o".to_string()).unwrap();
    assert!(steps.is_empty());
}

#[test]
fn blob_writes_bytes() {
    let steps =
        render_payload(PlannedTransformation::Blob(vec![1, 2, 3]), &"o.bin".to_string()).unwrap();
    assert_eq!(steps.len(), 1);
    assert_eq!(steps[0].dst, "o.bin");
    assert!(matches!(&steps[0].content, WriteContent::Bytes(b) if b == &vec![1, 2, 3]));
}

#[test]
fn text_writes_utf8_bytes() {
    let steps =
        render_payload(PlannedTransformation::Text("héllo".to_string()), &"o.txt".to_string())
            .unwrap();
    assert_eq!(steps.len(), 1);
    assert!(matches!(&steps[0].content, WriteContent::Bytes(b) if b.as_slice() == "héllo".as_bytes()));
}

#[test]
fn copy_from_names_the_source() {
    let steps =
        render_payload(PlannedTransformation::CopyFrom("a/b".to_string()), &"o".to_string())
            .unwrap();
    assert_eq!(steps.len(), 1);
    assert_eq!(steps[0].dst, "o");
    assert!(matches!(&steps[0].content, WriteContent::CopyFrom(f) if f == "a/b"));
}

#[test]
fn liquid_renders_body() {
    let parser = liquid::ParserBuilder::with_stdlib().build().unwrap();
    let template = parser.parse("Hello {{ body }}!").unwrap();
    let plan = LiquidPlan {
        template: Rc::new(template),
        globals: Globals { body: "World".to_string(), props: None },
    };
    let steps =
        render_payload(PlannedTransformation::Liquid(plan), &"o.html".to_string()).unwrap();
    assert_eq!(steps.len(), 1);
    assert_eq!(steps[0].dst, "o.html");
    assert!(matches!(&steps[0].content, WriteContent::Bytes(b) if b.as_slice() == b"Hello World!"));
}

#[test]
fn liquid_renders_props() {
    let parser = liquid::ParserBuilder::with_stdlib().build().unwrap();
    let template = parser.parse("x is {{ props.x }}").unwrap();
    let plan = LiquidPlan {
        template: Rc::new(template),
        globals: Globals { body: String::new(), props: Some(props_table("x = 1")) },
    };
    let steps =
        render_payload(PlannedTransformation::Liquid(plan), &"o.html".to_string()).unwrap();
    assert!(matches!(&steps[0].content, WriteContent::Bytes(b) if b.as_slice() == b"x is 1"));
}

#[test]
fn liquid_render_failure_names_the_destination() {
    let parser = liquid::ParserBuilder::with_stdlib().build().unwrap();
    let template = parser.parse("{{ missing }}").unwrap();
    let plan = LiquidPlan {
        template: Rc::new(template),
        globals: Globals { body: String::new(), props: None },
    };
    let err =
        render_payload(PlannedTransformation::Liquid(plan), &"o.html".to_string()).unwrap_err();
    assert!(matches!(
        &err,
        ErrorKind::LiquidIntegration(LiquidErrorKind::LiquidRendering { path, .. }) if path == "o.html"
    ));
}

#[test]
fn minijinja_renders_body_and_props() {
    let mut env = minijinja::Environment::new();
    env.add_template("t", "Hello {{ body }}, x is {{ props.x }}").unwrap();
    let plan = MinijinjaPlan {
        env: Rc::new(env),
        template: "t".to_string(),
        globals: Globals { body: "World".to_string(), props: Some(props_table("x = 2")) },
    };
    let steps =
        render_payload(PlannedTransformation::Minijinja(plan), &"o.html".to_string()).unwrap();
    assert_eq!(steps.len(), 1);
    assert_eq!(steps[0].dst, "o.html");
    assert!(matches!(
        &steps[0].content,
        WriteContent::Bytes(b) if b.as_slice() == b"Hello World, x is 2"
    ));
}

#[test]
fn minijinja_missing_template_names_the_destination() {
    let env = minijinja::Environment::new();
    let plan = MinijinjaPlan {
        env: Rc::new(env),
        template: "absent".to_string(),
        globals: Globals { body: String::new(), props: None },
    };
    let err =
        render_payload(PlannedTransformation::Minijinja(plan), &"o.html".to_string()).unwrap_err();
    assert!(matches!(
        &err,
        ErrorKind::MinijinjaIntegration(
            dollgen::minijinja::MinijinjaErrorKind::MinijinjaRendering { path, .. }
        ) if path == "o.html"
    ));
}

#[test]
fn wasm_plan_copies_every_output() {
    let plan = WASMPlan {
        bindgen_dir: "target/b".to_string(),
        crate_name: "foo".to_string(),
        kind: WASMPlanKind::Both { js: "out/j.js".to_string(), d_ts: "out/t.d.ts".to_string() },
    };
    let steps =
        render_payload(PlannedTransformation::Wasm(plan), &"out/m.wasm".to_string()).unwrap();
    assert_eq!(steps.len(), 3);
    assert_eq!(steps[0].dst, "out/m.wasm");
    assert!(matches!(&steps[0].content, WriteContent::CopyFrom(f) if f == "target/b/foo_bg.wasm"));
    assert_eq!(steps[1].dst, "out/j.js");
    assert!(matches!(&steps[1].content, WriteContent::CopyFrom(f) if f == "target/b/foo.js"));
    assert_eq!(steps[2].dst, "out/t.d.ts");
    assert!(matches!(&steps[2].content, WriteContent::CopyFrom(f) if f == "target/b/foo.d.ts"));
}

#[test]
fn wasm_declarations_plan_copies_one_file() {
    let plan = WASMPlan {
        bindgen_dir: "b".to_string(),
        crate_name: "foo".to_string(),
        kind: WASMPlanKind::TypescriptDeclarations,
    };
    let steps = render_payload(PlannedTransformation::Wasm(plan), &"o.d.ts".to_string()).unwrap();
    assert_eq!(steps.len(), 1);
    assert_eq!(steps[0].dst, "o.d.ts");
    assert!(matches!(&steps[0].content, WriteContent::CopyFrom(f) if f == "b/foo.d.ts"));
}

struct FixedLang {
    frontmatter: &'static str,
    body: &'static str,
}

impl dollgen::lang::Lang for FixedLang {
    fn parse(&mut self, _src: &String) -> Result<(String, String), ErrorKind> {
        Ok((self.frontmatter.to_string(), self.body.to_string()))
    }
}

#[test]
fn templated_liquid_reports_the_chosen_template_on_parse_failure() {
    let parser = liquid::ParserBuilder::with_stdlib().build().unwrap();
    let mut tf = dollgen::liquid::create_templated(
        "d".to_string(),
        Liquid::new(parser),
        dollgen::liquid::DefaultGlobals,
        FixedLang { frontmatter: "[template]\nlocal = true\n", body: "b" },
    );
    let err = match dollgen::liquid::plan_templated(&mut tf, &"pages/about.doll".to_string()) {
        Err(e) => e,
        Ok(_) => panic!("planned against a template that does not exist"),
    };
    assert!(matches!(
        &err,
        ErrorKind::LiquidIntegration(LiquidErrorKind::LiquidParsing { path, .. })
            if path == "pages/about.liquid"
    ));
}

#[test]
fn standalone_minijinja_names_the_source_as_the_template() {
    let mut tf = dollgen::minijinja::create_standalone(
        Rc::new(minijinja::Environment::new()),
        dollgen::minijinja::DefaultGlobals,
    );
    let payload =
        dollgen::minijinja::plan_standalone(&mut tf, &"pages/x.jinja".to_string()).unwrap();
    assert!(matches!(
        &payload,
        PlannedTransformation::Minijinja(mp) if mp.template == "pages/x.jinja"
    ));
}
