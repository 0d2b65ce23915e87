use dollgen::format::FormatErrorKind;
use dollgen::scss::{create, scss_plan, ScssOutcome, ScssTransformer};
use dollgen::wasm::{
    manifest_crate_name, plan_both, plan_typescript_declarations, plan_wasm_with_bindings,
    wasm_artifact_path, wasm_bindgen_dir, wasm_target_dir, WASMErrorKind, WASMPlanKind,
};
use dollgen::{ErrorKind, Transformer};

#[test]
fn manifest_name_is_snake_cased() {
    let name = manifest_crate_name("[package]\nname = \"foo-bar\"\n").unwrap();
    assert_eq!(name, "foo_bar");
}

#[test]
fn manifest_without_package_fails() {
    assert!(matches!(
        manifest_crate_name(""),
        Err(WASMErrorKind::BadManifest { .. })
    ));
}

#[test]
fn manifest_with_non_string_name_fails() {
    assert!(matches!(
        manifest_crate_name("[package]\nname = 3\n"),
        Err(WASMErrorKind::BadManifest { .. })
    ));
}

#[test]
fn build_paths_are_fixed_by_the_inputs() {
    assert_eq!(wasm_target_dir("sites/app"), "target/dollgen/sites/app");
    assert_eq!(
        wasm_artifact_path("t", true, "foo"),
        "t/wasm32-unknown-unknown/release/foo.wasm"
    );
    assert_eq!(
        wasm_artifact_path("t", false, "foo"),
        "t/wasm32-unknown-unknown/debug/foo.wasm"
    );
    assert_eq!(wasm_bindgen_dir("t"), "t/bindgen");
}

#[test]
fn bindings_plan_expands_the_js_path() {
    let caps = vec!["mods".to_string()];
    let plan =
        plan_wasm_with_bindings("b".to_string(), "foo".to_string(), "js/{0}.js", &caps).unwrap();
    assert!(matches!(&plan.kind, WASMPlanKind::Wasm { js } if js == "js/mods.js"));
}

#[test]
fn bindings_plan_rejects_bad_format() {
    let caps: Vec<String> = vec![];
    let err = plan_wasm_with_bindings("b".to_string(), "foo".to_string(), "js/{0}.js", &caps)
        .unwrap_err();
    assert!(matches!(
        err,
        ErrorKind::Format(FormatErrorKind::KeyOutOfRange(k)) if k == "0"
    ));
}

#[test]
fn declarations_plan_keeps_its_inputs() {
    let plan = plan_typescript_declarations("b".to_string(), "foo".to_string());
    assert_eq!(plan.bindgen_dir, "b");
    assert_eq!(plan.crate_name, "foo");
    assert!(matches!(plan.kind, WASMPlanKind::TypescriptDeclarations));
}

#[test]
fn both_plan_expands_both_paths() {
    let caps = vec!["m".to_string()];
    let plan = plan_both("b".to_string(), "foo".to_string(), "j/{0}.js", "t/{0}.d.ts", &caps)
        .unwrap();
    assert!(matches!(
        &plan.kind,
        WASMPlanKind::Both { js, d_ts } if js == "j/m.js" && d_ts == "t/m.d.ts"
    ));
}

#[test]
fn scss_missing_file_is_a_filesystem_error() {
    let mut tf: ScssTransformer = create(grass::Options::default());
    let err = match tf.plan_payload(0, &"no/such/file.scss".to_string(), &vec![]) {
        Err(e) => e,
        Ok(_) => panic!("compiled a stylesheet that does not exist"),
    };
    assert!(matches!(err, ErrorKind::Io { .. }));
}

#[test]
fn manifest_that_is_not_toml_fails() {
    assert!(matches!(
        manifest_crate_name("= nonsense"),
        Err(WASMErrorKind::BadManifest { .. })
    ));
}

#[test]
fn both_plan_reports_the_loader_format_error_first() {
    let caps: Vec<String> = vec![];
    let err = match plan_both("b".to_string(), "foo".to_string(), "j/{0}", "t/{x}", &caps) {
        Err(e) => e,
        Ok(_) => panic!("planning succeeded with bad format strings"),
    };
    assert!(matches!(
        err,
        ErrorKind::Format(FormatErrorKind::KeyOutOfRange(k)) if k == "0"
    ));
}

fn expect_plan_err(r: Result<dollgen::PlannedTransformation, ErrorKind>) -> ErrorKind {
    match r {
        Err(e) => e,
        Ok(_) => panic!("a failing outcome produced a plan"),
    }
}

#[test]
fn scss_outcomes_map_to_their_errors() {
    let r = scss_plan(ScssOutcome::Css("body {}".to_string())).unwrap();
    assert!(matches!(r, dollgen::PlannedTransformation::Text(t) if t == "body {}"));
    let e = expect_plan_err(scss_plan(ScssOutcome::Parse {
        path: "a.scss".to_string(),
        message: "bad".to_string(),
    }));
    assert!(matches!(
        e,
        ErrorKind::SCSSIntegration { path, message } if path == "a.scss" && message == "bad"
    ));
    let e = expect_plan_err(scss_plan(ScssOutcome::Io { message: "gone".to_string() }));
    assert!(matches!(e, ErrorKind::Io { message } if message == "gone"));
    let e = expect_plan_err(scss_plan(ScssOutcome::NonUtf8));
    assert!(matches!(e, ErrorKind::NonUTF8Characters));
    let e = expect_plan_err(scss_plan(ScssOutcome::Other { message: "odd".to_string() }));
    assert!(matches!(e, ErrorKind::Other { message } if message == "odd"));
}
