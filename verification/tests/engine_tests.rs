use dollgen::format::FormatErrorKind;
use dollgen::glob::GlobEntry;
use dollgen::{
    plan, plan_prepared, select, BuiltinTransformer, ErrorKind, PlannedTransformation, Rule,
};

fn rule(globs: &[&str], ignore: &[&str], dst: &str) -> Rule {
    Rule {
        globs: globs.iter().map(|s| s.to_string()).collect(),
        ignore: ignore.iter().map(|s| s.to_string()).collect(),
        dst: dst.to_string(),
    }
}

fn expect_err(r: Result<Vec<dollgen::Plan>, ErrorKind>) -> ErrorKind {
    match r {
        Err(e) => e,
        Ok(_) => panic!("planning succeeded where it had to fail"),
    }
}

fn entry(path: &str, captures: &[&str], file: bool) -> GlobEntry {
    GlobEntry {
        path: path.to_string(),
        captures: captures.iter().map(|s| s.to_string()).collect(),
        file,
    }
}

#[test]
fn earlier_rule_wins() {
    let rules = vec![rule(&["src/**"], &[], "a/{0}"), rule(&["src/**"], &[], "b/{0}")];
    let matched = vec![
        vec![vec![entry("src/f.txt", &["x"], true)]],
        vec![vec![entry("src/f.txt", &["x"], true)]],
    ];
    let mut tf = BuiltinTransformer::Copy;
    let plans = plan_prepared(&rules, &matched, &mut tf).unwrap();
    assert_eq!(plans.len(), 1);
    assert_eq!(plans[0].dst, "a/x");
    assert!(matches!(&plans[0].data, PlannedTransformation::CopyFrom(p) if p == "src/f.txt"));
}

#[test]
fn earlier_glob_of_one_rule_wins() {
    let rules = vec![rule(&["pages/**", "pages/special/**"], &[], "out/{0}")];
    let matched = vec![vec![
        vec![entry("pages/special/f.txt", &["first"], true)],
        vec![entry("pages/special/f.txt", &["second"], true)],
    ]];
    let mut tf = BuiltinTransformer::Noop;
    let plans = plan_prepared(&rules, &matched, &mut tf).unwrap();
    assert_eq!(plans.len(), 1);
    assert_eq!(plans[0].dst, "out/first");
}

#[test]
fn exclusion_overrides_inclusion() {
    let rules = vec![rule(&["(**)/*.txt"], &["skip/**"], "out/{0}")];
    let matched = vec![vec![vec![
        entry("skip/f.txt", &["skip"], true),
        entry("keep/g.txt", &["keep"], true),
    ]]];
    let mut tf = BuiltinTransformer::Noop;
    let plans = plan_prepared(&rules, &matched, &mut tf).unwrap();
    assert_eq!(plans.len(), 1);
    assert_eq!(plans[0].dst, "out/keep");
}

#[test]
fn excluded_file_still_open_to_later_rules() {
    let rules = vec![
        rule(&["**"], &["skip/**"], "a/{0}"),
        rule(&["**"], &[], "b/{0}"),
    ];
    let matched = vec![
        vec![vec![entry("skip/f.txt", &["x"], true)]],
        vec![vec![entry("skip/f.txt", &["x"], true)]],
    ];
    let mut tf = BuiltinTransformer::Noop;
    let plans = plan_prepared(&rules, &matched, &mut tf).unwrap();
    assert_eq!(plans.len(), 1);
    assert_eq!(plans[0].dst, "b/x");
}

#[test]
fn non_files_are_skipped() {
    let rules = vec![rule(&["**"], &[], "out/{0}")];
    let matched = vec![vec![vec![
        entry("somedir", &["somedir"], false),
        entry("somefile", &["somefile"], true),
    ]]];
    let mut tf = BuiltinTransformer::Noop;
    let plans = plan_prepared(&rules, &matched, &mut tf).unwrap();
    assert_eq!(plans.len(), 1);
    assert_eq!(plans[0].dst, "out/somefile");
}

#[test]
fn same_file_claimed_once() {
    let rules = vec![rule(&["**"], &[], "out/{0}")];
    let matched = vec![vec![vec![
        entry("f.txt", &["a"], true),
        entry("f.txt", &["b"], true),
    ]]];
    let mut tf = BuiltinTransformer::Noop;
    let plans = plan_prepared(&rules, &matched, &mut tf).unwrap();
    assert_eq!(plans.len(), 1);
    assert_eq!(plans[0].dst, "out/a");
}

#[test]
fn planning_failure_yields_no_plans() {
    // the third of five matched files fails to expand: the whole run fails
    // before anything could be written
    let rules = vec![rule(&["**"], &[], "{0}")];
    let matched = vec![vec![vec![
        entry("c1", &["c1"], true),
        entry("c2", &["c2"], true),
        entry("c3", &[], true),
        entry("c4", &["c4"], true),
        entry("c5", &["c5"], true),
    ]]];
    let mut tf = BuiltinTransformer::Noop;
    let err = expect_err(plan_prepared(&rules, &matched, &mut tf));
    assert!(matches!(
        &err,
        ErrorKind::Planning { rule_index: 0, glob_index: Some(0), file: Some(f), cause }
            if f == "c3"
            && matches!(cause.as_ref(),
                ErrorKind::Format(FormatErrorKind::KeyOutOfRange(k)) if k == "0")
    ));
}

#[test]
fn planning_is_deterministic() {
    let rules = vec![
        rule(&["a/**", "b/**"], &["a/no/**"], "one/{0}/{1}"),
        rule(&["c/**"], &[], "two/{0}"),
    ];
    let matched = vec![
        vec![
            vec![
                entry("a/x", &["p", "q"], true),
                entry("a/no/y", &["n", "m"], true),
            ],
            vec![entry("b/z", &["r", "s"], true)],
        ],
        vec![vec![entry("a/x", &["again"], true), entry("c/w", &["w"], true)]],
    ];
    let mut tf1 = BuiltinTransformer::Copy;
    let first = plan_prepared(&rules, &matched, &mut tf1).unwrap();
    let mut tf2 = BuiltinTransformer::Copy;
    let second = plan_prepared(&rules, &matched, &mut tf2).unwrap();
    let dsts1: Vec<&String> = first.iter().map(|p| &p.dst).collect();
    let dsts2: Vec<&String> = second.iter().map(|p| &p.dst).collect();
    assert_eq!(dsts1, dsts2);
    assert_eq!(dsts1, vec!["one/p/q", "one/r/s", "two/w"]);
}

#[test]
fn transformer_error_is_attributed() {
    struct Failing;
    impl dollgen::Transformer for Failing {
        fn plan_payload(
            &mut self,
            _rule_index: usize,
            _src: &String,
            _captures: &Vec<String>,
        ) -> Result<PlannedTransformation, ErrorKind> {
            Err(ErrorKind::Other { message: "refused".to_string() })
        }
    }
    let rules = vec![rule(&["**"], &[], "out/{0}")];
    let matched = vec![vec![vec![entry("f.txt", &["f"], true)]]];
    let mut tf = Failing;
    let err = expect_err(plan_prepared(&rules, &matched, &mut tf));
    assert!(matches!(
        &err,
        ErrorKind::Planning { rule_index: 0, glob_index: Some(0), file: Some(f), cause }
            if f == "f.txt"
            && matches!(cause.as_ref(), ErrorKind::Other { message } if message == "refused")
    ));
}

#[test]
fn plan_enumerates_real_files() {
    // matched against this crate's own sources, which are known to exist
    let rules = vec![rule(&["src/(*).rs"], &[], "out/{0}.x")];
    let mut tf = BuiltinTransformer::Noop;
    let plans = plan(&rules, &mut tf).unwrap();
    assert!(plans.iter().any(|p| p.dst == "out/lib.x"));
    assert!(plans.iter().all(|p| matches!(p.data, PlannedTransformation::Noop)));
}

#[test]
fn plan_rejects_bad_ignore_pattern() {
    let rules = vec![rule(&[], &["[" ], "out")];
    let mut tf = BuiltinTransformer::Noop;
    let err = expect_err(plan(&rules, &mut tf));
    assert!(matches!(
        &err,
        ErrorKind::Planning { rule_index: 0, glob_index: None, file: None, cause }
            if matches!(cause.as_ref(), ErrorKind::Pattern { pattern, .. } if pattern == "[")
    ));
}

#[test]
fn plan_rejects_bad_glob_pattern() {
    let rules = vec![rule(&["["], &[], "out")];
    let mut tf = BuiltinTransformer::Noop;
    let err = expect_err(plan(&rules, &mut tf));
    assert!(matches!(
        &err,
        ErrorKind::Planning { rule_index: 0, glob_index: Some(0), file: None, cause }
            if matches!(cause.as_ref(), ErrorKind::Pattern { .. })
    ));
}

#[test]
fn noop_and_copy_primitives() {
    let r = dollgen::noop("f".to_string(), vec![]).unwrap();
    assert!(matches!(r, PlannedTransformation::Noop));
    let r = dollgen::copy("f".to_string(), vec![]).unwrap();
    assert!(matches!(r, PlannedTransformation::CopyFrom(p) if p == "f"));
}

#[test]
fn empty_rule_list_plans_nothing() {
    let rules: Vec<Rule> = vec![];
    let mut tf = BuiltinTransformer::Noop;
    let plans = plan(&rules, &mut tf).unwrap();
    assert!(plans.is_empty());
}

#[test]
fn skip_only_run_succeeds_with_no_plans() {
    let rules = vec![rule(&["**"], &["**"], "out/{0}")];
    let matched = vec![vec![vec![
        entry("a.txt", &["a"], true),
        entry("b", &["b"], false),
    ]]];
    let mut tf = BuiltinTransformer::Noop;
    let plans = plan_prepared(&rules, &matched, &mut tf).unwrap();
    assert!(plans.is_empty());
}

#[test]
fn select_reports_the_claiming_rule_and_glob() {
    let rules = vec![
        rule(&["a/**"], &[], "one/{0}"),
        rule(&["b/**", "c/**"], &[], "two/{0}"),
    ];
    let matched = vec![
        vec![vec![entry("a/x", &["x"], true)]],
        vec![vec![], vec![entry("c/y", &["y"], true)]],
    ];
    let sel = select(&rules, &matched).unwrap();
    assert_eq!(sel.len(), 2);
    assert_eq!(sel[0].rule_index, 0);
    assert_eq!(sel[0].glob_index, 0);
    assert_eq!(sel[0].src, "a/x");
    assert_eq!(sel[0].captures, vec!["x".to_string()]);
    assert_eq!(sel[0].dst, "one/x");
    assert_eq!(sel[1].rule_index, 1);
    assert_eq!(sel[1].glob_index, 1);
    assert_eq!(sel[1].src, "c/y");
    assert_eq!(sel[1].dst, "two/y");
}

#[test]
fn select_surfaces_the_format_failure_at_its_position() {
    let rules = vec![rule(&["a/**"], &[], "out/{0}"), rule(&["b/**"], &[], "{9}")];
    let matched = vec![
        vec![vec![entry("a/x", &["x"], true)]],
        vec![vec![entry("b/y", &["y"], true)]],
    ];
    let err = match select(&rules, &matched) {
        Err(e) => e,
        Ok(_) => panic!("selection succeeded where it had to fail"),
    };
    assert!(matches!(
        &err,
        ErrorKind::Planning { rule_index: 1, glob_index: Some(0), file: Some(f), cause }
            if f == "b/y"
            && matches!(cause.as_ref(),
                ErrorKind::Format(FormatErrorKind::KeyOutOfRange(k)) if k == "9")
    ));
}

#[test]
fn dotfiles_need_explicit_opt_in() {
    // a bare * in an ignore pattern does not reach a leading-dot name
    let rules = vec![rule(&["**"], &["*"], "out/{0}")];
    let matched = vec![vec![vec![
        entry(".hidden", &["h"], true),
        entry("visible", &["v"], true),
    ]]];
    let mut tf = BuiltinTransformer::Noop;
    let plans = plan_prepared(&rules, &matched, &mut tf).unwrap();
    assert_eq!(plans.len(), 1);
    assert_eq!(plans[0].dst, "out/h");
}
