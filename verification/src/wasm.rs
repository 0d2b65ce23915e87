//! Compiles Rust libraries to WebAssembly, with a JavaScript loader and
//! TypeScript declarations.
//!
//! The cargo invocation and the bindings generator are external
//! collaborators driven by the caller; this module holds the decisions: what
//! the crate is called, where the build artifacts stand, and which files the
//! planned transformation copies where.

use vstd::prelude::*;

verus! {

use crate::util;

/// An error while compiling WebAssembly.
#[derive(Debug)]
pub enum WASMErrorKind {
    /// the manifest could not be read
    FailedManifestRead { message: String },
    /// the manifest is not a package manifest with a name
    BadManifest { message: String },
    /// the build tool could not be run at all
    BuildProcessFailed { message: String },
    /// the build ran and failed; its standard error output is kept
    BuildFailed { stderr: String },
    /// generating the bindings failed
    BindgenFailed { message: String },
}

/// Which outputs one WebAssembly plan emits.
#[derive(Debug)]
pub enum WASMPlanKind {
    /// the module itself at the destination, with its JavaScript loader at
    /// `js`
    Wasm { js: String },
    /// the TypeScript declaration file at the destination
    TypescriptDeclarations,
    /// the module at the destination, the loader at `js`, the declarations
    /// at `d_ts`
    Both { js: String, d_ts: String },
}

/// A plan to place the outputs of a finished WebAssembly build.
#[derive(Debug)]
pub struct WASMPlan {
    /// where the bindings generator left its outputs
    pub bindgen_dir: String,
    /// the crate's name, in snake case: the artifacts' base name
    pub crate_name: String,
    /// which outputs to place
    pub kind: WASMPlanKind,
}

/// What `convert_case` turns a string into under its snake-case rule: a
/// function of the string alone.
pub uninterp spec fn snake_of(s: Seq<char>) -> Seq<char>;

/// The string in snake case.
///
/// Relies on `convert_case::Casing::to_case` with `Case::Snake`: its result
/// depends on the string alone.
#[verifier::external_body]
fn to_snake_case(s: &str) -> (r: String)
    ensures
        r@ == snake_of(s@),
{
    convert_case::Casing::to_case(&s, convert_case::Case::Snake)
}

/// The crate name a manifest declares, in snake case: the base name of the
/// artifacts a build of that manifest leaves. A document that does not parse
/// or holds no string `package.name` is a bad manifest.
pub fn manifest_crate_name(manifest_text: &str) -> (r: Result<String, WASMErrorKind>)
    ensures
        r matches Err(e) ==> e matches WASMErrorKind::BadManifest { .. },
        r is Ok ==> crate::frontmatter::toml_parse_ok(manifest_text@),
        !crate::frontmatter::toml_parse_ok(manifest_text@) ==> r is Err,
{
    let table = match crate::frontmatter::parse_toml_table(manifest_text) {
        Ok(t) => t,
        Err(message) => {
            return Err(WASMErrorKind::BadManifest { message });
        },
    };
    let package = match crate::frontmatter::table_get_table(&table, "package") {
        crate::frontmatter::Reading::Found(t) => t,
        crate::frontmatter::Reading::WrongType => {
            return Err(
                WASMErrorKind::BadManifest { message: "the package key is not a table".to_owned() },
            );
        },
        crate::frontmatter::Reading::Absent => {
            return Err(WASMErrorKind::BadManifest { message: "no package table".to_owned() });
        },
    };
    let name = match crate::frontmatter::table_get_str(package, "name") {
        crate::frontmatter::Reading::Found(n) => n,
        crate::frontmatter::Reading::WrongType => {
            return Err(
                WASMErrorKind::BadManifest {
                    message: "the package name is not a string".to_owned(),
                },
            );
        },
        crate::frontmatter::Reading::Absent => {
            return Err(WASMErrorKind::BadManifest { message: "no package name".to_owned() });
        },
    };
    Ok(to_snake_case(name.as_str()))
}

/// Where a build for this manifest's directory leaves its artifacts: a tree
/// of its own under `target/dollgen`, so builds do not trample each other.
pub fn wasm_target_dir(manifest_dir: &str) -> (r: String)
    ensures
        r@ == util::join_spec("target/dollgen"@, manifest_dir@),
{
    util::join("target/dollgen", manifest_dir)
}

/// The module the build leaves: `<target>/wasm32-unknown-unknown/<profile>/
/// <crate_name>.wasm`, with the profile decided by `release`.
pub fn wasm_artifact_path(target_dir: &str, release: bool, crate_name: &str) -> (r: String)
    ensures
        r@ == util::with_extension_spec(
            util::join_spec(
                util::join_spec(
                    util::join_spec(target_dir@, "wasm32-unknown-unknown"@),
                    if release {
                        "release"@
                    } else {
                        "debug"@
                    },
                ),
                crate_name@,
            ),
            "wasm"@,
        ),
{
    let triple_dir = util::join(target_dir, "wasm32-unknown-unknown");
    let profile_dir = if release {
        util::join(triple_dir.as_str(), "release")
    } else {
        util::join(triple_dir.as_str(), "debug")
    };
    let base = util::join(profile_dir.as_str(), crate_name);
    util::with_extension(base.as_str(), "wasm")
}

/// Where the bindings generator is told to put its outputs.
pub fn wasm_bindgen_dir(target_dir: &str) -> (r: String)
    ensures
        r@ == util::join_spec(target_dir@, "bindgen"@),
{
    util::join(target_dir, "bindgen")
}

/// An artifact of the bindings generator: its directory, the crate's name,
/// and a suffix such as `.js`.
pub open spec fn wasm_file_spec(dir: Seq<char>, name: Seq<char>, suffix: Seq<char>) -> Seq<char> {
    util::join_spec(dir, name + suffix)
}

/// The copies a WebAssembly plan performs, in order: pairs of source and
/// destination. The module (and then the declaration file) aimed at the
/// plan's destination; the loader and any second output at their own paths.
pub open spec fn wasm_copy_steps_spec(plan: WASMPlan, dst: Seq<char>) -> Seq<(Seq<char>, Seq<
    char,
>)> {
    let dir = plan.bindgen_dir@;
    let name = plan.crate_name@;
    match plan.kind {
        WASMPlanKind::Wasm { js } => seq![
            (wasm_file_spec(dir, name, "_bg.wasm"@), dst),
            (wasm_file_spec(dir, name, ".js"@), js@),
        ],
        WASMPlanKind::TypescriptDeclarations => seq![(wasm_file_spec(dir, name, ".d.ts"@), dst)],
        WASMPlanKind::Both { js, d_ts } => seq![
            (wasm_file_spec(dir, name, "_bg.wasm"@), dst),
            (wasm_file_spec(dir, name, ".js"@), js@),
            (wasm_file_spec(dir, name, ".d.ts"@), d_ts@),
        ],
    }
}

/// One bindgen artifact's path.
fn wasm_file(dir: &str, name: &str, suffix: &str) -> (r: String)
    ensures
        r@ == wasm_file_spec(dir@, name@, suffix@),
{
    let mut file = name.to_owned();
    file.append(suffix);
    util::join(dir, file.as_str())
}

/// The copies this plan performs at a destination, in order: exactly
/// `wasm_copy_steps_spec`.
pub fn wasm_copy_steps(plan: &WASMPlan, dst: &String) -> (r: Vec<(String, String)>)
    ensures
        r@.len() == wasm_copy_steps_spec(*plan, dst@).len(),
        forall|i: int|
            0 <= i < r@.len() ==> (#[trigger] r@[i]).0@ == wasm_copy_steps_spec(*plan, dst@)[i].0
                && r@[i].1@ == wasm_copy_steps_spec(*plan, dst@)[i].1,
{
    let mut out: Vec<(String, String)> = Vec::new();
    match &plan.kind {
        WASMPlanKind::Wasm { js } => {
            out.push(
                (wasm_file(plan.bindgen_dir.as_str(), plan.crate_name.as_str(), "_bg.wasm"), dst.clone()),
            );
            out.push(
                (wasm_file(plan.bindgen_dir.as_str(), plan.crate_name.as_str(), ".js"), js.clone()),
            );
        },
        WASMPlanKind::TypescriptDeclarations => {
            out.push(
                (wasm_file(plan.bindgen_dir.as_str(), plan.crate_name.as_str(), ".d.ts"), dst.clone()),
            );
        },
        WASMPlanKind::Both { js, d_ts } => {
            out.push(
                (wasm_file(plan.bindgen_dir.as_str(), plan.crate_name.as_str(), "_bg.wasm"), dst.clone()),
            );
            out.push(
                (wasm_file(plan.bindgen_dir.as_str(), plan.crate_name.as_str(), ".js"), js.clone()),
            );
            out.push(
                (wasm_file(plan.bindgen_dir.as_str(), plan.crate_name.as_str(), ".d.ts"), d_ts.clone()),
            );
        },
    }
    out
}

/// The plan that places a finished build's module at the destination and its
/// loader at the path the `js` format string expands to.
pub fn plan_wasm_with_bindings(
    bindgen_dir: String,
    crate_name: String,
    js: &str,
    captures: &Vec<String>,
) -> (r: Result<WASMPlan, crate::ErrorKind>)
    ensures
        match crate::format::format_from(js@, captures.deep_view()) {
            Ok(s) => ({
                &&& r matches Ok(p)
                &&& p.bindgen_dir == bindgen_dir
                &&& p.crate_name == crate_name
                &&& p.kind matches WASMPlanKind::Wasm { js: out }
                &&& out@ == s
            }),
            Err(e) => r matches Err(crate::ErrorKind::Format(k)) && k@ == e,
        },
{
    let js_path = match crate::format::format(js, captures) {
        Ok(p) => p,
        Err(e) => {
            return Err(e);
        },
    };
    Ok(WASMPlan { bindgen_dir, crate_name, kind: WASMPlanKind::Wasm { js: js_path } })
}

/// The plan that places a finished build's TypeScript declaration file at
/// the destination.
pub fn plan_typescript_declarations(bindgen_dir: String, crate_name: String) -> (r: WASMPlan)
    ensures
        r.bindgen_dir == bindgen_dir,
        r.crate_name == crate_name,
        r.kind is TypescriptDeclarations,
{
    WASMPlan { bindgen_dir, crate_name, kind: WASMPlanKind::TypescriptDeclarations }
}

/// The plan that places a finished build's module at the destination, its
/// loader and its declaration file at the paths the two format strings
/// expand to; a format failure of the loader path comes back first.
pub fn plan_both(
    bindgen_dir: String,
    crate_name: String,
    js: &str,
    d_ts: &str,
    captures: &Vec<String>,
) -> (r: Result<WASMPlan, crate::ErrorKind>)
    ensures
        match crate::format::format_from(js@, captures.deep_view()) {
            Err(e) => r matches Err(crate::ErrorKind::Format(k)) && k@ == e,
            Ok(out_js) => match crate::format::format_from(d_ts@, captures.deep_view()) {
                Err(e) => r matches Err(crate::ErrorKind::Format(k)) && k@ == e,
                Ok(out_dts) => ({
                    &&& r matches Ok(p)
                    &&& p.bindgen_dir == bindgen_dir
                    &&& p.crate_name == crate_name
                    &&& p.kind matches WASMPlanKind::Both { js: pj, d_ts: pd }
                    &&& pj@ == out_js
                    &&& pd@ == out_dts
                }),
            },
        },
{
    let js_path = match crate::format::format(js, captures) {
        Ok(p) => p,
        Err(e) => {
            return Err(e);
        },
    };
    let d_ts_path = match crate::format::format(d_ts, captures) {
        Ok(p) => p,
        Err(e) => {
            return Err(e);
        },
    };
    Ok(
        WASMPlan {
            bindgen_dir,
            crate_name,
            kind: WASMPlanKind::Both { js: js_path, d_ts: d_ts_path },
        },
    )
}

} // verus!
