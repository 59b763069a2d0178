use lsp_det::adapter::typescript_layout::{
    all_complete, assess, config_to_read, is_config_change, new_source_outside, reassess, FolderListing, FolderRead,
};

const SOURCE: &str = "export const x = 1;\n";

/// A workspace folder held as the files it has: the walk of the disk and the read of its
/// configuration are done over them.
struct TempWorkspace {
    path: String,
    files: std::cell::RefCell<Vec<(String, String)>>,
}

impl TempWorkspace {
    fn new(tag: &str) -> Self {
        TempWorkspace { path: format!("/tmp/lsp-det-typescript-layout-{tag}"), files: std::cell::RefCell::new(Vec::new()) }
    }

    /// Writes `contents` at `relative`.
    fn write(&self, relative: &str, contents: &str) -> &Self {
        let mut files = self.files.borrow_mut();
        files.retain(|(name, _)| name != relative);
        files.push((relative.to_string(), contents.to_string()));
        self
    }

    fn remove(&self, relative: &str) {
        self.files.borrow_mut().retain(|(name, _)| name != relative);
    }

    fn join(&self, relative: &str) -> String {
        format!("{}/{relative}", self.path)
    }

    /// The walk: configurations and sources, relative, outside `node_modules` and `.git`.
    fn listing(&self) -> FolderListing {
        let mut configs = Vec::new();
        let mut sources = Vec::new();
        for (name, _) in self.files.borrow().iter() {
            let parts: Vec<&str> = name.split('/').collect();
            let (file, dirs) = parts.split_last().unwrap();
            if dirs.iter().any(|d| *d == "node_modules" || *d == ".git") {
                continue;
            }
            if *file == "tsconfig.json" || *file == "jsconfig.json" {
                configs.push(name.clone());
            } else if let Some(ext) = extension(file) {
                if ["ts", "tsx", "mts", "cts", "js", "jsx", "mjs", "cjs"].contains(&ext) {
                    sources.push(name.clone());
                }
            }
        }
        FolderListing { configs, sources }
    }

    fn read(&self) -> FolderRead {
        let listing = self.listing();
        let config_text = config_to_read(&listing).and_then(|c| {
            self.files.borrow().iter().find(|(name, _)| *name == c).map(|(_, text)| text.clone())
        });
        FolderRead { root: self.path.clone(), listing: Some(listing), config_text }
    }
}

/// What follows the last `.` of a file name, unless that `.` starts it.
fn extension(file: &str) -> Option<&str> {
    match file.rfind('.') {
        Some(0) | None => None,
        Some(i) => Some(&file[i + 1..]),
    }
}

/// Reads the folder of `layout` again, as the workspace holds it now.
fn reassess_now(workspace: &TempWorkspace, layout: &lsp_det::adapter::typescript_layout::FolderLayout) -> lsp_det::adapter::typescript_layout::FolderLayout {
    let read = workspace.read();
    reassess(layout, read.listing.as_ref(), read.config_text.as_deref())
}

fn complete(workspace: &TempWorkspace) -> bool {
    all_complete(&assess(std::slice::from_ref(&workspace.read())))
}

// --- complete layouts --------------------------------------------------------------

#[test]
fn a_single_root_config_with_the_default_include_is_complete() {
    let w = TempWorkspace::new("default-include");
    w.write("tsconfig.json", r#"{"compilerOptions":{"strict":true}}"#)
        .write("a.ts", SOURCE)
        .write("src/deep/b.tsx", SOURCE);
    assert!(complete(&w));
}

#[test]
fn the_conformance_fixture_layout_is_complete() {
    // The layout of the conformance fixture, the basis of the declaration so far.
    let w = TempWorkspace::new("fixture");
    w.write(
        "tsconfig.json",
        r#"{"compilerOptions":{"strict":true},"include":["**/*.ts"]}"#,
    )
    .write("a.ts", SOURCE)
    .write("b.ts", SOURCE);
    assert!(complete(&w));
}

#[test]
fn an_include_naming_a_directory_takes_in_everything_under_it() {
    let w = TempWorkspace::new("dir-include");
    w.write("tsconfig.json", r#"{"include":["src"]}"#)
        .write("src/a.ts", SOURCE)
        .write("src/lib/b.ts", SOURCE);
    assert!(complete(&w));
}

#[test]
fn comments_and_trailing_commas_are_read() {
    let w = TempWorkspace::new("jsonc");
    w.write(
        "tsconfig.json",
        "{\n  // a comment\n  \"compilerOptions\": {\"strict\": true, /* inline */},\n  \"include\": [\"**/*\",],\n}\n",
    )
    .write("a.ts", SOURCE);
    assert!(complete(&w));
}

#[test]
fn node_modules_and_git_are_not_part_of_the_workspace() {
    let w = TempWorkspace::new("skipped");
    w.write("tsconfig.json", "{}")
        .write("a.ts", SOURCE)
        .write("node_modules/dep/tsconfig.json", "{}")
        .write("node_modules/dep/index.js", SOURCE)
        .write(".git/hooks/x.ts", SOURCE);
    assert!(complete(&w));
}

#[test]
fn javascript_is_complete_under_a_jsconfig() {
    let w = TempWorkspace::new("jsconfig");
    w.write("jsconfig.json", "{}")
        .write("a.js", SOURCE)
        .write("b.ts", SOURCE);
    let layouts = assess(std::slice::from_ref(&w.read()));
    assert!(all_complete(&layouts));
    assert!(layouts[0].allow_js);
}

#[test]
fn javascript_is_complete_under_a_tsconfig_that_allows_it() {
    let w = TempWorkspace::new("allowjs");
    w.write("tsconfig.json", r#"{"compilerOptions":{"allowJs":true}}"#)
        .write("a.js", SOURCE)
        .write("b.ts", SOURCE);
    assert!(complete(&w));
}

#[test]
fn every_folder_must_be_complete() {
    let good = TempWorkspace::new("two-good");
    good.write("tsconfig.json", "{}").write("a.ts", SOURCE);
    let other = TempWorkspace::new("two-other");
    other.write("tsconfig.json", "{}").write("b.ts", SOURCE);
    assert!(all_complete(&assess(&[good.read(), other.read()])));

    let bad = TempWorkspace::new("two-bad");
    bad.write("b.ts", SOURCE);
    assert!(!all_complete(&assess(&[good.read(), bad.read()])));
}

// --- incomplete layouts ------------------------------------------------------------

#[test]
fn no_folder_is_not_complete() {
    assert!(!all_complete(&assess(&[])));
}

#[test]
fn a_workspace_without_a_config_is_not_complete() {
    // Every file would go into an inferred project of its own.
    let w = TempWorkspace::new("no-config");
    w.write("a.ts", SOURCE).write("b.ts", SOURCE);
    assert!(!complete(&w));
}

#[test]
fn several_projects_without_a_solution_are_not_complete() {
    let w = TempWorkspace::new("no-solution");
    w.write("packages/a/tsconfig.json", "{}")
        .write("packages/a/index.ts", SOURCE)
        .write("packages/b/tsconfig.json", "{}")
        .write("packages/b/use.ts", SOURCE);
    assert!(!complete(&w));
}

#[test]
fn a_root_solution_is_not_complete_under_rule_r1() {
    // Rule R2 would accept this; R1 comes first.
    let w = TempWorkspace::new("solution");
    w.write(
        "tsconfig.json",
        r#"{"files":[],"references":[{"path":"packages/a"}]}"#,
    )
    .write(
        "packages/a/tsconfig.json",
        r#"{"compilerOptions":{"composite":true}}"#,
    )
    .write("packages/a/index.ts", SOURCE);
    assert!(!complete(&w));
}

#[test]
fn a_single_config_below_the_root_is_not_complete() {
    let w = TempWorkspace::new("nested");
    w.write("app/tsconfig.json", "{}")
        .write("app/a.ts", SOURCE)
        .write("tools/b.ts", SOURCE);
    assert!(!complete(&w));
}

#[test]
fn a_config_with_extends_is_not_complete() {
    let w = TempWorkspace::new("extends");
    w.write("tsconfig.json", r#"{"extends":"./base.json"}"#)
        .write("base.json", "{}")
        .write("a.ts", SOURCE);
    assert!(!complete(&w));
}

#[test]
fn javascript_outside_allow_js_is_not_complete() {
    let w = TempWorkspace::new("js-outside");
    w.write("tsconfig.json", "{}")
        .write("a.ts", SOURCE)
        .write("tools/build.mjs", SOURCE);
    let layouts = assess(std::slice::from_ref(&w.read()));
    assert!(!all_complete(&layouts));
    assert!(!layouts[0].allow_js);
}

#[test]
fn javascript_under_a_jsconfig_that_disallows_it_is_not_complete() {
    let w = TempWorkspace::new("jsconfig-off");
    w.write("jsconfig.json", r#"{"compilerOptions":{"allowJs":false}}"#)
        .write("a.js", SOURCE);
    assert!(!complete(&w));
}

#[test]
fn a_source_outside_the_include_is_not_complete() {
    let w = TempWorkspace::new("outside-include");
    w.write("tsconfig.json", r#"{"include":["src"]}"#)
        .write("src/a.ts", SOURCE)
        .write("scripts/b.ts", SOURCE);
    assert!(!complete(&w));
}

#[test]
fn an_excluded_source_is_not_complete() {
    let w = TempWorkspace::new("excluded");
    w.write("tsconfig.json", r#"{"exclude":["test"]}"#)
        .write("a.ts", SOURCE)
        .write("test/a.test.ts", SOURCE);
    assert!(!complete(&w));
}

#[test]
fn files_without_include_take_in_only_the_listed_files() {
    let w = TempWorkspace::new("files");
    w.write("tsconfig.json", r#"{"files":["a.ts"]}"#)
        .write("a.ts", SOURCE)
        .write("b.ts", SOURCE);
    assert!(!complete(&w));

    let all = TempWorkspace::new("files-all");
    all.write("tsconfig.json", r#"{"files":["./a.ts","b.ts"]}"#)
        .write("a.ts", SOURCE)
        .write("b.ts", SOURCE);
    assert!(complete(&all));
}

#[test]
fn a_source_in_a_dot_directory_is_not_complete() {
    // tsserver's wildcards do not match a name starting with ".".
    let w = TempWorkspace::new("dot-dir");
    w.write("tsconfig.json", "{}")
        .write("a.ts", SOURCE)
        .write(".storybook/main.ts", SOURCE);
    assert!(!complete(&w));
}

#[test]
fn an_allow_js_value_that_is_not_a_boolean_is_not_complete() {
    let js = TempWorkspace::new("allowjs-string-js");
    js.write(
        "jsconfig.json",
        r#"{"compilerOptions":{"allowJs":"false"}}"#,
    )
    .write("a.js", SOURCE);
    assert!(!complete(&js));

    let ts = TempWorkspace::new("allowjs-string-ts");
    ts.write("tsconfig.json", r#"{"compilerOptions":{"allowJs":"true"}}"#)
        .write("a.ts", SOURCE);
    assert!(!complete(&ts));
}

#[test]
fn compiler_options_this_reader_cannot_interpret_are_not_complete() {
    for (tag, config) in [
        ("allowjs-null", r#"{"compilerOptions":{"allowJs":null}}"#),
        ("options-array", r#"{"compilerOptions":[]}"#),
        ("options-null", r#"{"compilerOptions":null}"#),
        ("outdir-number", r#"{"compilerOptions":{"outDir":1}}"#),
    ] {
        let w = TempWorkspace::new(tag);
        w.write("jsconfig.json", config).write("a.js", SOURCE);
        assert!(!complete(&w), "deemed complete: {config}");
    }
}

#[test]
fn an_unterminated_block_comment_is_not_complete() {
    let w = TempWorkspace::new("open-comment");
    w.write("tsconfig.json", r#"{"include":["**/*"]} /*"#)
        .write("a.ts", SOURCE);
    assert!(!complete(&w));
}

#[test]
fn an_unreadable_config_is_not_complete() {
    let w = TempWorkspace::new("broken");
    w.write("tsconfig.json", "{ not json").write("a.ts", SOURCE);
    assert!(!complete(&w));
}

// --- changes during the conversation -------------------------------------------------

#[test]
fn config_files_in_the_folder_are_layout_changes() {
    let w = TempWorkspace::new("is-config-change");
    w.write("tsconfig.json", "{}").write("a.ts", SOURCE);
    let layout = &assess(std::slice::from_ref(&w.read()))[0];
    for inside in ["tsconfig.json", "jsconfig.json", "packages/b/tsconfig.json"] {
        assert!(is_config_change(layout, &w.join(inside)), "{inside}");
    }
    for outside in [
        "a.ts",
        "node_modules/dep/tsconfig.json",
        ".git/tsconfig.json",
    ] {
        assert!(
            !is_config_change(layout, &w.join(outside)),
            "{outside}"
        );
    }
    assert!(!is_config_change(
        layout,
        "/elsewhere/tsconfig.json"
    ));
}

#[test]
fn new_sources_outside_the_project_are_detected() {
    let w = TempWorkspace::new("new-source");
    w.write(
        "tsconfig.json",
        r#"{"compilerOptions":{"allowJs":true},"include":["src"]}"#,
    )
    .write("src/a.ts", SOURCE);
    let layout = &assess(std::slice::from_ref(&w.read()))[0];
    for outside in ["tools.ts", "tools.js", "src/.hidden/b.ts"] {
        assert!(
            new_source_outside(layout, &w.join(outside)),
            "{outside}"
        );
    }
    for inside in [
        "src/b.ts",
        "src/b.js",
        "node_modules/dep/x.ts",
        "tsconfig.json",
        "README.md",
    ] {
        assert!(
            !new_source_outside(layout, &w.join(inside)),
            "{inside}"
        );
    }

    let ts = TempWorkspace::new("new-source-ts");
    ts.write("tsconfig.json", "{}").write("a.ts", SOURCE);
    let layout = &assess(std::slice::from_ref(&ts.read()))[0];
    assert!(new_source_outside(layout, &ts.join("b.js")));
    assert!(!new_source_outside(layout, &ts.join("b.ts")));

    let js = TempWorkspace::new("new-source-js");
    js.write("jsconfig.json", "{}").write("a.js", SOURCE);
    let layout = &assess(std::slice::from_ref(&js.read()))[0];
    assert!(!new_source_outside(layout, &js.join("b.js")));
}

#[test]
fn reassessing_reads_the_folder_again() {
    let w = TempWorkspace::new("reassess");
    w.write("tsconfig.json", "{}").write("a.ts", SOURCE);
    let layout = assess(std::slice::from_ref(&w.read())).remove(0);
    assert!(layout.complete);

    w.write("tsconfig.json", r#"{"compilerOptions":{"strict":false}}"#);
    assert!(
        reassess_now(&w, &layout).complete,
        "a change that keeps every source"
    );

    w.write("tsconfig.json", r#"{"exclude":["a.ts"]}"#);
    assert!(!reassess_now(&w, &layout).complete, "a change that drops a source");

    w.remove("tsconfig.json");
    assert!(!reassess_now(&w, &layout).complete, "the configuration is gone");
}
