use captain::readme::{
    conflict_report, crate_name, custom_template_path, generate, missing_template_report,
    name_may_have_readme, readme_outcome, readme_targets, relative_path, workspace_target,
    DirEntry, GenerateReadmeOpts, ReadmeOutcome, ReadmeTarget,
};
use captain::staged::StagedFiles;

fn readme(name: &str, input: &str, header: Option<&str>, footer: Option<&str>) -> String {
    generate(GenerateReadmeOpts {
        crate_name: name.to_string(),
        input: input.to_string(),
        header: header.map(String::from),
        footer: footer.map(String::from),
    })
}

#[test]
fn readme_of_all_parts() {
    assert_eq!(
        readme("foo", "body\n", Some("# {CRATE}\n[{CRATE}]"), Some("by {CRATE}")),
        "# foo\n[foo]\nbody\n\nby foo"
    );
}

#[test]
fn readme_without_header_or_footer() {
    assert_eq!(readme("foo", "body {CRATE}", None, None), "body {CRATE}");
    assert_eq!(readme("foo", "", None, None), "");
    assert_eq!(readme("foo", "body", Some(""), Some("")), "body");
    assert_eq!(readme("foo", "body", Some("head"), None), "head\nbody");
    assert_eq!(readme("foo", "body", None, Some("foot")), "body\nfoot");
}

#[test]
fn readme_section_that_becomes_empty() {
    assert_eq!(readme("", "body", Some("{CRATE}"), Some("{CRATE}{CRATE}")), "body");
}

#[test]
fn placeholders_are_taken_from_the_left() {
    assert_eq!(readme("x", "b", Some("{CRATE{CRATE}}"), None), "{CRATEx}\nb");
    assert_eq!(readme("{CRATE}", "b", Some("<{CRATE}>"), None), "<{CRATE}>\nb");
}

fn entry(name: &str, manifest: Option<&str>) -> DirEntry {
    DirEntry {
        name: name.to_string(),
        is_dir: true,
        has_manifest: manifest.is_some(),
        manifest: manifest.map(String::from),
        has_custom_template: false,
    }
}

const ENABLED: &str = "[package]\nversion = \"1.0.0\"\n";
const DISABLED: &str = "[package.metadata.captain]\ngenerate-readmes = false\n";

#[test]
fn crates_that_get_a_readme() {
    let mut unreadable = entry("unreadable", None);
    unreadable.has_manifest = true;
    let mut file = entry("file", Some(ENABLED));
    file.is_dir = false;
    let entries = vec![
        entry("one", Some(ENABLED)),
        entry(".hidden", Some(ENABLED)),
        entry("_private", Some(ENABLED)),
        entry("target", Some(ENABLED)),
        entry("xtask", Some(ENABLED)),
        entry("examples", Some(ENABLED)),
        entry("benches", Some(ENABLED)),
        entry("tests", Some(ENABLED)),
        entry("fuzz", Some(ENABLED)),
        entry("plain", None),
        entry("off", Some(DISABLED)),
        entry("broken", Some("not toml [")),
        unreadable,
        file,
        entry("captain", Some(ENABLED)),
    ];
    let targets = readme_targets("/w", None, &entries);
    let found: Vec<(&str, &str, &str)> = targets
        .iter()
        .map(|t| (t.crate_name.as_str(), t.template_path.as_str(), t.output_dir.as_str()))
        .collect();
    assert_eq!(
        found,
        [
            ("one", "/w/one/README.md.in", "/w/one"),
            ("broken", "/w/broken/README.md.in", "/w/broken"),
            ("unreadable", "/w/unreadable/README.md.in", "/w/unreadable"),
            ("captain", "/w/captain/README.md.in", "/w/captain"),
        ]
    );
    assert!(name_may_have_readme("a.b"));
    assert!(!name_may_have_readme(".a"));
    assert!(!name_may_have_readme("target"));
    assert!(name_may_have_readme("Target"));
}

#[test]
fn templates_of_a_custom_directory() {
    let mut custom = entry("one", Some(ENABLED));
    custom.has_custom_template = true;
    let entries = vec![custom, entry("captain", Some(ENABLED))];
    let targets = readme_targets("/w", Some("/t"), &entries);
    assert_eq!(targets[0].template_path, "/t/one.md.in");
    assert_eq!(targets[1].template_path, "/w/captain/README.md.in");
    assert_eq!(custom_template_path("/t", "a.b"), "/t/a.b.md.in");
    assert_eq!(custom_template_path("t/", "a"), "t/a.md.in");
}

#[test]
fn crates_are_called_as_their_manifest_says() {
    let foo = "[package]\nname = \"foo\"\n";
    let mut custom = entry("bar", Some(foo));
    custom.has_custom_template = true;
    let targets = readme_targets("/w", Some("/d"), &vec![custom, entry("baz", Some(foo))]);
    assert_eq!(targets[0].crate_name, "foo");
    assert_eq!(targets[0].template_path, "/d/foo.md.in");
    assert_eq!(targets[0].output_dir, "/w/bar");
    assert_eq!(targets[1].crate_name, "foo");
    assert_eq!(targets[1].template_path, "/w/baz/README.md.in");
    assert_eq!(crate_name("bar", Some(foo)), "foo");
    assert_eq!(crate_name("bar", Some("package = { name = \"foo\" }\n")), "foo");
    assert_eq!(crate_name("bar", Some("[package]\nname = 3\n")), "bar");
    assert_eq!(crate_name("bar", Some("not toml [")), "bar");
    assert_eq!(crate_name("bar", None), "bar");
}

#[test]
fn readme_of_the_workspace() {
    let target = workspace_target("/w", "project");
    assert_eq!(target.template_path, "/w/README.md.in");
    assert_eq!(target.output_dir, "/w");
    assert_eq!(target.crate_name, "project");
    assert_eq!(target.readme_path(), "/w/README.md");
}

fn target() -> ReadmeTarget {
    ReadmeTarget {
        template_path: "/w/one/README.md.in".to_string(),
        output_dir: "/w/one".to_string(),
        crate_name: "one".to_string(),
    }
}

#[test]
fn readme_is_written() {
    let staged = StagedFiles { clean: vec!["/w/README.md".to_string()] };
    let outcome =
        readme_outcome(&target(), "new", &staged, Some(b"other".to_vec()), Some(b"old".to_vec()));
    match outcome {
        ReadmeOutcome::Write(job) => {
            assert_eq!(job.path, "/w/one/README.md");
            assert_eq!(job.old_content, Some(b"old".to_vec()));
            assert_eq!(job.new_content, b"new");
            assert!(!job.executable);
        }
        ReadmeOutcome::Conflict => panic!("no conflict expected"),
    }
}

#[test]
fn change_by_hand_is_not_overwritten() {
    let staged = StagedFiles { clean: vec!["/w/one/README.md".to_string()] };
    assert!(matches!(
        readme_outcome(&target(), "new", &staged, Some(b"mine".to_vec()), None),
        ReadmeOutcome::Conflict
    ));
    assert!(matches!(
        readme_outcome(&target(), "new", &staged, Some(b"new".to_vec()), None),
        ReadmeOutcome::Write(_)
    ));
    assert!(matches!(
        readme_outcome(&target(), "new", &staged, None, None),
        ReadmeOutcome::Write(_)
    ));
}

#[test]
fn paths_as_seen_from_the_workspace() {
    assert_eq!(relative_path("/w/one/README.md", "/w"), "one/README.md");
    assert_eq!(relative_path("/w/README.md", "/w/"), "README.md");
    assert_eq!(relative_path("/v/README.md", "/w"), "/v/README.md");
    assert_eq!(relative_path("/w", "/w/x"), "/w");
    assert_eq!(relative_path("/a/b", "/"), "a/b");
    assert_eq!(relative_path("/a/b", ""), "/a/b");
}

#[test]
fn reports_about_readmes() {
    assert_eq!(
        missing_template_report("/w/README.md.in"),
        "\u{1f6ab} \x1b[1m\x1b[31mMissing template!\x1b[39m\x1b[0m Please add a README.md.in template here that describes what this crate is for:\n   \x1b[33m/w/README.md.in\x1b[39m"
    );
    let lines = conflict_report("R", "T");
    assert_eq!(lines.len(), 19);
    assert_eq!(lines[0], "");
    assert_eq!(lines[1], "\x1b[1m\x1b[31m\u{274c} GENERATED FILE CONFLICT DETECTED\x1b[39m\x1b[0m");
    assert_eq!(
        lines[3],
        "You modified \x1b[33mR\x1b[39m directly, but this file is auto-generated."
    );
    assert_eq!(
        lines[6],
        "\x1b[36m\u{2192}\x1b[39m Edit \x1b[33mT\x1b[39m instead (the template source)"
    );
    assert_eq!(lines[10], "     git restore --staged R");
    assert_eq!(lines[14], "     # Edit T");
    assert_eq!(lines[16], "     git add R  # stage the generated file");
    assert_eq!(lines[18], "Refusing to commit until this conflict is resolved.");
}
