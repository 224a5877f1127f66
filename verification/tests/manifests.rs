use captain::config::{load_captain_config, CaptainConfig};
use captain::job::Job;
use captain::manifest::{
    array_matches, crate_has_readme_disabled, docsrs_args, ensure_docsrs_metadata,
    ensure_rust_version, job_for_change, package_name, rewrite_cargo_toml, workspace_edition,
    ManifestEdit,
};
use captain::names::{
    declared_workspace_name, fallback_name, match_manifest, name_candidates, package_name_by_id,
    search_name, Candidate, NameSearch,
};
use captain::workspace::{
    arborium_jobs, arborium_jobs_in, debug_packages, edition_errors, metadata_failure,
    outdated_report, rust_version_jobs, tended, text_after, MetadataFailure, Package, PackageFiles,
    ARBORIUM_HEADER,
};
use toml_edit::DocumentMut;

fn text(job: &Job) -> String {
    String::from_utf8(job.new_content.clone()).unwrap()
}

fn edit(content: &str, edit: ManifestEdit) -> Option<String> {
    rewrite_cargo_toml("/w/Cargo.toml", Some(content), edit).unwrap().map(|job| {
        assert_eq!(job.path, "/w/Cargo.toml");
        assert_eq!(job.old_content, Some(content.as_bytes().to_vec()));
        assert!(!job.executable);
        text(&job)
    })
}

#[test]
fn rust_version_is_declared() {
    let edited = edit("[package] # here\nname = \"x\"\n", ManifestEdit::RustVersion).unwrap();
    assert_eq!(edited, "[package] # here\nname = \"x\"\nrust-version = \"1.87\"\n");
    assert_eq!(edit(&edited, ManifestEdit::RustVersion), None);
    let edited =
        edit("[package]\nrust-version = \"1.60\"\nname = \"x\"\n", ManifestEdit::RustVersion).unwrap();
    assert_eq!(edited, "[package]\nrust-version = \"1.87\"\nname = \"x\"\n");
    let edited = edit("[package]\nrust-version.workspace = true\n", ManifestEdit::RustVersion).unwrap();
    let document: DocumentMut = edited.parse().unwrap();
    assert_eq!(document["package"]["rust-version"].as_str(), Some("1.87"));
}

#[test]
fn rust_version_needs_a_package() {
    assert_eq!(edit("[workspace]\nmembers = []\n", ManifestEdit::RustVersion), None);
    assert_eq!(edit("package = 1\n", ManifestEdit::RustVersion), None);
    assert_eq!(edit("package = { name = \"x\" }\n", ManifestEdit::RustVersion), None);
    assert!(rewrite_cargo_toml("/w/Cargo.toml", None, ManifestEdit::RustVersion).unwrap().is_none());
}

#[test]
fn manifest_that_is_not_toml_is_reported() {
    let why = "not toml [".parse::<DocumentMut>().unwrap_err().to_string();
    for edit in [ManifestEdit::RustVersion, ManifestEdit::DocsrsMetadata] {
        let said = rewrite_cargo_toml("/w/Cargo.toml", Some("not toml ["), edit).unwrap_err();
        assert_eq!(said, format!("Failed to parse /w/Cargo.toml as TOML: {why}"));
    }
    let packages = vec![
        package("1", "one", "2024", "/w/one/Cargo.toml"),
        package("2", "two", "2024", "/w/two/Cargo.toml"),
    ];
    let members = vec!["1".to_string()];
    let manifests = vec![Some("not toml [".to_string()), Some("not toml [".to_string())];
    let expected = [format!("Failed to parse /w/one/Cargo.toml as TOML: {why}")];
    let found = rust_version_jobs(&packages, &members, &manifests, &vec![]);
    assert_eq!(found.jobs.len(), 0);
    assert_eq!(found.complaints, expected);
    let files: Vec<PackageFiles> = manifests
        .into_iter()
        .map(|manifest| PackageFiles {
            header: Some(ARBORIUM_HEADER.as_bytes().to_vec()),
            manifest,
        })
        .collect();
    let found = arborium_jobs(&packages, &members, &files);
    assert_eq!(found.jobs.len(), 0);
    assert_eq!(found.complaints, expected);
}

#[test]
fn documents_that_need_no_edit_stay_as_they_are() {
    let text = "[package] # c\nrust-version   =   \"1.87\"\n";
    let mut document: DocumentMut = text.parse().unwrap();
    assert!(!ensure_rust_version(&mut document));
    assert_eq!(document.to_string(), text);
    assert!(ensure_docsrs_metadata(&mut document));
    let once = document.to_string();
    assert!(!ensure_docsrs_metadata(&mut document));
    assert_eq!(document.to_string(), once);
    let mut document: DocumentMut = "[workspace]   # w\n".parse().unwrap();
    assert!(!ensure_docsrs_metadata(&mut document));
    assert!(!ensure_rust_version(&mut document));
    assert_eq!(document.to_string(), "[workspace]   # w\n");
}

#[test]
fn docsrs_metadata_is_added() {
    let edited = edit("[package]\nname = \"x\"\n", ManifestEdit::DocsrsMetadata).unwrap();
    let document: DocumentMut = edited.parse().unwrap();
    let args = &document["package"]["metadata"]["docs.rs"]["rustdoc-args"];
    let args: Vec<&str> = args.as_array().unwrap().iter().map(|a| a.as_str().unwrap()).collect();
    assert_eq!(args, ["--html-in-header", "arborium-header.html"]);
    assert_eq!(document["package"]["name"].as_str(), Some("x"));
    assert_eq!(edit(&edited, ManifestEdit::DocsrsMetadata), None);
}

#[test]
fn docsrs_metadata_replaces_what_is_wrong() {
    let wrong = "[package]\nname = \"x\"\n[package.metadata]\nkeep = 1\n[package.metadata.\"docs.rs\"]\nrustdoc-args = [\"--cfg\"]\nall-features = true\n";
    let edited = edit(wrong, ManifestEdit::DocsrsMetadata).unwrap();
    let document: DocumentMut = edited.parse().unwrap();
    let docs = &document["package"]["metadata"]["docs.rs"];
    assert_eq!(docs["rustdoc-args"].as_array().unwrap().len(), 2);
    assert_eq!(docs["all-features"].as_bool(), Some(true));
    assert_eq!(document["package"]["metadata"]["keep"].as_integer(), Some(1));
    let scalar = "[package]\nmetadata = 3\n";
    let edited = edit(scalar, ManifestEdit::DocsrsMetadata).unwrap();
    assert_eq!(edit(&edited, ManifestEdit::DocsrsMetadata), None);
    assert_eq!(edit("[workspace]\n", ManifestEdit::DocsrsMetadata), None);
}

#[test]
fn both_edits_hold_together() {
    let start = "[package]\nname = \"x\"\n";
    let one = edit(start, ManifestEdit::DocsrsMetadata).unwrap();
    let both = edit(&one, ManifestEdit::RustVersion).unwrap();
    assert_eq!(edit(&both, ManifestEdit::DocsrsMetadata), None);
    assert_eq!(edit(&both, ManifestEdit::RustVersion), None);
    let other = edit(start, ManifestEdit::RustVersion).unwrap();
    let both = edit(&other, ManifestEdit::DocsrsMetadata).unwrap();
    assert_eq!(edit(&both, ManifestEdit::DocsrsMetadata), None);
    assert_eq!(edit(&both, ManifestEdit::RustVersion), None);
}

#[test]
fn lists_are_compared() {
    let expected = docsrs_args();
    let same: Vec<Option<String>> = expected.iter().cloned().map(Some).collect();
    assert!(array_matches(&same, &expected));
    assert!(!array_matches(&vec![], &expected));
    assert!(!array_matches(&vec![None, same[1].clone()], &expected));
    assert!(!array_matches(&vec![same[1].clone(), same[0].clone()], &expected));
    assert!(array_matches(&vec![], &vec![]));
}

#[test]
fn change_makes_a_job() {
    assert!(job_for_change("p", "a", "a").is_none());
    let job = job_for_change("p", "a", "b").unwrap();
    assert_eq!((job.path.as_str(), job.new_content.as_slice()), ("p", b"b".as_slice()));
}

#[test]
fn readmes_can_be_turned_off() {
    assert!(crate_has_readme_disabled(
        "[package.metadata.captain]\ngenerate-readmes = false\n"
    ));
    assert!(crate_has_readme_disabled(
        "package = { metadata = { captain = { generate-readmes = false } } }\n"
    ));
    assert!(!crate_has_readme_disabled("[package.metadata.captain]\ngenerate-readmes = true\n"));
    assert!(!crate_has_readme_disabled("[package.metadata.captain]\ngenerate-readmes = \"false\"\n"));
    assert!(!crate_has_readme_disabled("[package.metadata.captain]\nother = false\n"));
    assert!(!crate_has_readme_disabled("[package.metadata]\n"));
    assert!(!crate_has_readme_disabled("[package]\n"));
    assert!(!crate_has_readme_disabled(""));
    assert!(!crate_has_readme_disabled("= ="));
}

#[test]
fn names_of_packages() {
    assert_eq!(package_name("[package]\nname = \"x\"\n"), Some("x".to_string()));
    assert_eq!(package_name("[package]\n"), None);
    assert_eq!(package_name("name = \"x\"\n"), None);
    assert_eq!(package_name("x ["), None);
}

#[test]
fn edition_of_a_workspace() {
    assert_eq!(
        workspace_edition("[workspace.package]\nedition = \"2021\"\n"),
        Some("2021".to_string())
    );
    assert_eq!(workspace_edition("[workspace]\npackage = { edition = \"2021\" }\n"), None);
    assert_eq!(workspace_edition("[workspace.package]\nedition = 2021\n"), None);
    assert_eq!(workspace_edition("[workspace]\n"), None);
    assert_eq!(workspace_edition(""), None);
    assert_eq!(workspace_edition("x ["), None);
}

fn json(text: &str) -> serde_json::Value {
    serde_json::from_str(text).unwrap()
}

fn flags(config: &CaptainConfig) -> [bool; 11] {
    [
        config.generate_readmes,
        config.rustfmt,
        config.cargo_lock,
        config.arborium,
        config.rust_version,
        config.edition_2024,
        config.clippy,
        config.nextest,
        config.doc_tests,
        config.docs,
        config.cargo_shear,
    ]
}

#[test]
fn everything_is_on_by_default() {
    let default = CaptainConfig::default();
    assert_eq!(flags(&default), [true; 11]);
    assert_eq!(default.clippy_features, None);
    assert_eq!(default.doc_test_features, None);
    assert_eq!(default.docs_features, None);
    for metadata in ["null", "{}", "{\"captain\":{}}", "{\"captain\":3}", "[]"] {
        let config = load_captain_config(None, &json(metadata), None);
        assert_eq!(flags(&config), [true; 11]);
        assert_eq!(config.clippy_features, None);
    }
}

#[test]
fn options_are_turned_off_one_by_one() {
    let names = [
        "generate-readmes",
        "rustfmt",
        "cargo-lock",
        "arborium",
        "rust-version",
        "edition-2024",
        "clippy",
        "nextest",
        "doc-tests",
        "docs",
        "cargo-shear",
    ];
    for (i, name) in names.iter().enumerate() {
        let off = json(&format!("{{\"captain\":{{\"{name}\":false}}}}"));
        let mut expected = [true; 11];
        expected[i] = false;
        let config = load_captain_config(None, &off, None);
        assert_eq!(flags(&config), expected);
        assert_eq!(config.same_rust_version, *name != "rust-version");
        for value in ["true", "null", "0", "\"false\"", "[false]"] {
            let on = json(&format!("{{\"captain\":{{\"{name}\":{value}}}}}"));
            assert_eq!(flags(&load_captain_config(None, &on, None)), [true; 11]);
        }
    }
}

#[test]
fn features_of_checks() {
    let config = load_captain_config(
        None,
        &json("{\"captain\":{\"clippy-features\":[\"a\",1,\"b\"],\"doc-test-features\":false,\"docs-features\":true}}"),
        None,
    );
    assert_eq!(config.clippy_features, Some(vec!["a".to_string(), "b".to_string()]));
    assert_eq!(config.doc_test_features, Some(vec![]));
    assert_eq!(config.docs_features, None);
}

#[test]
fn section_of_the_package_counts_alone() {
    let workspace = json("{\"captain\":{\"clippy\":false,\"docs\":false}}");
    let package = json("{\"captain\":{\"clippy\":true}}");
    let config = load_captain_config(Some(&package), &workspace, None);
    assert!(config.clippy && config.docs);
    let config = load_captain_config(Some(&json("{}")), &workspace, None);
    assert!(!config.clippy && !config.docs);
}

#[test]
fn names_by_id() {
    let metadata = json(
        "{\"packages\":[{\"id\":\"1\",\"name\":\"one\"},{\"id\":\"2\"},{\"name\":\"three\"},{\"id\":\"4\",\"name\":\"four\"}]}",
    );
    assert_eq!(package_name_by_id(&metadata, "1"), Some("one".to_string()));
    assert_eq!(package_name_by_id(&metadata, "2"), None);
    assert_eq!(package_name_by_id(&metadata, "4"), None);
    assert_eq!(package_name_by_id(&json("{}"), "1"), None);
    assert_eq!(package_name_by_id(&json("{\"packages\":{}}"), "1"), None);
}

const PACKAGES: &str = "\"packages\":[{\"id\":\"1\",\"name\":\"one\",\"manifest_path\":\"/w/one/Cargo.toml\"},{\"id\":\"2\",\"name\":\"two\",\"manifest_path\":\"/w/Cargo.toml\"},{\"id\":\"3\",\"name\":\"three\"}]";

fn searched(members: &str) -> NameSearch {
    search_name(format!("{{{PACKAGES}{members}}}").as_bytes())
}

#[test]
fn workspace_is_called_after_its_root() {
    assert!(matches!(
        searched(",\"resolve\":{\"root\":\"2\"},\"workspace_default_members\":[\"1\"]"),
        NameSearch::Found(name) if name == "two"
    ));
}

#[test]
fn workspace_is_called_after_a_default_member() {
    assert!(matches!(
        searched(",\"resolve\":{\"root\":null},\"workspace_default_members\":[7,\"9\",\"1\",\"2\"]"),
        NameSearch::Found(name) if name == "one"
    ));
    assert!(matches!(
        searched(",\"resolve\":null,\"workspace_default_members\":[\"2\"]"),
        NameSearch::Found(name) if name == "two"
    ));
    assert_eq!(
        declared_workspace_name(&json(&format!(
            "{{{PACKAGES},\"workspace_default_members\":[\"3\"]}}"
        ))),
        Some("three".to_string())
    );
}

#[test]
fn workspace_is_called_after_its_manifest() {
    let candidates = match searched("") {
        NameSearch::Among(candidates) => candidates,
        _ => panic!("candidates expected"),
    };
    let names: Vec<&str> = candidates.iter().map(|c| c.name.as_str()).collect();
    assert_eq!(names, ["one", "two"]);
    let canonical: Vec<Option<String>> =
        candidates.iter().map(|c| Some(c.manifest_path.clone())).collect();
    assert_eq!(
        match_manifest(&candidates, &canonical, "/w/Cargo.toml"),
        Some("two".to_string())
    );
    assert_eq!(match_manifest(&candidates, &canonical, "/x/Cargo.toml"), None);
    assert_eq!(match_manifest(&candidates, &vec![None, None], "/w/Cargo.toml"), None);
    assert_eq!(name_candidates(&json("{}")).len(), 0);
    let twice: Vec<Candidate> = ["a", "b"]
        .iter()
        .map(|n| Candidate { name: n.to_string(), manifest_path: "/w/Cargo.toml".to_string() })
        .collect();
    let canonical = vec![Some("/w/Cargo.toml".to_string()), Some("/w/Cargo.toml".to_string())];
    assert_eq!(match_manifest(&twice, &canonical, "/w/Cargo.toml"), Some("a".to_string()));
}

#[test]
fn metadata_that_is_not_json() {
    match search_name(b"{") {
        NameSearch::Unreadable(why) => assert_eq!(
            why,
            serde_json::from_str::<serde_json::Value>("{").unwrap_err().to_string()
        ),
        _ => panic!("not JSON"),
    }
}

#[test]
fn names_without_metadata() {
    assert_eq!(fallback_name("/home/me/project", "captain"), "project");
    assert_eq!(fallback_name("/", "captain"), "captain");
    assert_eq!(fallback_name("/x/..", "my-project"), "my-project");
}

fn package(id: &str, name: &str, edition: &str, manifest_path: &str) -> Package {
    Package {
        id: id.to_string(),
        name: name.to_string(),
        edition: edition.to_string(),
        rust_version: None,
        manifest_path: manifest_path.to_string(),
    }
}

#[test]
fn editions_are_checked() {
    let packages = vec![
        package("1", "one", "2021", "/w/one/Cargo.toml"),
        package("2", "two", "2024", "/w/two/Cargo.toml"),
        package("3", "three", "2018", "/v/Cargo.toml"),
    ];
    let members = vec!["1".to_string(), "2".to_string()];
    let root = "[workspace.package]\nedition = \"2021\"\n";
    let errors = edition_errors("/w/Cargo.toml", Some(root), &packages, &members);
    assert_eq!(
        errors,
        [
            "/w/Cargo.toml: [workspace.package].edition = \"2021\" (expected \"2024\")",
            "/w/one/Cargo.toml: edition = \"2021\" (expected \"2024\")",
        ]
    );
    let current = "[workspace.package]\nedition = \"2024\"\n";
    let errors = edition_errors("/w/Cargo.toml", Some(current), &packages, &vec!["2".to_string()]);
    assert_eq!(errors.len(), 0);
    assert_eq!(edition_errors("/w/Cargo.toml", None, &packages, &vec![]).len(), 0);
    assert_eq!(edition_errors("/w/Cargo.toml", Some("x ["), &packages, &members).len(), 1);
    assert_eq!(
        outdated_report(&vec!["e".to_string()]),
        [
            "\x1b[31mYou have been deemed OUTDATED - edition 2024 now or bust\x1b[39m",
            "",
            "  \x1b[33mfix:\x1b[39m e",
            "",
            "Set edition = \"2024\" in the above location(s) to proceed.",
        ]
    );
}

#[test]
fn failures_of_cargo_metadata() {
    assert_eq!(
        metadata_failure("error: could not find `Cargo.toml` in `/x`") as u8,
        MetadataFailure::NoManifest as u8
    );
    assert_eq!(
        metadata_failure("this is a virtual manifest") as u8,
        MetadataFailure::NoMembers as u8
    );
    assert_eq!(metadata_failure("no members") as u8, MetadataFailure::NoMembers as u8);
    assert_eq!(metadata_failure("boom") as u8, MetadataFailure::Other as u8);
}

#[test]
fn header_is_that_of_arborium() {
    assert_eq!(
        ARBORIUM_HEADER,
        r#"<!-- Rustdoc doesn't highlight some languages natively -- let's do it ourselves: https://github.com/bearcove/arborium -->
<script defer src="https://cdn.jsdelivr.net/npm/@arborium/arborium@1/dist/arborium.iife.js"></script>"#
    );
}

#[test]
fn arborium_is_set_up_in_a_directory() {
    let manifest = "[package]\nname = \"x\"\n".to_string();
    let jobs =
        arborium_jobs_in("/w/x", &PackageFiles { header: None, manifest: Some(manifest) }).jobs;
    assert_eq!(jobs.len(), 2);
    assert_eq!(jobs[0].path, "/w/x/arborium-header.html");
    assert_eq!(jobs[0].old_content, None);
    assert_eq!(jobs[0].new_content, ARBORIUM_HEADER.as_bytes());
    assert_eq!(jobs[1].path, "/w/x/Cargo.toml");
    let files = PackageFiles {
        header: Some(ARBORIUM_HEADER.as_bytes().to_vec()),
        manifest: Some(text(&jobs[1])),
    };
    assert_eq!(arborium_jobs_in("/w/x", &files).jobs.len(), 0);
    let files = PackageFiles { header: Some(b"old".to_vec()), manifest: None };
    let jobs = arborium_jobs_in("/w/x", &files).jobs;
    assert_eq!(jobs.len(), 1);
    assert_eq!(jobs[0].old_content, Some(b"old".to_vec()));
}

#[test]
fn members_are_kept_in_order() {
    let packages = vec![
        package("1", "one", "2024", "/w/one/Cargo.toml"),
        package("2", "my-tests", "2024", "/w/my-tests/Cargo.toml"),
        package("3", "examples", "2024", "/w/examples/Cargo.toml"),
        package("4", "four", "2024", "/v/Cargo.toml"),
        package("5", "five", "2024", "/w/five/Cargo.toml"),
    ];
    let members: Vec<String> = ["1", "2", "3", "5"].map(String::from).to_vec();
    let tended_names: Vec<bool> = packages.iter().map(|p| tended(p, &members)).collect();
    assert_eq!(tended_names, [true, false, false, false, true]);
    let manifest = "[package]\nname = \"x\"\n";
    let files: Vec<PackageFiles> = packages
        .iter()
        .map(|_| PackageFiles { header: None, manifest: Some(manifest.to_string()) })
        .collect();
    let jobs = arborium_jobs(&packages, &members, &files).jobs;
    let paths: Vec<&str> = jobs.iter().map(|j| j.path.as_str()).collect();
    assert_eq!(
        paths,
        [
            "/w/one/arborium-header.html",
            "/w/one/Cargo.toml",
            "/w/five/arborium-header.html",
            "/w/five/Cargo.toml",
        ]
    );
    let after: Vec<PackageFiles> = packages
        .iter()
        .map(|p| {
            let written = |name: &str| {
                let path = p.manifest_path.replace("Cargo.toml", name);
                jobs.iter().find(|j| j.path == path).map(|j| j.new_content.clone())
            };
            PackageFiles {
                header: written("arborium-header.html"),
                manifest: written("Cargo.toml").map(|c| String::from_utf8(c).unwrap()),
            }
        })
        .collect();
    assert_eq!(arborium_jobs(&packages, &members, &after).jobs.len(), 0);
    let manifests: Vec<Option<String>> =
        packages.iter().map(|_| Some(manifest.to_string())).collect();
    let versions = rust_version_jobs(&packages, &members, &manifests, &jobs).jobs;
    let paths: Vec<&str> = versions.iter().map(|j| j.path.as_str()).collect();
    assert_eq!(paths, ["/w/one/Cargo.toml", "/w/five/Cargo.toml"]);
    for job in &versions {
        let document: DocumentMut = text(job).parse().unwrap();
        assert_eq!(document["package"]["rust-version"].as_str(), Some("1.87"));
        assert!(document["package"]["metadata"]["docs.rs"]["rustdoc-args"].is_array());
    }
    let alone = rust_version_jobs(&packages, &members, &manifests, &vec![]).jobs;
    assert_eq!(text(&alone[0]), "[package]\nname = \"x\"\nrust-version = \"1.87\"\n");
    let written: Vec<Option<String>> = packages
        .iter()
        .map(|p| {
            let job = versions.iter().find(|j| j.path == p.manifest_path);
            Some(job.map_or(manifest.to_string(), |job| text(job)))
        })
        .collect();
    assert_eq!(rust_version_jobs(&packages, &members, &written, &vec![]).jobs.len(), 0);
    let missing: Vec<Option<String>> = packages.iter().map(|_| None).collect();
    assert_eq!(rust_version_jobs(&packages, &members, &missing, &vec![]).jobs.len(), 0);
}

#[test]
fn pending_jobs_tell_what_a_file_will_hold() {
    let job = |path: &str, content: &str| Job {
        path: path.to_string(),
        old_content: None,
        new_content: content.as_bytes().to_vec(),
        executable: false,
    };
    let jobs = vec![job("a", "1"), job("b", "2"), job("a", "3")];
    assert_eq!(text_after(&jobs, "a", &None), Some("3".to_string()));
    assert_eq!(text_after(&jobs, "b", &Some("x".to_string())), Some("2".to_string()));
    assert_eq!(text_after(&jobs, "c", &Some("x".to_string())), Some("x".to_string()));
    assert_eq!(text_after(&jobs, "c", &None), None);
}

#[test]
fn packages_are_listed() {
    let packages = vec![
        package("1", "one", "2024", "/w/one/Cargo.toml"),
        package("2", "two", "2024", "/w/two/Cargo.toml"),
        package("3", "three", "2024", "/v/Cargo.toml"),
    ];
    let members: Vec<String> = ["2", "9", "1"].map(String::from).to_vec();
    let report = debug_packages(&packages, &members);
    assert_eq!(report.members, ["  \u{2713} two (/w/two)", "  \u{2713} one (/w/one)"]);
    assert_eq!(report.excluded, ["  \u{2717} three (/v)"]);
    assert_eq!(report.total, 3);
}
