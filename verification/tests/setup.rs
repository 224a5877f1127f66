use captain::cli::{log_level, named_level, parse_args, Invocation, LogLevel};
use captain::init::{
    conductor_file, config_file, hook_files, init_steps, is_yes, prompt_text, prompt_yes_no,
    readme_file, template_files, Existing, InitStep, Question,
};

fn args(words: &[&str]) -> Vec<String> {
    words.iter().map(|w| w.to_string()).collect()
}

#[test]
fn subcommands() {
    assert!(matches!(parse_args(&args(&["captain", "pre-push"])), Invocation::PrePush));
    assert!(matches!(parse_args(&args(&["captain", "init", "x"])), Invocation::Init));
    assert!(matches!(parse_args(&args(&["captain", "debug-packages"])), Invocation::DebugPackages));
    assert!(matches!(parse_args(&args(&["captain"])), Invocation::Generate(None)));
    assert!(matches!(parse_args(&args(&[])), Invocation::Generate(None)));
    assert!(matches!(parse_args(&args(&["captain", "x", "init"])), Invocation::Generate(None)));
}

fn template_dir(words: &[&str]) -> Option<String> {
    match parse_args(&args(words)) {
        Invocation::Generate(dir) => dir,
        _ => panic!("not a subcommand"),
    }
}

#[test]
fn template_directory() {
    assert_eq!(template_dir(&["captain", "--template-dir", "/t"]), Some("/t".to_string()));
    assert_eq!(template_dir(&["captain", "x", "--template-dir", "/t"]), Some("/t".to_string()));
    assert_eq!(template_dir(&["captain", "--template-dir"]), None);
    assert_eq!(
        template_dir(&["captain", "--template-dir", "a", "--template-dir", "b"]),
        Some("b".to_string())
    );
    assert_eq!(
        template_dir(&["captain", "--template-dir", "--template-dir", "c"]),
        Some("--template-dir".to_string())
    );
    assert_eq!(
        template_dir(&["captain", "--template-dir", "a", "--template-dir"]),
        Some("a".to_string())
    );
}

#[test]
fn levels_of_the_log() {
    assert!(log_level(None) == LogLevel::Info);
    assert!(log_level(Some("TRACE")) == LogLevel::Trace);
    assert!(log_level(Some("Debug")) == LogLevel::Debug);
    assert!(log_level(Some("info")) == LogLevel::Info);
    assert!(log_level(Some("warn")) == LogLevel::Warn);
    assert!(log_level(Some("error")) == LogLevel::Error);
    assert!(log_level(Some("off")) == LogLevel::Info);
    assert!(named_level("TRACE") == LogLevel::Info);
}

#[test]
fn answers_to_questions() {
    for yes in ["y\n", "Y", " yes \r\n", "YES"] {
        assert!(prompt_yes_no(Some(yes), false));
    }
    for no in ["n\n", "no", "yep", "yess", "\u{130}"] {
        assert!(!prompt_yes_no(Some(no), true));
    }
    for default in [true, false] {
        assert_eq!(prompt_yes_no(None, default), default);
        assert_eq!(prompt_yes_no(Some("\n"), default), default);
        assert_eq!(prompt_yes_no(Some(" \t"), default), default);
    }
    assert!(is_yes("yes", false) && !is_yes("YES", false) && is_yes("", true));
    assert_eq!(prompt_text("Go?", true), "Go? [Y/n] ");
    assert_eq!(prompt_text("Go?", false), "Go? [y/N] ");
}

#[test]
fn hooks() {
    let files = hook_files("/w");
    let names: Vec<&str> = files.iter().map(|f| f.name.as_str()).collect();
    assert_eq!(names, ["hooks/pre-commit", "hooks/pre-push", "hooks/install.sh"]);
    assert!(files.iter().all(|f| f.executable && f.path == format!("/w/{}", f.name)));
    assert_eq!(files[0].content, "#!/bin/bash\ncaptain\n");
    assert_eq!(files[1].content, "#!/bin/bash\ncaptain pre-push\n");
    assert!(files[2].content.starts_with("#!/usr/bin/env bash\nset -euo pipefail\n\nHOOK_SOURCE_DIR="));
    assert!(files[2].content.contains("  echo \"\u{2714} installed $(basename \"$src\") \u{2192} $dst\"\n"));
    assert!(files[2].content.ends_with("\necho \"All hooks installed successfully.\"\n"));
}

#[test]
fn conductor_tasks() {
    let file = conductor_file("/w");
    assert_eq!(file.path, "/w/conductor.json");
    assert!(!file.executable);
    let tasks: serde_json::Value = serde_json::from_str(&file.content).unwrap();
    assert_eq!(
        tasks["tasks"]["clippy"]["command"].as_str(),
        Some("cargo clippy --workspace --all-targets -- -D warnings")
    );
    assert_eq!(tasks["tasks"]["test"]["command"].as_str(), Some("cargo nextest run"));
    assert_eq!(tasks["tasks"]["check"]["problemMatcher"].as_str(), Some("$rustc"));
}

#[test]
fn configuration_file() {
    let file = config_file("/w", false).unwrap();
    assert_eq!(file.name, ".config/captain/config.kdl");
    assert_eq!(file.path, "/w/.config/captain/config.kdl");
    assert_eq!(
        file.content,
        "// Captain configuration\n// All options default to true. Set properties to #false to disable.\n"
    );
    assert!(!file.executable);
    assert!(config_file("/w", true).is_none());
}

#[test]
fn templates_that_are_created() {
    let file = readme_file("/w", "thing", false).unwrap();
    assert_eq!(file.path, "/w/README.md.in");
    assert_eq!(
        file.content,
        "**thing** is a Rust project.\n\n## Features\n\n- Feature 1\n- Feature 2\n\n## Installation\n\n```bash\ncargo install thing\n```\n\n## Usage\n\n```bash\nthing --help\n```\n"
    );
    assert!(readme_file("/w", "thing", true).is_none());
    let files = template_files("/w", false, false);
    let paths: Vec<&str> = files.iter().map(|f| f.path.as_str()).collect();
    assert_eq!(
        paths,
        [
            "/w/.config/captain/readme-templates/readme-header.md",
            "/w/.config/captain/readme-templates/readme-footer.md",
        ]
    );
    assert!(files.iter().all(|f| f.content.is_empty() && !f.executable));
    assert_eq!(template_files("/w", true, false).len(), 1);
    assert_eq!(template_files("/w", true, true).len(), 0);
}

fn existing(config: bool, header: bool, footer: bool, readme: bool) -> Existing {
    Existing { config, header, footer, readme }
}

const QUESTIONS: [Question; 5] = [
    Question::Hooks,
    Question::Conductor,
    Question::Config,
    Question::Templates,
    Question::Readme,
];

#[test]
fn questions_about_a_new_repository() {
    let new = existing(false, false, false, false);
    assert!(init_steps(new) == QUESTIONS.map(InitStep::Ask));
    let mut created = Vec::new();
    for question in QUESTIONS {
        for yes in [None, Some("\n"), Some("y\n")] {
            let files = question.files_to_create(yes, "/w", "thing", new);
            assert!(!files.is_empty());
            assert!(files.iter().all(|file| file.path == format!("/w/{}", file.name)));
        }
        assert!(question.files_to_create(Some("n\n"), "/w", "thing", new).is_empty());
        let files = question.files_to_create(Some("yes"), "/w", "thing", new);
        created.extend(files.into_iter().map(|file| file.name));
    }
    assert_eq!(
        created,
        [
            "hooks/pre-commit",
            "hooks/pre-push",
            "hooks/install.sh",
            "conductor.json",
            ".config/captain/config.kdl",
            ".config/captain/readme-templates/readme-header.md",
            ".config/captain/readme-templates/readme-footer.md",
            "README.md.in",
        ]
    );
    assert_eq!(Question::Readme.text(), "Create README.md.in template?");
    assert_eq!(Question::Config.text(), "Create .config/captain/config.kdl?");
}

#[test]
fn what_exists_is_left_alone() {
    for bits in 0..16u32 {
        let there = existing(bits & 1 != 0, bits & 2 != 0, bits & 4 != 0, bits & 8 != 0);
        let mut names = Vec::new();
        for step in init_steps(there) {
            match step {
                InitStep::Ask(question) => {
                    let files = question.files_to_create(None, "/w", "thing", there);
                    assert!(!files.is_empty());
                    names.extend(files.into_iter().map(|file| file.name));
                }
                InitStep::Skip(question) => {
                    assert!(question.notice().unwrap().ends_with(", skipping"));
                    assert!(question.files_to_create(None, "/w", "thing", there).is_empty());
                }
            }
        }
        let made = |name: &str| names.iter().any(|n| n == name);
        assert_eq!(made(".config/captain/config.kdl"), !there.config);
        assert_eq!(made(".config/captain/readme-templates/readme-header.md"), !there.header);
        assert_eq!(made(".config/captain/readme-templates/readme-footer.md"), !there.footer);
        assert_eq!(made("README.md.in"), !there.readme);
        assert!(made("conductor.json") && made("hooks/install.sh"));
    }
    let steps = init_steps(existing(false, true, true, true));
    assert!(steps[3] == InitStep::Skip(Question::Templates));
    assert!(steps[4] == InitStep::Skip(Question::Readme));
    assert_eq!(Question::Readme.notice().unwrap(), "README.md.in already exists, skipping");
    assert_eq!(Question::Hooks.notice(), None);
}
