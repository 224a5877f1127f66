use captain::ansi::{maybe_strip_bytes, maybe_strip_str};
use captain::command::{
    cargo_subcommand_missing_message, clippy_command, clippy_fix_hint, color_envs, doc_command,
    doc_test_command, error_report, failure_report, fix_command, format_command_line,
    indicates_missing_cargo_subcommand, shear_command, shear_fix_hint, shell_escape,
    should_skip_doc_tests, signed_decimal, stream_report, test_build_command, test_command,
    CommandOutput, EnvVar,
};
use captain::config::CaptainConfig;
use captain::mercy::{mercy_level, parse_byte, pre_push_config};
use captain::pre_push::{
    changed_files, compare_versions, crate_is_excluded, find_crate, has_diverged, member_names,
    plan, push_scope, revision, scope_report, shared_target_dir, Check, CheckedCrates, Next,
    PushRun, PushScope, RunResult, Step, Verdict,
};
use captain::progress::{pad_name, shorten, TaskSpinner};
use captain::stream::{status_line, streaming_notice, Captured, ColorSupport, ShownLine, Streaming};
use captain::workspace::Package;

const PLAIN: ColorSupport = ColorSupport { stdout: false, stderr: false };
const COLOR: ColorSupport = ColorSupport { stdout: true, stderr: true };

fn strings(words: &[&str]) -> Vec<String> {
    words.iter().map(|w| w.to_string()).collect()
}

#[test]
fn parts_of_commands_are_quoted() {
    assert_eq!(shell_escape("--all-targets"), "--all-targets");
    assert_eq!(shell_escape(""), "");
    assert_eq!(shell_escape("a b"), "\"a b\"");
    assert_eq!(shell_escape("a\u{3000}b"), format!("{:?}", "a\u{3000}b"));
    assert_eq!(shell_escape("say \"x\""), "\"say \\\"x\\\"\"");
    assert_eq!(shell_escape("it's"), "\"it's\"");
    assert_eq!(shell_escape("a\\b"), "\"a\\\\b\"");
    assert_eq!(shell_escape("caf\u{e9}"), "caf\u{e9}");
    assert_eq!(format_command_line(&strings(&["cargo", "a b", "c"])), "cargo \"a b\" c");
    assert_eq!(format_command_line(&[]), "");
}

fn forms_in_quotes(c: char) -> Vec<String> {
    let escaped = format!("\\u{{{:x}}}", c as u32);
    match c {
        '\t' => vec!["\\t".to_string()],
        '\r' => vec!["\\r".to_string()],
        '\n' => vec!["\\n".to_string()],
        '\0' => vec!["\\0".to_string()],
        '"' | '\\' => vec![format!("\\{c}")],
        '\u{1}'..='\u{1f}' | '\u{7f}' => vec![escaped],
        ' '..='~' => vec![c.to_string()],
        _ => vec![c.to_string(), escaped],
    }
}

#[test]
fn every_character_stands_in_quotes_by_itself() {
    for code in 0..=0x10ffffu32 {
        if let Some(c) = char::from_u32(code) {
            let alone = shell_escape(&format!(" {c}"));
            let form = &alone[2..alone.len() - 1];
            assert!(forms_in_quotes(c).iter().any(|f| f == form), "{code:x} {alone}");
            assert_eq!(shell_escape(&format!("e{c} {c}")), format!("\"e{form} {form}\""));
        }
    }
}

#[test]
fn different_parts_are_written_differently() {
    let parts = [
        "", "a", "\"a\"", "a b", "\"a b\"", "a\\ b", "a\\\\ b", "\\u{1} ", "\u{1} ", "\\n ", "\n ",
    ];
    for a in parts {
        for b in parts {
            assert_eq!(shell_escape(a) == shell_escape(b), a == b, "{a:?} {b:?}");
        }
    }
}

#[test]
fn missing_subcommands_are_noticed() {
    assert!(cargo_subcommand_missing_message("error: no such command: `shear`", "shear"));
    assert!(cargo_subcommand_missing_message("ERROR: No Such Command: 'SHEAR'", "shear"));
    assert!(cargo_subcommand_missing_message("no such subcommand: `Shear`", "sHEAR"));
    assert!(cargo_subcommand_missing_message("\u{130} no such subcommand: 'shear'", "shear"));
    assert!(!cargo_subcommand_missing_message("no such command: `shears`", "shear"));
    assert!(!cargo_subcommand_missing_message("no such command: shear", "shear"));
    assert!(indicates_missing_cargo_subcommand(b"\xffno such command: `shear`", "shear"));
    assert!(!indicates_missing_cargo_subcommand(b"", "shear"));
}

#[test]
fn doc_tests_without_a_library() {
    for text in [
        "there is nothing to test",
        "error: found no library targets to test",
        "found no binaries to test",
        "no library targets found in package",
    ] {
        assert!(should_skip_doc_tests(Some(101), text.as_bytes()));
        assert!(!should_skip_doc_tests(Some(1), text.as_bytes()));
        assert!(!should_skip_doc_tests(None, text.as_bytes()));
    }
    assert!(!should_skip_doc_tests(Some(101), b"test failed"));
}

#[test]
fn commands_of_checks() {
    let crates = strings(&["a", "b"]);
    let some = Some(strings(&["x", "y"]));
    assert_eq!(
        clippy_command(&crates, &None),
        ["cargo", "clippy", "-p", "a", "-p", "b", "--all-targets", "--all-features", "--", "-D", "warnings"]
    );
    assert_eq!(
        clippy_command(&crates[..1], &some),
        ["cargo", "clippy", "-p", "a", "--all-targets", "--features", "x,y", "--", "-D", "warnings"]
    );
    assert_eq!(
        clippy_command(&crates[..1], &Some(vec![])),
        ["cargo", "clippy", "-p", "a", "--all-targets", "--", "-D", "warnings"]
    );
    assert_eq!(
        test_build_command(&crates),
        ["cargo", "nextest", "run", "--no-run", "-p", "a", "-p", "b"]
    );
    assert_eq!(
        test_command(&crates),
        ["cargo", "nextest", "run", "-p", "a", "-p", "b", "--no-tests=pass"]
    );
    assert_eq!(shear_command(), ["cargo", "shear"]);
    assert_eq!(
        doc_test_command(&crates, &some),
        ["cargo", "test", "--doc", "-p", "a", "-p", "b", "--features", "x,y"]
    );
    assert_eq!(
        doc_command(&crates, &None),
        ["cargo", "doc", "--no-deps", "-p", "a", "-p", "b", "--all-features"]
    );
    let envs: Vec<(String, String)> =
        color_envs().into_iter().map(|var| (var.key, var.value)).collect();
    assert_eq!(
        envs,
        [
            ("FORCE_COLOR".to_string(), "1".to_string()),
            ("CARGO_TERM_COLOR".to_string(), "always".to_string()),
        ]
    );
}

#[test]
fn fixing_with_clippy() {
    assert_eq!(
        fix_command(&strings(&["cargo", "clippy", "--", "-D", "--", "w"])),
        ["cargo", "clippy", "--allow-dirty", "--fix", "--", "-D", "--", "w"]
    );
    assert_eq!(fix_command(&strings(&["cargo"])), ["cargo", "--allow-dirty", "--fix"]);
    assert_eq!(
        clippy_fix_hint(&strings(&["cargo", "clippy", "--", "-D"])),
        "    \x1b[36m\u{1f4a1}\x1b[39m Try auto-fixing with:\n        cargo clippy --allow-dirty --fix -- -D\n        git commit --amend --no-edit"
    );
    assert_eq!(
        shear_fix_hint(),
        "    \x1b[36m\u{1f4a1}\x1b[39m Try cleaning unused dependencies with:\n        cargo shear --fix"
    );
}

#[test]
fn escape_sequences_are_stripped() {
    assert_eq!(maybe_strip_str("\x1b[32mfoo\x1b[m bar", false), "foo bar");
    assert_eq!(maybe_strip_str("\x1b[32mfoo\x1b[m bar", true), "\x1b[32mfoo\x1b[m bar");
    assert_eq!(maybe_strip_str("plain \u{e9}\n\u{7f}", false), "plain \u{e9}\n\u{7f}");
    assert_eq!(maybe_strip_str("a\tb\rc", false), "abc");
    assert_eq!(maybe_strip_bytes(b"\x1b[1mx\x1b[0m\n", false), b"x\n");
    assert_eq!(maybe_strip_bytes(b"\x1b[1mx\x1b[0m\n", true), b"\x1b[1mx\x1b[0m\n");
    let plain: Vec<u8> = (0x20..=0x7eu8).chain([0x0a]).collect();
    assert_eq!(maybe_strip_bytes(&plain, false), plain);
}

#[test]
fn reports_of_failures() {
    assert_eq!(stream_report("stdout", b"", false), "    stdout: <empty>");
    assert_eq!(stream_report("stderr", b"\x1b[31mx\x1b[0m \n\n", false), "    stderr:\nx");
    assert_eq!(stream_report("stderr", b"x \n\n", true), "    stderr:\nx");
    assert_eq!(signed_decimal(0), "0");
    assert_eq!(signed_decimal(-7), "-7");
    assert_eq!(signed_decimal(i32::MIN), "-2147483648");
    assert_eq!(signed_decimal(i32::MAX), "2147483647");
    let envs = vec![EnvVar { key: "K".to_string(), value: "v w".to_string() }];
    let output = CommandOutput { code: Some(101), stdout: Vec::new(), stderr: b"bad\n".to_vec() };
    assert_eq!(
        failure_report(&strings(&["a", "b c"]), &envs, &output, Some("hint".to_string()), PLAIN),
        [
            "    command: a \"b c\"",
            "    env: K=v w",
            "    exit code: 101",
            "    stdout: <empty>",
            "    stderr:\nbad",
            "hint",
        ]
    );
    let output = CommandOutput { code: None, stdout: Vec::new(), stderr: Vec::new() };
    assert_eq!(
        failure_report(&strings(&["a"]), &vec![], &output, None, PLAIN)[1],
        "    exit code: terminated by signal"
    );
    assert_eq!(
        error_report(&strings(&["a"]), &vec![], "not found", None),
        ["    command: a", "    error: not found"]
    );
    assert_eq!(
        error_report(&strings(&["a"]), &envs, "no", Some("h".to_string())),
        ["    command: a", "    env: K=v w", "    error: no", "h"]
    );
}

fn package(id: &str, name: &str, manifest_path: &str) -> Package {
    Package {
        id: id.to_string(),
        name: name.to_string(),
        edition: "2024".to_string(),
        rust_version: None,
        manifest_path: manifest_path.to_string(),
    }
}

fn workspace() -> (Vec<Package>, Vec<String>) {
    (
        vec![
            package("r", "root", "/w/Cargo.toml"),
            package("a", "a", "/w/crates/a/Cargo.toml"),
            package("n", "nested", "/w/crates/a/nested/Cargo.toml"),
            package("x", "out", "/w/out/Cargo.toml"),
        ],
        strings(&["r", "a", "n"]),
    )
}

#[test]
fn files_belong_to_the_nearest_crate() {
    let (packages, members) = workspace();
    assert_eq!(find_crate(&packages, "/w/crates/a/src/lib.rs"), Some("a".to_string()));
    assert_eq!(find_crate(&packages, "/w/crates/a/nested/x/y"), Some("nested".to_string()));
    assert_eq!(find_crate(&packages, "/w/crates/b/x"), Some("root".to_string()));
    assert_eq!(find_crate(&packages, "/w"), Some("root".to_string()));
    assert_eq!(find_crate(&packages, "/elsewhere"), None);
    assert_eq!(find_crate(&packages, "relative"), None);
    assert!(crate_is_excluded(&packages, &members, "out"));
    assert!(!crate_is_excluded(&packages, &members, "a"));
    let twice = vec![package("1", "first", "/w/Cargo.toml"), package("2", "last", "/w/Cargo.toml")];
    assert_eq!(find_crate(&twice, "/w/x"), Some("last".to_string()));
}

#[test]
fn changed_files_are_sorted_and_single() {
    assert_eq!(changed_files(b"b\na\nb\n"), ["a", "b"]);
    assert_eq!(changed_files(b"").len(), 0);
    assert_eq!(changed_files(b"x\xff\r\n"), ["x\u{fffd}"]);
}

#[test]
fn scope_of_a_push() {
    let (packages, members) = workspace();
    assert!(matches!(push_scope(&packages, &members, "/w", &vec![]), PushScope::NoChanges));
    assert!(matches!(
        push_scope(&packages, &members, "/v", &strings(&["a", "/u/b"])),
        PushScope::NoCrates
    ));
    assert!(matches!(
        push_scope(&packages, &members, "/w", &strings(&["out/src/x.rs"])),
        PushScope::NoMembers
    ));
    let files = strings(&["out/x", "crates/a/nested/y", "crates/a/x", "crates/a/z", "/w/top"]);
    match push_scope(&packages, &members, "/w", &files) {
        PushScope::Crates(crates) => {
            assert_eq!(crates.affected, ["a", "nested", "root"]);
            assert_eq!(crates.all, ["a", "nested", "root"]);
            assert_eq!(
                scope_report(&crates),
                "\x1b[36m\u{1f50d}\x1b[39m Affected crates: \x1b[33ma, nested, root\x1b[39m"
            );
        }
        _ => panic!("crates expected"),
    }
}

fn checked(names: &[&str]) -> CheckedCrates {
    CheckedCrates { affected: strings(names), all: strings(names) }
}

#[test]
fn clippy_is_run_on_all_members() {
    let (packages, members) = workspace();
    match push_scope(&packages, &members, "/w", &strings(&["crates/a/x"])) {
        PushScope::Crates(crates) => {
            assert_eq!(crates.affected, ["a"]);
            assert_eq!(crates.all, ["a", "nested", "root"]);
            let config = config([true; 5]);
            assert_eq!(
                Check::Clippy.command(&config, &crates)[..8],
                ["cargo", "clippy", "-p", "a", "-p", "nested", "-p", "root"]
            );
            assert_eq!(Check::Tests.command(&config, &crates), test_command(&strings(&["a"])));
        }
        _ => panic!("crates expected"),
    }
    assert_eq!(member_names(&packages, &members), ["a", "nested", "root"]);
    assert!(member_names(&packages, &vec![]).is_empty());
}

#[test]
fn rust_versions_are_compared() {
    let (mut packages, members) = workspace();
    packages[0].rust_version = Some("1.87.0".to_string());
    packages[3].rust_version = Some("1.60.0".to_string());
    let report = compare_versions(&packages, &members);
    assert!(!report.differ);
    assert_eq!(report.lines, ["    root: rust-version = 1.87.0"]);
    packages[2].rust_version = Some("1.87.0".to_string());
    let result = RunResult::Compared(compare_versions(&packages, &members));
    assert!(Check::RustVersion.verdict(&result) == Verdict::Passed);
    packages[1].rust_version = Some("1.80.0".to_string());
    let result = RunResult::Compared(compare_versions(&packages, &members));
    assert!(Check::RustVersion.verdict(&result) == Verdict::Failed);
    assert_eq!(
        Check::RustVersion.conclude(&vec![], &vec![], &result, "0.0s", PLAIN),
        [
            "\x1b[31mfailed (0.0s)\x1b[39m",
            "    These crates declare different Rust versions:",
            "    root: rust-version = 1.87.0",
            "    a: rust-version = 1.80.0",
            "    nested: rust-version = 1.87.0",
        ]
    );
    let mut config = config([false; 5]);
    config.same_rust_version = true;
    assert!(plan(&config) == [Step::Run(Check::RustVersion)]);
    assert!(!go_through(&config, &[Check::RustVersion]).0);
    assert!(go_through(&config, &[]).0);
    assert!(Check::RustVersion.command(&config, &checked(&["a"])).is_empty());
    assert_eq!(
        Step::Run(Check::RustVersion).announce(),
        "  \x1b[36m\u{1f980}\x1b[39m Comparing Rust versions of all crates... "
    );
}

#[test]
fn branches_that_diverged() {
    assert!(!has_diverged("1", "1", Some("2")));
    assert!(!has_diverged("1", "2", Some("1")));
    assert!(!has_diverged("1", "2", None));
    assert!(has_diverged("1", "2", Some("3")));
    assert_eq!(revision(b" abc\n"), "abc");
    assert_eq!(shared_target_dir("/home/me"), "/home/me/.captain/target");
}

fn config(on: [bool; 5]) -> CaptainConfig {
    let mut config = CaptainConfig::default();
    config.clippy = on[0];
    config.nextest = on[1];
    config.cargo_shear = on[2];
    config.doc_tests = on[3];
    config.docs = on[4];
    config.same_rust_version = false;
    config
}

#[test]
fn order_of_the_checks() {
    let all = plan(&config([true; 5]));
    assert!(
        all == [
            Step::Run(Check::Clippy),
            Step::Run(Check::TestBuild),
            Step::Start(Check::Tests),
            Step::Start(Check::Shear),
            Step::Run(Check::DocTests),
            Step::Run(Check::Docs),
            Step::Await(Check::Shear),
            Step::Await(Check::Tests),
        ]
    );
    assert!(plan(&config([false; 5])).is_empty());
    assert!(
        plan(&config([false, false, true, false, true]))
            == [Step::Start(Check::Shear), Step::Run(Check::Docs), Step::Await(Check::Shear)]
    );
}

#[test]
fn commands_and_announcements_of_steps() {
    let mut config = config([true; 5]);
    config.docs_features = Some(strings(&["f"]));
    let crates = strings(&["a"]);
    let checked = checked(&["a"]);
    assert_eq!(
        Check::Docs.command(&config, &checked),
        ["cargo", "doc", "--no-deps", "-p", "a", "--features", "f"]
    );
    assert_eq!(Check::Clippy.command(&config, &checked), clippy_command(&crates, &None));
    assert_eq!(Check::TestBuild.command(&config, &checked), test_build_command(&crates));
    assert_eq!(Check::Tests.command(&config, &checked), test_command(&crates));
    assert_eq!(Check::Shear.command(&config, &checked), shear_command());
    assert_eq!(Check::DocTests.command(&config, &checked), doc_test_command(&crates, &None));
    let envs = Check::Docs.envs();
    assert_eq!((envs[0].key.as_str(), envs[0].value.as_str()), ("RUSTDOCFLAGS", "-D warnings"));
    assert!(Check::Clippy.envs().is_empty());
    assert!(Check::Clippy.is_streamed() && !Check::Docs.is_streamed());
    assert_eq!(
        Step::Run(Check::Clippy).announce(),
        "  \x1b[36m\u{1f50d}\x1b[39m Running clippy for all crates... "
    );
    assert_eq!(
        Step::Start(Check::Shear).announce(),
        "  \x1b[36m\u{2702}\u{fe0f}\x1b[39m Running cargo-shear in background..."
    );
    assert_eq!(
        Step::Await(Check::Tests).announce(),
        "  \x1b[36m\u{1f9ea}\x1b[39m Waiting for test results... "
    );
}

fn ran(code: Option<i32>, stderr: &str) -> RunResult {
    RunResult::Ran(CommandOutput { code, stdout: Vec::new(), stderr: stderr.as_bytes().to_vec() })
}

#[test]
fn verdicts() {
    let missing = "error: no such command: `shear`";
    let nothing = "there is nothing to test";
    assert!(Check::Clippy.verdict(&ran(Some(0), "x")) == Verdict::Passed);
    assert!(Check::Clippy.verdict(&ran(Some(1), "x")) == Verdict::Failed);
    assert!(Check::Clippy.verdict(&ran(None, "x")) == Verdict::Failed);
    assert!(Check::Clippy.verdict(&RunResult::Crashed) == Verdict::Failed);
    assert!(Check::Clippy.verdict(&RunResult::NotRun("x".to_string())) == Verdict::Failed);
    assert!(Check::DocTests.verdict(&ran(Some(101), nothing)) == Verdict::Skipped);
    assert!(Check::DocTests.verdict(&ran(Some(1), nothing)) == Verdict::Failed);
    assert!(Check::Docs.verdict(&ran(Some(101), nothing)) == Verdict::Failed);
    assert!(Check::Shear.verdict(&ran(Some(101), missing)) == Verdict::Skipped);
    assert!(Check::Tests.verdict(&ran(Some(101), missing)) == Verdict::Failed);
    assert!(Check::Shear.verdict(&ran(Some(1), "unused")) == Verdict::Failed);
}

#[test]
fn conclusions() {
    let command = strings(&["cargo", "x"]);
    let none: Vec<EnvVar> = Vec::new();
    assert_eq!(
        Check::Docs.conclude(&command, &none, &ran(Some(0), ""), "1.5s", PLAIN),
        ["\x1b[32mpassed (1.5s)\x1b[39m"]
    );
    assert_eq!(
        Check::DocTests.conclude(
            &command,
            &none,
            &ran(Some(101), "no library targets found"),
            "1.5s",
            PLAIN
        ),
        ["\x1b[33mskipped (no lib)\x1b[39m"]
    );
    assert_eq!(
        Check::Shear.conclude(
            &command,
            &none,
            &ran(Some(101), "no such command: `shear`"),
            "1.5s",
            PLAIN
        ),
        [
            "\x1b[33mskipped (not installed)\x1b[39m",
            "    \x1b[36m\u{1f4a1}\x1b[39m Install with: cargo binstall cargo-shear",
        ]
    );
    let failed = Check::Shear.conclude(&command, &none, &ran(Some(1), "e"), "0.1s", PLAIN);
    assert_eq!(failed[0], "\x1b[31mfailed (0.1s)\x1b[39m");
    assert_eq!(failed[1], "    command: cargo x");
    assert_eq!(failed.last().unwrap(), &shear_fix_hint());
    let failed = Check::Shear.conclude(
        &command,
        &none,
        &RunResult::NotRun("gone".to_string()),
        "0.1s",
        PLAIN,
    );
    assert_eq!(failed, ["\x1b[31mfailed\x1b[39m", "    command: cargo x", "    error: gone"]);
    let failed = Check::Clippy.conclude(
        &command,
        &none,
        &RunResult::NotRun("gone".to_string()),
        "0.1s",
        PLAIN,
    );
    assert_eq!(failed.last().unwrap(), &clippy_fix_hint(&command));
    assert_eq!(
        Check::Tests.conclude(&command, &none, &RunResult::Crashed, "0.1s", PLAIN),
        ["\x1b[31mfailed (thread panicked)\x1b[39m"]
    );
}

fn go_through(config: &CaptainConfig, failing: &[Check]) -> (bool, Vec<Step>) {
    let mut run = PushRun::new(config);
    let mut taken = Vec::new();
    loop {
        match run.next() {
            Next::Take(step) => {
                taken.push(step);
                let verdict = match step {
                    Step::Start(_) => None,
                    Step::Run(check) | Step::Await(check) => Some(if failing.contains(&check) {
                        Verdict::Failed
                    } else {
                        Verdict::Passed
                    }),
                };
                run.advance(verdict);
            }
            Next::Succeed => return (true, taken),
            Next::Fail => return (false, taken),
        }
    }
}

#[test]
fn push_is_allowed_only_if_all_checks_pass() {
    let checks = [Check::Clippy, Check::TestBuild, Check::Tests, Check::Shear, Check::DocTests, Check::Docs, Check::RustVersion];
    for bits in 0..32u32 {
        let on = [bits & 1 != 0, bits & 2 != 0, bits & 4 != 0, bits & 8 != 0, bits & 16 != 0];
        let config = config(on);
        assert!(go_through(&config, &[]).0);
        for check in checks {
            let enabled = match check {
                Check::Clippy => on[0],
                Check::TestBuild | Check::Tests => on[1],
                Check::Shear => on[2],
                Check::DocTests => on[3],
                Check::Docs => on[4],
                Check::RustVersion => false,
            };
            assert_eq!(go_through(&config, &[check]).0, !enabled);
        }
    }
    let (passed, taken) = go_through(&config([true; 5]), &[Check::TestBuild]);
    assert!(!passed);
    assert_eq!(taken.len(), 2);
}

#[test]
fn levels_of_mercy() {
    for text in ["", "0", "1", "2", "3", "+4", "-1", "255", "256", "007", "1 ", "x", "+", "٣"] {
        assert_eq!(parse_byte(text), text.parse::<u8>().ok(), "{text}");
        assert_eq!(mercy_level(text), text.parse::<u8>().unwrap_or(1), "{text}");
    }
    let expected = [
        ("0", "\u{1f64f} HAVE_MERCY=0: skipping ", [true; 5]),
        (
            "",
            "\u{1f64f} HAVE_MERCY=1: skipping nextest, doc-tests, docs",
            [true, false, true, false, false],
        ),
        (
            "2",
            "\u{1f64f} HAVE_MERCY=2: skipping nextest, doc-tests, docs, clippy",
            [false, false, true, false, false],
        ),
        (
            "9",
            "\u{1f64f} HAVE_MERCY=9: skipping nextest, doc-tests, docs, clippy, cargo-shear",
            [false; 5],
        ),
    ];
    for (request, notice, on) in expected {
        let (config, said) = pre_push_config(CaptainConfig::default(), Some(request));
        assert_eq!(said.unwrap(), notice);
        assert_eq!(
            [config.clippy, config.nextest, config.cargo_shear, config.doc_tests, config.docs],
            on
        );
        assert_eq!(config.same_rust_version, request != "9");
        assert!(config.rust_version);
    }
}

#[test]
fn checks_that_are_configured_off() {
    let (_, said) = pre_push_config(config([true; 5]), None);
    assert_eq!(said, None);
    let (after, said) = pre_push_config(config([false, true, false, false, true]), None);
    assert_eq!(
        said.unwrap(),
        "\u{23ed}\u{fe0f}  Disabled via config: clippy, doc-tests, cargo-shear"
    );
    assert!(!after.clippy && after.nextest);
}

fn captured(stdout: &[&str], stderr: &[&str]) -> Captured {
    Captured { stdout: strings(stdout), stderr: strings(stderr) }
}

fn shown(lines: &[ShownLine]) -> Vec<(bool, &str)> {
    lines.iter().map(|line| (line.to_stderr, line.text.as_str())).collect()
}

#[test]
fn short_command_is_quiet() {
    let mut run = Streaming::new();
    let poll = run.poll(4999, captured(&["a"], &["b"]), PLAIN);
    assert!(!poll.started && poll.lines.is_empty() && !poll.idle);
    let poll = run.poll(4999, captured(&[], &[]), PLAIN);
    assert!(poll.idle);
    let finished = run.finish(captured(&["c"], &[]), PLAIN);
    assert!(finished.lines.is_empty() && !finished.blank_line);
    assert_eq!(finished.stdout, b"a\nc");
    assert_eq!(finished.stderr, b"b");
}

#[test]
fn long_command_is_shown() {
    let mut run = Streaming::new();
    run.poll(10, captured(&["a"], &["\x1b[31mb\x1b[0m"]), PLAIN);
    let poll = run.poll(5000, captured(&["c"], &["d"]), PLAIN);
    assert!(poll.started);
    assert_eq!(shown(&poll.lines), [(false, "a"), (true, "b"), (false, "c"), (true, "d")]);
    let poll = run.poll(5100, captured(&["e"], &[]), PLAIN);
    assert!(!poll.started);
    assert_eq!(shown(&poll.lines), [(false, "e")]);
    let finished = run.finish(captured(&["f"], &["g"]), PLAIN);
    assert_eq!(shown(&finished.lines), [(false, "f"), (true, "g")]);
    assert!(finished.blank_line);
    assert_eq!(finished.stdout, b"a\nc\ne\nf");
    assert_eq!(finished.stderr, b"\x1b[31mb\x1b[0m\nd\ng");
    assert_eq!(
        streaming_notice(),
        "  \x1b[33m\u{23f1}\u{fe0f}\x1b[39m Taking longer than expected, streaming output..."
    );
}

#[test]
fn time_of_a_command_is_shown_every_second() {
    let mut run = Streaming::new();
    let shown: Vec<Option<u64>> = [0, 100, 999, 1000, 1100, 3500, 3600, 2000, 4000]
        .iter()
        .map(|elapsed| run.poll(*elapsed, captured(&[], &[]), PLAIN).seconds)
        .collect();
    assert_eq!(
        shown,
        [Some(0), None, None, Some(1), None, Some(3), None, None, Some(4)]
    );
}

#[test]
fn colour_is_kept_where_it_is_supported() {
    let mut run = Streaming::new();
    let poll = run.poll(6000, captured(&["\x1b[1mx\x1b[0m"], &[]), COLOR);
    assert_eq!(shown(&poll.lines), [(false, "\x1b[1mx\x1b[0m")]);
}

#[test]
fn status_of_a_running_command() {
    assert_eq!(status_line(&captured(&[], &[])), None);
    assert_eq!(status_line(&captured(&["a", "b"], &[])), Some("b".to_string()));
    assert_eq!(
        status_line(&captured(&["a"], &["c", "\x1b[2md\x1b[0m"])),
        Some("d".to_string())
    );
}

#[test]
fn lines_of_tasks() {
    let task = TaskSpinner { name: "clippy".to_string() };
    assert_eq!(task.waiting(), "clippy        ");
    assert_eq!(task.succeed("1.2s"), "  \x1b[32m\u{2713}\x1b[39m clippy         \x1b[2m1.2s\x1b[0m");
    assert_eq!(task.fail("1.2s"), "  \x1b[31m\u{2717}\x1b[39m clippy         \x1b[2m1.2s\x1b[0m");
    assert_eq!(task.skip("why"), "  \x1b[33m\u{2298}\x1b[39m clippy         \x1b[2mwhy\x1b[0m");
    assert_eq!(task.set_message("hi"), "clippy         \x1b[2mhi\x1b[0m");
    assert_eq!(pad_name("a-very-long-task"), "a-very-long-task");
    assert_eq!(pad_name("\u{e9}\u{e9}"), format!("{:<14}", "\u{e9}\u{e9}"));
    assert_eq!(pad_name(""), format!("{:<14}", ""));
}

#[test]
fn long_messages_are_shortened() {
    let fifty = "x".repeat(50);
    assert_eq!(shorten(&fifty), fifty);
    let longer = "0123456789".repeat(6);
    assert_eq!(shorten(&longer), format!("\u{2026}{}", &longer[11..]));
    assert_eq!(shorten(&longer).chars().count(), 50);
    let wide = format!("\u{e9}{}", "y".repeat(49));
    assert_eq!(shorten(&wide), format!("\u{2026}{}", "y".repeat(49)));
}
