//! Command lines: writing them, building those of the checks, and reading what came of them.

use vstd::prelude::*;

use crate::ansi::{bytes_for, cyan, in_cyan, maybe_strip_bytes};
use crate::config::opt_texts;
use crate::size::{decimal, decimal_of};
use crate::stream::ColorSupport;
use crate::text::{
    contains, from_utf8_lossy, is_white, is_whitespace, join, joined, lossy_text, lower_text,
    occurs, opt_text, quote, quoted, quotes_tell_texts_apart, same, texts, to_chars, to_lowercase,
    trim_end, trimmed_end,
};

verus! {

broadcast use vstd::string::group_string_axioms;

/// Whether a part of a command line can stand there as it is.
pub open spec fn stands_bare(part: Seq<char>) -> bool {
    forall|i: int|
        0 <= i < part.len() ==> !is_white(#[trigger] part[i]) && part[i] != '"' && part[i] != '\''
            && part[i] != '\\'
}

/// How a part of a command line is written: as it is, or else quoted.
pub open spec fn escaped(part: Seq<char>) -> Seq<char> {
    if stands_bare(part) {
        part
    } else {
        quoted(part)
    }
}

/// Different parts are never written the same.
pub proof fn escaping_tells_parts_apart(a: Seq<char>, b: Seq<char>)
    requires
        escaped(a) == escaped(b),
    ensures
        a == b,
{
    assert(quoted(a)[0] == '"' && quoted(b)[0] == '"');
    if !stands_bare(a) && !stands_bare(b) {
        quotes_tell_texts_apart(a, b);
    }
}

/// How a command line is written.
pub open spec fn command_line(parts: Seq<Seq<char>>) -> Seq<char> {
    joined(parts.map_values(|part: Seq<char>| escaped(part)), " "@)
}

/// How a part of a command line is written.
pub fn shell_escape(part: &str) -> (r: String)
    ensures
        r@ == escaped(part@),
{
    let chars = to_chars(part);
    let mut i: usize = 0;
    while i < chars.len()
        invariant
            i <= chars.len(),
            chars@ == part@,
            forall|j: int|
                0 <= j < i ==> !is_white(#[trigger] part@[j]) && part@[j] != '"' && part@[j] != '\''
                    && part@[j] != '\\',
        decreases chars.len() - i,
    {
        let c = chars[i];
        if is_whitespace(c) || c == '"' || c == '\'' || c == '\\' {
            assert(part@[i as int] == c);
            return quote(part);
        }
        i += 1;
    }
    part.to_owned()
}

/// How a command line is written.
pub fn format_command_line(parts: &[String]) -> (r: String)
    ensures
        r@ == command_line(texts(parts@)),
{
    let ghost wanted = texts(parts@).map_values(|part: Seq<char>| escaped(part));
    let mut written: Vec<String> = Vec::new();
    let mut i: usize = 0;
    while i < parts.len()
        invariant
            i <= parts.len(),
            i == written.len(),
            wanted == texts(parts@).map_values(|part: Seq<char>| escaped(part)),
            forall|j: int| 0 <= j < i ==> (#[trigger] written@[j])@ == wanted[j],
        decreases parts.len() - i,
    {
        written.push(shell_escape(parts[i].as_str()));
        i += 1;
    }
    assert(texts(written@) =~= wanted);
    join(written.as_slice(), " ")
}

/// What cargo says when it does not know a subcommand.
pub open spec fn missing_patterns(subcommand: Seq<char>) -> Seq<Seq<char>> {
    seq![
        "no such command: `"@ + subcommand + "`"@,
        "no such command: '"@ + subcommand + "'"@,
        "no such subcommand: `"@ + subcommand + "`"@,
        "no such subcommand: '"@ + subcommand + "'"@,
    ]
}

/// Whether cargo says, in any case of letters, that it does not know a subcommand.
pub open spec fn says_missing(stderr: Seq<char>, subcommand: Seq<char>) -> bool {
    let patterns = missing_patterns(subcommand);
    exists|i: int|
        0 <= i < patterns.len() && occurs(lower_text(stderr), lower_text(#[trigger] patterns[i]))
}

fn says(lower: &str, start: &str, subcommand: &str, end: &str) -> (r: bool)
    ensures
        r == occurs(lower@, lower_text(start@ + subcommand@ + end@)),
{
    let mut pattern = start.to_owned();
    pattern.append(subcommand);
    pattern.append(end);
    contains(lower, to_lowercase(pattern.as_str()).as_str())
}

/// Whether cargo says that it does not know a subcommand.
pub fn cargo_subcommand_missing_message(stderr: &str, subcommand: &str) -> (r: bool)
    ensures
        r == says_missing(stderr@, subcommand@),
{
    let lower = to_lowercase(stderr);
    let first = says(lower.as_str(), "no such command: `", subcommand, "`");
    let second = says(lower.as_str(), "no such command: '", subcommand, "'");
    let third = says(lower.as_str(), "no such subcommand: `", subcommand, "`");
    let fourth = says(lower.as_str(), "no such subcommand: '", subcommand, "'");
    let r = first || second || third || fourth;
    proof {
        let patterns = missing_patterns(subcommand@);
        assert(first == occurs(lower@, lower_text(patterns[0])));
        assert(second == occurs(lower@, lower_text(patterns[1])));
        assert(third == occurs(lower@, lower_text(patterns[2])));
        assert(fourth == occurs(lower@, lower_text(patterns[3])));
    }
    r
}

/// Whether cargo says in its standard error that it does not know a subcommand.
pub fn indicates_missing_cargo_subcommand(stderr: &[u8], subcommand: &str) -> (r: bool)
    ensures
        r == says_missing(lossy_text(stderr@), subcommand@),
{
    cargo_subcommand_missing_message(from_utf8_lossy(stderr).as_str(), subcommand)
}

/// Whether an error of cargo only says that there is nothing to run documentation tests on.
pub open spec fn nothing_to_doc_test(code: Option<i32>, stderr: Seq<char>) -> bool {
    &&& code == Some(101i32)
    &&& {
        ||| occurs(stderr, "there is nothing to test"@)
        ||| occurs(stderr, "found no library targets to test"@)
        ||| occurs(stderr, "found no binaries to test"@)
        ||| occurs(stderr, "no library targets found"@)
    }
}

/// Whether an error of cargo only says that there is nothing to run documentation tests on. `code`
/// is the exit code, if the command was not ended by a signal.
pub fn should_skip_doc_tests(code: Option<i32>, stderr: &[u8]) -> (r: bool)
    ensures
        r == nothing_to_doc_test(code, lossy_text(stderr@)),
{
    let nothing_done = match code {
        Some(code) => code == 101,
        None => false,
    };
    if !nothing_done {
        return false;
    }
    let stderr = from_utf8_lossy(stderr);
    contains(stderr.as_str(), "there is nothing to test") || contains(
        stderr.as_str(),
        "found no library targets to test",
    ) || contains(stderr.as_str(), "found no binaries to test") || contains(
        stderr.as_str(),
        "no library targets found",
    )
}

/// The parts that pick the packages.
pub open spec fn package_args(crates: Seq<Seq<char>>) -> Seq<Seq<char>>
    decreases crates.len(),
{
    if crates.len() == 0 {
        seq![]
    } else {
        package_args(crates.drop_last()) + seq!["-p"@, crates.last()]
    }
}

/// The parts that pick the packages are `-p` and a name for each of them, in their order, and no
/// more.
pub proof fn each_package_is_picked(crates: Seq<Seq<char>>, i: int)
    requires
        0 <= i < crates.len(),
    ensures
        package_args(crates).len() == 2 * crates.len(),
        package_args(crates)[2 * i] == "-p"@,
        package_args(crates)[2 * i + 1] == crates[i],
    decreases crates.len(),
{
    let rest = crates.drop_last();
    package_args_len(rest);
    if i < rest.len() {
        each_package_is_picked(rest, i);
    }
}

proof fn package_args_len(crates: Seq<Seq<char>>)
    ensures
        package_args(crates).len() == 2 * crates.len(),
    decreases crates.len(),
{
    if crates.len() > 0 {
        package_args_len(crates.drop_last());
    }
}

/// The parts that pick the features: all of them if none are given, else those given.
pub open spec fn feature_args(features: Option<Seq<Seq<char>>>) -> Seq<Seq<char>> {
    match features {
        None => seq!["--all-features"@],
        Some(names) => if names.len() > 0 {
            seq!["--features"@, joined(names, ","@)]
        } else {
            seq![]
        },
    }
}

/// The command that runs clippy with warnings as errors.
pub open spec fn clippy_line(crates: Seq<Seq<char>>, features: Option<Seq<Seq<char>>>) -> Seq<
    Seq<char>,
> {
    seq!["cargo"@, "clippy"@] + package_args(crates) + seq!["--all-targets"@] + feature_args(
        features,
    ) + seq!["--"@, "-D"@, "warnings"@]
}

/// The command that builds the tests.
pub open spec fn test_build_line(crates: Seq<Seq<char>>) -> Seq<Seq<char>> {
    seq!["cargo"@, "nextest"@, "run"@, "--no-run"@] + package_args(crates)
}

/// The command that runs the tests.
pub open spec fn test_line(crates: Seq<Seq<char>>) -> Seq<Seq<char>> {
    seq!["cargo"@, "nextest"@, "run"@] + package_args(crates) + seq!["--no-tests=pass"@]
}

/// The command that looks for unused dependencies.
pub open spec fn shear_line() -> Seq<Seq<char>> {
    seq!["cargo"@, "shear"@]
}

/// The command that runs the documentation tests.
pub open spec fn doc_test_line(crates: Seq<Seq<char>>, features: Option<Seq<Seq<char>>>) -> Seq<
    Seq<char>,
> {
    seq!["cargo"@, "test"@, "--doc"@] + package_args(crates) + feature_args(features)
}

/// The command that builds the documentation.
pub open spec fn doc_line(crates: Seq<Seq<char>>, features: Option<Seq<Seq<char>>>) -> Seq<
    Seq<char>,
> {
    seq!["cargo"@, "doc"@, "--no-deps"@] + package_args(crates) + feature_args(features)
}

fn push_word(command: &mut Vec<String>, word: &str)
    ensures
        texts(final(command)@) == texts(old(command)@) + seq![word@],
{
    let ghost before = texts(command@);
    command.push(word.to_owned());
    assert(texts(command@) =~= before + seq![word@]);
}

fn push_packages(command: &mut Vec<String>, crates: &[String])
    ensures
        texts(final(command)@) == texts(old(command)@) + package_args(texts(crates@)),
{
    let ghost before = texts(command@);
    let ghost names = texts(crates@);
    let mut i: usize = 0;
    assert(before + package_args(names.take(0)) =~= before);
    while i < crates.len()
        invariant
            i <= crates.len(),
            names == texts(crates@),
            texts(command@) == before + package_args(names.take(i as int)),
        decreases crates.len() - i,
    {
        let ghost so_far = texts(command@);
        assert(names.take(i + 1).drop_last() =~= names.take(i as int));
        push_word(command, "-p");
        push_word(command, crates[i].as_str());
        i += 1;
        assert(texts(command@) =~= before + package_args(names.take(i as int)));
    }
    assert(names.take(i as int) =~= names);
}

fn push_features(command: &mut Vec<String>, features: &Option<Vec<String>>)
    ensures
        texts(final(command)@) == texts(old(command)@) + feature_args(
            opt_texts(*features),
        ),
{
    let ghost before = texts(command@);
    match features {
        None => {
            push_word(command, "--all-features");
        },
        Some(names) => {
            assert(texts(names@).len() == names.len());
            if names.len() > 0 {
                push_word(command, "--features");
                push_word(command, join(names.as_slice(), ",").as_str());
            }
        },
    }
    assert(texts(command@) =~= before + feature_args(opt_texts(*features)));
}

/// The command that runs clippy with warnings as errors.
pub fn clippy_command(crates: &[String], features: &Option<Vec<String>>) -> (r: Vec<String>)
    ensures
        texts(r@) == clippy_line(texts(crates@), opt_texts(*features)),
{
    let mut command = vec!["cargo".to_owned(), "clippy".to_owned()];
    assert(texts(command@) =~= seq!["cargo"@, "clippy"@]);
    push_packages(&mut command, crates);
    push_word(&mut command, "--all-targets");
    push_features(&mut command, features);
    push_word(&mut command, "--");
    push_word(&mut command, "-D");
    push_word(&mut command, "warnings");
    assert(texts(command@) =~= clippy_line(texts(crates@), opt_texts(*features)));
    command
}

/// The command that builds the tests.
pub fn test_build_command(crates: &[String]) -> (r: Vec<String>)
    ensures
        texts(r@) == test_build_line(texts(crates@)),
{
    let mut command = vec![
        "cargo".to_owned(),
        "nextest".to_owned(),
        "run".to_owned(),
        "--no-run".to_owned(),
    ];
    assert(texts(command@) =~= seq!["cargo"@, "nextest"@, "run"@, "--no-run"@]);
    push_packages(&mut command, crates);
    command
}

/// The command that runs the tests.
pub fn test_command(crates: &[String]) -> (r: Vec<String>)
    ensures
        texts(r@) == test_line(texts(crates@)),
{
    let mut command = vec!["cargo".to_owned(), "nextest".to_owned(), "run".to_owned()];
    assert(texts(command@) =~= seq!["cargo"@, "nextest"@, "run"@]);
    push_packages(&mut command, crates);
    push_word(&mut command, "--no-tests=pass");
    command
}

/// The command that looks for unused dependencies.
pub fn shear_command() -> (r: Vec<String>)
    ensures
        texts(r@) == shear_line(),
{
    let command = vec!["cargo".to_owned(), "shear".to_owned()];
    assert(texts(command@) =~= shear_line());
    command
}

/// The command that runs the documentation tests.
pub fn doc_test_command(crates: &[String], features: &Option<Vec<String>>) -> (r: Vec<String>)
    ensures
        texts(r@) == doc_test_line(texts(crates@), opt_texts(*features)),
{
    let mut command = vec!["cargo".to_owned(), "test".to_owned(), "--doc".to_owned()];
    assert(texts(command@) =~= seq!["cargo"@, "test"@, "--doc"@]);
    push_packages(&mut command, crates);
    push_features(&mut command, features);
    command
}

/// The command that builds the documentation.
pub fn doc_command(crates: &[String], features: &Option<Vec<String>>) -> (r: Vec<String>)
    ensures
        texts(r@) == doc_line(texts(crates@), opt_texts(*features)),
{
    let mut command = vec!["cargo".to_owned(), "doc".to_owned(), "--no-deps".to_owned()];
    assert(texts(command@) =~= seq!["cargo"@, "doc"@, "--no-deps"@]);
    push_packages(&mut command, crates);
    push_features(&mut command, features);
    command
}

/// The command with what makes clippy fix what it can, before the first `--` or else at the end.
pub open spec fn fix_line(command: Seq<Seq<char>>) -> Seq<Seq<char>>
    decreases command.len(),
{
    if command.len() == 0 {
        seq!["--allow-dirty"@, "--fix"@]
    } else if command[0] == "--"@ {
        seq!["--allow-dirty"@, "--fix"@] + command
    } else {
        seq![command[0]] + fix_line(command.skip(1))
    }
}

/// What makes clippy fix what it can stands before the first `--`, where cargo reads it, and all
/// else stays.
pub proof fn fix_stands_before_separator(before: Seq<Seq<char>>, after: Seq<Seq<char>>)
    requires
        !before.contains("--"@),
    ensures
        fix_line(before + seq!["--"@] + after) == before + seq!["--allow-dirty"@, "--fix"@]
            + seq!["--"@] + after,
        fix_line(before) == before + seq!["--allow-dirty"@, "--fix"@],
    decreases before.len(),
{
    let command = before + seq!["--"@] + after;
    if before.len() == 0 {
        assert(command =~= seq!["--"@] + after);
        assert(fix_line(command) =~= before + seq!["--allow-dirty"@, "--fix"@] + seq!["--"@]
            + after);
        assert(fix_line(before) =~= before + seq!["--allow-dirty"@, "--fix"@]);
    } else {
        let rest = before.skip(1);
        assert(before[0] != "--"@);
        assert forall|i: int| 0 <= i < rest.len() implies rest[i] != "--"@ by {
            assert(rest[i] == before[i + 1]);
        }
        fix_stands_before_separator(rest, after);
        assert(command.skip(1) =~= rest + seq!["--"@] + after);
        assert(seq![before[0]] + rest =~= before);
        assert(fix_line(command) =~= before + seq!["--allow-dirty"@, "--fix"@] + seq!["--"@]
            + after);
        assert(fix_line(before) =~= before + seq!["--allow-dirty"@, "--fix"@]);
    }
}

/// The command with what makes clippy fix what it can.
pub fn fix_command(command: &[String]) -> (r: Vec<String>)
    ensures
        texts(r@) == fix_line(texts(command@)),
{
    let ghost parts = texts(command@);
    let mut fixed: Vec<String> = Vec::new();
    let mut inserted = false;
    let mut i: usize = 0;
    assert(parts.skip(0) =~= parts);
    assert(texts(fixed@) + fix_line(parts) =~= fix_line(parts));
    while i < command.len()
        invariant
            i <= command.len(),
            parts == texts(command@),
            texts(fixed@) + (if inserted {
                parts.skip(i as int)
            } else {
                fix_line(parts.skip(i as int))
            }) == fix_line(parts),
        decreases command.len() - i,
    {
        let ghost so_far = texts(fixed@);
        let ghost rest = parts.skip(i as int);
        let ghost was_inserted = inserted;
        assert(rest[0] == command@[i as int]@);
        assert(rest.skip(1) =~= parts.skip(i + 1));
        assert(seq![rest[0]] + rest.skip(1) =~= rest);
        if !inserted && same(command[i].as_str(), "--") {
            push_word(&mut fixed, "--allow-dirty");
            push_word(&mut fixed, "--fix");
            inserted = true;
        }
        push_word(&mut fixed, command[i].as_str());
        i += 1;
        proof {
            let left = if inserted {
                parts.skip(i as int)
            } else {
                fix_line(parts.skip(i as int))
            };
            let left_before = if was_inserted {
                rest
            } else {
                fix_line(rest)
            };
            assert(texts(fixed@) + left =~= so_far + left_before);
        }
    }
    assert(parts.skip(i as int) =~= seq![]);
    if !inserted {
        push_word(&mut fixed, "--allow-dirty");
        push_word(&mut fixed, "--fix");
        assert(texts(fixed@) =~= fix_line(parts));
    } else {
        assert(texts(fixed@) + seq![] =~= texts(fixed@));
    }
    fixed
}

/// A light bulb in cyan.
pub open spec fn bulb() -> Seq<char> {
    in_cyan("\u{1f4a1}"@)
}

/// The advice that comes with a failure of clippy.
pub open spec fn clippy_advice(command: Seq<Seq<char>>) -> Seq<char> {
    "    "@ + bulb() + " Try auto-fixing with:\n        "@ + command_line(fix_line(command))
        + "\n        git commit --amend --no-edit"@
}

/// The advice that comes with a failure of clippy.
pub fn clippy_fix_hint(command: &[String]) -> (r: String)
    ensures
        r@ == clippy_advice(texts(command@)),
{
    let fixed = fix_command(command);
    let mut r = "    ".to_owned();
    r.append(cyan("\u{1f4a1}").as_str());
    r.append(" Try auto-fixing with:\n        ");
    r.append(format_command_line(fixed.as_slice()).as_str());
    r.append("\n        git commit --amend --no-edit");
    r
}

/// The advice that comes with unused dependencies.
pub open spec fn shear_advice() -> Seq<char> {
    "    "@ + bulb() + " Try cleaning unused dependencies with:\n        cargo shear --fix"@
}

/// The advice that comes with unused dependencies.
pub fn shear_fix_hint() -> (r: String)
    ensures
        r@ == shear_advice(),
{
    let mut r = "    ".to_owned();
    r.append(cyan("\u{1f4a1}").as_str());
    r.append(" Try cleaning unused dependencies with:\n        cargo shear --fix");
    r
}

/// What is said about one stream of a command that failed.
pub open spec fn stream_part(label: Seq<char>, data: Seq<u8>, color: bool) -> Seq<char> {
    if data.len() == 0 {
        "    "@ + label + ": <empty>"@
    } else {
        "    "@ + label + ":\n"@ + trimmed_end(lossy_text(bytes_for(data, color)))
    }
}

/// What is said about one stream of a command that failed. `color` says whether the terminal
/// supports colour.
pub fn stream_report(label: &str, data: &[u8], color: bool) -> (r: String)
    ensures
        r@ == stream_part(label@, data@, color),
{
    let mut r = "    ".to_owned();
    r.append(label);
    if data.len() == 0 {
        r.append(": <empty>");
    } else {
        let cleaned = maybe_strip_bytes(data, color);
        r.append(":\n");
        r.append(trim_end(from_utf8_lossy(cleaned.as_slice()).as_str()).as_str());
    }
    r
}

/// A number in decimal, with a minus sign if it is negative.
pub open spec fn signed_decimal_of(n: int) -> Seq<char> {
    if n < 0 {
        "-"@ + decimal_of((-n) as nat)
    } else {
        decimal_of(n as nat)
    }
}

/// A number in decimal, with a minus sign if it is negative.
pub fn signed_decimal(n: i32) -> (r: String)
    ensures
        r@ == signed_decimal_of(n as int),
{
    let wide: i64 = n as i64;
    if wide < 0 {
        let mut r = "-".to_owned();
        r.append(decimal((-wide) as u64).as_str());
        r
    } else {
        decimal(wide as u64)
    }
}

/// A variable of the environment that a command is given.
pub struct EnvVar {
    pub key: String,
    pub value: String,
}

/// What makes a command write in colour although its output is not a terminal.
pub fn color_envs() -> (r: Vec<EnvVar>)
    ensures
        r.len() == 2,
        r@[0].key@ == "FORCE_COLOR"@ && r@[0].value@ == "1"@,
        r@[1].key@ == "CARGO_TERM_COLOR"@ && r@[1].value@ == "always"@,
{
    vec![
        EnvVar { key: "FORCE_COLOR".to_owned(), value: "1".to_owned() },
        EnvVar { key: "CARGO_TERM_COLOR".to_owned(), value: "always".to_owned() },
    ]
}

/// How an environment variable is shown.
pub open spec fn env_part(var: EnvVar) -> Seq<char> {
    "    env: "@ + var.key@ + "="@ + var.value@
}

/// How the exit code of a command that failed is shown.
pub open spec fn exit_part(code: Option<i32>) -> Seq<char> {
    "    exit code: "@ + match code {
        Some(code) => signed_decimal_of(code as int),
        None => "terminated by signal"@,
    }
}

/// The lines that say which command it was, and with which environment.
pub open spec fn command_part(command: Seq<Seq<char>>, envs: Seq<EnvVar>) -> Seq<Seq<char>> {
    seq!["    command: "@ + command_line(command)] + envs.map_values(|var: EnvVar| env_part(var))
}

/// A line, if there is one.
pub open spec fn if_any(line: Option<Seq<char>>) -> Seq<Seq<char>> {
    match line {
        Some(line) => seq![line],
        None => seq![],
    }
}

fn describe_command(command: &[String], envs: &Vec<EnvVar>) -> (r: Vec<String>)
    ensures
        texts(r@) == command_part(texts(command@), envs@),
{
    let ghost env_lines = envs@.map_values(|var: EnvVar| env_part(var));
    let mut line = "    command: ".to_owned();
    line.append(format_command_line(command).as_str());
    let ghost first = seq![line@];
    let mut r = vec![line];
    let mut i: usize = 0;
    assert(texts(r@) =~= first + env_lines.take(0));
    while i < envs.len()
        invariant
            i <= envs.len(),
            env_lines == envs@.map_values(|var: EnvVar| env_part(var)),
            texts(r@) == first + env_lines.take(i as int),
        decreases envs.len() - i,
    {
        let ghost so_far = texts(r@);
        let mut line = "    env: ".to_owned();
        line.append(envs[i].key.as_str());
        line.append("=");
        line.append(envs[i].value.as_str());
        push_word(&mut r, line.as_str());
        i += 1;
        assert(env_lines.take(i as int) =~= env_lines.take(i - 1).push(env_lines[i - 1]));
        assert(texts(r@) =~= first + env_lines.take(i as int));
    }
    assert(env_lines.take(i as int) =~= env_lines);
    r
}

/// What came of a command that could be run.
pub struct CommandOutput {
    /// The exit code, unless a signal ended the command.
    pub code: Option<i32>,
    pub stdout: Vec<u8>,
    pub stderr: Vec<u8>,
}

/// What is said about a command that failed, line by line.
pub open spec fn failure_lines(
    command: Seq<Seq<char>>,
    envs: Seq<EnvVar>,
    output: CommandOutput,
    hint: Option<Seq<char>>,
    color: ColorSupport,
) -> Seq<Seq<char>> {
    command_part(command, envs) + seq![
        exit_part(output.code),
        stream_part("stdout"@, output.stdout@, color.stdout),
        stream_part("stderr"@, output.stderr@, color.stderr),
    ] + if_any(hint)
}

/// What is said about a command that could not be run, line by line.
pub open spec fn error_lines(
    command: Seq<Seq<char>>,
    envs: Seq<EnvVar>,
    error: Seq<char>,
    hint: Option<Seq<char>>,
) -> Seq<Seq<char>> {
    command_part(command, envs) + seq!["    error: "@ + error] + if_any(hint)
}

/// What is said about a command that failed, line by line.
pub fn failure_report(
    command: &[String],
    envs: &Vec<EnvVar>,
    output: &CommandOutput,
    hint: Option<String>,
    color: ColorSupport,
) -> (r: Vec<String>)
    ensures
        texts(r@) == failure_lines(texts(command@), envs@, *output, opt_text(hint), color),
{
    let mut r = describe_command(command, envs);
    let mut exit = "    exit code: ".to_owned();
    match output.code {
        Some(code) => {
            exit.append(signed_decimal(code).as_str());
        },
        None => {
            exit.append("terminated by signal");
        },
    }
    push_word(&mut r, exit.as_str());
    push_word(&mut r, stream_report("stdout", output.stdout.as_slice(), color.stdout).as_str());
    push_word(&mut r, stream_report("stderr", output.stderr.as_slice(), color.stderr).as_str());
    let ghost hint_text = opt_text(hint);
    if let Some(hint) = hint {
        push_word(&mut r, hint.as_str());
    }
    assert(texts(r@) =~= failure_lines(texts(command@), envs@, *output, hint_text, color));
    r
}

/// What is said about a command that could not be run, line by line.
pub fn error_report(
    command: &[String],
    envs: &Vec<EnvVar>,
    error: &str,
    hint: Option<String>,
) -> (r: Vec<String>)
    ensures
        texts(r@) == error_lines(texts(command@), envs@, error@, opt_text(hint)),
{
    let mut r = describe_command(command, envs);
    let mut line = "    error: ".to_owned();
    line.append(error);
    push_word(&mut r, line.as_str());
    let ghost hint_text = opt_text(hint);
    if let Some(hint) = hint {
        push_word(&mut r, hint.as_str());
    }
    assert(texts(r@) =~= error_lines(texts(command@), envs@, error@, hint_text));
    r
}

/// Whether the words of a command from `at` on pick these packages, one after the other, each with
/// `-p` before its name.
pub open spec fn picks_from(line: Seq<Seq<char>>, at: int, crates: Seq<Seq<char>>) -> bool {
    &&& at + 2 * crates.len() <= line.len()
    &&& forall|i: int| 0 <= i < crates.len() ==> picks_at(line, at + 2 * i, #[trigger] crates[i])
}

/// Whether the words of a command at `at` pick a package.
pub open spec fn picks_at(line: Seq<Seq<char>>, at: int, name: Seq<char>) -> bool {
    line[at] == "-p"@ && line[at + 1] == name
}

proof fn packages_are_picked(before: Seq<Seq<char>>, crates: Seq<Seq<char>>, after: Seq<Seq<char>>)
    ensures
        picks_from(before + package_args(crates) + after, before.len() as int, crates),
        package_args(crates).len() == 2 * crates.len(),
{
    let line = before + package_args(crates) + after;
    package_args_len(crates);
    assert forall|i: int| 0 <= i < crates.len() implies picks_at(
        line,
        before.len() + 2 * i,
        #[trigger] crates[i],
    ) by {
        each_package_is_picked(crates, i);
        assert(line[before.len() + 2 * i] == package_args(crates)[2 * i]);
        assert(line[before.len() + 2 * i + 1] == package_args(crates)[2 * i + 1]);
    }
}

/// Without a choice all features are on; chosen ones are given with commas between them, and if
/// none is chosen, no word is about features.
pub proof fn features_are_chosen(features: Option<Seq<Seq<char>>>)
    ensures
        features is None ==> feature_args(features) == seq!["--all-features"@],
        features matches Some(names) ==> {
            &&& names.len() == 0 ==> feature_args(features).len() == 0
            &&& names.len() > 0 ==> feature_args(features) == seq![
                "--features"@,
                joined(names, ","@),
            ]
        },
{
}

/// Clippy runs on exactly the given crates, on all their targets, with the chosen features, and
/// treats warnings as errors.
pub proof fn clippy_denies_warnings(crates: Seq<Seq<char>>, features: Option<Seq<Seq<char>>>)
    ensures
        ({
            let line = clippy_line(crates, features);
            let rest = line.skip(2 + 2 * crates.len() as int);
            &&& line.len() > 1 && line[0] == "cargo"@ && line[1] == "clippy"@
            &&& picks_from(line, 2, crates)
            &&& rest == seq!["--all-targets"@] + feature_args(features) + seq![
                "--"@,
                "-D"@,
                "warnings"@,
            ]
        }),
{
    let line = clippy_line(crates, features);
    let before = seq!["cargo"@, "clippy"@];
    let after = seq!["--all-targets"@] + feature_args(features) + seq!["--"@, "-D"@, "warnings"@];
    assert(line =~= before + package_args(crates) + after);
    packages_are_picked(before, crates, after);
    assert(line.skip(2 + 2 * crates.len() as int) =~= after);
}

/// The tests of exactly the given crates are built, and then run; a crate without tests passes.
pub proof fn tests_of_crates_run(crates: Seq<Seq<char>>)
    ensures
        test_build_line(crates).take(4) == seq!["cargo"@, "nextest"@, "run"@, "--no-run"@],
        picks_from(test_build_line(crates), 4, crates),
        test_build_line(crates).len() == 4 + 2 * crates.len(),
        test_line(crates).take(3) == seq!["cargo"@, "nextest"@, "run"@],
        picks_from(test_line(crates), 3, crates),
        test_line(crates).skip(3 + 2 * crates.len() as int) == seq!["--no-tests=pass"@],
{
    let none: Seq<Seq<char>> = seq![];
    let build = seq!["cargo"@, "nextest"@, "run"@, "--no-run"@];
    let run = seq!["cargo"@, "nextest"@, "run"@];
    assert(test_build_line(crates) =~= build + package_args(crates) + none);
    packages_are_picked(build, crates, none);
    packages_are_picked(run, crates, seq!["--no-tests=pass"@]);
    assert(test_build_line(crates).take(4) =~= build);
    assert(test_line(crates).take(3) =~= run);
    assert(test_line(crates).skip(3 + 2 * crates.len() as int) =~= seq!["--no-tests=pass"@]);
}

/// Documentation tests and documentation are of exactly the given crates, with the chosen features,
/// and documentation is not made of their dependencies.
pub proof fn docs_of_crates_are_made(crates: Seq<Seq<char>>, features: Option<Seq<Seq<char>>>)
    ensures
        doc_test_line(crates, features).take(3) == seq!["cargo"@, "test"@, "--doc"@],
        picks_from(doc_test_line(crates, features), 3, crates),
        doc_test_line(crates, features).skip(3 + 2 * crates.len() as int) == feature_args(features),
        doc_line(crates, features).take(3) == seq!["cargo"@, "doc"@, "--no-deps"@],
        picks_from(doc_line(crates, features), 3, crates),
        doc_line(crates, features).skip(3 + 2 * crates.len() as int) == feature_args(features),
{
    packages_are_picked(seq!["cargo"@, "test"@, "--doc"@], crates, feature_args(features));
    packages_are_picked(seq!["cargo"@, "doc"@, "--no-deps"@], crates, feature_args(features));
    assert(doc_test_line(crates, features).take(3) =~= seq!["cargo"@, "test"@, "--doc"@]);
    assert(doc_line(crates, features).take(3) =~= seq!["cargo"@, "doc"@, "--no-deps"@]);
    assert(doc_test_line(crates, features).skip(3 + 2 * crates.len() as int) =~= feature_args(
        features,
    ));
    assert(doc_line(crates, features).skip(3 + 2 * crates.len() as int) =~= feature_args(features));
}

/// A part of a command line is written as it is exactly if it holds neither white space nor a quote
/// nor a backslash; otherwise it stands in double quotes.
pub proof fn only_odd_parts_are_quoted(part: Seq<char>)
    ensures
        (forall|i: int|
            0 <= i < part.len() ==> !is_white(#[trigger] part[i]) && part[i] != '"' && part[i]
                != '\'' && part[i] != '\\') ==> escaped(part) == part,
        (exists|i: int|
            0 <= i < part.len() && (is_white(#[trigger] part[i]) || part[i] == '"' || part[i] == '\''
                || part[i] == '\\')) ==> {
            &&& escaped(part).len() >= 2
            &&& escaped(part)[0] == '"'
            &&& escaped(part).last() == '"'
            &&& escaped(part) == quoted(part)
        },
{
    if exists|i: int|
        0 <= i < part.len() && (is_white(#[trigger] part[i]) || part[i] == '"' || part[i] == '\''
            || part[i] == '\\') {
        let i = choose|i: int|
            0 <= i < part.len() && (is_white(#[trigger] part[i]) || part[i] == '"' || part[i]
                == '\'' || part[i] == '\\');
        assert(!stands_bare(part));
    }
}

/// A command line is its parts with a space between each two: one more part adds a space and that
/// part as it is written.
pub proof fn parts_stand_side_by_side(parts: Seq<Seq<char>>, part: Seq<char>)
    ensures
        command_line(seq![part]) == escaped(part),
        parts.len() > 0 ==> command_line(parts.push(part)) == command_line(parts) + seq![' ']
            + escaped(part),
{
    reveal_strlit(" ");
    assert(" "@ =~= seq![' ']);
    let form = |part: Seq<char>| escaped(part);
    assert(seq![part].map_values(form) =~= seq![escaped(part)]);
    let all = parts.push(part).map_values(form);
    assert(all.drop_last() =~= parts.map_values(form));
    assert(all.last() == escaped(part));
}

/// That a subcommand is not installed is told from one of four ways in which cargo says so, in any
/// case of letters.
pub proof fn cargo_says_missing(stderr: Seq<char>, subcommand: Seq<char>)
    ensures
        says_missing(stderr, subcommand) <==> {
            ||| occurs(lower_text(stderr), lower_text("no such command: `"@ + subcommand + "`"@))
            ||| occurs(lower_text(stderr), lower_text("no such command: '"@ + subcommand + "'"@))
            ||| occurs(lower_text(stderr), lower_text("no such subcommand: `"@ + subcommand + "`"@))
            ||| occurs(lower_text(stderr), lower_text("no such subcommand: '"@ + subcommand + "'"@))
        },
{
    let patterns = missing_patterns(subcommand);
    assert(patterns[0] == "no such command: `"@ + subcommand + "`"@);
    assert(patterns[1] == "no such command: '"@ + subcommand + "'"@);
    assert(patterns[2] == "no such subcommand: `"@ + subcommand + "`"@);
    assert(patterns[3] == "no such subcommand: '"@ + subcommand + "'"@);
    if says_missing(stderr, subcommand) {
        let i = choose|i: int|
            0 <= i < patterns.len() && occurs(
                lower_text(stderr),
                lower_text(#[trigger] patterns[i]),
            );
        assert(i == 0 || i == 1 || i == 2 || i == 3);
    }
}

/// The report of a failure gives the command, then its environment, then the exit code, then both
/// streams, and at its end the hint, if there is one.
pub proof fn failure_is_told(
    command: Seq<Seq<char>>,
    envs: Seq<EnvVar>,
    output: CommandOutput,
    hint: Option<Seq<char>>,
    color: ColorSupport,
)
    ensures
        ({
            let lines = failure_lines(command, envs, output, hint, color);
            let at = 1 + envs.len() as int;
            &&& lines.len() == at + 3 + (if hint is Some {
                1int
            } else {
                0
            })
            &&& lines[0] == "    command: "@ + command_line(command)
            &&& forall|i: int|
                0 <= i < envs.len() ==> #[trigger] lines[1 + i] == "    env: "@ + envs[i].key@ + "="@
                    + envs[i].value@
            &&& output.code matches Some(code) ==> lines[at] == "    exit code: "@
                + signed_decimal_of(code as int)
            &&& output.code is None ==> lines[at] == "    exit code: "@ + "terminated by signal"@
            &&& output.stdout@.len() == 0 ==> lines[at + 1] == "    "@ + "stdout"@ + ": <empty>"@
            &&& output.stdout@.len() > 0 ==> lines[at + 1] == "    "@ + "stdout"@ + ":\n"@
                + trimmed_end(lossy_text(bytes_for(output.stdout@, color.stdout)))
            &&& output.stderr@.len() == 0 ==> lines[at + 2] == "    "@ + "stderr"@ + ": <empty>"@
            &&& output.stderr@.len() > 0 ==> lines[at + 2] == "    "@ + "stderr"@ + ":\n"@
                + trimmed_end(lossy_text(bytes_for(output.stderr@, color.stderr)))
            &&& hint matches Some(hint) ==> lines.last() == hint
        }),
{
}

/// The report of a command that could not be run gives the command, its environment, the error and
/// at its end the hint, if there is one.
pub proof fn error_is_told(
    command: Seq<Seq<char>>,
    envs: Seq<EnvVar>,
    error: Seq<char>,
    hint: Option<Seq<char>>,
)
    ensures
        ({
            let lines = error_lines(command, envs, error, hint);
            let at = 1 + envs.len() as int;
            &&& lines.len() == at + 1 + (if hint is Some {
                1int
            } else {
                0
            })
            &&& lines[0] == "    command: "@ + command_line(command)
            &&& forall|i: int|
                0 <= i < envs.len() ==> #[trigger] lines[1 + i] == "    env: "@ + envs[i].key@ + "="@
                    + envs[i].value@
            &&& lines[at] == "    error: "@ + error
            &&& hint matches Some(hint) ==> lines.last() == hint
        }),
{
}

/// A negative number has a minus sign before the digits of its opposite, and another has none.
pub proof fn minus_sign_comes_first(n: nat)
    ensures
        signed_decimal_of(n as int) == decimal_of(n),
        n > 0 ==> signed_decimal_of(-n) == seq!['-'] + decimal_of(n),
{
    reveal_strlit("-");
    assert("-"@ =~= seq!['-']);
}

/// The advice after clippy is to run the same command with what makes it fix what it can.
pub proof fn advice_is_same_command_with_fix(before: Seq<Seq<char>>, after: Seq<Seq<char>>)
    requires
        !before.contains("--"@),
    ensures
        clippy_advice(before + seq!["--"@] + after) == "    "@ + in_cyan("\u{1f4a1}"@)
            + " Try auto-fixing with:\n        "@ + command_line(
            before + seq!["--allow-dirty"@, "--fix"@] + seq!["--"@] + after,
        ) + "\n        git commit --amend --no-edit"@,
        shear_advice() == "    "@ + in_cyan("\u{1f4a1}"@)
            + " Try cleaning unused dependencies with:\n        cargo shear --fix"@,
{
    fix_stands_before_separator(before, after);
}

}
