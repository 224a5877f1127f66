//! Staged files that are formatted, and `Cargo.lock`, which is staged along.

use vstd::prelude::*;

use crate::ansi::{
    blue, bytes_for, cyan, dimmed, in_blue, in_cyan, in_dim, in_red, maybe_strip_bytes, red,
};
use crate::command::CommandOutput;
use crate::icons::icon_of;
use crate::job::Job;
use crate::paths::{extension, extension_of};
use crate::staged::StagedFiles;
use crate::stream::ColorSupport;
use crate::text::{
    from_utf8_lossy, lines, lines_of, lossy_text, occurs, patterns_occur_between, same, texts,
    to_chars,
};

verus! {

broadcast use vstd::string::group_string_axioms;

/// Whether a path is that of a Rust file.
pub open spec fn is_rust_path(path: Seq<char>) -> bool {
    extension_of(path) == Some("rs"@)
}

/// The paths of Rust files, in their order.
pub open spec fn rust_paths(paths: Seq<Seq<char>>) -> Seq<Seq<char>> {
    paths.filter(|path: Seq<char>| is_rust_path(path))
}

/// Whether a path is that of a Rust file.
pub fn is_rust_file(path: &str) -> (r: bool)
    ensures
        r == is_rust_path(path@),
{
    match extension(path) {
        Some(ext) => same(ext.as_str(), "rs"),
        None => false,
    }
}

/// The staged files that are formatted.
pub fn rust_files(staged: &StagedFiles) -> (r: Vec<String>)
    ensures
        texts(r@) == rust_paths(texts(staged.clean@)),
{
    let ghost all = texts(staged.clean@);
    let mut r: Vec<String> = Vec::new();
    let mut i: usize = 0;
    proof {
        reveal(Seq::filter);
        assert(texts(r@) =~= rust_paths(all.take(0)));
    }
    while i < staged.clean.len()
        invariant
            i <= staged.clean.len(),
            all == texts(staged.clean@),
            texts(r@) == rust_paths(all.take(i as int)),
        decreases staged.clean.len() - i,
    {
        let ghost so_far = texts(r@);
        proof {
            reveal(Seq::filter);
            assert(all.take(i + 1).drop_last() =~= all.take(i as int));
        }
        if is_rust_file(staged.clean[i].as_str()) {
            r.push(staged.clean[i].as_str().to_owned());
            assert(texts(r@) =~= so_far.push(all[i as int]));
        }
        i += 1;
    }
    assert(all.take(i as int) =~= all);
    r
}

/// The command that formats what it reads and writes the result.
pub fn rustfmt_command() -> (r: Vec<String>)
    ensures
        texts(r@) == seq!["rustfmt"@, "--edition"@, "2024"@, "--emit"@, "stdout"@],
{
    let r = vec![
        "rustfmt".to_owned(),
        "--edition".to_owned(),
        "2024".to_owned(),
        "--emit".to_owned(),
        "stdout".to_owned(),
    ];
    assert(texts(r@) =~= seq!["rustfmt"@, "--edition"@, "2024"@, "--emit"@, "stdout"@]);
    r
}

/// What is said when rustfmt failed on a file.
pub open spec fn rustfmt_failure(path: Seq<char>, output: CommandOutput, color: ColorSupport) -> Seq<
    char,
> {
    in_red("\u{274c}"@) + " "@ + in_blue(path) + ": rustfmt failed\n"@ + in_dim(
        lossy_text(bytes_for(output.stderr@, color.stderr)),
    ) + "\n"@ + in_dim(lossy_text(bytes_for(output.stdout@, color.stdout)))
}

/// The job that formats a file, given what rustfmt made of what the file holds, or else what is
/// said about the failure of rustfmt.
pub fn rustfmt_job(path: &str, original: Vec<u8>, output: CommandOutput, color: ColorSupport) -> (r:
    Result<Job, String>)
    ensures
        match r {
            Ok(job) => {
                &&& output.code == Some(0i32)
                &&& job.path@ == path@
                &&& job.old_content == Some(original)
                &&& job.new_content == output.stdout
                &&& !job.executable
            },
            Err(text) => {
                &&& output.code != Some(0i32)
                &&& text@ == rustfmt_failure(path@, output, color)
            },
        },
{
    let success = match output.code {
        Some(code) => code == 0,
        None => false,
    };
    if !success {
        let stderr = maybe_strip_bytes(output.stderr.as_slice(), color.stderr);
        let stdout = maybe_strip_bytes(output.stdout.as_slice(), color.stdout);
        let mut text = red("\u{274c}");
        text.append(" ");
        text.append(blue(path).as_str());
        text.append(": rustfmt failed\n");
        text.append(dimmed(from_utf8_lossy(stderr.as_slice()).as_str()).as_str());
        text.append("\n");
        text.append(dimmed(from_utf8_lossy(stdout.as_slice()).as_str()).as_str());
        return Err(text);
    }
    Ok(
        Job {
            path: path.to_owned(),
            old_content: Some(original),
            new_content: output.stdout,
            executable: false,
        },
    )
}

/// Whether a status line says that its file was changed and that the change is not staged: the
/// second mark is for the working tree.
pub open spec fn says_changed(line: Seq<char>) -> bool {
    line.len() >= 2 && line[1] == 'M'
}

/// Whether `git status` says of a file that it was changed and that the change is not staged.
pub open spec fn is_changed(status: Seq<char>) -> bool {
    exists|i: int| 0 <= i < lines_of(status).len() && says_changed(#[trigger] lines_of(status)[i])
}

/// Whether `git status` says that `Cargo.lock` was changed and that the change is not staged.
pub fn lock_is_changed(status: &[u8]) -> (r: bool)
    ensures
        r == is_changed(lossy_text(status@)),
{
    let status_lines = lines(from_utf8_lossy(status).as_str());
    let ghost all = texts(status_lines@);
    let mut i: usize = 0;
    while i < status_lines.len()
        invariant
            i <= status_lines.len(),
            all == texts(status_lines@),
            all == lines_of(lossy_text(status@)),
            forall|j: int| 0 <= j < i ==> !says_changed(#[trigger] all[j]),
        decreases status_lines.len() - i,
    {
        let chars = to_chars(status_lines[i].as_str());
        assert(all[i as int] == chars@);
        if chars.len() >= 2 && chars[1] == 'M' {
            assert(says_changed(lines_of(lossy_text(status@))[i as int]));
            return true;
        }
        i += 1;
    }
    false
}

/// The job that stages `Cargo.lock`. `status` is what `git status` says of it, `content` what it
/// holds, `committed` what was last committed of it, if there is any.
pub fn cargo_lock_job(status: &[u8], content: Option<Vec<u8>>, committed: Option<Vec<u8>>) -> (r:
    Option<Job>)
    ensures
        match r {
            Some(job) => {
                &&& is_changed(lossy_text(status@))
                &&& job.path@ == "Cargo.lock"@
                &&& job.old_content == committed
                &&& Some(job.new_content) == content
                &&& !job.executable
            },
            None => !is_changed(lossy_text(status@)) || content is None,
        },
{
    if !lock_is_changed(status) {
        return None;
    }
    match content {
        Some(new_content) => Some(
            Job {
                path: "Cargo.lock".to_owned(),
                old_content: committed,
                new_content,
                executable: false,
            },
        ),
        None => None,
    }
}

/// How a file that was written is shown.
pub fn summary_line(job: &Job) -> (r: String)
    ensures
        r@ == "  "@ + in_cyan(
            icon_of(
                match extension_of(job.path@) {
                    Some(ext) => ext,
                    None => ""@,
                },
            ),
        ) + " "@ + job.path@,
{
    let mut r = "  ".to_owned();
    r.append(cyan(job.icon()).as_str());
    r.append(" ");
    r.append(job.path.as_str());
    r
}

/// The staged files that are formatted are staged Rust files, and no staged Rust file is left out.
pub proof fn staged_rust_files_are_formatted(paths: Seq<Seq<char>>, path: Seq<char>)
    ensures
        rust_paths(paths).contains(path) <==> paths.contains(path) && is_rust_path(path),
{
    let pick = |path: Seq<char>| is_rust_path(path);
    if rust_paths(paths).contains(path) {
        paths.lemma_filter_contains_rev(pick, path);
        let i = choose|i: int| 0 <= i < rust_paths(paths).len() && rust_paths(paths)[i] == path;
        paths.lemma_filter_pred(pick, i);
    }
    if paths.contains(path) && is_rust_path(path) {
        let i = choose|i: int| 0 <= i < paths.len() && paths[i] == path;
        paths.lemma_filter_contains(pick, i);
    }
}

/// The Rust files among two lists of paths are those of the first and then those of the second, and
/// a path is kept exactly if its extension is `rs`.
pub proof fn each_path_is_looked_at(a: Seq<Seq<char>>, b: Seq<Seq<char>>, path: Seq<char>)
    ensures
        rust_paths(a + b) == rust_paths(a) + rust_paths(b),
        extension_of(path) == Some("rs"@) ==> rust_paths(seq![path]) == seq![path],
        extension_of(path) != Some("rs"@) ==> rust_paths(seq![path]).len() == 0,
{
    let pick = |path: Seq<char>| is_rust_path(path);
    Seq::filter_distributes_over_add(a, b, pick);
    reveal(Seq::filter);
    let one = seq![path];
    assert(one.drop_last() =~= seq![]);
    assert(one.drop_last().filter(pick) =~= seq![]);
    assert(rust_paths(one) =~= if extension_of(path) == Some("rs"@) {
        seq![path]
    } else {
        seq![]
    });
}

/// A status says that a file was changed exactly if the second character of one of its lines says
/// so.
pub proof fn second_mark_tells_change(status: Seq<char>)
    ensures
        is_changed(status) <==> exists|i: int|
            0 <= i < lines_of(status).len() && (#[trigger] lines_of(status)[i]).len() >= 2
                && lines_of(status)[i][1] == 'M',
{
    if is_changed(status) {
        let i = choose|i: int|
            0 <= i < lines_of(status).len() && says_changed(#[trigger] lines_of(status)[i]);
        assert(lines_of(status)[i][1] == 'M');
    }
    if exists|i: int|
        0 <= i < lines_of(status).len() && (#[trigger] lines_of(status)[i]).len() >= 2 && lines_of(
            status,
        )[i][1] == 'M' {
        let i = choose|i: int|
            0 <= i < lines_of(status).len() && (#[trigger] lines_of(status)[i]).len() >= 2
                && lines_of(status)[i][1] == 'M';
        assert(says_changed(lines_of(status)[i]));
    }
}

/// What is said when rustfmt failed names the file and gives both of its streams.
pub proof fn rustfmt_failure_is_told(path: Seq<char>, output: CommandOutput, color: ColorSupport)
    ensures
        occurs(rustfmt_failure(path, output, color), path),
        rustfmt_failure(path, output, color) == in_red("\u{274c}"@) + " "@ + in_blue(path)
            + ": rustfmt failed\n"@ + in_dim(lossy_text(bytes_for(output.stderr@, color.stderr)))
            + "\n"@ + in_dim(lossy_text(bytes_for(output.stdout@, color.stdout))),
{
    let text = rustfmt_failure(path, output, color);
    let before = in_red("\u{274c}"@) + " "@ + "\x1b[34m"@;
    let after = "\x1b[39m"@ + (": rustfmt failed\n"@ + in_dim(
        lossy_text(bytes_for(output.stderr@, color.stderr)),
    ) + "\n"@ + in_dim(lossy_text(bytes_for(output.stdout@, color.stdout))));
    assert(text =~= before + path + after);
    patterns_occur_between(before, path, after, text);
}

}
