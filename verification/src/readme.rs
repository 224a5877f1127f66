//! Readmes, made from templates.

use vstd::prelude::*;
use vstd::utf8::encode_utf8;

use crate::ansi::{bold, cyan, in_bold, in_cyan, in_red, in_yellow, red, yellow};
use crate::job::Job;
use crate::manifest::{crate_has_readme_disabled, package_name, package_name_in, readme_disabled};
use crate::paths::{components, components_of, join_path, joined_path};
use crate::staged::StagedFiles;
use crate::text::{
    is_among, join, joined, occurs, occurs_at, opt_text, replace, replaced, same, same_bytes,
    starts_with, texts,
};
use crate::toml::toml_entries;

verus! {

broadcast use vstd::string::group_string_axioms;

/// What a readme is made from.
pub struct GenerateReadmeOpts {
    pub crate_name: String,
    /// The template, which makes the main part.
    pub input: String,
    pub header: Option<String>,
    pub footer: Option<String>,
}

/// The place for the name of the crate in headers and footers.
pub const PLACEHOLDER: &'static str = "{CRATE}";

/// A header or footer with the name of the crate in its place; nothing if there is none.
pub open spec fn section_text(section: Option<Seq<char>>, crate_name: Seq<char>) -> Seq<char> {
    match section {
        Some(text) => replaced(text, PLACEHOLDER@, crate_name),
        None => seq![],
    }
}

/// A text, unless it is empty.
pub open spec fn if_not_empty(text: Seq<char>) -> Seq<Seq<char>> {
    if text.len() > 0 {
        seq![text]
    } else {
        seq![]
    }
}

/// The readme: the header, the main part and the footer, each on lines of its own, without those
/// of header and footer that are empty.
pub open spec fn readme_text(
    crate_name: Seq<char>,
    input: Seq<char>,
    header: Option<Seq<char>>,
    footer: Option<Seq<char>>,
) -> Seq<char> {
    joined(
        if_not_empty(section_text(header, crate_name)) + seq![input] + if_not_empty(
            section_text(footer, crate_name),
        ),
        "\n"@,
    )
}

fn fill_section(section: &Option<String>, crate_name: &str) -> (r: String)
    ensures
        r@ == section_text(opt_text(*section), crate_name@),
{
    proof {
        reveal_strlit("{CRATE}");
    }
    match section {
        Some(text) => replace(text.as_str(), PLACEHOLDER, crate_name),
        None => String::new(),
    }
}

/// The readme.
pub fn generate(opts: GenerateReadmeOpts) -> (r: String)
    ensures
        r@ == readme_text(
            opts.crate_name@,
            opts.input@,
            opt_text(opts.header),
            opt_text(opts.footer),
        ),
{
    let header = fill_section(&opts.header, opts.crate_name.as_str());
    let footer = fill_section(&opts.footer, opts.crate_name.as_str());
    let ghost wanted = if_not_empty(header@) + seq![opts.input@] + if_not_empty(footer@);
    let mut parts: Vec<String> = Vec::new();
    if header.as_str().unicode_len() > 0 {
        parts.push(header);
    }
    parts.push(opts.input);
    if footer.as_str().unicode_len() > 0 {
        parts.push(footer);
    }
    assert(texts(parts@) =~= wanted);
    join(parts.as_slice(), "\n")
}

/// Without header and footer, the readme is the template as it is.
pub proof fn readme_without_header_and_footer(crate_name: Seq<char>, input: Seq<char>)
    ensures
        readme_text(crate_name, input, None, None) == input,
{
    let parts = if_not_empty(section_text(None, crate_name)) + seq![input] + if_not_empty(
        section_text(None, crate_name),
    );
    assert(parts =~= seq![input]);
}

/// The template stands in the readme as it is, after the header and before the footer, each of
/// which has a line feed between itself and the template unless it is empty.
pub proof fn template_stands_in_readme(
    crate_name: Seq<char>,
    input: Seq<char>,
    header: Option<Seq<char>>,
    footer: Option<Seq<char>>,
)
    ensures
        ({
            let head = section_text(header, crate_name);
            let foot = section_text(footer, crate_name);
            let before = if head.len() > 0 {
                head + "\n"@
            } else {
                seq![]
            };
            let after = if foot.len() > 0 {
                "\n"@ + foot
            } else {
                seq![]
            };
            readme_text(crate_name, input, header, footer) == before + input + after
        }),
{
    let head = section_text(header, crate_name);
    let foot = section_text(footer, crate_name);
    let parts = if_not_empty(head) + seq![input] + if_not_empty(foot);
    let text = readme_text(crate_name, input, header, footer);
    reveal_with_fuel(joined, 3);
    if head.len() > 0 && foot.len() > 0 {
        assert(parts =~= seq![head, input, foot]);
        assert(parts.drop_last() =~= seq![head, input]);
        assert(parts.drop_last().drop_last() =~= seq![head]);
        assert(text =~= head + "\n"@ + input + ("\n"@ + foot));
    } else if head.len() > 0 {
        assert(parts =~= seq![head, input]);
        assert(parts.drop_last() =~= seq![head]);
        assert(text =~= head + "\n"@ + input + seq![]);
    } else if foot.len() > 0 {
        assert(parts =~= seq![input, foot]);
        assert(parts.drop_last() =~= seq![input]);
        assert(text =~= seq![] + input + ("\n"@ + foot));
    } else {
        assert(parts =~= seq![input]);
        assert(text =~= seq![] + input + seq![]);
    }
}

/// Wherever the placeholder stands in a header or footer, the name of the crate stands in its
/// place, and what stands before and after it is filled in by itself.
pub proof fn placeholder_is_replaced(before: Seq<char>, after: Seq<char>, crate_name: Seq<char>)
    ensures
        section_text(Some(before + PLACEHOLDER@ + after), crate_name) == section_text(
            Some(before),
            crate_name,
        ) + crate_name + section_text(Some(after), crate_name),
{
    reveal_strlit("{CRATE}");
    replaced_around(before, PLACEHOLDER@, after, crate_name);
}

/// A header or footer without the placeholder stays as it is.
pub proof fn section_without_placeholder_stays(text: Seq<char>, crate_name: Seq<char>)
    requires
        !occurs(text, PLACEHOLDER@),
    ensures
        section_text(Some(text), crate_name) == text,
{
    nothing_replaced(text, PLACEHOLDER@, crate_name);
}

proof fn nothing_replaced(text: Seq<char>, pattern: Seq<char>, with: Seq<char>)
    requires
        !occurs(text, pattern),
    ensures
        replaced(text, pattern, with) == text,
    decreases text.len(),
{
    if pattern.len() > 0 && text.len() >= pattern.len() {
        assert(!occurs_at(text, pattern, 0));
        assert forall|at: int| !occurs_at(text.skip(1), pattern, at) by {
            if occurs_at(text.skip(1), pattern, at) {
                assert(text.subrange(at + 1, at + 1 + pattern.len()) =~= text.skip(1).subrange(
                    at,
                    at + pattern.len(),
                ));
                assert(occurs_at(text, pattern, at + 1));
            }
        }
        nothing_replaced(text.skip(1), pattern, with);
        assert(seq![text[0]] + text.skip(1) =~= text);
    }
}

/// A pattern whose first character stands nowhere else in it is replaced wherever it stands.
proof fn replaced_around(before: Seq<char>, pattern: Seq<char>, after: Seq<char>, with: Seq<char>)
    requires
        pattern.len() > 0,
        forall|i: int| 0 < i < pattern.len() ==> #[trigger] pattern[i] != pattern[0],
    ensures
        replaced(before + pattern + after, pattern, with) == replaced(before, pattern, with) + with
            + replaced(after, pattern, with),
    decreases before.len(),
{
    let text = before + pattern + after;
    let n = pattern.len() as int;
    if before.len() == 0 {
        assert(text.subrange(0, n) =~= pattern);
        assert(text.skip(n) =~= after);
        assert(replaced(text, pattern, with) =~= before + with + replaced(after, pattern, with));
    } else if occurs_at(text, pattern, 0) {
        if before.len() < n {
            // The placeholder would start again inside of itself.
            assert(text[before.len() as int] == pattern[0]);
            assert(text.subrange(0, n)[before.len() as int] == pattern[before.len() as int]);
        }
        assert(before.subrange(0, n) =~= text.subrange(0, n));
        assert(occurs_at(before, pattern, 0));
        assert(text.skip(n) =~= before.skip(n) + pattern + after);
        replaced_around(before.skip(n), pattern, after, with);
        assert(replaced(text, pattern, with) =~= replaced(before, pattern, with) + with + replaced(
            after,
            pattern,
            with,
        ));
    } else {
        assert(text.skip(1) =~= before.skip(1) + pattern + after);
        replaced_around(before.skip(1), pattern, after, with);
        if before.len() < n {
            assert(seq![before[0]] + before.skip(1) =~= before);
        } else {
            assert(before.subrange(0, n) =~= text.subrange(0, n));
        }
        assert(replaced(text, pattern, with) =~= replaced(before, pattern, with) + with + replaced(
            after,
            pattern,
            with,
        ));
    }
}

/// The name of the template in a directory.
pub const TEMPLATE_NAME: &'static str = "README.md.in";

/// An entry of the workspace's directory.
pub struct DirEntry {
    pub name: String,
    pub is_dir: bool,
    /// Whether there is a `Cargo.toml` in it.
    pub has_manifest: bool,
    /// What the `Cargo.toml` in it holds; none if that cannot be read.
    pub manifest: Option<String>,
    /// Whether the custom template directory, if there is one, has a template for it.
    pub has_custom_template: bool,
}

/// Where a readme comes from and where it goes.
pub struct ReadmeTarget {
    pub template_path: String,
    pub output_dir: String,
    pub crate_name: String,
}

/// Where a readme comes from and where it goes, as contracts speak of it.
pub struct ReadmeTargetView {
    pub template_path: Seq<char>,
    pub output_dir: Seq<char>,
    pub crate_name: Seq<char>,
}

impl View for ReadmeTarget {
    type V = ReadmeTargetView;

    open spec fn view(&self) -> ReadmeTargetView {
        ReadmeTargetView {
            template_path: self.template_path@,
            output_dir: self.output_dir@,
            crate_name: self.crate_name@,
        }
    }
}

/// The directories that hold no crate to publish, by their usual names.
pub open spec fn unpublished_dirs() -> Seq<Seq<char>> {
    seq!["target"@, "xtask"@, "examples"@, "benches"@, "tests"@, "fuzz"@]
}

/// Whether an entry can hold a crate that has a readme, by its name.
pub open spec fn may_have_readme(name: Seq<char>) -> bool {
    &&& !occurs_at(name, "."@, 0)
    &&& !occurs_at(name, "_"@, 0)
    &&& !unpublished_dirs().contains(name)
}

/// Whether an entry is a crate that gets a readme: a directory of no special name with a manifest
/// that does not turn readmes off.
pub open spec fn gets_readme(entry: DirEntry) -> bool {
    &&& entry.is_dir
    &&& may_have_readme(entry.name@)
    &&& entry.has_manifest
    &&& !(entry.manifest matches Some(text) && toml_entries(text@) matches Some(entries)
        && readme_disabled(entries))
}

/// What a crate in a directory is called: what its manifest calls it, or else like the directory.
pub open spec fn crate_name_of(dir_name: Seq<char>, manifest: Option<Seq<char>>) -> Seq<char> {
    let declared = match manifest {
        Some(text) => match toml_entries(text) {
            Some(entries) => package_name_in(entries),
            None => None,
        },
        None => None,
    };
    match declared {
        Some(name) => name,
        None => dir_name,
    }
}

/// The template for a crate in the custom template directory.
pub open spec fn custom_template_of(template_dir: Seq<char>, crate_name: Seq<char>) -> Seq<char> {
    joined_path(template_dir, crate_name + ".md.in"@)
}

/// The template for an entry: that of the custom template directory if there is one, else the
/// crate's own.
pub open spec fn template_of(
    workspace_dir: Seq<char>,
    template_dir: Option<Seq<char>>,
    entry: DirEntry,
) -> Seq<char> {
    let own = joined_path(joined_path(workspace_dir, entry.name@), TEMPLATE_NAME@);
    match template_dir {
        Some(dir) => if entry.has_custom_template {
            custom_template_of(dir, crate_name_of(entry.name@, opt_text(entry.manifest)))
        } else {
            own
        },
        None => own,
    }
}

/// The readme of an entry.
pub open spec fn target_of(
    workspace_dir: Seq<char>,
    template_dir: Option<Seq<char>>,
    entry: DirEntry,
) -> ReadmeTargetView {
    ReadmeTargetView {
        template_path: template_of(workspace_dir, template_dir, entry),
        output_dir: joined_path(workspace_dir, entry.name@),
        crate_name: crate_name_of(entry.name@, opt_text(entry.manifest)),
    }
}

/// The readmes of the crates among the entries, in their order.
pub open spec fn targets_of(
    workspace_dir: Seq<char>,
    template_dir: Option<Seq<char>>,
    entries: Seq<DirEntry>,
) -> Seq<ReadmeTargetView>
    decreases entries.len(),
{
    if entries.len() == 0 {
        seq![]
    } else {
        let rest = targets_of(workspace_dir, template_dir, entries.drop_last());
        if gets_readme(entries.last()) {
            rest.push(target_of(workspace_dir, template_dir, entries.last()))
        } else {
            rest
        }
    }
}

/// Whether an entry can hold a crate that has a readme, by its name.
pub fn name_may_have_readme(name: &str) -> (r: bool)
    ensures
        r == may_have_readme(name@),
{
    let unpublished = vec![
        "target".to_owned(),
        "xtask".to_owned(),
        "examples".to_owned(),
        "benches".to_owned(),
        "tests".to_owned(),
        "fuzz".to_owned(),
    ];
    assert(texts(unpublished@) =~= unpublished_dirs());
    !starts_with(name, ".") && !starts_with(name, "_") && !is_among(unpublished.as_slice(), name)
}

/// What a crate in a directory is called. `manifest` is what its manifest holds, if that can be
/// read.
pub fn crate_name(dir_name: &str, manifest: Option<&str>) -> (r: String)
    ensures
        r@ == crate_name_of(
            dir_name@,
            match manifest {
                Some(text) => Some(text@),
                None => None,
            },
        ),
{
    let declared = match manifest {
        Some(text) => package_name(text),
        None => None,
    };
    match declared {
        Some(name) => name,
        None => dir_name.to_owned(),
    }
}

/// The template for a crate in the custom template directory.
pub fn custom_template_path(template_dir: &str, crate_name: &str) -> (r: String)
    ensures
        r@ == custom_template_of(template_dir@, crate_name@),
{
    let mut file = crate_name.to_owned();
    file.append(".md.in");
    join_path(template_dir, file.as_str())
}

fn entry_gets_readme(entry: &DirEntry) -> (r: bool)
    ensures
        r == gets_readme(*entry),
{
    if !entry.is_dir || !name_may_have_readme(entry.name.as_str()) || !entry.has_manifest {
        return false;
    }
    match &entry.manifest {
        Some(text) => !crate_has_readme_disabled(text.as_str()),
        None => true,
    }
}

fn readme_target(workspace_dir: &str, template_dir: Option<&str>, entry: &DirEntry) -> (r:
    ReadmeTarget)
    ensures
        r@ == target_of(
            workspace_dir@,
            match template_dir {
                Some(dir) => Some(dir@),
                None => None,
            },
            *entry,
        ),
{
    let output_dir = join_path(workspace_dir, entry.name.as_str());
    let own = join_path(output_dir.as_str(), TEMPLATE_NAME);
    let manifest = match &entry.manifest {
        Some(text) => Some(text.as_str()),
        None => None,
    };
    let name = crate_name(entry.name.as_str(), manifest);
    let template_path = match template_dir {
        Some(dir) => if entry.has_custom_template {
            custom_template_path(dir, name.as_str())
        } else {
            own
        },
        None => own,
    };
    ReadmeTarget { template_path, output_dir, crate_name: name }
}

/// Targets, as contracts speak of them.
pub open spec fn target_views(targets: Seq<ReadmeTarget>) -> Seq<ReadmeTargetView> {
    targets.map_values(|target: ReadmeTarget| target@)
}

/// The readmes of the crates among the entries of the workspace's directory. `template_dir` is the
/// custom template directory, if there is one.
pub fn readme_targets(
    workspace_dir: &str,
    template_dir: Option<&str>,
    entries: &Vec<DirEntry>,
) -> (r: Vec<ReadmeTarget>)
    ensures
        target_views(r@) == targets_of(
            workspace_dir@,
            match template_dir {
                Some(dir) => Some(dir@),
                None => None,
            },
            entries@,
        ),
{
    let ghost custom = match template_dir {
        Some(dir) => Some(dir@),
        None => None,
    };
    let mut r: Vec<ReadmeTarget> = Vec::new();
    let mut i: usize = 0;
    assert(target_views(r@) =~= targets_of(workspace_dir@, custom, entries@.take(0)));
    while i < entries.len()
        invariant
            i <= entries.len(),
            custom == match template_dir {
                Some(dir) => Some(dir@),
                None => None,
            },
            target_views(r@) == targets_of(workspace_dir@, custom, entries@.take(i as int)),
        decreases entries.len() - i,
    {
        let ghost so_far = target_views(r@);
        assert(entries@.take(i + 1).drop_last() =~= entries@.take(i as int));
        assert(entries@.take(i + 1).last() == entries@[i as int]);
        if entry_gets_readme(&entries[i]) {
            let target = readme_target(workspace_dir, template_dir, &entries[i]);
            let ghost added = target@;
            r.push(target);
            assert(target_views(r@) =~= so_far.push(added));
        }
        i += 1;
    }
    assert(entries@.take(i as int) =~= entries@);
    r
}

/// The readme of the workspace itself.
pub fn workspace_target(workspace_dir: &str, name: &str) -> (r: ReadmeTarget)
    ensures
        r@ == (ReadmeTargetView {
            template_path: joined_path(workspace_dir@, TEMPLATE_NAME@),
            output_dir: workspace_dir@,
            crate_name: name@,
        }),
{
    ReadmeTarget {
        template_path: join_path(workspace_dir, TEMPLATE_NAME),
        output_dir: workspace_dir.to_owned(),
        crate_name: name.to_owned(),
    }
}

impl ReadmeTarget {
    /// Where the readme is written.
    pub fn readme_path(&self) -> (r: String)
        ensures
            r@ == joined_path(self.output_dir@, "README.md"@),
    {
        join_path(self.output_dir.as_str(), "README.md")
    }
}

/// What becomes of a readme.
pub enum ReadmeOutcome {
    /// It is written.
    Write(Job),
    /// It was changed by hand, and the change is staged.
    Conflict,
}

/// Whether a readme was changed by hand: it is staged, and what is staged is not what is made.
pub open spec fn in_conflict(
    staged: StagedFiles,
    path: Seq<char>,
    staged_content: Option<Vec<u8>>,
    text: Seq<char>,
) -> bool {
    &&& staged.has(path)
    &&& staged_content matches Some(content)
    &&& content@ != encode_utf8(text)
}

/// What becomes of a readme that reads `text`. `staged_content` is what is staged of it and
/// `old_content` what it holds now, if there is any.
pub fn readme_outcome(
    target: &ReadmeTarget,
    text: &str,
    staged: &StagedFiles,
    staged_content: Option<Vec<u8>>,
    old_content: Option<Vec<u8>>,
) -> (r: ReadmeOutcome)
    ensures
        ({
            let path = joined_path(target.output_dir@, "README.md"@);
            match r {
                ReadmeOutcome::Conflict => in_conflict(*staged, path, staged_content, text@),
                ReadmeOutcome::Write(job) => {
                    &&& !in_conflict(*staged, path, staged_content, text@)
                    &&& job.path@ == path
                    &&& job.old_content == old_content
                    &&& job.new_content@ == encode_utf8(text@)
                    &&& !job.executable
                },
            }
        }),
{
    let path = target.readme_path();
    let new_content = text.as_bytes_vec();
    if staged.contains(path.as_str()) {
        if let Some(content) = staged_content {
            if !same_bytes(content.as_slice(), new_content.as_slice()) {
                return ReadmeOutcome::Conflict;
            }
        }
    }
    ReadmeOutcome::Write(Job { path, old_content, new_content, executable: false })
}

/// A staged readme is written only if it is what is made: no change by hand is overwritten.
pub proof fn staged_change_is_kept(
    staged: StagedFiles,
    path: Seq<char>,
    staged_content: Option<Vec<u8>>,
    text: Seq<char>,
)
    requires
        staged.has(path),
        staged_content is Some,
        !in_conflict(staged, path, staged_content, text),
    ensures
        staged_content->0@ == encode_utf8(text),
{
}

/// Whether the components of `path` begin with those of `base`, of which there are some.
pub open spec fn is_under(path: Seq<char>, base: Seq<char>) -> bool {
    components_of(base).len() > 0 && components_of(base).is_prefix_of(components_of(path))
}

/// `path` as seen from `base`; `path` itself if it is not under `base`.
pub open spec fn seen_from(path: Seq<char>, base: Seq<char>) -> Seq<char> {
    if is_under(path, base) {
        joined(components_of(path).skip(components_of(base).len() as int), "/"@)
    } else {
        path
    }
}

/// `path` as seen from `base`; `path` itself if it is not under `base`.
pub fn relative_path(path: &str, base: &str) -> (r: String)
    ensures
        r@ == seen_from(path@, base@),
{
    let parts = components(path);
    let base_parts = components(base);
    let ghost all = texts(parts@);
    let ghost prefix = texts(base_parts@);
    assert(prefix.len() == base_parts.len() && all.len() == parts.len());
    if base_parts.len() == 0 || base_parts.len() > parts.len() {
        return path.to_owned();
    }
    let mut i: usize = 0;
    while i < base_parts.len()
        invariant
            0 < base_parts.len() <= parts.len(),
            i <= base_parts.len(),
            all == texts(parts@),
            prefix == texts(base_parts@),
            all == components_of(path@),
            prefix == components_of(base@),
            forall|j: int| 0 <= j < i ==> all[j] == prefix[j],
        decreases base_parts.len() - i,
    {
        if !same(parts[i].as_str(), base_parts[i].as_str()) {
            assert(all[i as int] != prefix[i as int]);
            assert(!prefix.is_prefix_of(all));
            return path.to_owned();
        }
        assert(all[i as int] == prefix[i as int]);
        i += 1;
    }
    assert(prefix =~= all.subrange(0, prefix.len() as int));
    let mut rest: Vec<String> = Vec::new();
    let mut k: usize = base_parts.len();
    while k < parts.len()
        invariant
            base_parts.len() <= k <= parts.len(),
            all == texts(parts@),
            texts(rest@) == all.subrange(base_parts.len() as int, k as int),
        decreases parts.len() - k,
    {
        let ghost so_far = texts(rest@);
        rest.push(parts[k].as_str().to_owned());
        k += 1;
        assert(texts(rest@) =~= so_far.push(all[k - 1]));
        assert(texts(rest@) =~= all.subrange(base_parts.len() as int, k as int));
    }
    assert(texts(rest@) =~= all.skip(prefix.len() as int));
    join(rest.as_slice(), "/")
}

/// What is said when a template is missing.
pub open spec fn missing_template_text(template_path: Seq<char>) -> Seq<char> {
    "\u{1f6ab} "@ + in_bold(in_red("Missing template!"@))
        + " Please add a README.md.in template here that describes what this crate is for:\n   "@
        + in_yellow(template_path)
}

/// What is said when a template is missing.
pub fn missing_template_report(template_path: &str) -> (r: String)
    ensures
        r@ == missing_template_text(template_path@),
{
    let mut r = "\u{1f6ab} ".to_owned();
    r.append(bold(red("Missing template!").as_str()).as_str());
    r.append(" Please add a README.md.in template here that describes what this crate is for:\n   ");
    r.append(yellow(template_path).as_str());
    r
}

/// What is said when a readme was changed by hand, line by line.
pub open spec fn conflict_lines(readme_path: Seq<char>, template_path: Seq<char>) -> Seq<Seq<char>> {
    seq![
        ""@,
        in_bold(in_red("\u{274c} GENERATED FILE CONFLICT DETECTED"@)),
        ""@,
        "You modified "@ + in_yellow(readme_path) + " directly, but this file is auto-generated."@,
        "This pre-commit hook would overwrite your changes."@,
        ""@,
        in_cyan("\u{2192}"@) + " Edit "@ + in_yellow(template_path)
            + " instead (the template source)"@,
        ""@,
        in_bold(in_cyan("To fix this:"@)),
        "  1. Undo changes to the generated file:"@,
        "     git restore --staged "@ + readme_path,
        "     git restore "@ + readme_path,
        ""@,
        "  2. OR edit the template and regenerate:"@,
        "     # Edit "@ + template_path,
        "     cargo run --release  # regenerate"@,
        "     git add "@ + readme_path + "  # stage the generated file"@,
        ""@,
        "Refusing to commit until this conflict is resolved."@,
    ]
}

fn glue(start: &str, middle: &str, end: &str) -> (r: String)
    ensures
        r@ == start@ + middle@ + end@,
{
    let mut r = start.to_owned();
    r.append(middle);
    r.append(end);
    r
}

/// What is said when a readme was changed by hand, line by line.
pub fn conflict_report(readme_path: &str, template_path: &str) -> (r: Vec<String>)
    ensures
        texts(r@) == conflict_lines(readme_path@, template_path@),
{
    proof {
        reveal_strlit("");
    }
    let r = vec![
        "".to_owned(),
        bold(red("\u{274c} GENERATED FILE CONFLICT DETECTED").as_str()),
        "".to_owned(),
        glue(
            "You modified ",
            yellow(readme_path).as_str(),
            " directly, but this file is auto-generated.",
        ),
        "This pre-commit hook would overwrite your changes.".to_owned(),
        "".to_owned(),
        glue(
            cyan("\u{2192}").as_str(),
            " Edit ",
            glue(yellow(template_path).as_str(), " instead (the template source)", "").as_str(),
        ),
        "".to_owned(),
        bold(cyan("To fix this:").as_str()),
        "  1. Undo changes to the generated file:".to_owned(),
        glue("     git restore --staged ", readme_path, ""),
        glue("     git restore ", readme_path, ""),
        "".to_owned(),
        "  2. OR edit the template and regenerate:".to_owned(),
        glue("     # Edit ", template_path, ""),
        "     cargo run --release  # regenerate".to_owned(),
        glue("     git add ", readme_path, "  # stage the generated file"),
        "".to_owned(),
        "Refusing to commit until this conflict is resolved.".to_owned(),
    ];
    let ghost wanted = conflict_lines(readme_path@, template_path@);
    assert(""@ =~= seq![]);
    assert(r@[6]@ =~= wanted[6]);
    assert(r@[10]@ =~= wanted[10]);
    assert(r@[11]@ =~= wanted[11]);
    assert(r@[14]@ =~= wanted[14]);
    assert(texts(r@) =~= wanted);
    r
}

/// Whether a directory of this name is passed over: it starts with a dot or an underscore, or it is
/// one of six directories that hold no crate to publish.
pub open spec fn is_special_name(name: Seq<char>) -> bool {
    ||| name.len() > 0 && (name[0] == '.' || name[0] == '_')
    ||| name == "target"@
    ||| name == "xtask"@
    ||| name == "examples"@
    ||| name == "benches"@
    ||| name == "tests"@
    ||| name == "fuzz"@
}

/// Every name is that of a crate that may have a readme, but for the special ones.
pub proof fn only_special_names_are_passed_over(name: Seq<char>)
    ensures
        may_have_readme(name) <==> !is_special_name(name),
{
    reveal_strlit(".");
    reveal_strlit("_");
    if name.len() > 0 {
        assert(name.subrange(0, 1) =~= seq![name[0]]);
        assert(seq!['.'] =~= "."@);
        assert(seq!['_'] =~= "_"@);
        if name[0] == '.' {
            assert(occurs_at(name, "."@, 0));
        }
        if name[0] == '_' {
            assert(occurs_at(name, "_"@, 0));
        }
        if occurs_at(name, "."@, 0) {
            assert(name.subrange(0, 1)[0] == "."@[0]);
        }
        if occurs_at(name, "_"@, 0) {
            assert(name.subrange(0, 1)[0] == "_"@[0]);
        }
    }
    let dirs = unpublished_dirs();
    assert(dirs[0] == "target"@);
    assert(dirs[1] == "xtask"@);
    assert(dirs[2] == "examples"@);
    assert(dirs[3] == "benches"@);
    assert(dirs[4] == "tests"@);
    assert(dirs[5] == "fuzz"@);
    if dirs.contains(name) {
        let i = choose|i: int| 0 <= i < dirs.len() && dirs[i] == name;
        assert(i == 0 || i == 1 || i == 2 || i == 3 || i == 4 || i == 5);
    }
}

/// Whether an entry is the directory of a crate to publish: its name is not special, there is a
/// manifest in it, and that does not turn readmes off.
pub open spec fn is_published_crate(entry: DirEntry) -> bool {
    &&& entry.is_dir
    &&& entry.has_manifest
    &&& !is_special_name(entry.name@)
    &&& match entry.manifest {
        Some(text) => match toml_entries(text@) {
            Some(entries) => !readme_disabled(entries),
            None => true,
        },
        None => true,
    }
}

/// The readmes of two parts of a directory are those of the first part and then those of the second:
/// no entry keeps another from getting its readme.
pub proof fn entries_are_looked_at_one_by_one(
    workspace_dir: Seq<char>,
    template_dir: Option<Seq<char>>,
    a: Seq<DirEntry>,
    b: Seq<DirEntry>,
)
    ensures
        targets_of(workspace_dir, template_dir, a + b) == targets_of(workspace_dir, template_dir, a)
            + targets_of(workspace_dir, template_dir, b),
    decreases b.len(),
{
    let first = targets_of(workspace_dir, template_dir, a);
    if b.len() == 0 {
        assert(a + b =~= a);
        assert(first + targets_of(workspace_dir, template_dir, b) =~= first);
    } else {
        assert((a + b).drop_last() =~= a + b.drop_last());
        entries_are_looked_at_one_by_one(workspace_dir, template_dir, a, b.drop_last());
        assert(targets_of(workspace_dir, template_dir, a + b) =~= first + targets_of(
            workspace_dir,
            template_dir,
            b,
        ));
    }
}

/// The directory of a crate to publish gets one readme, in that directory and called after the
/// crate, and no other entry gets any.
pub proof fn published_crates_get_readmes(
    workspace_dir: Seq<char>,
    template_dir: Option<Seq<char>>,
    entry: DirEntry,
)
    ensures
        ({
            let targets = targets_of(workspace_dir, template_dir, seq![entry]);
            &&& !is_published_crate(entry) ==> targets.len() == 0
            &&& is_published_crate(entry) ==> {
                &&& targets.len() == 1
                &&& targets[0].output_dir == joined_path(workspace_dir, entry.name@)
                &&& targets[0].crate_name == crate_name_of(entry.name@, opt_text(entry.manifest))
                &&& targets[0].template_path == template_of(workspace_dir, template_dir, entry)
            }
        }),
{
    only_special_names_are_passed_over(entry.name@);
    let one = seq![entry];
    assert(one.drop_last() =~= seq![]);
    assert(targets_of(workspace_dir, template_dir, one.drop_last()) =~= seq![]);
    assert(one.last() == entry);
}

/// There are as many readmes as directories of crates to publish, and each of these has one.
pub proof fn no_crate_is_left_out(
    workspace_dir: Seq<char>,
    template_dir: Option<Seq<char>>,
    entries: Seq<DirEntry>,
)
    ensures
        ({
            let targets = targets_of(workspace_dir, template_dir, entries);
            &&& targets.len() == entries.filter(|entry: DirEntry| is_published_crate(entry)).len()
            &&& forall|i: int|
                0 <= i < entries.len() && is_published_crate(#[trigger] entries[i]) ==> exists|
                    k: int,
                |
                    0 <= k < targets.len() && (#[trigger] targets[k]).output_dir == joined_path(
                        workspace_dir,
                        entries[i].name@,
                    )
        }),
    decreases entries.len(),
{
    reveal(Seq::filter);
    let targets = targets_of(workspace_dir, template_dir, entries);
    if entries.len() > 0 {
        let front = entries.drop_last();
        let last = entries.last();
        let before = targets_of(workspace_dir, template_dir, front);
        no_crate_is_left_out(workspace_dir, template_dir, front);
        only_special_names_are_passed_over(last.name@);
        assert forall|i: int|
            0 <= i < entries.len() && is_published_crate(#[trigger] entries[i]) implies exists|k: int|
            0 <= k < targets.len() && (#[trigger] targets[k]).output_dir == joined_path(
                workspace_dir,
                entries[i].name@,
            ) by {
            if i < front.len() {
                assert(front[i] == entries[i]);
                let k = choose|k: int|
                    0 <= k < before.len() && (#[trigger] before[k]).output_dir == joined_path(
                        workspace_dir,
                        front[i].name@,
                    );
                assert(targets[k] == before[k]);
            } else {
                assert(targets[before.len() as int].output_dir == joined_path(
                    workspace_dir,
                    last.name@,
                ));
            }
        }
    }
}

/// A template in the custom directory, called after the crate, comes before the crate's own, which
/// stands beside its manifest.
pub proof fn custom_template_comes_first(
    workspace_dir: Seq<char>,
    template_dir: Option<Seq<char>>,
    entry: DirEntry,
)
    ensures
        ({
            let template = template_of(workspace_dir, template_dir, entry);
            let own = joined_path(joined_path(workspace_dir, entry.name@), "README.md.in"@);
            &&& template_dir is None ==> template == own
            &&& !entry.has_custom_template ==> template == own
            &&& template_dir matches Some(dir) ==> (entry.has_custom_template ==> template
                == joined_path(
                dir,
                crate_name_of(entry.name@, opt_text(entry.manifest)) + ".md.in"@,
            ))
        }),
{
}

/// A crate is called what its manifest says, and like its directory only if that does not say.
pub proof fn manifest_names_crate(dir_name: Seq<char>, manifest: Option<Seq<char>>)
    ensures
        manifest matches Some(text) ==> match toml_entries(text) {
            Some(entries) => match package_name_in(entries) {
                Some(name) => crate_name_of(dir_name, manifest) == name,
                None => crate_name_of(dir_name, manifest) == dir_name,
            },
            None => crate_name_of(dir_name, manifest) == dir_name,
        },
        manifest is None ==> crate_name_of(dir_name, manifest) == dir_name,
{
}

/// A readme is in conflict exactly if it is staged and what is staged of it is not what is made.
pub proof fn conflict_means_staged_change(
    staged: StagedFiles,
    path: Seq<char>,
    staged_content: Option<Vec<u8>>,
    text: Seq<char>,
)
    ensures
        in_conflict(staged, path, staged_content, text) ==> staged.has(path)
            && staged_content is Some && staged_content->0@ != encode_utf8(text),
        staged.has(path) && staged_content is Some && staged_content->0@ != encode_utf8(text)
            ==> in_conflict(staged, path, staged_content, text),
{
}

/// A path is shown from a directory above it by the components that follow those of the directory,
/// and otherwise as it is.
pub proof fn path_is_shown_from_above(path: Seq<char>, base: Seq<char>, rest: Seq<Seq<char>>)
    ensures
        components_of(base).len() > 0 && components_of(path) == components_of(base) + rest
            ==> seen_from(path, base) == joined(rest, "/"@),
        (forall|rest: Seq<Seq<char>>| components_of(path) != #[trigger] (components_of(base) + rest))
            ==> seen_from(path, base) == path,
{
    let above = components_of(base);
    let all = components_of(path);
    if above.len() > 0 && all == above + rest {
        assert(above =~= all.subrange(0, above.len() as int));
        assert(all.skip(above.len() as int) =~= rest);
    }
    if forall|rest: Seq<Seq<char>>| all != #[trigger] (above + rest) {
        if is_under(path, base) {
            let tail = all.skip(above.len() as int);
            assert(all =~= above + tail);
        }
    }
}

/// What is said about a conflict names the readme and the template, and how to undo the change.
pub proof fn conflict_is_explained(readme_path: Seq<char>, template_path: Seq<char>)
    ensures
        ({
            let lines = conflict_lines(readme_path, template_path);
            &&& lines.contains("     git restore --staged "@ + readme_path)
            &&& lines.contains("     git restore "@ + readme_path)
            &&& lines.contains(
                "You modified "@ + in_yellow(readme_path)
                    + " directly, but this file is auto-generated."@,
            )
            &&& lines.contains("     # Edit "@ + template_path)
            &&& lines.contains("     git add "@ + readme_path + "  # stage the generated file"@)
            &&& lines.last() == "Refusing to commit until this conflict is resolved."@
        }),
{
    let lines = conflict_lines(readme_path, template_path);
    assert(lines[3] == "You modified "@ + in_yellow(readme_path)
        + " directly, but this file is auto-generated."@);
    assert(lines[10] == "     git restore --staged "@ + readme_path);
    assert(lines[11] == "     git restore "@ + readme_path);
    assert(lines[14] == "     # Edit "@ + template_path);
    assert(lines[16] == "     git add "@ + readme_path + "  # stage the generated file"@);
}

/// What is said about a missing template ends with where it should be.
pub proof fn missing_template_is_located(template_path: Seq<char>)
    ensures
        exists|before: Seq<char>|
            missing_template_text(template_path) == #[trigger] (before + in_yellow(template_path)),
{
    let before = "\u{1f6ab} "@ + in_bold(in_red("Missing template!"@))
        + " Please add a README.md.in template here that describes what this crate is for:\n   "@;
    assert(missing_template_text(template_path) == before + in_yellow(template_path));
}

}
