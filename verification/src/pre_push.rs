//! What is checked before a push: which crates, by which commands, in which order.

use vstd::prelude::*;

use crate::ansi::{cyan, green, in_cyan, in_green, in_red, in_yellow, red, yellow};
use crate::command::{
    clippy_advice, clippy_command, clippy_fix_hint, clippy_line, doc_command, doc_line,
    doc_test_command, doc_test_line, each_package_is_picked, error_lines, error_report,
    failure_lines, failure_report, indicates_missing_cargo_subcommand, missing_patterns,
    nothing_to_doc_test, package_args, says_missing, shear_advice, shear_command, shear_fix_hint,
    shear_line, should_skip_doc_tests, test_build_command, test_build_line, test_command,
    test_line, CommandOutput, EnvVar,
};
use crate::config::{CaptainConfig, ConfigView};
use crate::paths::{join_path, joined_path, parent_is_shorter, parent_of, parent_path};
use crate::stream::ColorSupport;
use crate::text::{
    from_utf8_lossy, insert_sorted, is_among, is_white, join, joined, lines, lines_of, lossy_text,
    lower_text, occurs, opt_text, same, strictly_sorted, texts, trim, trimmed,
    trimming_takes_white_space_off,
};
use crate::workspace::{is_member, Package};

verus! {

broadcast use vstd::string::group_string_axioms;

/// The directory that the checks of all workspaces build into, in the directory `home`.
pub fn shared_target_dir(home: &str) -> (r: String)
    ensures
        r@ == joined_path(joined_path(home@, ".captain"@), "target"@),
{
    join_path(join_path(home, ".captain").as_str(), "target")
}

/// The revision that git wrote.
pub open spec fn revision_in(output: Seq<u8>) -> Seq<char> {
    trimmed(lossy_text(output))
}

/// The revision that git wrote.
pub fn revision(output: &[u8]) -> (r: String)
    ensures
        r@ == revision_in(output@),
{
    trim(from_utf8_lossy(output).as_str())
}

/// Whether a branch has diverged from its upstream: its head is not where they part, and upstream,
/// as far as that is known, is not there either.
pub open spec fn is_diverged(
    merge_base: Seq<char>,
    head: Seq<char>,
    upstream: Option<Seq<char>>,
) -> bool {
    merge_base != head && (upstream matches Some(revision) && revision != merge_base)
}

/// Whether a branch has diverged from its upstream.
pub fn has_diverged(merge_base: &str, head: &str, upstream: Option<&str>) -> (r: bool)
    ensures
        r == is_diverged(
            merge_base@,
            head@,
            match upstream {
                Some(revision) => Some(revision@),
                None => None,
            },
        ),
{
    if same(merge_base, head) {
        return false;
    }
    match upstream {
        Some(revision) => !same(revision, merge_base),
        None => false,
    }
}

/// The changed files that git lists, sorted, each once.
pub fn changed_files(output: &[u8]) -> (r: Vec<String>)
    ensures
        strictly_sorted(texts(r@)),
        forall|file: Seq<char>| #[trigger]
            texts(r@).contains(file) <==> lines_of(lossy_text(output@)).contains(file),
{
    let listed = lines(from_utf8_lossy(output).as_str());
    let ghost all = texts(listed@);
    let mut files: Vec<String> = Vec::new();
    let mut i: usize = 0;
    while i < listed.len()
        invariant
            i <= listed.len(),
            all == texts(listed@),
            strictly_sorted(texts(files@)),
            forall|file: Seq<char>| #[trigger]
                texts(files@).contains(file) <==> all.take(i as int).contains(file),
        decreases listed.len() - i,
    {
        let ghost before = texts(files@);
        let file = listed[i].as_str().to_owned();
        let ghost added = file@;
        insert_sorted(&mut files, file);
        proof {
            assert(all.take(i + 1) =~= all.take(i as int).push(added));
            assert forall|file: Seq<char>| #[trigger]
                texts(files@).contains(file) <==> all.take(i + 1).contains(file) by {
                assert(before.contains(file) <==> all.take(i as int).contains(file));
                pushed_contains(all.take(i as int), added, file);
            }
        }
        i += 1;
    }
    assert(all.take(i as int) =~= all);
    files
}

proof fn pushed_contains(list: Seq<Seq<char>>, added: Seq<char>, text: Seq<char>)
    ensures
        list.push(added).contains(text) <==> text == added || list.contains(text),
{
    if list.contains(text) {
        let i = choose|i: int| 0 <= i < list.len() && list[i] == text;
        assert(list.push(added)[i] == text);
    }
    if text == added {
        assert(list.push(added)[list.len() as int] == text);
    }
    if list.push(added).contains(text) {
        let i = choose|i: int| 0 <= i < list.push(added).len() && list.push(added)[i] == text;
        if i < list.len() {
            assert(list[i] == text);
        }
    }
}

/// The crate in a directory: of the packages whose manifest stands there, the last.
pub open spec fn crate_in(packages: Seq<Package>, dir: Seq<char>) -> Option<Seq<char>>
    decreases packages.len(),
{
    if packages.len() == 0 {
        None
    } else if parent_of(packages.last().manifest_path@) == Some(dir) {
        Some(packages.last().name@)
    } else {
        crate_in(packages.drop_last(), dir)
    }
}

/// The crate that a path belongs to: that of the path itself or of the nearest directory above it
/// that has one.
pub open spec fn crate_of(packages: Seq<Package>, path: Seq<char>) -> Option<Seq<char>>
    decreases path.len(),
    via crate_of_decreases
{
    match crate_in(packages, path) {
        Some(name) => Some(name),
        None => match parent_of(path) {
            Some(parent) => crate_of(packages, parent),
            None => None,
        },
    }
}

#[via_fn]
proof fn crate_of_decreases(packages: Seq<Package>, path: Seq<char>) {
    parent_is_shorter(path);
}

/// The crate that a changed file belongs to.
pub open spec fn crate_of_file(packages: Seq<Package>, root: Seq<char>, file: Seq<char>) -> Option<
    Seq<char>,
> {
    crate_of(packages, joined_path(root, file))
}

/// Whether a crate is affected by changes to the files.
pub open spec fn is_affected(
    packages: Seq<Package>,
    root: Seq<char>,
    files: Seq<Seq<char>>,
    name: Seq<char>,
) -> bool {
    exists|i: int|
        0 <= i < files.len() && crate_of_file(packages, root, #[trigger] files[i]) == Some(name)
}

/// Whether a crate name is that of a package that is not a member of the workspace.
pub open spec fn is_excluded(packages: Seq<Package>, members: Seq<String>, name: Seq<char>) -> bool {
    exists|i: int|
        0 <= i < packages.len() && (#[trigger] packages[i]).name@ == name && !is_member(
            packages[i],
            members,
        )
}

/// The crate in a directory.
fn find_crate_in(packages: &Vec<Package>, dir: &str) -> (r: Option<String>)
    ensures
        opt_text(r) == crate_in(packages@, dir@),
{
    let mut i: usize = packages.len();
    assert(packages@.take(i as int) =~= packages@);
    while i > 0
        invariant
            i <= packages.len(),
            crate_in(packages@.take(i as int), dir@) == crate_in(packages@, dir@),
        decreases i,
    {
        assert(packages@.take(i as int).drop_last() =~= packages@.take(i - 1));
        assert(packages@.take(i as int).last() == packages@[i - 1]);
        if let Some(parent) = parent_path(packages[i - 1].manifest_path.as_str()) {
            if same(parent.as_str(), dir) {
                return Some(packages[i - 1].name.as_str().to_owned());
            }
        }
        i -= 1;
    }
    None
}

/// The crate that a path belongs to.
pub fn find_crate(packages: &Vec<Package>, path: &str) -> (r: Option<String>)
    ensures
        opt_text(r) == crate_of(packages@, path@),
{
    let mut current = path.to_owned();
    loop
        invariant
            crate_of(packages@, current@) == crate_of(packages@, path@),
        decreases current@.len(),
    {
        if let Some(name) = find_crate_in(packages, current.as_str()) {
            return Some(name);
        }
        match parent_path(current.as_str()) {
            Some(parent) => {
                proof {
                    parent_is_shorter(current@);
                }
                current = parent;
            },
            None => {
                return None;
            },
        }
    }
}

/// Whether a crate name is that of a package that is not a member of the workspace.
pub fn crate_is_excluded(packages: &Vec<Package>, members: &Vec<String>, name: &str) -> (r: bool)
    ensures
        r == is_excluded(packages@, members@, name@),
{
    let mut i: usize = 0;
    while i < packages.len()
        invariant
            i <= packages.len(),
            forall|j: int|
                0 <= j < i ==> !((#[trigger] packages@[j]).name@ == name@ && !is_member(
                    packages@[j],
                    members@,
                )),
        decreases packages.len() - i,
    {
        if same(packages[i].name.as_str(), name) && !is_among(
            members.as_slice(),
            packages[i].id.as_str(),
        ) {
            return true;
        }
        i += 1;
    }
    false
}

/// The crates that are checked.
pub struct CheckedCrates {
    /// The members of the workspace that are affected by the changes, sorted.
    pub affected: Vec<String>,
    /// All members of the workspace, sorted.
    pub all: Vec<String>,
}

/// What there is to check before a push.
pub enum PushScope {
    /// Nothing changed.
    NoChanges,
    /// No crate is affected.
    NoCrates,
    /// No crate is affected that is a member of the workspace.
    NoMembers,
    /// These crates.
    Crates(CheckedCrates),
}

/// Whether no file belongs to a crate.
pub open spec fn none_affected(packages: Seq<Package>, root: Seq<char>, files: Seq<Seq<char>>) -> bool {
    forall|i: int|
        0 <= i < files.len() ==> crate_of_file(packages, root, #[trigger] files[i]) is None
}

/// Whether a crate is checked as one that is affected: it is so and not excluded.
pub open spec fn is_checked(
    packages: Seq<Package>,
    members: Seq<String>,
    root: Seq<char>,
    files: Seq<Seq<char>>,
    name: Seq<char>,
) -> bool {
    is_affected(packages, root, files, name) && !is_excluded(packages, members, name)
}

/// What there is to check before a push. `root` is the workspace's directory, `files` are the
/// changed files.
pub fn push_scope(
    packages: &Vec<Package>,
    members: &Vec<String>,
    root: &str,
    files: &Vec<String>,
) -> (r: PushScope)
    ensures
        match r {
            PushScope::NoChanges => files.len() == 0,
            PushScope::NoCrates => files.len() > 0 && none_affected(
                packages@,
                root@,
                texts(files@),
            ),
            PushScope::NoMembers => !none_affected(packages@, root@, texts(files@)) && forall|
                name: Seq<char>,
            |
                !is_checked(packages@, members@, root@, texts(files@), name),
            PushScope::Crates(crates) => {
                &&& crates.affected.len() > 0
                &&& strictly_sorted(texts(crates.affected@))
                &&& forall|name: Seq<char>| #[trigger]
                    texts(crates.affected@).contains(name) <==> is_checked(
                        packages@,
                        members@,
                        root@,
                        texts(files@),
                        name,
                    )
                &&& strictly_sorted(texts(crates.all@))
                &&& forall|name: Seq<char>| #[trigger]
                    texts(crates.all@).contains(name) <==> names_member(packages@, members@, name)
            },
        },
{
    if files.len() == 0 {
        return PushScope::NoChanges;
    }
    let ghost all = texts(files@);
    let mut any = false;
    let mut crates: Vec<String> = Vec::new();
    let mut i: usize = 0;
    while i < files.len()
        invariant
            i <= files.len(),
            all == texts(files@),
            any == !none_affected(packages@, root@, all.take(i as int)),
            strictly_sorted(texts(crates@)),
            forall|name: Seq<char>| #[trigger]
                texts(crates@).contains(name) <==> is_checked(
                    packages@,
                    members@,
                    root@,
                    all.take(i as int),
                    name,
                ),
        decreases files.len() - i,
    {
        let ghost before = texts(crates@);
        let ghost seen = all.take(i as int);
        let ghost more = all.take(i + 1);
        assert(more =~= seen.push(all[i as int]));
        let path = join_path(root, files[i].as_str());
        let found = find_crate(packages, path.as_str());
        let ghost found_name = opt_text(found);
        proof {
            assert(found_name == crate_of_file(packages@, root@, all[i as int]));
            none_affected_grows(packages@, root@, seen, all[i as int]);
        }
        match found {
            Some(name) => {
                any = true;
                let ghost added = name@;
                if !crate_is_excluded(packages, members, name.as_str()) {
                    insert_sorted(&mut crates, name);
                }
                assert forall|name: Seq<char>| #[trigger]
                    texts(crates@).contains(name) <==> is_checked(
                        packages@,
                        members@,
                        root@,
                        more,
                        name,
                    ) by {
                    assert(before.contains(name) <==> is_checked(
                        packages@,
                        members@,
                        root@,
                        seen,
                        name,
                    ));
                    is_affected_grows(packages@, root@, seen, all[i as int], name);
                }
            },
            None => {
                assert forall|name: Seq<char>| #[trigger]
                    texts(crates@).contains(name) <==> is_checked(
                        packages@,
                        members@,
                        root@,
                        more,
                        name,
                    ) by {
                    is_affected_grows(packages@, root@, seen, all[i as int], name);
                }
            },
        }
        i += 1;
    }
    assert(all.take(i as int) =~= all);
    if !any {
        return PushScope::NoCrates;
    }
    if crates.len() == 0 {
        assert forall|name: Seq<char>| !is_checked(packages@, members@, root@, all, name) by {
            assert(!texts(crates@).contains(name));
        }
        return PushScope::NoMembers;
    }
    PushScope::Crates(CheckedCrates { affected: crates, all: member_names(packages, members) })
}

proof fn is_affected_grows(
    packages: Seq<Package>,
    root: Seq<char>,
    files: Seq<Seq<char>>,
    file: Seq<char>,
    name: Seq<char>,
)
    ensures
        is_affected(packages, root, files.push(file), name) <==> is_affected(
            packages,
            root,
            files,
            name,
        ) || crate_of_file(packages, root, file) == Some(name),
{
    let more = files.push(file);
    if is_affected(packages, root, files, name) {
        let i = choose|i: int|
            0 <= i < files.len() && crate_of_file(packages, root, #[trigger] files[i]) == Some(name);
        assert(more[i] == files[i]);
    }
    if crate_of_file(packages, root, file) == Some(name) {
        assert(more[files.len() as int] == file);
    }
    if is_affected(packages, root, more, name) {
        let i = choose|i: int|
            0 <= i < more.len() && crate_of_file(packages, root, #[trigger] more[i]) == Some(name);
        if i < files.len() {
            assert(files[i] == more[i]);
        }
    }
}

proof fn none_affected_grows(
    packages: Seq<Package>,
    root: Seq<char>,
    files: Seq<Seq<char>>,
    file: Seq<char>,
)
    ensures
        none_affected(packages, root, files.push(file)) <==> none_affected(packages, root, files)
            && crate_of_file(packages, root, file) is None,
{
    let more = files.push(file);
    if none_affected(packages, root, more) {
        assert(more[files.len() as int] == file);
        assert forall|i: int| 0 <= i < files.len() implies crate_of_file(
            packages,
            root,
            #[trigger] files[i],
        ) is None by {
            assert(more[i] == files[i]);
        }
    }
}

/// The crate that a path belongs to has a package whose directory is the path itself or stands above
/// it.
pub proof fn crate_stands_above(packages: Seq<Package>, path: Seq<char>) -> (dir: Seq<char>)
    requires
        crate_of(packages, path) is Some,
    ensures
        dir.len() <= path.len(),
        dir == path.take(dir.len() as int),
        crate_in(packages, dir) == crate_of(packages, path),
        exists|i: int|
            0 <= i < packages.len() && parent_of((#[trigger] packages[i]).manifest_path@) == Some(dir)
                && Some(packages[i].name@) == crate_of(packages, path),
    decreases path.len(),
{
    if crate_in(packages, path) is Some {
        assert(path.take(path.len() as int) =~= path);
        crate_in_has_package(packages, path);
        path
    } else {
        parent_is_shorter(path);
        let parent = parent_of(path)->0;
        let dir = crate_stands_above(packages, parent);
        assert(path.take(dir.len() as int) =~= parent.take(dir.len() as int));
        dir
    }
}

proof fn crate_in_has_package(packages: Seq<Package>, dir: Seq<char>)
    requires
        crate_in(packages, dir) is Some,
    ensures
        exists|i: int|
            0 <= i < packages.len() && parent_of((#[trigger] packages[i]).manifest_path@) == Some(dir)
                && Some(packages[i].name@) == crate_in(packages, dir),
    decreases packages.len(),
{
    let last = packages.len() - 1;
    if parent_of(packages.last().manifest_path@) == Some(dir) {
        assert(packages[last] == packages.last());
    } else {
        let rest = packages.drop_last();
        crate_in_has_package(rest, dir);
        let i = choose|i: int|
            0 <= i < rest.len() && parent_of((#[trigger] rest[i]).manifest_path@) == Some(dir)
                && Some(rest[i].name@) == crate_in(rest, dir);
        assert(packages[i] == rest[i]);
    }
}

/// Whether a crate name is that of a member of the workspace.
pub open spec fn names_member(packages: Seq<Package>, members: Seq<String>, name: Seq<char>) -> bool {
    exists|i: int|
        0 <= i < packages.len() && (#[trigger] packages[i]).name@ == name && is_member(
            packages[i],
            members,
        )
}

/// The names of all members of the workspace, sorted, each once.
pub fn member_names(packages: &Vec<Package>, members: &Vec<String>) -> (r: Vec<String>)
    ensures
        strictly_sorted(texts(r@)),
        forall|name: Seq<char>| #[trigger]
            texts(r@).contains(name) <==> names_member(packages@, members@, name),
{
    let mut names: Vec<String> = Vec::new();
    let mut i: usize = 0;
    while i < packages.len()
        invariant
            i <= packages.len(),
            strictly_sorted(texts(names@)),
            forall|name: Seq<char>| #[trigger]
                texts(names@).contains(name) <==> names_member(
                    packages@.take(i as int),
                    members@,
                    name,
                ),
        decreases packages.len() - i,
    {
        let ghost before = texts(names@);
        let ghost seen = packages@.take(i as int);
        let ghost more = packages@.take(i + 1);
        let ghost package = packages@[i as int];
        if is_among(members.as_slice(), packages[i].id.as_str()) {
            insert_sorted(&mut names, packages[i].name.as_str().to_owned());
        }
        proof {
            assert(more =~= seen.push(package));
            assert forall|name: Seq<char>| #[trigger]
                texts(names@).contains(name) <==> names_member(more, members@, name) by {
                assert(before.contains(name) <==> names_member(seen, members@, name));
                names_member_grows(seen, members@, package, name);
            }
        }
        i += 1;
    }
    assert(packages@.take(i as int) =~= packages@);
    names
}

proof fn names_member_grows(
    packages: Seq<Package>,
    members: Seq<String>,
    package: Package,
    name: Seq<char>,
)
    ensures
        names_member(packages.push(package), members, name) <==> names_member(
            packages,
            members,
            name,
        ) || (package.name@ == name && is_member(package, members)),
{
    let more = packages.push(package);
    if names_member(packages, members, name) {
        let i = choose|i: int|
            0 <= i < packages.len() && (#[trigger] packages[i]).name@ == name && is_member(
                packages[i],
                members,
            );
        assert(more[i] == packages[i]);
    }
    if package.name@ == name && is_member(package, members) {
        assert(more[packages.len() as int] == package);
    }
    if names_member(more, members, name) {
        let i = choose|i: int|
            0 <= i < more.len() && (#[trigger] more[i]).name@ == name && is_member(
                more[i],
                members,
            );
        if i < packages.len() {
            assert(packages[i] == more[i]);
        }
    }
}

/// Whether two members of the workspace declare different Rust versions.
pub open spec fn versions_differ(packages: Seq<Package>, members: Seq<String>) -> bool {
    exists|i: int, j: int|
        0 <= i < packages.len() && 0 <= j < packages.len() && declare_differently(
            #[trigger] packages[i],
            #[trigger] packages[j],
            members,
        )
}

/// Whether two packages are members of the workspace that declare different Rust versions.
pub open spec fn declare_differently(a: Package, b: Package, members: Seq<String>) -> bool {
    &&& is_member(a, members)
    &&& is_member(b, members)
    &&& a.rust_version is Some
    &&& b.rust_version is Some
    &&& a.rust_version->0@ != b.rust_version->0@
}

/// The Rust versions that the members of the workspace declare, a line for each.
pub open spec fn version_list(packages: Seq<Package>, members: Seq<String>) -> Seq<Seq<char>>
    decreases packages.len(),
{
    if packages.len() == 0 {
        seq![]
    } else {
        let rest = version_list(packages.drop_last(), members);
        let package = packages.last();
        match package.rust_version {
            Some(version) => if is_member(package, members) {
                rest.push("    "@ + package.name@ + ": rust-version = "@ + version@)
            } else {
                rest
            },
            None => rest,
        }
    }
}

/// The Rust versions of a workspace.
pub struct VersionReport {
    /// Whether two members declare different ones.
    pub differ: bool,
    /// What the members declare, a line for each that declares one.
    pub lines: Vec<String>,
}

/// Compares the Rust versions that the members of the workspace declare.
pub fn compare_versions(packages: &Vec<Package>, members: &Vec<String>) -> (r: VersionReport)
    ensures
        r.differ == versions_differ(packages@, members@),
        texts(r.lines@) == version_list(packages@, members@),
{
    let mut list: Vec<String> = Vec::new();
    let mut differ = false;
    let mut first: Option<usize> = None;
    let mut i: usize = 0;
    assert(texts(list@) =~= version_list(packages@.take(0), members@));
    while i < packages.len()
        invariant
            i <= packages.len(),
            texts(list@) == version_list(packages@.take(i as int), members@),
            match first {
                Some(at) => at < i && is_member(packages@[at as int], members@)
                    && packages@[at as int].rust_version is Some,
                None => forall|j: int|
                    0 <= j < i ==> !(is_member(#[trigger] packages@[j], members@)
                        && packages@[j].rust_version is Some),
            },
            differ ==> versions_differ(packages@, members@),
            !differ && first is Some ==> forall|j: int|
                0 <= j < i ==> !declare_differently(
                    packages@[first->0 as int],
                    #[trigger] packages@[j],
                    members@,
                ),
        decreases packages.len() - i,
    {
        let ghost so_far = texts(list@);
        let package = &packages[i];
        assert(packages@.take(i + 1).drop_last() =~= packages@.take(i as int));
        assert(packages@.take(i + 1).last() == *package);
        if is_among(members.as_slice(), package.id.as_str()) {
            if let Some(version) = &package.rust_version {
                let mut line = "    ".to_owned();
                line.append(package.name.as_str());
                line.append(": rust-version = ");
                line.append(version.as_str());
                let ghost added = line@;
                list.push(line);
                assert(texts(list@) =~= so_far.push(added));
                match first {
                    Some(at) => {
                        if let Some(other) = &packages[at].rust_version {
                            if !same(version.as_str(), other.as_str()) {
                                assert(declare_differently(
                                    packages@[at as int],
                                    packages@[i as int],
                                    members@,
                                ));
                                differ = true;
                            }
                        }
                    },
                    None => {
                        first = Some(i);
                    },
                }
            }
        }
        i += 1;
    }
    proof {
        assert(packages@.take(i as int) =~= packages@);
        if !differ && versions_differ(packages@, members@) {
            let (j, k) = choose|j: int, k: int|
                0 <= j < packages@.len() && 0 <= k < packages@.len() && declare_differently(
                    #[trigger] packages@[j],
                    #[trigger] packages@[k],
                    members@,
                );
            assert(first is Some);
            assert(!declare_differently(packages@[first->0 as int], packages@[j], members@));
            assert(!declare_differently(packages@[first->0 as int], packages@[k], members@));
        }
    }
    VersionReport { differ, lines: list }
}

/// What is said about the crates that are checked.
pub fn scope_report(crates: &CheckedCrates) -> (r: String)
    ensures
        r@ == in_cyan("\u{1f50d}"@) + " Affected crates: "@ + in_yellow(
            joined(texts(crates.affected@), ", "@),
        ),
{
    let mut r = cyan("\u{1f50d}");
    r.append(" Affected crates: ");
    r.append(yellow(join(crates.affected.as_slice(), ", ").as_str()).as_str());
    r
}

/// Clippy is run on every member of the workspace, affected or not.
pub proof fn clippy_checks_every_member(
    config: ConfigView,
    packages: Seq<Package>,
    members: Seq<String>,
    affected: Seq<Seq<char>>,
    all: Seq<Seq<char>>,
    name: Seq<char>,
)
    requires
        forall|name: Seq<char>| #[trigger] all.contains(name) <==> names_member(
            packages,
            members,
            name,
        ),
        names_member(packages, members, name),
    ensures
        exists|i: int|
            0 <= i < Check::Clippy.line(config, affected, all).len() - 1 && Check::Clippy.line(
                config,
                affected,
                all,
            )[i] == "-p"@ && #[trigger] Check::Clippy.line(config, affected, all)[i + 1] == name,
{
    assert(all.contains(name));
    let k = choose|k: int| 0 <= k < all.len() && all[k] == name;
    each_package_is_picked(all, k);
    let line = Check::Clippy.line(config, affected, all);
    let args = package_args(all);
    assert(line[2 + 2 * k] == args[2 * k]);
    assert(line[2 + 2 * k + 1] == args[2 * k + 1]);
}

/// A part of the checks.
#[derive(Clone, Copy, PartialEq, Eq, Structural)]
pub enum Check {
    Clippy,
    TestBuild,
    Tests,
    Shear,
    DocTests,
    Docs,
    /// Whether all crates declare the same Rust version. This one runs no command.
    RustVersion,
}

impl Check {
    /// Whether a configuration asks for the check.
    pub open spec fn is_enabled(self, config: ConfigView) -> bool {
        match self {
            Check::Clippy => config.clippy,
            Check::TestBuild => config.nextest,
            Check::Tests => config.nextest,
            Check::Shear => config.cargo_shear,
            Check::DocTests => config.doc_tests,
            Check::Docs => config.docs,
            Check::RustVersion => config.same_rust_version,
        }
    }

    /// The command of the check: clippy is run on all crates of the workspace, the others on
    /// those that are affected.
    pub open spec fn line(
        self,
        config: ConfigView,
        affected: Seq<Seq<char>>,
        all: Seq<Seq<char>>,
    ) -> Seq<Seq<char>> {
        match self {
            Check::Clippy => clippy_line(all, config.clippy_features),
            Check::TestBuild => test_build_line(affected),
            Check::Tests => test_line(affected),
            Check::Shear => shear_line(),
            Check::DocTests => doc_test_line(affected, config.doc_test_features),
            Check::Docs => doc_line(affected, config.docs_features),
            Check::RustVersion => seq![],
        }
    }

    /// The command of the check for these crates; no word of one for a check that runs none.
    pub fn command(self, config: &CaptainConfig, crates: &CheckedCrates) -> (r: Vec<String>)
        ensures
            texts(r@) == self.line(config@, texts(crates.affected@), texts(crates.all@)),
    {
        let affected = crates.affected.as_slice();
        match self {
            Check::Clippy => clippy_command(crates.all.as_slice(), &config.clippy_features),
            Check::TestBuild => test_build_command(affected),
            Check::Tests => test_command(affected),
            Check::Shear => shear_command(),
            Check::DocTests => doc_test_command(affected, &config.doc_test_features),
            Check::Docs => doc_command(affected, &config.docs_features),
            Check::RustVersion => {
                let none: Vec<String> = Vec::new();
                assert(texts(none@) =~= seq![]);
                none
            },
        }
    }

    /// What is added to the environment of the command.
    pub fn envs(self) -> (r: Vec<EnvVar>)
        ensures
            match self {
                Check::Docs => r.len() == 1 && r@[0].key@ == "RUSTDOCFLAGS"@ && r@[0].value@
                    == "-D warnings"@,
                _ => r.len() == 0,
            },
    {
        match self {
            Check::Docs => vec![
                EnvVar { key: "RUSTDOCFLAGS".to_owned(), value: "-D warnings".to_owned() },
            ],
            _ => Vec::new(),
        }
    }

    /// Whether the output of the command is shown if it runs for long.
    pub fn is_streamed(self) -> (r: bool)
        ensures
            r == (self == Check::Clippy || self == Check::TestBuild || self == Check::DocTests),
    {
        match self {
            Check::Clippy => true,
            Check::TestBuild => true,
            Check::DocTests => true,
            _ => false,
        }
    }
}

/// A step of the checks.
#[derive(Clone, Copy, PartialEq, Eq, Structural)]
pub enum Step {
    /// The check is run.
    Run(Check),
    /// The check is started and left to run.
    Start(Check),
    /// A check that was started is waited for.
    Await(Check),
}

/// Some steps, if they are wanted.
pub open spec fn steps_if(wanted: bool, steps: Seq<Step>) -> Seq<Step> {
    if wanted {
        steps
    } else {
        seq![]
    }
}

/// The steps of the checks that run a command: clippy first, since it finds most; then the tests
/// are built, and run while what follows goes on, as unused dependencies are looked for.
pub open spec fn command_steps(config: ConfigView) -> Seq<Step> {
    steps_if(config.clippy, seq![Step::Run(Check::Clippy)]) + steps_if(
        config.nextest,
        seq![Step::Run(Check::TestBuild), Step::Start(Check::Tests)],
    ) + steps_if(config.cargo_shear, seq![Step::Start(Check::Shear)]) + steps_if(
        config.doc_tests,
        seq![Step::Run(Check::DocTests)],
    ) + steps_if(config.docs, seq![Step::Run(Check::Docs)]) + steps_if(
        config.cargo_shear,
        seq![Step::Await(Check::Shear)],
    ) + steps_if(config.nextest, seq![Step::Await(Check::Tests)])
}

/// The steps of the checks: those that run a command, and then the Rust versions are compared.
pub open spec fn plan_of(config: ConfigView) -> Seq<Step> {
    command_steps(config) + steps_if(
        config.same_rust_version,
        seq![Step::Run(Check::RustVersion)],
    )
}

/// The steps of the checks that a configuration asks for.
pub fn plan(config: &CaptainConfig) -> (r: Vec<Step>)
    ensures
        r@ == plan_of(config@),
{
    let mut steps: Vec<Step> = Vec::new();
    if config.clippy {
        steps.push(Step::Run(Check::Clippy));
    }
    if config.nextest {
        steps.push(Step::Run(Check::TestBuild));
        steps.push(Step::Start(Check::Tests));
    }
    if config.cargo_shear {
        steps.push(Step::Start(Check::Shear));
    }
    if config.doc_tests {
        steps.push(Step::Run(Check::DocTests));
    }
    if config.docs {
        steps.push(Step::Run(Check::Docs));
    }
    if config.cargo_shear {
        steps.push(Step::Await(Check::Shear));
    }
    if config.nextest {
        steps.push(Step::Await(Check::Tests));
    }
    assert(steps@ =~= command_steps(config@));
    if config.same_rust_version {
        steps.push(Step::Run(Check::RustVersion));
    }
    assert(steps@ =~= plan_of(config@));
    steps
}

/// What came of a check.
pub enum RunResult {
    /// Its command ran.
    Ran(CommandOutput),
    /// Its command could not be run, and this is why.
    NotRun(String),
    /// The Rust versions were compared.
    Compared(VersionReport),
    /// Running it went wrong in captain itself.
    Crashed,
}

/// How a check turned out.
#[derive(Clone, Copy, PartialEq, Eq, Structural)]
pub enum Verdict {
    Passed,
    /// There was nothing to check, or nothing to check it with.
    Skipped,
    Failed,
}

impl Check {
    /// How the check turned out.
    pub open spec fn verdict_of(self, result: RunResult) -> Verdict {
        match result {
            RunResult::Ran(output) => if output.code == Some(0i32) {
                Verdict::Passed
            } else if self == Check::DocTests && nothing_to_doc_test(
                output.code,
                lossy_text(output.stderr@),
            ) {
                Verdict::Skipped
            } else if self == Check::Shear && says_missing(
                lossy_text(output.stderr@),
                "shear"@,
            ) {
                Verdict::Skipped
            } else {
                Verdict::Failed
            },
            RunResult::Compared(report) => if report.differ {
                Verdict::Failed
            } else {
                Verdict::Passed
            },
            _ => Verdict::Failed,
        }
    }

    /// How the check turned out.
    pub fn verdict(self, result: &RunResult) -> (r: Verdict)
        ensures
            r == self.verdict_of(*result),
    {
        let output = match result {
            RunResult::Ran(output) => output,
            RunResult::Compared(report) => {
                return if report.differ {
                    Verdict::Failed
                } else {
                    Verdict::Passed
                };
            },
            _ => {
                return Verdict::Failed;
            },
        };
        if let Some(code) = output.code {
            if code == 0 {
                return Verdict::Passed;
            }
        }
        match self {
            Check::DocTests => if should_skip_doc_tests(output.code, output.stderr.as_slice()) {
                Verdict::Skipped
            } else {
                Verdict::Failed
            },
            Check::Shear => if indicates_missing_cargo_subcommand(
                output.stderr.as_slice(),
                "shear",
            ) {
                Verdict::Skipped
            } else {
                Verdict::Failed
            },
            _ => Verdict::Failed,
        }
    }

    /// The advice that comes with a failure of the check, if its command ran.
    pub open spec fn failure_advice(self, command: Seq<Seq<char>>) -> Option<Seq<char>> {
        match self {
            Check::Clippy => Some(clippy_advice(command)),
            Check::Shear => Some(shear_advice()),
            _ => None,
        }
    }

    /// The advice that comes with a failure of the check, if its command could not be run.
    pub open spec fn error_advice(self, command: Seq<Seq<char>>) -> Option<Seq<char>> {
        match self {
            Check::Clippy => Some(clippy_advice(command)),
            _ => None,
        }
    }

    /// What is said about how the check turned out, line by line. `elapsed` is the time that it
    /// took.
    pub open spec fn conclusion(
        self,
        command: Seq<Seq<char>>,
        envs: Seq<EnvVar>,
        result: RunResult,
        elapsed: Seq<char>,
        color: ColorSupport,
    ) -> Seq<Seq<char>> {
        match self.verdict_of(result) {
            Verdict::Passed => seq![in_green("passed ("@ + elapsed + ")"@)],
            Verdict::Skipped => if self == Check::DocTests {
                seq![in_yellow("skipped (no lib)"@)]
            } else {
                seq![
                    in_yellow("skipped (not installed)"@),
                    "    "@ + in_cyan("\u{1f4a1}"@)
                        + " Install with: cargo binstall cargo-shear"@,
                ]
            },
            Verdict::Failed => match result {
                RunResult::Ran(output) => seq![in_red("failed ("@ + elapsed + ")"@)]
                    + failure_lines(command, envs, output, self.failure_advice(command), color),
                RunResult::NotRun(error) => seq![in_red("failed"@)] + error_lines(
                    command,
                    envs,
                    error@,
                    self.error_advice(command),
                ),
                RunResult::Compared(report) => seq![
                    in_red("failed ("@ + elapsed + ")"@),
                    "    These crates declare different Rust versions:"@,
                ] + texts(report.lines@),
                RunResult::Crashed => seq![in_red("failed (thread panicked)"@)],
            },
        }
    }

    /// What is said about how the check turned out, line by line.
    pub fn conclude(
        self,
        command: &Vec<String>,
        envs: &Vec<EnvVar>,
        result: &RunResult,
        elapsed: &str,
        color: ColorSupport,
    ) -> (r: Vec<String>)
        ensures
            texts(r@) == self.conclusion(texts(command@), envs@, *result, elapsed@, color),
    {
        let ghost wanted = self.conclusion(texts(command@), envs@, *result, elapsed@, color);
        match self.verdict(result) {
            Verdict::Passed => {
                let r = vec![green(timed("passed (", elapsed).as_str())];
                assert(texts(r@) =~= wanted);
                r
            },
            Verdict::Skipped => {
                if self.is_doc_tests() {
                    let r = vec![yellow("skipped (no lib)")];
                    assert(texts(r@) =~= wanted);
                    r
                } else {
                    let mut tip = "    ".to_owned();
                    tip.append(cyan("\u{1f4a1}").as_str());
                    tip.append(" Install with: cargo binstall cargo-shear");
                    let r = vec![yellow("skipped (not installed)"), tip];
                    assert(texts(r@) =~= wanted);
                    r
                }
            },
            Verdict::Failed => match result {
                RunResult::Ran(output) => {
                    let hint = match self {
                        Check::Clippy => Some(clippy_fix_hint(command.as_slice())),
                        Check::Shear => Some(shear_fix_hint()),
                        _ => None,
                    };
                    let mut r = vec![red(timed("failed (", elapsed).as_str())];
                    let mut report = failure_report(command.as_slice(), envs, output, hint, color);
                    let ghost lines = texts(report@);
                    r.append(&mut report);
                    assert(texts(r@) =~= seq![in_red("failed ("@ + elapsed@ + ")"@)] + lines);
                    r
                },
                RunResult::NotRun(error) => {
                    let hint = match self {
                        Check::Clippy => Some(clippy_fix_hint(command.as_slice())),
                        _ => None,
                    };
                    let mut r = vec![red("failed")];
                    let mut report = error_report(command.as_slice(), envs, error.as_str(), hint);
                    let ghost lines = texts(report@);
                    r.append(&mut report);
                    assert(texts(r@) =~= seq![in_red("failed"@)] + lines);
                    r
                },
                RunResult::Compared(report) => {
                    let mut r = vec![
                        red(timed("failed (", elapsed).as_str()),
                        "    These crates declare different Rust versions:".to_owned(),
                    ];
                    let ghost head = texts(r@);
                    assert(head =~= seq![
                        in_red("failed ("@ + elapsed@ + ")"@),
                        "    These crates declare different Rust versions:"@,
                    ]);
                    let mut i: usize = 0;
                    assert(texts(r@) =~= head + texts(report.lines@).take(0));
                    while i < report.lines.len()
                        invariant
                            i <= report.lines.len(),
                            texts(r@) == head + texts(report.lines@).take(i as int),
                        decreases report.lines.len() - i,
                    {
                        let ghost so_far = texts(r@);
                        r.push(report.lines[i].as_str().to_owned());
                        i += 1;
                        assert(texts(r@) =~= so_far.push(texts(report.lines@)[i - 1]));
                        assert(texts(r@) =~= head + texts(report.lines@).take(i as int));
                    }
                    assert(texts(report.lines@).take(i as int) =~= texts(report.lines@));
                    r
                },
                RunResult::Crashed => {
                    let r = vec![red("failed (thread panicked)")];
                    assert(texts(r@) =~= wanted);
                    r
                },
            },
        }
    }

    fn is_doc_tests(self) -> (r: bool)
        ensures
            r == (self == Check::DocTests),
    {
        match self {
            Check::DocTests => true,
            _ => false,
        }
    }
}

fn timed(start: &str, elapsed: &str) -> (r: String)
    ensures
        r@ == start@ + elapsed@ + ")"@,
{
    let mut r = start.to_owned();
    r.append(elapsed);
    r.append(")");
    r
}

impl Step {
    /// What is said when the step begins.
    pub open spec fn announcement(self) -> Seq<char> {
        let (icon, text) = match self {
            Step::Run(Check::Clippy) => (
                "\u{1f50d}"@,
                " Running clippy for all crates... "@,
            ),
            Step::Run(Check::TestBuild) => (
                "\u{1f528}"@,
                " Building tests for all affected crates... "@,
            ),
            Step::Run(Check::DocTests) => (
                "\u{1f4da}"@,
                " Running doc tests for all affected crates... "@,
            ),
            Step::Run(Check::Docs) => (
                "\u{1f4d6}"@,
                " Building docs for all affected crates... "@,
            ),
            Step::Run(Check::RustVersion) => (
                "\u{1f980}"@,
                " Comparing Rust versions of all crates... "@,
            ),
            Step::Start(Check::Tests) => ("\u{1f9ea}"@, " Running tests in background..."@),
            Step::Start(Check::Shear) => (
                "\u{2702}\u{fe0f}"@,
                " Running cargo-shear in background..."@,
            ),
            Step::Await(Check::Shear) => ("\u{2702}\u{fe0f}"@, " Waiting for cargo-shear... "@),
            Step::Await(Check::Tests) => ("\u{1f9ea}"@, " Waiting for test results... "@),
            _ => (""@, ""@),
        };
        "  "@ + in_cyan(icon) + text
    }

    /// What is said when the step begins; what came of the check follows on the same line unless
    /// it is only started. Only steps of a plan are announced.
    pub fn announce(self) -> (r: String)
        ensures
            r@ == self.announcement(),
    {
        let (icon, text) = match self {
            Step::Run(Check::Clippy) => (
                "\u{1f50d}",
                " Running clippy for all crates... ",
            ),
            Step::Run(Check::TestBuild) => (
                "\u{1f528}",
                " Building tests for all affected crates... ",
            ),
            Step::Run(Check::DocTests) => (
                "\u{1f4da}",
                " Running doc tests for all affected crates... ",
            ),
            Step::Run(Check::Docs) => (
                "\u{1f4d6}",
                " Building docs for all affected crates... ",
            ),
            Step::Run(Check::RustVersion) => (
                "\u{1f980}",
                " Comparing Rust versions of all crates... ",
            ),
            Step::Start(Check::Tests) => ("\u{1f9ea}", " Running tests in background..."),
            Step::Start(Check::Shear) => (
                "\u{2702}\u{fe0f}",
                " Running cargo-shear in background...",
            ),
            Step::Await(Check::Shear) => ("\u{2702}\u{fe0f}", " Waiting for cargo-shear... "),
            Step::Await(Check::Tests) => ("\u{1f9ea}", " Waiting for test results... "),
            _ => ("", ""),
        };
        let mut r = "  ".to_owned();
        r.append(cyan(icon).as_str());
        r.append(text);
        r
    }
}

/// How far the checks are.
pub struct PushRun {
    /// The steps.
    pub steps: Vec<Step>,
    /// How many of them are done.
    pub done: usize,
    /// Whether a check failed.
    pub failed: bool,
}

/// What comes next in the checks.
#[derive(Clone, Copy, PartialEq, Eq, Structural)]
pub enum Next {
    /// This step.
    Take(Step),
    /// Nothing: all checks passed or were skipped.
    Succeed,
    /// Nothing: a check failed.
    Fail,
}

impl PushRun {
    /// Not more steps are done than there are.
    pub open spec fn is_valid(self) -> bool {
        self.done <= self.steps.len()
    }

    /// What comes next.
    pub open spec fn next_of(self) -> Next {
        if self.failed {
            Next::Fail
        } else if self.done < self.steps.len() {
            Next::Take(self.steps@[self.done as int])
        } else {
            Next::Succeed
        }
    }

    /// The checks of a configuration, none of them done.
    pub fn new(config: &CaptainConfig) -> (r: Self)
        ensures
            r.is_valid(),
            r.steps@ == plan_of(config@),
            r.done == 0,
            !r.failed,
    {
        PushRun { steps: plan(config), done: 0, failed: false }
    }

    /// What comes next.
    pub fn next(&self) -> (r: Next)
        requires
            self.is_valid(),
        ensures
            r == self.next_of(),
    {
        if self.failed {
            Next::Fail
        } else if self.done < self.steps.len() {
            Next::Take(self.steps[self.done])
        } else {
            Next::Succeed
        }
    }

    /// The next step is done. `verdict` says how its check turned out, if that is known by now: a
    /// failure ends the checks.
    pub fn advance(&mut self, verdict: Option<Verdict>)
        requires
            old(self).is_valid(),
            old(self).next_of() is Take,
        ensures
            final(self).is_valid(),
            final(self).steps == old(self).steps,
            final(self).done == old(self).done + 1,
            final(self).failed == (verdict == Some(Verdict::Failed)),
    {
        self.done += 1;
        self.failed = match verdict {
            Some(Verdict::Failed) => true,
            _ => false,
        };
    }
}

/// Whether going through the steps ends well, given how each check turns out: no step that learns
/// how its check turned out learns of a failure.
pub open spec fn ends_well(steps: Seq<Step>, verdicts: spec_fn(Check) -> Verdict) -> bool {
    forall|i: int|
        0 <= i < steps.len() ==> match #[trigger] steps[i] {
            Step::Run(check) => verdicts(check) != Verdict::Failed,
            Step::Await(check) => verdicts(check) != Verdict::Failed,
            Step::Start(_) => true,
        }
}

/// The checks end well exactly if every check that the configuration asks for passes or is
/// skipped.
pub proof fn push_is_allowed_if_all_pass(config: ConfigView, verdicts: spec_fn(Check) -> Verdict)
    ensures
        ends_well(plan_of(config), verdicts) <==> forall|check: Check|
            #[trigger] check.is_enabled(config) ==> verdicts(check) != Verdict::Failed,
{
    let steps = plan_of(config);
    if ends_well(steps, verdicts) {
        assert forall|check: Check| #[trigger] check.is_enabled(config) implies verdicts(check)
            != Verdict::Failed by {
            let i = step_of(config, check);
            assert(steps[i] == Step::Run(check) || steps[i] == Step::Await(check));
        }
    }
    if forall|check: Check|
        #[trigger] check.is_enabled(config) ==> verdicts(check) != Verdict::Failed {
        assert forall|i: int| 0 <= i < steps.len() implies match #[trigger] steps[i] {
            Step::Run(check) => verdicts(check) != Verdict::Failed,
            Step::Await(check) => verdicts(check) != Verdict::Failed,
            Step::Start(_) => true,
        } by {
            steps_are_enabled(config, i);
        }
    }
}

/// Where it is learnt how a check turned out.
proof fn step_of(config: ConfigView, check: Check) -> (i: int)
    requires
        check.is_enabled(config),
    ensures
        0 <= i < plan_of(config).len(),
        plan_of(config)[i] == Step::Run(check) || plan_of(config)[i] == Step::Await(check),
        check != Check::RustVersion ==> i < command_steps(config).len(),
{
    if check == Check::RustVersion {
        command_steps(config).len() as int
    } else {
        let i = command_step_of(config, check);
        assert(plan_of(config)[i] == command_steps(config)[i]);
        i
    }
}

proof fn command_step_of(config: ConfigView, check: Check) -> (i: int)
    requires
        check.is_enabled(config),
        check != Check::RustVersion,
    ensures
        0 <= i < command_steps(config).len(),
        command_steps(config)[i] == Step::Run(check) || command_steps(config)[i] == Step::Await(
            check,
        ),
{
    let clippy: int = if config.clippy { 1 } else { 0 };
    let tests: int = if config.nextest { 2 } else { 0 };
    let shear: int = if config.cargo_shear { 1 } else { 0 };
    let doc_tests: int = if config.doc_tests { 1 } else { 0 };
    let docs: int = if config.docs { 1 } else { 0 };
    match check {
        Check::Clippy => 0,
        Check::TestBuild => clippy,
        Check::Tests => clippy + tests + shear + doc_tests + docs + shear,
        Check::Shear => clippy + tests + shear + doc_tests + docs,
        Check::DocTests => clippy + tests + shear,
        _ => clippy + tests + shear + doc_tests,
    }
}

/// A push is not allowed if two members of the workspace declare different Rust versions, unless the
/// configuration turns that check off: what is found by comparing them is its verdict.
pub proof fn different_versions_stop_a_push(
    config: ConfigView,
    packages: Seq<Package>,
    members: Seq<String>,
    report: VersionReport,
    verdicts: spec_fn(Check) -> Verdict,
)
    requires
        config.same_rust_version,
        versions_differ(packages, members),
        report.differ == versions_differ(packages, members),
        verdicts(Check::RustVersion) == Check::RustVersion.verdict_of(RunResult::Compared(report)),
    ensures
        !ends_well(plan_of(config), verdicts),
{
    push_is_allowed_if_all_pass(config, verdicts);
    assert(Check::RustVersion.is_enabled(config));
}

/// The check that a step belongs to.
pub open spec fn check_of(step: Step) -> Check {
    match step {
        Step::Run(check) => check,
        Step::Start(check) => check,
        Step::Await(check) => check,
    }
}

/// Every step belongs to a check that the configuration asks for: what is turned off is not run.
pub proof fn steps_are_enabled(config: ConfigView, i: int)
    requires
        0 <= i < plan_of(config).len(),
    ensures
        check_of(plan_of(config)[i]).is_enabled(config),
{
    if i < command_steps(config).len() {
        command_steps_are_enabled(config, i);
        assert(plan_of(config)[i] == command_steps(config)[i]);
    }
}

proof fn command_steps_are_enabled(config: ConfigView, i: int)
    requires
        0 <= i < command_steps(config).len(),
    ensures
        check_of(command_steps(config)[i]).is_enabled(config),
{
}

/// What is waited for was started before, and what is started is waited for later. Tests are
/// started only after they were built.
pub proof fn started_checks_are_awaited(config: ConfigView, i: int)
    requires
        0 <= i < plan_of(config).len(),
    ensures
        ({
            let steps = plan_of(config);
            match steps[i] {
                Step::Run(_) => true,
                Step::Start(check) => {
                    &&& exists|j: int| i < j < steps.len() && #[trigger] steps[j] == Step::Await(check)
                    &&& check == Check::Tests ==> i > 0 && steps[i - 1] == Step::Run(
                        Check::TestBuild,
                    )
                },
                Step::Await(check) => exists|j: int|
                    0 <= j < i && #[trigger] steps[j] == Step::Start(check),
            }
        }),
{
    let steps = plan_of(config);
    let commands = command_steps(config);
    if i < commands.len() {
        assert(steps[i] == commands[i]);
        match commands[i] {
            Step::Run(_) => {},
            Step::Start(check) => {
                let j = start_has_await(config, i, check);
                assert(steps[j] == commands[j]);
                if check == Check::Tests {
                    assert(steps[i - 1] == commands[i - 1]);
                }
            },
            Step::Await(check) => {
                let j = await_has_start(config, i, check);
                assert(steps[j] == commands[j]);
            },
        }
    }
}

proof fn start_has_await(config: ConfigView, i: int, check: Check) -> (j: int)
    requires
        0 <= i < command_steps(config).len(),
        command_steps(config)[i] == Step::Start(check),
    ensures
        i < j < command_steps(config).len(),
        command_steps(config)[j] == Step::Await(check),
        check == Check::Tests ==> i > 0 && command_steps(config)[i - 1] == Step::Run(
            Check::TestBuild,
        ),
{
    start_stands_early(config, i, check);
    command_step_of(config, check)
}

proof fn await_has_start(config: ConfigView, i: int, check: Check) -> (j: int)
    requires
        0 <= i < command_steps(config).len(),
        command_steps(config)[i] == Step::Await(check),
    ensures
        0 <= j < i,
        command_steps(config)[j] == Step::Start(check),
{
    let clippy: int = if config.clippy { 1 } else { 0 };
    let tests: int = if config.nextest { 2 } else { 0 };
    await_stands_late(config, i, check);
    if check == Check::Tests { clippy + 1 } else { clippy + tests }
}

proof fn start_stands_early(config: ConfigView, i: int, check: Check)
    requires
        0 <= i < command_steps(config).len(),
        command_steps(config)[i] == Step::Start(check),
    ensures
        ({
            let clippy: int = if config.clippy { 1 } else { 0 };
            let tests: int = if config.nextest { 2 } else { 0 };
            ||| check == Check::Tests && config.nextest && i == clippy + 1
            ||| check == Check::Shear && config.cargo_shear && i == clippy + tests
        }),
{
}

proof fn await_stands_late(config: ConfigView, i: int, check: Check)
    requires
        0 <= i < command_steps(config).len(),
        command_steps(config)[i] == Step::Await(check),
    ensures
        ({
            let clippy: int = if config.clippy { 1 } else { 0 };
            let tests: int = if config.nextest { 2 } else { 0 };
            ||| check == Check::Tests && config.nextest && i > clippy + 1
            ||| check == Check::Shear && config.cargo_shear && i > clippy + tests
        }),
{
}

/// What is learnt in a step about how its check turned out.
pub open spec fn learnt(step: Step, verdicts: spec_fn(Check) -> Verdict) -> Option<Verdict> {
    match step {
        Step::Run(check) => Some(verdicts(check)),
        Step::Await(check) => Some(verdicts(check)),
        Step::Start(_) => None,
    }
}

impl PushRun {
    /// Whether the run got where it is by being told how the checks turned out: no step that is
    /// done learnt of a failure, but the last one if the run failed.
    pub open spec fn follows(self, verdicts: spec_fn(Check) -> Verdict) -> bool {
        &&& self.is_valid()
        &&& forall|i: int|
            0 <= i < self.done ==> (learnt(#[trigger] self.steps@[i], verdicts) == Some(
                Verdict::Failed,
            )) == (self.failed && i == self.done - 1)
        &&& self.failed ==> self.done > 0
    }
}

/// A run that is told how the checks turn out stays one, and where it stops it has gone through all
/// checks with none failed, or one has failed.
pub proof fn run_ends_as_checks_do(
    before: PushRun,
    after: PushRun,
    verdicts: spec_fn(Check) -> Verdict,
)
    requires
        before.follows(verdicts),
    ensures
        before.next_of() matches Next::Take(step) && after.is_valid() && after.steps == before.steps
            && after.done == before.done + 1 && after.failed == (learnt(step, verdicts) == Some(
            Verdict::Failed,
        )) ==> after.follows(verdicts),
        before.next_of() == Next::Succeed ==> ends_well(before.steps@, verdicts),
        before.next_of() == Next::Fail ==> !ends_well(before.steps@, verdicts),
{
    if before.next_of() == Next::Fail {
        let last = before.done - 1;
        assert(learnt(before.steps@[last], verdicts) == Some(Verdict::Failed));
    }
    if before.next_of() == Next::Succeed {
        assert forall|i: int| 0 <= i < before.steps@.len() implies match #[trigger] before.steps@[i] {
            Step::Run(check) => verdicts(check) != Verdict::Failed,
            Step::Await(check) => verdicts(check) != Verdict::Failed,
            Step::Start(_) => true,
        } by {
            assert(learnt(before.steps@[i], verdicts) != Some(Verdict::Failed));
        }
    }
}

/// The directory that is reached from a path by taking the parent `n` times, if there are so many.
pub open spec fn ancestor(path: Seq<char>, n: nat) -> Option<Seq<char>>
    decreases n,
{
    if n == 0 {
        Some(path)
    } else {
        match ancestor(path, (n - 1) as nat) {
            Some(below) => parent_of(below),
            None => None,
        }
    }
}

/// Whether the manifest of a package stands in a directory.
pub open spec fn stands_in(package: Package, dir: Seq<char>) -> bool {
    parent_of(package.manifest_path@) == Some(dir)
}

proof fn ancestor_of_parent(path: Seq<char>, parent: Seq<char>, n: nat)
    requires
        parent_of(path) == Some(parent),
    ensures
        ancestor(path, n + 1) == ancestor(parent, n),
    decreases n,
{
    reveal_with_fuel(ancestor, 2);
    if n > 0 {
        ancestor_of_parent(path, parent, (n - 1) as nat);
    }
}

proof fn no_package_no_crate(packages: Seq<Package>, dir: Seq<char>)
    requires
        forall|j: int| 0 <= j < packages.len() ==> !stands_in(#[trigger] packages[j], dir),
    ensures
        crate_in(packages, dir) is None,
    decreases packages.len(),
{
    if packages.len() > 0 {
        let rest = packages.drop_last();
        assert(!stands_in(packages[packages.len() - 1], dir));
        assert forall|j: int| 0 <= j < rest.len() implies !stands_in(#[trigger] rest[j], dir) by {
            assert(rest[j] == packages[j]);
        }
        no_package_no_crate(rest, dir);
    }
}

proof fn last_package_is_crate(packages: Seq<Package>, dir: Seq<char>, i: int)
    requires
        0 <= i < packages.len(),
        stands_in(packages[i], dir),
        forall|j: int| i < j < packages.len() ==> !stands_in(#[trigger] packages[j], dir),
    ensures
        crate_in(packages, dir) == Some(packages[i].name@),
    decreases packages.len(),
{
    let last = packages.len() - 1;
    if i < last {
        let rest = packages.drop_last();
        assert(!stands_in(packages[last], dir));
        assert forall|j: int| i < j < rest.len() implies !stands_in(#[trigger] rest[j], dir) by {
            assert(rest[j] == packages[j]);
        }
        last_package_is_crate(rest, dir, i);
    }
}

/// A path belongs to the crate of the nearest directory with a package, the path itself and then
/// its parents in turn, whatever these are called: to that of the last package in it.
pub proof fn nearest_crate_is_found(packages: Seq<Package>, path: Seq<char>, n: nat, i: int)
    requires
        0 <= i < packages.len(),
        ancestor(path, n) matches Some(dir) && stands_in(packages[i], dir),
        forall|j: int|
            i < j < packages.len() ==> !stands_in(#[trigger] packages[j], ancestor(path, n)->0),
        forall|m: nat, j: int|
            m < n && 0 <= j < packages.len() ==> !stands_in(
                #[trigger] packages[j],
                (#[trigger] ancestor(path, m))->0,
            ),
    ensures
        crate_of(packages, path) == Some(packages[i].name@),
    decreases n,
{
    let dir = ancestor(path, n)->0;
    if n == 0 {
        last_package_is_crate(packages, path, i);
    } else {
        assert(ancestor(path, 0) == Some(path));
        no_package_no_crate(packages, path);
        ancestors_reach_parent(path, n);
        let parent = parent_of(path)->0;
        ancestor_of_parent(path, parent, (n - 1) as nat);
        assert forall|m: nat, j: int| m < n - 1 && 0 <= j < packages.len() implies !stands_in(
            #[trigger] packages[j],
            (#[trigger] ancestor(parent, m))->0,
        ) by {
            ancestor_of_parent(path, parent, m);
            assert(!stands_in(packages[j], ancestor(path, m + 1)->0));
        }
        nearest_crate_is_found(packages, parent, (n - 1) as nat, i);
        parent_is_shorter(path);
    }
}

proof fn ancestors_reach_parent(path: Seq<char>, n: nat)
    requires
        n > 0,
        ancestor(path, n) is Some,
    ensures
        parent_of(path) is Some,
    decreases n,
{
    reveal_with_fuel(ancestor, 2);
    if n > 1 {
        ancestors_reach_parent(path, (n - 1) as nat);
    }
}

/// A path belongs to no crate only if neither it nor any of its parents is the directory of a
/// package.
pub proof fn only_paths_outside_have_no_crate(packages: Seq<Package>, path: Seq<char>)
    ensures
        crate_of(packages, path) is None <==> forall|n: nat, i: int|
            0 <= i < packages.len() && (#[trigger] ancestor(path, n)) is Some ==> !stands_in(
                #[trigger] packages[i],
                ancestor(path, n)->0,
            ),
    decreases path.len(),
{
    if crate_of(packages, path) is None {
        no_crate_below(packages, path);
    } else {
        let (n, i) = crate_has_ancestor(packages, path);
        assert(ancestor(path, n) is Some && stands_in(packages[i], ancestor(path, n)->0));
    }
}

proof fn no_crate_below(packages: Seq<Package>, path: Seq<char>)
    requires
        crate_of(packages, path) is None,
    ensures
        forall|n: nat, i: int|
            0 <= i < packages.len() && (#[trigger] ancestor(path, n)) is Some ==> !stands_in(
                #[trigger] packages[i],
                ancestor(path, n)->0,
            ),
    decreases path.len(),
{
    parent_is_shorter(path);
    if let Some(parent) = parent_of(path) {
        no_crate_below(packages, parent);
    }
    assert forall|n: nat, i: int|
        0 <= i < packages.len() && (#[trigger] ancestor(path, n)) is Some implies !stands_in(
        #[trigger] packages[i],
        ancestor(path, n)->0,
    ) by {
        if n == 0 {
            if stands_in(packages[i], path) {
                some_package_some_crate(packages, path, i);
            }
        } else {
            ancestors_reach_parent(path, n);
            let parent = parent_of(path)->0;
            ancestor_of_parent(path, parent, (n - 1) as nat);
            assert(ancestor(parent, (n - 1) as nat) is Some);
        }
    }
}

proof fn some_package_some_crate(packages: Seq<Package>, dir: Seq<char>, i: int)
    requires
        0 <= i < packages.len(),
        stands_in(packages[i], dir),
    ensures
        crate_in(packages, dir) is Some,
    decreases packages.len(),
{
    if i < packages.len() - 1 {
        some_package_some_crate(packages.drop_last(), dir, i);
    }
}

proof fn crate_has_ancestor(packages: Seq<Package>, path: Seq<char>) -> (r: (nat, int))
    requires
        crate_of(packages, path) is Some,
    ensures
        0 <= r.1 < packages.len(),
        ancestor(path, r.0) is Some,
        stands_in(packages[r.1], ancestor(path, r.0)->0),
    decreases path.len(),
{
    if crate_in(packages, path) is Some {
        crate_in_has_package(packages, path);
        let i = choose|i: int|
            0 <= i < packages.len() && parent_of((#[trigger] packages[i]).manifest_path@) == Some(path)
                && Some(packages[i].name@) == crate_in(packages, path);
        (0, i)
    } else {
        parent_is_shorter(path);
        let parent = parent_of(path)->0;
        let (n, i) = crate_has_ancestor(packages, parent);
        ancestor_of_parent(path, parent, n);
        (n + 1, i)
    }
}

/// A crate is checked as an affected one exactly if a changed file belongs to it and no package of
/// its name is outside the workspace, and no crate is affected exactly if no file belongs to one.
pub proof fn affected_members_are_checked(
    packages: Seq<Package>,
    members: Seq<String>,
    root: Seq<char>,
    files: Seq<Seq<char>>,
    name: Seq<char>,
)
    ensures
        is_checked(packages, members, root, files, name) <==> {
            &&& exists|i: int|
                0 <= i < files.len() && crate_of(packages, joined_path(root, #[trigger] files[i]))
                    == Some(name)
            &&& forall|j: int|
                0 <= j < packages.len() && (#[trigger] packages[j]).name@ == name ==> exists|k: int|
                    0 <= k < members.len() && (#[trigger] members[k])@ == packages[j].id@
        },
        none_affected(packages, root, files) <==> forall|i: int|
            0 <= i < files.len() ==> crate_of(packages, joined_path(root, #[trigger] files[i])) is None,
{
    assert forall|j: int| 0 <= j < packages.len() implies is_member(#[trigger] packages[j], members)
        <==> exists|k: int| 0 <= k < members.len() && (#[trigger] members[k])@ == packages[j].id@ by {
        member_by_id(packages[j], members);
    }
    if is_affected(packages, root, files, name) {
        let i = choose|i: int|
            0 <= i < files.len() && crate_of_file(packages, root, #[trigger] files[i]) == Some(name);
        assert(crate_of(packages, joined_path(root, files[i])) == Some(name));
    }
    if exists|i: int|
        0 <= i < files.len() && crate_of(packages, joined_path(root, #[trigger] files[i])) == Some(
            name,
        ) {
        let i = choose|i: int|
            0 <= i < files.len() && crate_of(packages, joined_path(root, #[trigger] files[i]))
                == Some(name);
        assert(crate_of_file(packages, root, files[i]) == Some(name));
    }
    assert forall|i: int| 0 <= i < files.len() implies crate_of_file(
        packages,
        root,
        #[trigger] files[i],
    ) == crate_of(packages, joined_path(root, files[i])) by {}
}

proof fn member_by_id(package: Package, members: Seq<String>)
    ensures
        is_member(package, members) <==> exists|k: int|
            0 <= k < members.len() && (#[trigger] members[k])@ == package.id@,
{
    if is_member(package, members) {
        let k = choose|k: int| 0 <= k < texts(members).len() && texts(members)[k] == package.id@;
        assert(members[k]@ == package.id@);
    }
    if exists|k: int| 0 <= k < members.len() && (#[trigger] members[k])@ == package.id@ {
        let k = choose|k: int| 0 <= k < members.len() && (#[trigger] members[k])@ == package.id@;
        assert(texts(members)[k] == package.id@);
    }
}

/// The members of the workspace are the packages whose id is among those of the members, by their
/// names.
pub proof fn members_are_named_by_id(packages: Seq<Package>, members: Seq<String>, name: Seq<char>)
    ensures
        names_member(packages, members, name) <==> exists|i: int, k: int|
            0 <= i < packages.len() && 0 <= k < members.len() && (#[trigger] packages[i]).name@
                == name && (#[trigger] members[k])@ == packages[i].id@,
{
    if names_member(packages, members, name) {
        let i = choose|i: int|
            0 <= i < packages.len() && (#[trigger] packages[i]).name@ == name && is_member(
                packages[i],
                members,
            );
        member_by_id(packages[i], members);
        let k = choose|k: int| 0 <= k < members.len() && (#[trigger] members[k])@ == packages[i].id@;
        assert(packages[i].name@ == name && members[k]@ == packages[i].id@);
    }
    if exists|i: int, k: int|
        0 <= i < packages.len() && 0 <= k < members.len() && (#[trigger] packages[i]).name@ == name
            && (#[trigger] members[k])@ == packages[i].id@ {
        let (i, k) = choose|i: int, k: int|
            0 <= i < packages.len() && 0 <= k < members.len() && (#[trigger] packages[i]).name@
                == name && (#[trigger] members[k])@ == packages[i].id@;
        member_by_id(packages[i], members);
    }
}

/// A command that ran passes exactly if its exit code is zero. One that ran and did not pass fails,
/// but for documentation tests that found nothing to test and an unused-dependency check that is not
/// installed, which are skipped. One that could not be run fails.
pub proof fn only_success_passes(check: Check, output: CommandOutput)
    ensures
        check.verdict_of(RunResult::Ran(output)) == Verdict::Passed <==> output.code == Some(0i32),
        output.code != Some(0i32) && check != Check::DocTests && check != Check::Shear
            ==> check.verdict_of(RunResult::Ran(output)) == Verdict::Failed,
        output.code != Some(0i32) && output.code != Some(101i32) && check == Check::DocTests
            ==> check.verdict_of(RunResult::Ran(output)) == Verdict::Failed,
        check == Check::DocTests && output.code == Some(101i32) ==> (check.verdict_of(
            RunResult::Ran(output),
        ) == Verdict::Skipped <==> {
            ||| occurs(lossy_text(output.stderr@), "there is nothing to test"@)
            ||| occurs(lossy_text(output.stderr@), "found no library targets to test"@)
            ||| occurs(lossy_text(output.stderr@), "found no binaries to test"@)
            ||| occurs(lossy_text(output.stderr@), "no library targets found"@)
        }),
        check == Check::Shear && output.code != Some(0i32) ==> (check.verdict_of(
            RunResult::Ran(output),
        ) == Verdict::Skipped <==> {
            let said = lower_text(lossy_text(output.stderr@));
            ||| occurs(said, lower_text("no such command: `"@ + "shear"@ + "`"@))
            ||| occurs(said, lower_text("no such command: '"@ + "shear"@ + "'"@))
            ||| occurs(said, lower_text("no such subcommand: `"@ + "shear"@ + "`"@))
            ||| occurs(said, lower_text("no such subcommand: '"@ + "shear"@ + "'"@))
        }),
{
    let stderr = lossy_text(output.stderr@);
    let said = lower_text(stderr);
    let patterns = missing_patterns("shear"@);
    assert(patterns[0] == "no such command: `"@ + "shear"@ + "`"@);
    assert(patterns[1] == "no such command: '"@ + "shear"@ + "'"@);
    assert(patterns[2] == "no such subcommand: `"@ + "shear"@ + "`"@);
    assert(patterns[3] == "no such subcommand: '"@ + "shear"@ + "'"@);
    if says_missing(stderr, "shear"@) {
        let i = choose|i: int|
            0 <= i < patterns.len() && occurs(said, lower_text(#[trigger] patterns[i]));
        assert(i == 0 || i == 1 || i == 2 || i == 3);
    }
}

/// A check that could not be run, or that captain itself could not see through, fails, and versions
/// that were compared pass exactly if they do not differ.
pub proof fn what_did_not_run_fails(check: Check, error: String, report: VersionReport)
    ensures
        check.verdict_of(RunResult::NotRun(error)) == Verdict::Failed,
        check.verdict_of(RunResult::Crashed) == Verdict::Failed,
        check.verdict_of(RunResult::Compared(report)) == (if report.differ {
            Verdict::Failed
        } else {
            Verdict::Passed
        }),
{
}

/// Versions differ exactly if two members, told by their ids, declare two that are not the same.
pub proof fn versions_differ_by_two(packages: Seq<Package>, members: Seq<String>)
    ensures
        versions_differ(packages, members) <==> exists|i: int, j: int|
            {
                &&& 0 <= i < packages.len() && 0 <= j < packages.len()
                &&& texts(members).contains((#[trigger] packages[i]).id@)
                &&& texts(members).contains((#[trigger] packages[j]).id@)
                &&& packages[i].rust_version matches Some(first)
                &&& packages[j].rust_version matches Some(second)
                &&& first@ != second@
            },
{
    if versions_differ(packages, members) {
        let (i, j) = choose|i: int, j: int|
            0 <= i < packages.len() && 0 <= j < packages.len() && declare_differently(
                #[trigger] packages[i],
                #[trigger] packages[j],
                members,
            );
        assert(texts(members).contains(packages[i].id@) && texts(members).contains(packages[j].id@));
    }
    if exists|i: int, j: int|
        {
            &&& 0 <= i < packages.len() && 0 <= j < packages.len()
            &&& texts(members).contains((#[trigger] packages[i]).id@)
            &&& texts(members).contains((#[trigger] packages[j]).id@)
            &&& packages[i].rust_version matches Some(first)
            &&& packages[j].rust_version matches Some(second)
            &&& first@ != second@
        } {
        let (i, j) = choose|i: int, j: int|
            {
                &&& 0 <= i < packages.len() && 0 <= j < packages.len()
                &&& texts(members).contains((#[trigger] packages[i]).id@)
                &&& texts(members).contains((#[trigger] packages[j]).id@)
                &&& packages[i].rust_version matches Some(first)
                &&& packages[j].rust_version matches Some(second)
                &&& first@ != second@
            };
        assert(declare_differently(packages[i], packages[j], members));
    }
}

/// Every member that declares a Rust version is in the list of them, by name and version, and no
/// line of the list is about anything else.
pub proof fn declared_versions_are_listed(
    packages: Seq<Package>,
    members: Seq<String>,
    line: Seq<char>,
)
    ensures
        version_list(packages, members).contains(line) <==> exists|i: int|
            {
                &&& 0 <= i < packages.len()
                &&& texts(members).contains((#[trigger] packages[i]).id@)
                &&& packages[i].rust_version matches Some(version)
                &&& line == "    "@ + packages[i].name@ + ": rust-version = "@ + version@
            },
    decreases packages.len(),
{
    if packages.len() > 0 {
        let front = packages.drop_last();
        let last = packages.len() - 1;
        let before = version_list(front, members);
        declared_versions_are_listed(front, members, line);
        if version_list(packages, members).contains(line) && !before.contains(line) {
            let k = choose|k: int|
                0 <= k < version_list(packages, members).len() && version_list(packages, members)[k]
                    == line;
            if k < before.len() {
                assert(before[k] == line);
            }
            assert(packages[last] == packages.last());
        }
        if before.contains(line) {
            let k = choose|k: int| 0 <= k < before.len() && before[k] == line;
            assert(version_list(packages, members)[k] == line);
            let i = choose|i: int|
                {
                    &&& 0 <= i < front.len()
                    &&& texts(members).contains((#[trigger] front[i]).id@)
                    &&& front[i].rust_version matches Some(version)
                    &&& line == "    "@ + front[i].name@ + ": rust-version = "@ + version@
                };
            assert(packages[i] == front[i]);
        }
        if exists|i: int|
            {
                &&& 0 <= i < packages.len()
                &&& texts(members).contains((#[trigger] packages[i]).id@)
                &&& packages[i].rust_version matches Some(version)
                &&& line == "    "@ + packages[i].name@ + ": rust-version = "@ + version@
            } {
            let i = choose|i: int|
                {
                    &&& 0 <= i < packages.len()
                    &&& texts(members).contains((#[trigger] packages[i]).id@)
                    &&& packages[i].rust_version matches Some(version)
                    &&& line == "    "@ + packages[i].name@ + ": rust-version = "@ + version@
                };
            if i < last {
                assert(front[i] == packages[i]);
            } else {
                let all = version_list(packages, members);
                assert(all[all.len() - 1] == line);
            }
        }
    }
}

/// The place of a step in the order of all steps: clippy, building the tests, starting them and the
/// search for unused dependencies, documentation tests, documentation, waiting for the search and
/// for the tests, and comparing the Rust versions. Others have no place.
pub open spec fn place(step: Step) -> Option<int> {
    match step {
        Step::Run(Check::Clippy) => Some(0),
        Step::Run(Check::TestBuild) => Some(1),
        Step::Start(Check::Tests) => Some(2),
        Step::Start(Check::Shear) => Some(3),
        Step::Run(Check::DocTests) => Some(4),
        Step::Run(Check::Docs) => Some(5),
        Step::Await(Check::Shear) => Some(6),
        Step::Await(Check::Tests) => Some(7),
        Step::Run(Check::RustVersion) => Some(8),
        _ => None,
    }
}

/// Every step has a place, and the steps stand in the order of their places, so none comes twice.
pub proof fn steps_stand_in_order(config: ConfigView)
    ensures
        forall|i: int|
            0 <= i < plan_of(config).len() ==> place(#[trigger] plan_of(config)[i]) is Some,
        forall|i: int, j: int|
            0 <= i < j < plan_of(config).len() ==> place(#[trigger] plan_of(config)[i])->0 < place(
                #[trigger] plan_of(config)[j],
            )->0,
{
    let steps = plan_of(config);
    let commands = command_steps(config);
    command_steps_stand_in_order(config);
    assert forall|i: int| 0 <= i < steps.len() implies place(#[trigger] steps[i]) is Some by {
        if i < commands.len() {
            assert(steps[i] == commands[i]);
        }
    }
    assert forall|i: int, j: int| 0 <= i < j < steps.len() implies place(#[trigger] steps[i])->0
        < place(#[trigger] steps[j])->0 by {
        assert(steps[i] == commands[i]);
        if j < commands.len() {
            assert(steps[j] == commands[j]);
        }
    }
}

proof fn command_steps_stand_in_order(config: ConfigView)
    ensures
        forall|i: int|
            0 <= i < command_steps(config).len() ==> place(#[trigger] command_steps(config)[i]) is Some
                && place(command_steps(config)[i])->0 < 8,
        forall|i: int, j: int|
            0 <= i < j < command_steps(config).len() ==> place(
                #[trigger] command_steps(config)[i],
            )->0 < place(#[trigger] command_steps(config)[j])->0,
{
    let first = steps_if(config.clippy, seq![Step::Run(Check::Clippy)]);
    let second = steps_if(
        config.nextest,
        seq![Step::Run(Check::TestBuild), Step::Start(Check::Tests)],
    );
    let third = steps_if(config.cargo_shear, seq![Step::Start(Check::Shear)]);
    let fourth = steps_if(config.doc_tests, seq![Step::Run(Check::DocTests)]);
    let fifth = steps_if(config.docs, seq![Step::Run(Check::Docs)]);
    let sixth = steps_if(config.cargo_shear, seq![Step::Await(Check::Shear)]);
    let seventh = steps_if(config.nextest, seq![Step::Await(Check::Tests)]);
    order_of_both(first, second, 0, 1, 3);
    order_of_both(first + second, third, 0, 3, 4);
    order_of_both(first + second + third, fourth, 0, 4, 5);
    order_of_both(first + second + third + fourth, fifth, 0, 5, 6);
    order_of_both(first + second + third + fourth + fifth, sixth, 0, 6, 7);
    order_of_both(first + second + third + fourth + fifth + sixth, seventh, 0, 7, 8);
}

/// Whether steps stand in the order of their places, which are from `from` up to below `to`.
spec fn ordered_within(steps: Seq<Step>, from: int, to: int) -> bool {
    &&& forall|i: int|
        0 <= i < steps.len() ==> place(#[trigger] steps[i]) is Some && from <= place(steps[i])->0 < to
    &&& forall|i: int, j: int|
        0 <= i < j < steps.len() ==> place(#[trigger] steps[i])->0 < place(#[trigger] steps[j])->0
}

proof fn order_of_both(a: Seq<Step>, b: Seq<Step>, from: int, middle: int, to: int)
    requires
        ordered_within(a, from, middle),
        ordered_within(b, middle, to),
        from <= middle <= to,
    ensures
        ordered_within(a + b, from, to),
{
    let both = a + b;
    assert forall|i: int| 0 <= i < both.len() implies place(#[trigger] both[i]) is Some && from
        <= place(both[i])->0 < to by {
        if i < a.len() {
            assert(both[i] == a[i]);
        } else {
            assert(both[i] == b[i - a.len()]);
        }
    }
    assert forall|i: int, j: int| 0 <= i < j < both.len() implies place(#[trigger] both[i])->0
        < place(#[trigger] both[j])->0 by {
        if i < a.len() {
            assert(both[i] == a[i]);
        } else {
            assert(both[i] == b[i - a.len()]);
        }
        if j < a.len() {
            assert(both[j] == a[j]);
        } else {
            assert(both[j] == b[j - a.len()]);
        }
    }
}

/// Each check runs exactly if its option is on: clippy and documentation by themselves, the tests
/// after they are built, and tests and the search for unused dependencies in the background, where
/// they are waited for.
pub proof fn options_turn_checks_on(config: ConfigView)
    ensures
        plan_of(config).contains(Step::Run(Check::Clippy)) <==> config.clippy,
        plan_of(config).contains(Step::Run(Check::TestBuild)) <==> config.nextest,
        plan_of(config).contains(Step::Start(Check::Tests)) <==> config.nextest,
        plan_of(config).contains(Step::Await(Check::Tests)) <==> config.nextest,
        plan_of(config).contains(Step::Start(Check::Shear)) <==> config.cargo_shear,
        plan_of(config).contains(Step::Await(Check::Shear)) <==> config.cargo_shear,
        plan_of(config).contains(Step::Run(Check::DocTests)) <==> config.doc_tests,
        plan_of(config).contains(Step::Run(Check::Docs)) <==> config.docs,
        plan_of(config).contains(Step::Run(Check::RustVersion)) <==> config.same_rust_version,
{
    step_is_planned(config, Step::Run(Check::Clippy));
    step_is_planned(config, Step::Run(Check::TestBuild));
    step_is_planned(config, Step::Start(Check::Tests));
    step_is_planned(config, Step::Await(Check::Tests));
    step_is_planned(config, Step::Start(Check::Shear));
    step_is_planned(config, Step::Await(Check::Shear));
    step_is_planned(config, Step::Run(Check::DocTests));
    step_is_planned(config, Step::Run(Check::Docs));
    step_is_planned(config, Step::Run(Check::RustVersion));
}

proof fn step_is_planned(config: ConfigView, step: Step)
    requires
        place(step) is Some,
    ensures
        plan_of(config).contains(step) <==> check_of(step).is_enabled(config),
{
    let steps = plan_of(config);
    let check = check_of(step);
    if steps.contains(step) {
        let i = choose|i: int| 0 <= i < steps.len() && steps[i] == step;
        steps_are_enabled(config, i);
    }
    if check.is_enabled(config) {
        let i = step_of(config, check);
        if steps[i] != step {
            // The step starts what this one waits for, or this one starts it.
            if let Step::Start(_) = step {
                started_checks_are_awaited(config, i);
            } else {
                steps_stand_in_order(config);
                assert(place(steps[i]) is Some);
            }
        }
    }
}

/// What comes next is the first step that is not done, until a check has failed or all steps are
/// done.
pub proof fn first_undone_step_comes_next(run: PushRun)
    requires
        run.is_valid(),
    ensures
        run.next_of() == Next::Fail <==> run.failed,
        run.next_of() == Next::Succeed <==> !run.failed && run.done == run.steps@.len(),
        !run.failed && run.done < run.steps@.len() ==> run.next_of() == Next::Take(
            run.steps@[run.done as int],
        ),
{
}

/// Clippy gets all members, the other commands get the crates that are affected, and each gets the
/// features that are configured for it.
pub proof fn checks_get_their_crates(
    config: ConfigView,
    affected: Seq<Seq<char>>,
    all: Seq<Seq<char>>,
)
    ensures
        Check::Clippy.line(config, affected, all) == clippy_line(all, config.clippy_features),
        Check::TestBuild.line(config, affected, all) == test_build_line(affected),
        Check::Tests.line(config, affected, all) == test_line(affected),
        Check::Shear.line(config, affected, all) == seq!["cargo"@, "shear"@],
        Check::DocTests.line(config, affected, all) == doc_test_line(
            affected,
            config.doc_test_features,
        ),
        Check::Docs.line(config, affected, all) == doc_line(affected, config.docs_features),
{
}

/// The first line about a check says whether it passed, was skipped or failed, and with a failure
/// comes the whole report of its command.
pub proof fn conclusion_tells_verdict(
    check: Check,
    command: Seq<Seq<char>>,
    envs: Seq<EnvVar>,
    output: CommandOutput,
    elapsed: Seq<char>,
    color: ColorSupport,
)
    ensures
        ({
            let lines = check.conclusion(command, envs, RunResult::Ran(output), elapsed, color);
            &&& output.code == Some(0i32) ==> lines == seq![in_green("passed ("@ + elapsed + ")"@)]
            &&& output.code != Some(0i32) && check != Check::DocTests && check != Check::Shear
                ==> lines.len() > 0 && lines[0] == in_red("failed ("@ + elapsed + ")"@)
                && lines.skip(1) == failure_lines(
                command,
                envs,
                output,
                if check == Check::Clippy {
                    Some(clippy_advice(command))
                } else {
                    None
                },
                color,
            )
        }),
{
    let lines = check.conclusion(command, envs, RunResult::Ran(output), elapsed, color);
    if output.code != Some(0i32) && check != Check::DocTests && check != Check::Shear {
        only_success_passes(check, output);
        let report = failure_lines(command, envs, output, check.failure_advice(command), color);
        assert(lines =~= seq![in_red("failed ("@ + elapsed + ")"@)] + report);
        assert(lines.skip(1) =~= report);
    }
}

/// A branch has diverged exactly if neither its head nor its upstream, which is known, is where they
/// part.
pub proof fn branches_diverge_from_their_base(
    merge_base: Seq<char>,
    head: Seq<char>,
    upstream: Seq<char>,
)
    ensures
        !is_diverged(merge_base, head, None),
        !is_diverged(merge_base, merge_base, Some(upstream)),
        !is_diverged(merge_base, head, Some(merge_base)),
        head != merge_base && upstream != merge_base ==> is_diverged(
            merge_base,
            head,
            Some(upstream),
        ),
{
}

/// A revision is what git wrote, without the white space around it.
pub proof fn revisions_are_trimmed(output: Seq<u8>)
    ensures
        exists|before: Seq<char>, after: Seq<char>|
            lossy_text(output) == #[trigger] (before + revision_in(output) + after),
        revision_in(output).len() > 0 ==> !is_white(revision_in(output)[0]) && !is_white(
            revision_in(output).last(),
        ),
{
    let (before, after) = trimming_takes_white_space_off(lossy_text(output));
    assert(lossy_text(output) == before + revision_in(output) + after);
}

/// The versions of two lists of packages are listed as those of the first and then those of the
/// second.
pub proof fn versions_are_listed_one_by_one(
    a: Seq<Package>,
    b: Seq<Package>,
    members: Seq<String>,
)
    ensures
        version_list(a + b, members) == version_list(a, members) + version_list(b, members),
    decreases b.len(),
{
    if b.len() == 0 {
        assert(a + b =~= a);
        assert(version_list(a, members) + version_list(b, members) =~= version_list(a, members));
    } else {
        assert((a + b).drop_last() =~= a + b.drop_last());
        versions_are_listed_one_by_one(a, b.drop_last(), members);
        assert(version_list(a + b, members) =~= version_list(a, members) + version_list(b, members));
    }
}

/// A skipped check says why, one that could not be run says what went wrong, and versions that differ
/// are all listed.
pub proof fn other_conclusions(
    check: Check,
    command: Seq<Seq<char>>,
    envs: Seq<EnvVar>,
    output: CommandOutput,
    error: String,
    report: VersionReport,
    elapsed: Seq<char>,
    color: ColorSupport,
)
    ensures
        check == Check::DocTests && check.verdict_of(RunResult::Ran(output)) == Verdict::Skipped
            ==> check.conclusion(command, envs, RunResult::Ran(output), elapsed, color) == seq![
            in_yellow("skipped (no lib)"@),
        ],
        check == Check::Shear && check.verdict_of(RunResult::Ran(output)) == Verdict::Skipped
            ==> check.conclusion(command, envs, RunResult::Ran(output), elapsed, color) == seq![
            in_yellow("skipped (not installed)"@),
            "    "@ + in_cyan("\u{1f4a1}"@) + " Install with: cargo binstall cargo-shear"@,
        ],
        check.verdict_of(RunResult::Ran(output)) == Verdict::Failed ==> check.conclusion(
            command,
            envs,
            RunResult::Ran(output),
            elapsed,
            color,
        ) == seq![in_red("failed ("@ + elapsed + ")"@)] + failure_lines(
            command,
            envs,
            output,
            if check == Check::Clippy {
                Some(clippy_advice(command))
            } else if check == Check::Shear {
                Some(shear_advice())
            } else {
                None
            },
            color,
        ),
        check.conclusion(command, envs, RunResult::NotRun(error), elapsed, color) == seq![
            in_red("failed"@),
        ] + error_lines(
            command,
            envs,
            error@,
            if check == Check::Clippy {
                Some(clippy_advice(command))
            } else {
                None
            },
        ),
        check.conclusion(command, envs, RunResult::Crashed, elapsed, color) == seq![
            in_red("failed (thread panicked)"@),
        ],
        report.differ ==> check.conclusion(
            command,
            envs,
            RunResult::Compared(report),
            elapsed,
            color,
        ).skip(2) == texts(report.lines@),
{
    let lines = check.conclusion(command, envs, RunResult::Compared(report), elapsed, color);
    if report.differ {
        assert(lines.skip(2) =~= texts(report.lines@));
    }
}

/// Each step of a plan is announced by what it does.
pub proof fn steps_are_announced()
    ensures
        ({
            let says = |step: Step, icon: Seq<char>, text: Seq<char>|
                step.announcement() == "  "@ + in_cyan(icon) + text;
            &&& says(
                Step::Run(Check::Clippy),
                "\u{1f50d}"@,
                " Running clippy for all crates... "@,
            )
            &&& says(
                Step::Run(Check::TestBuild),
                "\u{1f528}"@,
                " Building tests for all affected crates... "@,
            )
            &&& says(
                Step::Run(Check::DocTests),
                "\u{1f4da}"@,
                " Running doc tests for all affected crates... "@,
            )
            &&& says(
                Step::Run(Check::Docs),
                "\u{1f4d6}"@,
                " Building docs for all affected crates... "@,
            )
            &&& says(
                Step::Run(Check::RustVersion),
                "\u{1f980}"@,
                " Comparing Rust versions of all crates... "@,
            )
            &&& says(Step::Start(Check::Tests), "\u{1f9ea}"@, " Running tests in background..."@)
            &&& says(
                Step::Start(Check::Shear),
                "\u{2702}\u{fe0f}"@,
                " Running cargo-shear in background..."@,
            )
            &&& says(Step::Await(Check::Tests), "\u{1f9ea}"@, " Waiting for test results... "@)
            &&& says(
                Step::Await(Check::Shear),
                "\u{2702}\u{fe0f}"@,
                " Waiting for cargo-shear... "@,
            )
        }),
{
}

}
