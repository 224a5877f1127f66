//! The packages of a workspace, as cargo describes them.

use vstd::prelude::*;
use vstd::slice::slice_to_vec;
use vstd::utf8::encode_utf8;

use crate::ansi::{in_red, in_yellow, red, yellow};
use crate::job::Job;
use crate::manifest::{
    bad_manifest, declared_version, docsrs_ensured, docsrs_list, docsrs_metadata_stays,
    has_package, rewrite_cargo_toml, rewrites, rust_version_correct, rust_version_ensured,
    workspace_edition, workspace_edition_of, ManifestEdit,
};
use crate::paths::{join_path, joined_path, parent_of, parent_path};
use crate::text::{
    contains, from_utf8_lossy, is_among, lossy_text, occurs, occurs_at, opt_text, quote, quoted,
    same,
    same_bytes, texts,
};
use crate::toml::{toml_entries, toml_read};

verus! {

broadcast use vstd::string::group_string_axioms;

/// A package.
pub struct Package {
    pub id: String,
    pub name: String,
    pub edition: String,
    /// The Rust version that it declares, if it declares one.
    pub rust_version: Option<String>,
    pub manifest_path: String,
}

/// Whether a package is a member of its workspace.
pub open spec fn is_member(package: Package, members: Seq<String>) -> bool {
    texts(members).contains(package.id@)
}

/// The packages that `pick` picks, in their order.
pub open spec fn picked(packages: Seq<Package>, pick: spec_fn(Package) -> bool) -> Seq<Package>
    decreases packages.len(),
{
    if packages.len() == 0 {
        seq![]
    } else {
        let rest = picked(packages.drop_last(), pick);
        if pick(packages.last()) {
            rest.push(packages.last())
        } else {
            rest
        }
    }
}

/// Why cargo has no metadata to give.
#[derive(Clone, Copy, PartialEq, Eq, Structural)]
pub enum MetadataFailure {
    /// There is no manifest.
    NoManifest,
    /// The workspace has no members.
    NoMembers,
    /// Something went wrong.
    Other,
}

/// Why cargo has no metadata to give, by what it says.
pub open spec fn failure_of(error: Seq<char>) -> MetadataFailure {
    if occurs(error, "could not find"@) {
        MetadataFailure::NoManifest
    } else if occurs(error, "virtual manifest"@) || occurs(error, "no members"@) || occurs(
        error,
        "workspace has no members"@,
    ) {
        MetadataFailure::NoMembers
    } else {
        MetadataFailure::Other
    }
}

/// Why cargo has no metadata to give, by what it says.
pub fn metadata_failure(error: &str) -> (r: MetadataFailure)
    ensures
        r == failure_of(error@),
{
    if contains(error, "could not find") {
        MetadataFailure::NoManifest
    } else if contains(error, "virtual manifest") || contains(error, "no members") || contains(
        error,
        "workspace has no members",
    ) {
        MetadataFailure::NoMembers
    } else {
        MetadataFailure::Other
    }
}

/// The edition that is required.
pub const EDITION: &'static str = "2024";

/// What is wrong with the edition that a workspace declares in its root manifest.
pub open spec fn root_complaint(path: Seq<char>, content: Option<Seq<char>>) -> Seq<Seq<char>> {
    let edition = match content {
        Some(text) => match toml_entries(text) {
            Some(entries) => workspace_edition_of(entries),
            None => None,
        },
        None => None,
    };
    match edition {
        Some(edition) => if edition == EDITION@ {
            seq![]
        } else {
            seq![
                path + ": [workspace.package].edition = "@ + quoted(edition)
                    + " (expected \"2024\")"@,
            ]
        },
        None => seq![],
    }
}

/// What is wrong with the edition of a package.
pub open spec fn edition_complaint(package: Package) -> Seq<char> {
    package.manifest_path@ + ": edition = \""@ + package.edition@ + "\" (expected \"2024\")"@
}

/// The members that are not of the required edition.
pub open spec fn outdated_members(packages: Seq<Package>, members: Seq<String>) -> Seq<Package> {
    picked(
        packages,
        |package: Package| is_member(package, members) && package.edition@ != EDITION@,
    )
}

/// All that is wrong with editions: that of the workspace first, then those of its members.
pub open spec fn edition_complaints(
    root_path: Seq<char>,
    root_content: Option<Seq<char>>,
    packages: Seq<Package>,
    members: Seq<String>,
) -> Seq<Seq<char>> {
    root_complaint(root_path, root_content) + outdated_members(packages, members).map_values(
        |package: Package| edition_complaint(package),
    )
}

/// All that is wrong with editions in a workspace. `root_content` is what its root manifest holds,
/// if that can be read.
pub fn edition_errors(
    root_path: &str,
    root_content: Option<&str>,
    packages: &Vec<Package>,
    members: &Vec<String>,
) -> (r: Vec<String>)
    ensures
        texts(r@) == edition_complaints(
            root_path@,
            match root_content {
                Some(content) => Some(content@),
                None => None,
            },
            packages@,
            members@,
        ),
{
    let mut errors: Vec<String> = Vec::new();
    let ghost content_text = match root_content {
        Some(content) => Some(content@),
        None => None,
    };
    if let Some(content) = root_content {
        if let Some(edition) = workspace_edition(content) {
            if !same(edition.as_str(), EDITION) {
                let mut error = root_path.to_owned();
                error.append(": [workspace.package].edition = ");
                error.append(quote(edition.as_str()).as_str());
                error.append(" (expected \"2024\")");
                errors.push(error);
            }
        }
    }
    let ghost root = root_complaint(root_path@, content_text);
    assert(texts(errors@) =~= root);
    let ghost pick = |package: Package| is_member(package, members@) && package.edition@ != EDITION@;
    let ghost complain = |package: Package| edition_complaint(package);
    let mut i: usize = 0;
    assert(texts(errors@) =~= root + picked(packages@.take(0), pick).map_values(complain));
    while i < packages.len()
        invariant
            i <= packages.len(),
            pick == (|package: Package|
                is_member(package, members@) && package.edition@ != EDITION@),
            complain == (|package: Package| edition_complaint(package)),
            texts(errors@) == root + picked(packages@.take(i as int), pick).map_values(complain),
        decreases packages.len() - i,
    {
        let ghost so_far = texts(errors@);
        let package = &packages[i];
        assert(packages@.take(i + 1).drop_last() =~= packages@.take(i as int));
        assert(packages@.take(i + 1).last() == *package);
        if is_among(members.as_slice(), package.id.as_str()) && !same(
            package.edition.as_str(),
            EDITION,
        ) {
            let mut error = package.manifest_path.as_str().to_owned();
            error.append(": edition = \"");
            error.append(package.edition.as_str());
            error.append("\" (expected \"2024\")");
            errors.push(error);
            assert(texts(errors@) =~= so_far.push(edition_complaint(*package)));
        }
        i += 1;
        assert(texts(errors@) =~= root + picked(packages@.take(i as int), pick).map_values(
            complain,
        ));
    }
    assert(packages@.take(i as int) =~= packages@);
    errors
}

/// Nothing is wrong with editions exactly if the workspace declares none but the required one and
/// every member has it.
pub proof fn no_complaint_means_current(
    root_path: Seq<char>,
    root_content: Option<Seq<char>>,
    packages: Seq<Package>,
    members: Seq<String>,
)
    ensures
        edition_complaints(root_path, root_content, packages, members).len() == 0 <==> {
            &&& root_complaint(root_path, root_content).len() == 0
            &&& forall|i: int|
                0 <= i < packages.len() && is_member(#[trigger] packages[i], members)
                    ==> packages[i].edition@ == EDITION@
        },
{
    nothing_picked(
        packages,
        |package: Package| is_member(package, members) && package.edition@ != EDITION@,
    );
}

proof fn nothing_picked(packages: Seq<Package>, pick: spec_fn(Package) -> bool)
    ensures
        picked(packages, pick).len() == 0 <==> forall|i: int|
            0 <= i < packages.len() ==> !pick(#[trigger] packages[i]),
    decreases packages.len(),
{
    if packages.len() > 0 {
        let rest = packages.drop_last();
        nothing_picked(rest, pick);
        assert(forall|i: int| 0 <= i < rest.len() ==> rest[i] == #[trigger] packages[i]);
        if forall|i: int| 0 <= i < packages.len() ==> !pick(#[trigger] packages[i]) {
            assert forall|i: int| 0 <= i < rest.len() implies !pick(#[trigger] rest[i]) by {
                assert(!pick(packages[i]));
            }
            assert(!pick(packages[packages.len() - 1]));
        } else if picked(packages, pick).len() == 0 {
            assert(picked(rest, pick).len() == 0);
            assert(packages[packages.len() - 1] == packages.last());
            assert forall|i: int| 0 <= i < packages.len() implies !pick(#[trigger] packages[i]) by {
                if i < rest.len() {
                    assert(!pick(rest[i]));
                }
            }
        }
    }
}

/// How a complaint about an edition is shown.
pub open spec fn fix_line_of(error: Seq<char>) -> Seq<char> {
    "  "@ + in_yellow("fix:"@) + " "@ + error
}

/// What is said about editions that are not current, line by line.
pub open spec fn outdated_lines(errors: Seq<Seq<char>>) -> Seq<Seq<char>> {
    seq![
        in_red("You have been deemed OUTDATED - edition 2024 now or bust"@),
        ""@,
    ] + errors.map_values(|error: Seq<char>| fix_line_of(error)) + seq![
        ""@,
        "Set edition = \"2024\" in the above location(s) to proceed."@,
    ]
}

/// What is said about editions that are not current, line by line.
pub fn outdated_report(errors: &Vec<String>) -> (r: Vec<String>)
    ensures
        texts(r@) == outdated_lines(texts(errors@)),
{
    let mut r = vec![
        red("You have been deemed OUTDATED - edition 2024 now or bust"),
        "".to_owned(),
    ];
    let ghost head = seq![
        in_red("You have been deemed OUTDATED - edition 2024 now or bust"@),
        ""@,
    ];
    assert(texts(r@) =~= head);
    let ghost fixes = texts(errors@).map_values(|error: Seq<char>| fix_line_of(error));
    let mut i: usize = 0;
    assert(texts(r@) =~= head + fixes.take(0));
    while i < errors.len()
        invariant
            i <= errors.len(),
            fixes == texts(errors@).map_values(|error: Seq<char>| fix_line_of(error)),
            texts(r@) == head + fixes.take(i as int),
        decreases errors.len() - i,
    {
        let ghost so_far = texts(r@);
        let mut line = "  ".to_owned();
        line.append(yellow("fix:").as_str());
        line.append(" ");
        line.append(errors[i].as_str());
        r.push(line);
        i += 1;
        assert(texts(r@) =~= so_far.push(fixes[i - 1]));
        assert(texts(r@) =~= head + fixes.take(i as int));
    }
    assert(fixes.take(i as int) =~= fixes);
    r.push("".to_owned());
    r.push("Set edition = \"2024\" in the above location(s) to proceed.".to_owned());
    assert(texts(r@) =~= outdated_lines(texts(errors@)));
    r
}

/// What goes into the documentation's pages so that they highlight code.
pub const ARBORIUM_HEADER: &'static str = "<!-- Rustdoc doesn't highlight some languages natively -- let's do it ourselves: https://github.com/bearcove/arborium -->\n<script defer src=\"https://cdn.jsdelivr.net/npm/@arborium/arborium@1/dist/arborium.iife.js\"></script>";

/// What a package's directory holds.
pub struct PackageFiles {
    /// What `arborium-header.html` holds; none if it does not exist or cannot be read.
    pub header: Option<Vec<u8>>,
    /// What `Cargo.toml` holds; none if it does not exist or cannot be read.
    pub manifest: Option<String>,
}

/// Whether a package is kept in order: it is a member, and its name does not mark it as tests or
/// examples.
pub open spec fn is_tended(package: Package, members: Seq<String>) -> bool {
    &&& is_member(package, members)
    &&& !occurs(package.name@, "test"@)
    &&& !occurs(package.name@, "example"@)
}

/// Whether a package is kept in order.
pub fn tended(package: &Package, members: &Vec<String>) -> (r: bool)
    ensures
        r == is_tended(*package, members@),
{
    is_among(members.as_slice(), package.id.as_str()) && !contains(package.name.as_str(), "test")
        && !contains(package.name.as_str(), "example")
}

/// Whether `job` writes the header into the file at `path`, which holds `content`.
pub open spec fn writes_header(job: Job, path: Seq<char>, content: Option<Vec<u8>>) -> bool {
    &&& job.path@ == path
    &&& match content {
        Some(old) => job.old_content matches Some(kept) && kept@ == old@,
        None => job.old_content is None,
    }
    &&& job.new_content@ == encode_utf8(ARBORIUM_HEADER@)
    &&& !job.executable
}

/// Whether the header is in its place.
pub open spec fn header_in_place(content: Option<Vec<u8>>) -> bool {
    content matches Some(bytes) && bytes@ == encode_utf8(ARBORIUM_HEADER@)
}

/// Whether `jobs` are what setting up arborium takes in the directory `dir`: the header unless it
/// is in its place, then the edit of the manifest if that takes one.
pub open spec fn sets_up(jobs: Seq<Job>, dir: Seq<char>, files: PackageFiles) -> bool {
    let header_path = joined_path(dir, "arborium-header.html"@);
    let manifest_path = joined_path(dir, "Cargo.toml"@);
    let headers: int = if header_in_place(files.header) {
        0
    } else {
        1
    };
    &&& headers <= jobs.len() <= headers + 1
    &&& headers == 1 ==> writes_header(jobs[0], header_path, files.header)
    &&& edits_manifest(
        if jobs.len() > headers {
            Some(jobs[headers])
        } else {
            None
        },
        manifest_path,
        files.manifest,
        ManifestEdit::DocsrsMetadata,
    )
}

/// Whether `job` is what an edit takes in the manifest at `path`, which holds `content`.
pub open spec fn edits_manifest(
    job: Option<Job>,
    path: Seq<char>,
    content: Option<String>,
    edit: ManifestEdit,
) -> bool {
    match content {
        Some(text) => rewrites(job, path, text@, edit),
        None => job is None,
    }
}

/// Jobs, and what is said about manifests that are not TOML.
pub struct PackageJobs {
    pub jobs: Vec<Job>,
    pub complaints: Vec<String>,
}

/// What is said about the manifest at `path`, which holds `content`: nothing unless it is not TOML.
pub open spec fn manifest_complaint(path: Seq<char>, content: Option<Seq<char>>) -> Seq<Seq<char>> {
    match content {
        Some(text) => match toml_read(text) {
            Ok(_) => seq![],
            Err(complaint) => seq![bad_manifest(path, complaint)],
        },
        None => seq![],
    }
}

/// What is said about the manifests of the packages that are kept in order, one after the other.
/// `held` says what the manifest of each package at its path holds.
pub open spec fn manifest_complaints(
    packages: Seq<Package>,
    members: Seq<String>,
    held: spec_fn(int, Seq<char>) -> Option<Seq<char>>,
) -> Seq<Seq<char>>
    decreases packages.len(),
{
    if packages.len() == 0 {
        seq![]
    } else {
        let rest = manifest_complaints(packages.drop_last(), members, held);
        match parent_of(packages.last().manifest_path@) {
            Some(dir) => if is_tended(packages.last(), members) {
                let path = joined_path(dir, "Cargo.toml"@);
                rest + manifest_complaint(path, held(packages.len() - 1, path))
            } else {
                rest
            },
            None => rest,
        }
    }
}

/// The jobs that set up arborium in the directory `dir`.
pub fn arborium_jobs_in(dir: &str, files: &PackageFiles) -> (r: PackageJobs)
    ensures
        sets_up(r.jobs@, dir@, *files),
        texts(r.complaints@) == manifest_complaint(
            joined_path(dir@, "Cargo.toml"@),
            opt_text(files.manifest),
        ),
{
    let mut jobs: Vec<Job> = Vec::new();
    let mut complaints: Vec<String> = Vec::new();
    let header = ARBORIUM_HEADER.as_bytes_vec();
    let in_place = match &files.header {
        Some(bytes) => same_bytes(bytes.as_slice(), header.as_slice()),
        None => false,
    };
    if !in_place {
        let old_content = match &files.header {
            Some(bytes) => Some(slice_to_vec(bytes.as_slice())),
            None => None,
        };
        jobs.push(
            Job {
                path: join_path(dir, "arborium-header.html"),
                old_content,
                new_content: header,
                executable: false,
            },
        );
    }
    let manifest_path = join_path(dir, "Cargo.toml");
    let content = match &files.manifest {
        Some(text) => Some(text.as_str()),
        None => None,
    };
    match rewrite_cargo_toml(manifest_path.as_str(), content, ManifestEdit::DocsrsMetadata) {
        Ok(Some(job)) => {
            jobs.push(job);
        },
        Ok(None) => {},
        Err(complaint) => {
            complaints.push(complaint);
        },
    }
    assert(texts(complaints@) =~= manifest_complaint(
        joined_path(dir@, "Cargo.toml"@),
        opt_text(files.manifest),
    ));
    PackageJobs { jobs, complaints }
}

/// The lists of jobs, one after the other.
pub open spec fn one_after_other(lists: Seq<Seq<Job>>) -> Seq<Job>
    decreases lists.len(),
{
    if lists.len() == 0 {
        seq![]
    } else {
        one_after_other(lists.drop_last()) + lists.last()
    }
}

/// Whether `jobs` are what setting up arborium takes in a package: none if it is not kept in order.
pub open spec fn sets_up_package(
    jobs: Seq<Job>,
    package: Package,
    members: Seq<String>,
    files: PackageFiles,
) -> bool {
    match parent_of(package.manifest_path@) {
        Some(dir) => if is_tended(package, members) {
            sets_up(jobs, dir, files)
        } else {
            jobs.len() == 0
        },
        None => jobs.len() == 0,
    }
}

/// Whether `jobs` are what setting up arborium takes in the packages, one after the other.
pub open spec fn sets_up_all(
    jobs: Seq<Job>,
    packages: Seq<Package>,
    members: Seq<String>,
    files: Seq<PackageFiles>,
) -> bool {
    exists|lists: Seq<Seq<Job>>|
        {
            &&& jobs == #[trigger] one_after_other(lists)
            &&& lists.len() == packages.len()
            &&& forall|i: int|
                0 <= i < lists.len() ==> sets_up_package(
                    #[trigger] lists[i],
                    packages[i],
                    members,
                    files[i],
                )
        }
}

/// What the manifests of packages hold, given what their directories do.
pub open spec fn held_in(files: Seq<PackageFiles>) -> spec_fn(int, Seq<char>) -> Option<Seq<char>> {
    |i: int, path: Seq<char>| opt_text(files[i].manifest)
}

/// The jobs that set up arborium in the packages that are kept in order. `files` says of each
/// package what its directory holds.
pub fn arborium_jobs(
    packages: &Vec<Package>,
    members: &Vec<String>,
    files: &Vec<PackageFiles>,
) -> (r: PackageJobs)
    requires
        packages.len() == files.len(),
    ensures
        sets_up_all(r.jobs@, packages@, members@, files@),
        texts(r.complaints@) == manifest_complaints(packages@, members@, held_in(files@)),
{
    let mut jobs: Vec<Job> = Vec::new();
    let mut complaints: Vec<String> = Vec::new();
    let ghost held = held_in(files@);
    let ghost mut lists: Seq<Seq<Job>> = seq![];
    let mut i: usize = 0;
    assert(texts(complaints@) =~= manifest_complaints(packages@.take(0), members@, held));
    while i < packages.len()
        invariant
            i <= packages.len(),
            packages.len() == files.len(),
            lists.len() == i,
            jobs@ == one_after_other(lists),
            forall|j: int|
                0 <= j < i ==> sets_up_package(
                    #[trigger] lists[j],
                    packages@[j],
                    members@,
                    files@[j],
                ),
            held == held_in(files@),
            texts(complaints@) == manifest_complaints(packages@.take(i as int), members@, held),
        decreases packages.len() - i,
    {
        let package = &packages[i];
        let ghost so_far = texts(complaints@);
        assert(packages@.take(i + 1).drop_last() =~= packages@.take(i as int));
        assert(packages@.take(i + 1).last() == *package);
        let mut more: Vec<Job> = Vec::new();
        if tended(package, members) {
            if let Some(dir) = parent_path(package.manifest_path.as_str()) {
                let mut found = arborium_jobs_in(dir.as_str(), &files[i]);
                let ghost added = texts(found.complaints@);
                more = found.jobs;
                complaints.append(&mut found.complaints);
                assert(texts(complaints@) =~= so_far + added);
            }
        }
        proof {
            assert(lists.push(more@).drop_last() =~= lists);
            lists = lists.push(more@);
        }
        jobs.append(&mut more);
        i += 1;
    }
    assert(packages@.take(i as int) =~= packages@);
    PackageJobs { jobs, complaints }
}

/// Whether `after` is what a directory holds once the jobs for it are done, of which `before` says
/// what it held: the files that they write hold what they write, and the others are the same.
pub open spec fn holds_written(
    after: PackageFiles,
    before: PackageFiles,
    jobs: Seq<Job>,
) -> bool {
    let headers: int = if header_in_place(before.header) {
        0
    } else {
        1
    };
    &&& headers == 1 && jobs.len() > 0 ==> (after.header matches Some(bytes) && bytes@
        == jobs[0].new_content@)
    &&& headers == 0 ==> after.header == before.header
    &&& jobs.len() > headers ==> (after.manifest matches Some(text) && encode_utf8(text@)
        == jobs[headers].new_content@)
    &&& jobs.len() <= headers ==> after.manifest == before.manifest
}

/// Whether a manifest that was in need of arguments for rustdoc reads back with those that were
/// written.
pub open spec fn arguments_read_back(after: PackageFiles, before: PackageFiles) -> bool {
    match opt_text(before.manifest) {
        Some(text) => match toml_entries(text) {
            Some(entries) => ManifestEdit::DocsrsMetadata.needed(entries) ==> {
                &&& after.manifest matches Some(written)
                &&& toml_entries(written@) matches Some(read)
                &&& docsrs_list(read) == docsrs_list(docsrs_ensured(entries))
            },
            None => true,
        },
        None => true,
    }
}

/// Once the jobs that set up arborium are done, none is left, wherever the arguments for rustdoc
/// that were written into a manifest read back: on what the directories then hold, setting up
/// arborium takes no job.
pub proof fn arborium_stays_set_up(
    lists: Seq<Seq<Job>>,
    more: Seq<Job>,
    packages: Seq<Package>,
    members: Seq<String>,
    before: Seq<PackageFiles>,
    after: Seq<PackageFiles>,
)
    requires
        lists.len() == packages.len(),
        forall|i: int|
            0 <= i < lists.len() ==> sets_up_package(
                #[trigger] lists[i],
                packages[i],
                members,
                before[i],
            ),
        forall|i: int|
            0 <= i < lists.len() && is_tended(packages[i], members) ==> holds_written(
                after[i],
                before[i],
                #[trigger] lists[i],
            ),
        forall|i: int|
            0 <= i < packages.len() ==> #[trigger] arguments_read_back(after[i], before[i]),
        sets_up_all(more, packages, members, after),
    ensures
        sets_up_all(one_after_other(lists), packages, members, before),
        more.len() == 0,
{
    let again = choose|again: Seq<Seq<Job>>|
        {
            &&& more == #[trigger] one_after_other(again)
            &&& again.len() == packages.len()
            &&& forall|i: int|
                0 <= i < again.len() ==> sets_up_package(
                    #[trigger] again[i],
                    packages[i],
                    members,
                    after[i],
                )
        };
    assert forall|i: int| 0 <= i < again.len() implies (#[trigger] again[i]).len() == 0 by {
        assert(sets_up_package(lists[i], packages[i], members, before[i]));
        assert(sets_up_package(again[i], packages[i], members, after[i]));
        assert(arguments_read_back(after[i], before[i]));
        if is_tended(packages[i], members) {
            if let Some(dir) = parent_of(packages[i].manifest_path@) {
                assert(holds_written(after[i], before[i], lists[i]));
                directory_stays_set_up(lists[i], again[i], dir, before[i], after[i]);
            }
        }
    }
    nothing_after_other(again);
}

proof fn directory_stays_set_up(
    jobs: Seq<Job>,
    more: Seq<Job>,
    dir: Seq<char>,
    before: PackageFiles,
    after: PackageFiles,
)
    requires
        sets_up(jobs, dir, before),
        holds_written(after, before, jobs),
        arguments_read_back(after, before),
        sets_up(more, dir, after),
    ensures
        more.len() == 0,
{
    assert(header_in_place(after.header));
    if let Some(text) = before.manifest {
        if let Some(entries) = toml_entries(text@) {
            docsrs_metadata_stays(entries);
        }
    }
}

proof fn nothing_after_other(lists: Seq<Seq<Job>>)
    requires
        forall|i: int| 0 <= i < lists.len() ==> (#[trigger] lists[i]).len() == 0,
    ensures
        one_after_other(lists).len() == 0,
    decreases lists.len(),
{
    if lists.len() > 0 {
        let rest = lists.drop_last();
        assert forall|i: int| 0 <= i < rest.len() implies (#[trigger] rest[i]).len() == 0 by {
            assert(rest[i] == lists[i]);
        }
        nothing_after_other(rest);
        assert(lists[lists.len() - 1].len() == 0);
    }
}

/// What the manifest at `path` will hold once the jobs are done: what the last of them for that
/// path writes, or else what it holds now.
pub open spec fn pending_text(jobs: Seq<Job>, path: Seq<char>, content: Option<Seq<char>>) -> Option<
    Seq<char>,
>
    decreases jobs.len(),
{
    if jobs.len() == 0 {
        content
    } else if jobs.last().path@ == path {
        Some(lossy_text(jobs.last().new_content@))
    } else {
        pending_text(jobs.drop_last(), path, content)
    }
}

/// What the manifest at `path` will hold once the jobs are done.
pub fn text_after(jobs: &Vec<Job>, path: &str, content: &Option<String>) -> (r: Option<String>)
    ensures
        opt_text(r) == pending_text(jobs@, path@, opt_text(*content)),
{
    let mut i: usize = jobs.len();
    assert(jobs@.take(i as int) =~= jobs@);
    while i > 0
        invariant
            i <= jobs.len(),
            pending_text(jobs@.take(i as int), path@, opt_text(*content)) == pending_text(
                jobs@,
                path@,
                opt_text(*content),
            ),
        decreases i,
    {
        assert(jobs@.take(i as int).drop_last() =~= jobs@.take(i - 1));
        if same(jobs[i - 1].path.as_str(), path) {
            return Some(from_utf8_lossy(jobs[i - 1].new_content.as_slice()));
        }
        i -= 1;
    }
    match content {
        Some(text) => Some(text.as_str().to_owned()),
        None => None,
    }
}

/// Whether `jobs` are what enforcing the Rust version takes in a package: at most one, none if the
/// package is not kept in order. `pending` are the jobs that are done before.
pub open spec fn enforces_in_package(
    jobs: Seq<Job>,
    package: Package,
    members: Seq<String>,
    manifest: Option<Seq<char>>,
    pending: Seq<Job>,
) -> bool {
    match parent_of(package.manifest_path@) {
        Some(dir) => if is_tended(package, members) {
            let path = joined_path(dir, "Cargo.toml"@);
            &&& jobs.len() <= 1
            &&& match pending_text(pending, path, manifest) {
                Some(text) => rewrites(
                    if jobs.len() == 1 {
                        Some(jobs[0])
                    } else {
                        None
                    },
                    path,
                    text,
                    ManifestEdit::RustVersion,
                ),
                None => jobs.len() == 0,
            }
        } else {
            jobs.len() == 0
        },
        None => jobs.len() == 0,
    }
}

/// Whether `jobs` are what enforcing the Rust version takes in the packages, one after the other.
pub open spec fn enforces_in_all(
    jobs: Seq<Job>,
    packages: Seq<Package>,
    members: Seq<String>,
    manifests: Seq<Option<String>>,
    pending: Seq<Job>,
) -> bool {
    exists|lists: Seq<Seq<Job>>|
        {
            &&& jobs == #[trigger] one_after_other(lists)
            &&& lists.len() == packages.len()
            &&& forall|i: int|
                0 <= i < lists.len() ==> enforces_in_package(
                    #[trigger] lists[i],
                    packages[i],
                    members,
                    opt_text(manifests[i]),
                    pending,
                )
        }
}

/// What the manifests of packages will hold once the pending jobs are done.
pub open spec fn held_after(manifests: Seq<Option<String>>, pending: Seq<Job>) -> spec_fn(
    int,
    Seq<char>,
) -> Option<Seq<char>> {
    |i: int, path: Seq<char>| pending_text(pending, path, opt_text(manifests[i]))
}

/// The jobs that make the packages that are kept in order declare the Rust version. `manifests`
/// says of each package what its manifest holds, `pending` are the jobs that are done before.
pub fn rust_version_jobs(
    packages: &Vec<Package>,
    members: &Vec<String>,
    manifests: &Vec<Option<String>>,
    pending: &Vec<Job>,
) -> (r: PackageJobs)
    requires
        packages.len() == manifests.len(),
    ensures
        enforces_in_all(r.jobs@, packages@, members@, manifests@, pending@),
        texts(r.complaints@) == manifest_complaints(
            packages@,
            members@,
            held_after(manifests@, pending@),
        ),
{
    let mut jobs: Vec<Job> = Vec::new();
    let mut complaints: Vec<String> = Vec::new();
    let ghost held = held_after(manifests@, pending@);
    let ghost mut lists: Seq<Seq<Job>> = seq![];
    let mut i: usize = 0;
    assert(texts(complaints@) =~= manifest_complaints(packages@.take(0), members@, held));
    while i < packages.len()
        invariant
            i <= packages.len(),
            packages.len() == manifests.len(),
            lists.len() == i,
            jobs@ == one_after_other(lists),
            forall|j: int|
                0 <= j < i ==> enforces_in_package(
                    #[trigger] lists[j],
                    packages@[j],
                    members@,
                    opt_text(manifests@[j]),
                    pending@,
                ),
            held == held_after(manifests@, pending@),
            texts(complaints@) == manifest_complaints(packages@.take(i as int), members@, held),
        decreases packages.len() - i,
    {
        let package = &packages[i];
        let ghost so_far = texts(complaints@);
        assert(packages@.take(i + 1).drop_last() =~= packages@.take(i as int));
        assert(packages@.take(i + 1).last() == *package);
        let mut more: Vec<Job> = Vec::new();
        if tended(package, members) {
            if let Some(dir) = parent_path(package.manifest_path.as_str()) {
                let path = join_path(dir.as_str(), "Cargo.toml");
                let text = text_after(pending, path.as_str(), &manifests[i]);
                let content = match &text {
                    Some(text) => Some(text.as_str()),
                    None => None,
                };
                match rewrite_cargo_toml(path.as_str(), content, ManifestEdit::RustVersion) {
                    Ok(Some(job)) => {
                        more.push(job);
                    },
                    Ok(None) => {},
                    Err(complaint) => {
                        complaints.push(complaint);
                    },
                }
                assert(texts(complaints@) =~= so_far + manifest_complaint(
                    path@,
                    held(i as int, path@),
                ));
            }
        }
        proof {
            assert(lists.push(more@).drop_last() =~= lists);
            lists = lists.push(more@);
        }
        jobs.append(&mut more);
        i += 1;
    }
    assert(packages@.take(i as int) =~= packages@);
    PackageJobs { jobs, complaints }
}

/// What the manifest of a package will hold once the pending jobs are done; none if it cannot be
/// read.
pub open spec fn manifest_after(
    package: Package,
    manifest: Option<String>,
    pending: Seq<Job>,
) -> Option<Seq<char>> {
    match parent_of(package.manifest_path@) {
        Some(dir) => pending_text(pending, joined_path(dir, "Cargo.toml"@), opt_text(manifest)),
        None => opt_text(manifest),
    }
}

/// Whether `after` is what a manifest holds once the jobs for it are done, of which at most one
/// writes it: what that job writes, or else what it held before them.
pub open spec fn manifest_written(
    after: Option<String>,
    before: Option<Seq<char>>,
    jobs: Seq<Job>,
) -> bool {
    &&& jobs.len() > 0 ==> (after matches Some(text) && encode_utf8(text@) == jobs[0].new_content@)
    &&& jobs.len() == 0 ==> opt_text(after) == before
}

/// Whether a text is a manifest in TOML that describes a package in a table of its own.
pub open spec fn describes_package(text: Option<Seq<char>>) -> bool {
    &&& text matches Some(text)
    &&& toml_entries(text) matches Some(entries)
    &&& has_package(entries)
}

/// Whether a text is a manifest in TOML that declares the Rust version.
pub open spec fn declares_rust_version(text: Option<Seq<char>>) -> bool {
    &&& text matches Some(text)
    &&& toml_entries(text) matches Some(entries)
    &&& rust_version_correct(entries)
}

/// Whether a manifest that was in need of the Rust version reads back with the one that was
/// written.
pub open spec fn version_reads_back(after: Option<String>, before: Option<Seq<char>>) -> bool {
    match before {
        Some(text) => match toml_entries(text) {
            Some(entries) => ManifestEdit::RustVersion.needed(entries) ==> {
                &&& after matches Some(written)
                &&& toml_entries(written@) matches Some(read)
                &&& declared_version(read) == declared_version(rust_version_ensured(entries))
            },
            None => true,
        },
        None => true,
    }
}

/// Once the jobs that enforce the Rust version are done, every package that is kept in order and
/// whose manifest describes it declares that version, and no job is left, wherever the version that
/// was written into a manifest reads back.
pub proof fn rust_version_stays_declared(
    lists: Seq<Seq<Job>>,
    more: Seq<Job>,
    packages: Seq<Package>,
    members: Seq<String>,
    before: Seq<Option<String>>,
    pending: Seq<Job>,
    after: Seq<Option<String>>,
)
    requires
        lists.len() == packages.len(),
        forall|i: int|
            0 <= i < lists.len() ==> enforces_in_package(
                #[trigger] lists[i],
                packages[i],
                members,
                opt_text(before[i]),
                pending,
            ),
        forall|i: int|
            0 <= i < lists.len() && is_tended(packages[i], members) ==> manifest_written(
                after[i],
                manifest_after(packages[i], before[i], pending),
                #[trigger] lists[i],
            ),
        forall|i: int|
            0 <= i < packages.len() ==> #[trigger] version_reads_back(
                after[i],
                manifest_after(packages[i], before[i], pending),
            ),
        enforces_in_all(more, packages, members, after, seq![]),
    ensures
        enforces_in_all(one_after_other(lists), packages, members, before, pending),
        forall|i: int|
            0 <= i < packages.len() && is_tended(#[trigger] packages[i], members) && parent_of(
                packages[i].manifest_path@,
            ) is Some && describes_package(manifest_after(packages[i], before[i], pending))
                ==> declares_rust_version(opt_text(after[i])),
        more.len() == 0,
{
    let again = choose|again: Seq<Seq<Job>>|
        {
            &&& more == #[trigger] one_after_other(again)
            &&& again.len() == packages.len()
            &&& forall|i: int|
                0 <= i < again.len() ==> enforces_in_package(
                    #[trigger] again[i],
                    packages[i],
                    members,
                    opt_text(after[i]),
                    seq![],
                )
        };
    assert forall|i: int| 0 <= i < again.len() implies (#[trigger] again[i]).len() == 0 by {
        assert(enforces_in_package(
            lists[i],
            packages[i],
            members,
            opt_text(before[i]),
            pending,
        ));
        assert(version_reads_back(after[i], manifest_after(packages[i], before[i], pending)));
    }
    nothing_after_other(again);
    assert forall|i: int|
        0 <= i < packages.len() && is_tended(#[trigger] packages[i], members) && parent_of(
            packages[i].manifest_path@,
        ) is Some && describes_package(
            manifest_after(packages[i], before[i], pending),
        ) implies declares_rust_version(opt_text(after[i])) by {
        assert(enforces_in_package(
            lists[i],
            packages[i],
            members,
            opt_text(before[i]),
            pending,
        ));
        assert(version_reads_back(after[i], manifest_after(packages[i], before[i], pending)));
    }
}

/// How a package is listed: a mark, its name and its directory.
pub open spec fn listed(mark: Seq<char>, package: Package) -> Seq<char> {
    "  "@ + mark + " "@ + package.name@ + " ("@ + parent_of(package.manifest_path@)->0 + ")"@
}

/// The first package with an id.
pub open spec fn package_with_id(packages: Seq<Package>, id: Seq<char>) -> Option<Package>
    decreases packages.len(),
{
    if packages.len() == 0 {
        None
    } else if packages[0].id@ == id {
        Some(packages[0])
    } else {
        package_with_id(packages.skip(1), id)
    }
}

/// The list of the members, in the order of their ids; ids without a package are passed over.
pub open spec fn member_list(packages: Seq<Package>, members: Seq<String>) -> Seq<Seq<char>>
    decreases members.len(),
{
    if members.len() == 0 {
        seq![]
    } else {
        let rest = member_list(packages, members.drop_last());
        match package_with_id(packages, members.last()@) {
            Some(package) => rest.push(listed("\u{2713}"@, package)),
            None => rest,
        }
    }
}

/// The packages that are not members.
pub open spec fn excluded_packages(packages: Seq<Package>, members: Seq<String>) -> Seq<Package> {
    picked(packages, |package: Package| !is_member(package, members))
}

/// The packages of a workspace for people to read.
pub struct PackageReport {
    /// The members, one per line.
    pub members: Vec<String>,
    /// The packages that are not members, one per line.
    pub excluded: Vec<String>,
    /// How many packages there are.
    pub total: usize,
}

fn list_package(mark: &str, package: &Package) -> (r: String)
    requires
        parent_of(package.manifest_path@) is Some,
    ensures
        r@ == listed(mark@, *package),
{
    let mut r = "  ".to_owned();
    r.append(mark);
    r.append(" ");
    r.append(package.name.as_str());
    r.append(" (");
    if let Some(dir) = parent_path(package.manifest_path.as_str()) {
        r.append(dir.as_str());
    }
    r.append(")");
    r
}

/// The position of the first package with an id.
fn find_package(packages: &Vec<Package>, id: &str) -> (r: Option<usize>)
    ensures
        match r {
            Some(i) => i < packages.len() && package_with_id(packages@, id@) == Some(
                packages@[i as int],
            ),
            None => package_with_id(packages@, id@) is None,
        },
{
    let mut i: usize = 0;
    assert(packages@.skip(0) =~= packages@);
    while i < packages.len()
        invariant
            i <= packages.len(),
            package_with_id(packages@.skip(i as int), id@) == package_with_id(packages@, id@),
        decreases packages.len() - i,
    {
        assert(packages@.skip(i as int).skip(1) =~= packages@.skip(i + 1));
        if same(packages[i].id.as_str(), id) {
            return Some(i);
        }
        i += 1;
    }
    None
}

/// The packages of a workspace for people to read. Every package's manifest stands in a directory.
pub fn debug_packages(packages: &Vec<Package>, members: &Vec<String>) -> (r: PackageReport)
    requires
        forall|i: int|
            0 <= i < packages.len() ==> parent_of((#[trigger] packages@[i]).manifest_path@) is Some,
    ensures
        texts(r.members@) == member_list(packages@, members@),
        texts(r.excluded@) == excluded_packages(packages@, members@).map_values(
            |package: Package| listed("\u{2717}"@, package),
        ),
        r.total == packages.len(),
{
    let mut listed_members: Vec<String> = Vec::new();
    let mut i: usize = 0;
    assert(texts(listed_members@) =~= member_list(packages@, members@.take(0)));
    while i < members.len()
        invariant
            i <= members.len(),
            forall|j: int|
                0 <= j < packages.len() ==> parent_of((#[trigger] packages@[j]).manifest_path@) is Some,
            texts(listed_members@) == member_list(packages@, members@.take(i as int)),
        decreases members.len() - i,
    {
        let ghost so_far = texts(listed_members@);
        assert(members@.take(i + 1).drop_last() =~= members@.take(i as int));
        if let Some(at) = find_package(packages, members[i].as_str()) {
            listed_members.push(list_package("\u{2713}", &packages[at]));
            assert(texts(listed_members@) =~= so_far.push(
                listed("\u{2713}"@, packages@[at as int]),
            ));
        }
        i += 1;
    }
    assert(members@.take(i as int) =~= members@);
    let ghost pick = |package: Package| !is_member(package, members@);
    let ghost show = |package: Package| listed("\u{2717}"@, package);
    let mut excluded: Vec<String> = Vec::new();
    let mut k: usize = 0;
    assert(texts(excluded@) =~= picked(packages@.take(0), pick).map_values(show));
    while k < packages.len()
        invariant
            k <= packages.len(),
            pick == (|package: Package| !is_member(package, members@)),
            show == (|package: Package| listed("\u{2717}"@, package)),
            forall|j: int|
                0 <= j < packages.len() ==> parent_of((#[trigger] packages@[j]).manifest_path@) is Some,
            texts(excluded@) == picked(packages@.take(k as int), pick).map_values(show),
        decreases packages.len() - k,
    {
        let ghost so_far = texts(excluded@);
        assert(packages@.take(k + 1).drop_last() =~= packages@.take(k as int));
        assert(packages@.take(k + 1).last() == packages@[k as int]);
        if !is_among(members.as_slice(), packages[k].id.as_str()) {
            excluded.push(list_package("\u{2717}", &packages[k]));
            assert(texts(excluded@) =~= so_far.push(listed("\u{2717}"@, packages@[k as int])));
        }
        k += 1;
        assert(texts(excluded@) =~= picked(packages@.take(k as int), pick).map_values(show));
    }
    assert(packages@.take(k as int) =~= packages@);
    PackageReport { members: listed_members, excluded, total: packages.len() }
}

/// A package is kept in order exactly if its id is that of a member and its name has neither `test`
/// nor `example` in it.
pub proof fn tests_and_examples_are_not_tended(package: Package, members: Seq<String>)
    ensures
        is_tended(package, members) <==> {
            &&& exists|k: int| 0 <= k < members.len() && (#[trigger] members[k])@ == package.id@
            &&& !occurs(package.name@, "test"@)
            &&& !occurs(package.name@, "example"@)
        },
        is_member(package, members) <==> exists|k: int|
            0 <= k < members.len() && (#[trigger] members[k])@ == package.id@,
{
    if is_member(package, members) {
        let k = choose|k: int| 0 <= k < texts(members).len() && texts(members)[k] == package.id@;
        assert(members[k]@ == package.id@);
    }
    if exists|k: int| 0 <= k < members.len() && (#[trigger] members[k])@ == package.id@ {
        let k = choose|k: int| 0 <= k < members.len() && (#[trigger] members[k])@ == package.id@;
        assert(texts(members)[k] == package.id@);
    }
}

/// The picked packages of two lists are those of the first and then those of the second, and a
/// package by itself is among them exactly if it is picked.
pub proof fn packages_are_looked_at_one_by_one(
    a: Seq<Package>,
    b: Seq<Package>,
    package: Package,
    pick: spec_fn(Package) -> bool,
)
    ensures
        picked(a + b, pick) == picked(a, pick) + picked(b, pick),
        pick(package) ==> picked(seq![package], pick) == seq![package],
        !pick(package) ==> picked(seq![package], pick).len() == 0,
    decreases b.len(),
{
    let one = seq![package];
    assert(one.drop_last() =~= seq![]);
    assert(picked(one.drop_last(), pick) =~= seq![]);
    assert(picked(one, pick) =~= if pick(package) {
        seq![package]
    } else {
        seq![]
    });
    if b.len() == 0 {
        assert(a + b =~= a);
        assert(picked(a, pick) + picked(b, pick) =~= picked(a, pick));
    } else {
        assert((a + b).drop_last() =~= a + b.drop_last());
        packages_are_looked_at_one_by_one(a, b.drop_last(), package, pick);
        assert(picked(a + b, pick) =~= picked(a, pick) + picked(b, pick));
    }
}

proof fn picked_are_those(packages: Seq<Package>, pick: spec_fn(Package) -> bool, package: Package)
    ensures
        picked(packages, pick).contains(package) <==> packages.contains(package) && pick(package),
    decreases packages.len(),
{
    if packages.len() > 0 {
        let front = packages.drop_last();
        let rest = picked(front, pick);
        let all = picked(packages, pick);
        let last = packages.len() - 1;
        picked_are_those(front, pick, package);
        if packages.contains(package) && pick(package) {
            let i = choose|i: int| 0 <= i < packages.len() && packages[i] == package;
            if i < last {
                assert(front[i] == package);
                let k = choose|k: int| 0 <= k < rest.len() && rest[k] == package;
                assert(all[k] == package);
            } else {
                assert(all[all.len() - 1] == package);
            }
        }
        if all.contains(package) {
            let k = choose|k: int| 0 <= k < all.len() && all[k] == package;
            if k < rest.len() {
                assert(rest[k] == package);
                let i = choose|i: int| 0 <= i < front.len() && front[i] == package;
                assert(packages[i] == package);
            } else {
                assert(packages[last] == package);
            }
        }
    }
}

/// A complaint about an edition is made of exactly the members whose edition is not 2024, in their
/// order, after that about the workspace.
pub proof fn outdated_members_are_complained_about(
    root_path: Seq<char>,
    root_content: Option<Seq<char>>,
    packages: Seq<Package>,
    members: Seq<String>,
    package: Package,
)
    ensures
        outdated_members(packages, members).contains(package) <==> packages.contains(package)
            && texts(members).contains(package.id@) && package.edition@ != "2024"@,
        ({
            let all = edition_complaints(root_path, root_content, packages, members);
            let root = root_complaint(root_path, root_content);
            let outdated = outdated_members(packages, members);
            &&& all.len() == root.len() + outdated.len()
            &&& all.take(root.len() as int) == root
            &&& forall|i: int|
                0 <= i < outdated.len() ==> #[trigger] all[root.len() + i]
                    == outdated[i].manifest_path@ + ": edition = \""@ + outdated[i].edition@
                    + "\" (expected \"2024\")"@
        }),
{
    picked_are_those(
        packages,
        |package: Package| is_member(package, members) && package.edition@ != EDITION@,
        package,
    );
    let all = edition_complaints(root_path, root_content, packages, members);
    let root = root_complaint(root_path, root_content);
    assert(all.take(root.len() as int) =~= root);
}

/// A workspace that declares an edition other than 2024 for its packages is complained about, and
/// one that declares none, or whose manifest cannot be read, is not.
pub proof fn outdated_workspace_is_complained_about(path: Seq<char>, content: Seq<char>)
    ensures
        root_complaint(path, None).len() == 0,
        toml_read(content) is Err ==> root_complaint(path, Some(content)).len() == 0,
        toml_read(content) matches Ok(entries) ==> match workspace_edition_of(entries) {
            Some(edition) => {
                &&& edition == "2024"@ ==> root_complaint(path, Some(content)).len() == 0
                &&& edition != "2024"@ ==> root_complaint(path, Some(content)) == seq![
                    path + ": [workspace.package].edition = "@ + quoted(edition)
                        + " (expected \"2024\")"@,
                ]
            },
            None => root_complaint(path, Some(content)).len() == 0,
        },
{
}

/// Why cargo has no metadata is told by what it says: that it could not find a manifest counts
/// first, then that the workspace has no members.
pub proof fn failures_are_told_apart(error: Seq<char>)
    ensures
        failure_of(error) == MetadataFailure::NoManifest <==> occurs(error, "could not find"@),
        failure_of(error) == MetadataFailure::NoMembers <==> !occurs(error, "could not find"@) && (
        occurs(error, "virtual manifest"@) || occurs(error, "no members"@)),
{
    reveal_strlit("workspace has no members");
    reveal_strlit("no members");
    if occurs(error, "workspace has no members"@) {
        let at = choose|at: int| occurs_at(error, "workspace has no members"@, at);
        assert("workspace has no members"@.subrange(14, 24) =~= "no members"@);
        assert(error.subrange(at + 14, at + 24) =~= error.subrange(at, at + 24).subrange(14, 24));
        assert(occurs_at(error, "no members"@, at + 14));
    }
}

/// The jobs that set up arborium in a directory are that for the header, exactly if the header is
/// not there as it should be, and then that for the manifest, if that takes an edit; there is no
/// other.
pub proof fn setting_up_takes_header_and_manifest(
    jobs: Seq<Job>,
    dir: Seq<char>,
    files: PackageFiles,
)
    requires
        sets_up(jobs, dir, files),
    ensures
        ({
            let in_place = files.header matches Some(bytes) && bytes@ == encode_utf8(
                ARBORIUM_HEADER@,
            );
            let headers: int = if in_place {
                0
            } else {
                1
            };
            &&& headers <= jobs.len() <= headers + 1
            &&& !in_place ==> {
                &&& jobs[0].path@ == joined_path(dir, "arborium-header.html"@)
                &&& jobs[0].new_content@ == encode_utf8(ARBORIUM_HEADER@)
                &&& !jobs[0].executable
                &&& files.header is None ==> jobs[0].old_content is None
                &&& files.header matches Some(old) ==> jobs[0].old_content matches Some(kept)
                    && kept@ == old@
            }
            &&& files.manifest is None ==> jobs.len() == headers
            &&& files.manifest matches Some(text) ==> rewrites(
                if jobs.len() > headers {
                    Some(jobs[headers])
                } else {
                    None
                },
                joined_path(dir, "Cargo.toml"@),
                text@,
                ManifestEdit::DocsrsMetadata,
            )
        }),
{
}

/// Lists one after the other hold exactly the jobs of all of them, as many as all have.
pub proof fn lists_keep_their_jobs(lists: Seq<Seq<Job>>, job: Job)
    ensures
        one_after_other(lists).contains(job) <==> exists|i: int|
            0 <= i < lists.len() && (#[trigger] lists[i]).contains(job),
    decreases lists.len(),
{
    if lists.len() > 0 {
        let front = lists.drop_last();
        let before = one_after_other(front);
        let all = one_after_other(lists);
        let last = lists.len() - 1;
        lists_keep_their_jobs(front, job);
        if all.contains(job) {
            let k = choose|k: int| 0 <= k < all.len() && all[k] == job;
            if k < before.len() {
                assert(before[k] == job);
                let i = choose|i: int| 0 <= i < front.len() && (#[trigger] front[i]).contains(job);
                assert(lists[i].contains(job));
            } else {
                assert(lists.last()[k - before.len()] == job);
                assert(lists[last].contains(job));
            }
        }
        if exists|i: int| 0 <= i < lists.len() && (#[trigger] lists[i]).contains(job) {
            let i = choose|i: int| 0 <= i < lists.len() && (#[trigger] lists[i]).contains(job);
            if i < last {
                assert(front[i].contains(job));
                let k = choose|k: int| 0 <= k < before.len() && before[k] == job;
                assert(all[k] == job);
            } else {
                let k = choose|k: int| 0 <= k < lists[i].len() && lists[i][k] == job;
                assert(all[before.len() + k] == job);
            }
        }
    }
}

/// Every package that is kept in order and has no header as it should be gets one, and the manifest
/// of every one that needs the arguments for rustdoc is rewritten, unless it prints as it reads.
pub proof fn every_tended_package_is_set_up(
    jobs: Seq<Job>,
    packages: Seq<Package>,
    members: Seq<String>,
    files: Seq<PackageFiles>,
    i: int,
)
    requires
        sets_up_all(jobs, packages, members, files),
        0 <= i < packages.len(),
        texts(members).contains(packages[i].id@),
        !occurs(packages[i].name@, "test"@),
        !occurs(packages[i].name@, "example"@),
        parent_of(packages[i].manifest_path@) is Some,
    ensures
        ({
            let dir = parent_of(packages[i].manifest_path@)->0;
            let in_place = files[i].header matches Some(bytes) && bytes@ == encode_utf8(
                ARBORIUM_HEADER@,
            );
            &&& !in_place ==> exists|k: int|
                0 <= k < jobs.len() && (#[trigger] jobs[k]).path@ == joined_path(
                    dir,
                    "arborium-header.html"@,
                ) && jobs[k].new_content@ == encode_utf8(ARBORIUM_HEADER@)
            &&& (files[i].manifest matches Some(text) && toml_read(text@) matches Ok(entries)
                && ManifestEdit::DocsrsMetadata.needed(entries)) ==> {
                ||| exists|k: int|
                    0 <= k < jobs.len() && rewrites(
                        Some(#[trigger] jobs[k]),
                        joined_path(dir, "Cargo.toml"@),
                        files[i].manifest->0@,
                        ManifestEdit::DocsrsMetadata,
                    )
                ||| rewrites(
                    None,
                    joined_path(dir, "Cargo.toml"@),
                    files[i].manifest->0@,
                    ManifestEdit::DocsrsMetadata,
                )
            }
        }),
{
    let lists = choose|lists: Seq<Seq<Job>>|
        {
            &&& jobs == #[trigger] one_after_other(lists)
            &&& lists.len() == packages.len()
            &&& forall|i: int|
                0 <= i < lists.len() ==> sets_up_package(
                    #[trigger] lists[i],
                    packages[i],
                    members,
                    files[i],
                )
        };
    let dir = parent_of(packages[i].manifest_path@)->0;
    let own = lists[i];
    assert(sets_up_package(own, packages[i], members, files[i]));
    assert(sets_up(own, dir, files[i]));
    assert forall|k: int| 0 <= k < own.len() implies jobs.contains(#[trigger] own[k]) by {
        assert(lists[i].contains(own[k]));
        lists_keep_their_jobs(lists, own[k]);
    }
    let headers: int = if header_in_place(files[i].header) {
        0
    } else {
        1
    };
    if headers == 1 {
        assert(jobs.contains(own[0]));
        let k = choose|k: int| 0 <= k < jobs.len() && jobs[k] == own[0];
        assert(jobs[k].path@ == joined_path(dir, "arborium-header.html"@));
    }
    if own.len() > headers {
        assert(jobs.contains(own[headers]));
        let k = choose|k: int| 0 <= k < jobs.len() && jobs[k] == own[headers];
        if files[i].manifest is Some {
            assert(rewrites(
                Some(jobs[k]),
                joined_path(dir, "Cargo.toml"@),
                files[i].manifest->0@,
                ManifestEdit::DocsrsMetadata,
            ));
        }
    }
}

/// Nothing is written for packages that are not kept in order: each job that sets up arborium is for
/// the header or the manifest in the directory of one that is.
pub proof fn only_tended_packages_are_set_up(
    jobs: Seq<Job>,
    packages: Seq<Package>,
    members: Seq<String>,
    files: Seq<PackageFiles>,
    k: int,
)
    requires
        sets_up_all(jobs, packages, members, files),
        0 <= k < jobs.len(),
    ensures
        exists|i: int|
            {
                &&& 0 <= i < packages.len()
                &&& texts(members).contains((#[trigger] packages[i]).id@)
                &&& !occurs(packages[i].name@, "test"@)
                &&& !occurs(packages[i].name@, "example"@)
                &&& parent_of(packages[i].manifest_path@) matches Some(dir)
                &&& jobs[k].path@ == joined_path(dir, "arborium-header.html"@) || jobs[k].path@
                    == joined_path(dir, "Cargo.toml"@)
            },
{
    let lists = choose|lists: Seq<Seq<Job>>|
        {
            &&& jobs == #[trigger] one_after_other(lists)
            &&& lists.len() == packages.len()
            &&& forall|i: int|
                0 <= i < lists.len() ==> sets_up_package(
                    #[trigger] lists[i],
                    packages[i],
                    members,
                    files[i],
                )
        };
    assert(jobs.contains(jobs[k]));
    lists_keep_their_jobs(lists, jobs[k]);
    let i = choose|i: int| 0 <= i < lists.len() && (#[trigger] lists[i]).contains(jobs[k]);
    assert(sets_up_package(lists[i], packages[i], members, files[i]));
    let n = choose|n: int| 0 <= n < lists[i].len() && lists[i][n] == jobs[k];
    assert(texts(members).contains(packages[i].id@));
}

/// What a file will hold is what the last job for its path writes, and what it holds if there is no
/// such job.
pub proof fn last_job_for_path_counts(
    before: Seq<Job>,
    job: Job,
    after: Seq<Job>,
    path: Seq<char>,
    content: Option<Seq<char>>,
)
    requires
        forall|i: int| 0 <= i < after.len() ==> (#[trigger] after[i]).path@ != path,
    ensures
        job.path@ == path ==> pending_text(before + seq![job] + after, path, content) == Some(
            lossy_text(job.new_content@),
        ),
        pending_text(after, path, content) == content,
    decreases after.len(),
{
    let all = before + seq![job] + after;
    if after.len() == 0 {
        assert(all.last() == job);
    } else {
        let rest = after.drop_last();
        assert(after[after.len() - 1].path@ != path);
        assert(all.last() == after.last());
        assert(all.drop_last() =~= before + seq![job] + rest);
        assert forall|i: int| 0 <= i < rest.len() implies (#[trigger] rest[i]).path@ != path by {
            assert(rest[i] == after[i]);
        }
        last_job_for_path_counts(before, job, rest, path, content);
    }
}

/// Enforcing the Rust version takes at most one job in a package, which rewrites its manifest, and
/// none in one that is not kept in order or whose manifest cannot be read.
pub proof fn enforcing_rewrites_manifest(
    jobs: Seq<Job>,
    package: Package,
    members: Seq<String>,
    manifest: Option<Seq<char>>,
    pending: Seq<Job>,
    dir: Seq<char>,
)
    requires
        enforces_in_package(jobs, package, members, manifest, pending),
        parent_of(package.manifest_path@) == Some(dir),
    ensures
        ({
            let path = joined_path(dir, "Cargo.toml"@);
            let tended = texts(members).contains(package.id@) && !occurs(package.name@, "test"@)
                && !occurs(package.name@, "example"@);
            &&& !tended ==> jobs.len() == 0
            &&& pending_text(pending, path, manifest) is None ==> jobs.len() == 0
            &&& tended ==> (pending_text(pending, path, manifest) matches Some(text) ==> {
                ||| jobs.len() == 0 && rewrites(None, path, text, ManifestEdit::RustVersion)
                ||| jobs.len() == 1 && rewrites(
                    Some(jobs[0]),
                    path,
                    text,
                    ManifestEdit::RustVersion,
                )
            })
        }),
{
}

/// A manifest is complained about exactly if it can be read and is not TOML.
pub proof fn only_bad_manifests_are_complained_about(path: Seq<char>, content: Seq<char>)
    ensures
        manifest_complaint(path, None).len() == 0,
        match toml_read(content) {
            Ok(_) => manifest_complaint(path, Some(content)).len() == 0,
            Err(complaint) => manifest_complaint(path, Some(content)) == seq![
                "Failed to parse "@ + path + " as TOML: "@ + complaint,
            ],
        },
{
}

/// Every complaint about an edition is shown, in its order, between a heading and what to do.
pub proof fn complaints_are_shown(errors: Seq<Seq<char>>)
    ensures
        outdated_lines(errors).len() == errors.len() + 4,
        forall|i: int|
            0 <= i < errors.len() ==> #[trigger] outdated_lines(errors)[i + 2] == "  "@ + in_yellow(
                "fix:"@,
            ) + " "@ + errors[i],
{
}

/// Every package that is kept in order and whose manifest will need the Rust version gets a job that
/// rewrites it, unless it prints as it reads.
pub proof fn every_tended_package_is_enforced(
    jobs: Seq<Job>,
    packages: Seq<Package>,
    members: Seq<String>,
    manifests: Seq<Option<String>>,
    pending: Seq<Job>,
    i: int,
    dir: Seq<char>,
    text: Seq<char>,
)
    requires
        enforces_in_all(jobs, packages, members, manifests, pending),
        0 <= i < packages.len(),
        texts(members).contains(packages[i].id@),
        !occurs(packages[i].name@, "test"@),
        !occurs(packages[i].name@, "example"@),
        parent_of(packages[i].manifest_path@) == Some(dir),
        pending_text(pending, joined_path(dir, "Cargo.toml"@), opt_text(manifests[i])) == Some(text),
    ensures
        ({
            let path = joined_path(dir, "Cargo.toml"@);
            ||| rewrites(None, path, text, ManifestEdit::RustVersion)
            ||| exists|k: int|
                0 <= k < jobs.len() && rewrites(
                    Some(#[trigger] jobs[k]),
                    path,
                    text,
                    ManifestEdit::RustVersion,
                )
        }),
{
    let lists = choose|lists: Seq<Seq<Job>>|
        {
            &&& jobs == #[trigger] one_after_other(lists)
            &&& lists.len() == packages.len()
            &&& forall|i: int|
                0 <= i < lists.len() ==> enforces_in_package(
                    #[trigger] lists[i],
                    packages[i],
                    members,
                    opt_text(manifests[i]),
                    pending,
                )
        };
    let own = lists[i];
    assert(enforces_in_package(own, packages[i], members, opt_text(manifests[i]), pending));
    if own.len() == 1 {
        assert(lists[i].contains(own[0]));
        lists_keep_their_jobs(lists, own[0]);
        let k = choose|k: int| 0 <= k < jobs.len() && jobs[k] == own[0];
        assert(rewrites(
            Some(jobs[k]),
            joined_path(dir, "Cargo.toml"@),
            text,
            ManifestEdit::RustVersion,
        ));
    }
}

/// Each job that enforces the Rust version is for the manifest of a package that is kept in order.
pub proof fn only_tended_packages_are_enforced(
    jobs: Seq<Job>,
    packages: Seq<Package>,
    members: Seq<String>,
    manifests: Seq<Option<String>>,
    pending: Seq<Job>,
    k: int,
)
    requires
        enforces_in_all(jobs, packages, members, manifests, pending),
        0 <= k < jobs.len(),
    ensures
        exists|i: int|
            {
                &&& 0 <= i < packages.len()
                &&& texts(members).contains((#[trigger] packages[i]).id@)
                &&& !occurs(packages[i].name@, "test"@)
                &&& !occurs(packages[i].name@, "example"@)
                &&& parent_of(packages[i].manifest_path@) matches Some(dir)
                &&& jobs[k].path@ == joined_path(dir, "Cargo.toml"@)
            },
{
    let lists = choose|lists: Seq<Seq<Job>>|
        {
            &&& jobs == #[trigger] one_after_other(lists)
            &&& lists.len() == packages.len()
            &&& forall|i: int|
                0 <= i < lists.len() ==> enforces_in_package(
                    #[trigger] lists[i],
                    packages[i],
                    members,
                    opt_text(manifests[i]),
                    pending,
                )
        };
    assert(jobs.contains(jobs[k]));
    lists_keep_their_jobs(lists, jobs[k]);
    let i = choose|i: int| 0 <= i < lists.len() && (#[trigger] lists[i]).contains(jobs[k]);
    assert(enforces_in_package(lists[i], packages[i], members, opt_text(manifests[i]), pending));
    let n = choose|n: int| 0 <= n < lists[i].len() && lists[i][n] == jobs[k];
    assert(texts(members).contains(packages[i].id@));
}

/// Complaints are made of exactly the manifests of packages that are kept in order that can be read
/// and are not TOML.
pub proof fn bad_manifests_are_complained_about(
    packages: Seq<Package>,
    members: Seq<String>,
    held: spec_fn(int, Seq<char>) -> Option<Seq<char>>,
    said: Seq<char>,
)
    ensures
        manifest_complaints(packages, members, held).contains(said) <==> exists|i: int|
            {
                &&& 0 <= i < packages.len()
                &&& texts(members).contains((#[trigger] packages[i]).id@)
                &&& !occurs(packages[i].name@, "test"@)
                &&& !occurs(packages[i].name@, "example"@)
                &&& parent_of(packages[i].manifest_path@) matches Some(dir)
                &&& held(i, joined_path(dir, "Cargo.toml"@)) matches Some(text)
                &&& toml_read(text) matches Err(complaint)
                &&& said == "Failed to parse "@ + joined_path(dir, "Cargo.toml"@) + " as TOML: "@
                    + complaint
            },
    decreases packages.len(),
{
    if packages.len() > 0 {
        let front = packages.drop_last();
        let last = packages.len() - 1;
        let before = manifest_complaints(front, members, held);
        let all = manifest_complaints(packages, members, held);
        bad_manifests_are_complained_about(front, members, held, said);
        if before.contains(said) {
            let k = choose|k: int| 0 <= k < before.len() && before[k] == said;
            assert(all[k] == said);
            let i = choose|i: int|
                {
                    &&& 0 <= i < front.len()
                    &&& texts(members).contains((#[trigger] front[i]).id@)
                    &&& !occurs(front[i].name@, "test"@)
                    &&& !occurs(front[i].name@, "example"@)
                    &&& parent_of(front[i].manifest_path@) matches Some(dir)
                    &&& held(i, joined_path(dir, "Cargo.toml"@)) matches Some(text)
                    &&& toml_read(text) matches Err(complaint)
                    &&& said == "Failed to parse "@ + joined_path(dir, "Cargo.toml"@)
                        + " as TOML: "@ + complaint
                };
            assert(packages[i] == front[i]);
        }
        if all.contains(said) && !before.contains(said) {
            let k = choose|k: int| 0 <= k < all.len() && all[k] == said;
            if k < before.len() {
                assert(before[k] == said);
            }
            assert(texts(members).contains(packages[last].id@));
        }
        if exists|i: int|
            {
                &&& 0 <= i < packages.len()
                &&& texts(members).contains((#[trigger] packages[i]).id@)
                &&& !occurs(packages[i].name@, "test"@)
                &&& !occurs(packages[i].name@, "example"@)
                &&& parent_of(packages[i].manifest_path@) matches Some(dir)
                &&& held(i, joined_path(dir, "Cargo.toml"@)) matches Some(text)
                &&& toml_read(text) matches Err(complaint)
                &&& said == "Failed to parse "@ + joined_path(dir, "Cargo.toml"@) + " as TOML: "@
                    + complaint
            } {
            let i = choose|i: int|
                {
                    &&& 0 <= i < packages.len()
                    &&& texts(members).contains((#[trigger] packages[i]).id@)
                    &&& !occurs(packages[i].name@, "test"@)
                    &&& !occurs(packages[i].name@, "example"@)
                    &&& parent_of(packages[i].manifest_path@) matches Some(dir)
                    &&& held(i, joined_path(dir, "Cargo.toml"@)) matches Some(text)
                    &&& toml_read(text) matches Err(complaint)
                    &&& said == "Failed to parse "@ + joined_path(dir, "Cargo.toml"@)
                        + " as TOML: "@ + complaint
                };
            if i < last {
                assert(front[i] == packages[i]);
            } else {
                assert(all[before.len() as int] == said);
            }
        }
    }
}

/// The package with an id is the first one that has it.
pub proof fn first_package_with_id(packages: Seq<Package>, id: Seq<char>, i: int)
    ensures
        0 <= i < packages.len() && packages[i].id@ == id && (forall|j: int|
            0 <= j < i ==> (#[trigger] packages[j]).id@ != id) ==> package_with_id(packages, id)
            == Some(packages[i]),
        (forall|j: int| 0 <= j < packages.len() ==> (#[trigger] packages[j]).id@ != id)
            ==> package_with_id(packages, id) is None,
    decreases packages.len(),
{
    if packages.len() > 0 {
        let rest = packages.skip(1);
        first_package_with_id(rest, id, i - 1);
        assert(packages[0].id@ == packages[0].id@);
        if forall|j: int| 0 <= j < i ==> (#[trigger] packages[j]).id@ != id {
            assert forall|j: int| 0 <= j < i - 1 && j < rest.len() implies (#[trigger] rest[j]).id@
                != id by {
                assert(rest[j] == packages[j + 1]);
            }
        }
        if forall|j: int| 0 <= j < packages.len() ==> (#[trigger] packages[j]).id@ != id {
            assert forall|j: int| 0 <= j < rest.len() implies (#[trigger] rest[j]).id@ != id by {
                assert(rest[j] == packages[j + 1]);
            }
        }
    }
}

/// The members of two lists of ids are listed as those of the first and then those of the second,
/// each by the package that has its id.
pub proof fn members_are_listed_one_by_one(
    packages: Seq<Package>,
    a: Seq<String>,
    b: Seq<String>,
    id: String,
)
    ensures
        member_list(packages, a + b) == member_list(packages, a) + member_list(packages, b),
        match package_with_id(packages, id@) {
            Some(package) => member_list(packages, seq![id]) == seq![
                "  "@ + "\u{2713}"@ + " "@ + package.name@ + " ("@ + parent_of(
                    package.manifest_path@,
                )->0 + ")"@,
            ],
            None => member_list(packages, seq![id]).len() == 0,
        },
    decreases b.len(),
{
    let one = seq![id];
    assert(one.drop_last() =~= seq![]);
    assert(member_list(packages, one.drop_last()) =~= seq![]);
    match package_with_id(packages, id@) {
        Some(package) => {
            assert(member_list(packages, one) =~= seq![listed("\u{2713}"@, package)]);
        },
        None => {},
    }
    if b.len() == 0 {
        assert(a + b =~= a);
        assert(member_list(packages, a) + member_list(packages, b) =~= member_list(packages, a));
    } else {
        assert((a + b).drop_last() =~= a + b.drop_last());
        members_are_listed_one_by_one(packages, a, b.drop_last(), id);
        assert(member_list(packages, a + b) =~= member_list(packages, a) + member_list(packages, b));
    }
}

/// The excluded packages are those whose id is not that of a member.
pub proof fn excluded_packages_are_not_members(
    packages: Seq<Package>,
    members: Seq<String>,
    package: Package,
)
    ensures
        excluded_packages(packages, members).contains(package) <==> packages.contains(package)
            && !texts(members).contains(package.id@),
{
    picked_are_those(packages, |package: Package| !is_member(package, members), package);
}

/// What the manifest of each package holds is what its directory does, or what the pending jobs leave
/// in it.
pub proof fn manifests_hold_their_text(
    files: Seq<PackageFiles>,
    manifests: Seq<Option<String>>,
    pending: Seq<Job>,
    i: int,
    path: Seq<char>,
)
    ensures
        held_in(files)(i, path) == opt_text(files[i].manifest),
        held_after(manifests, pending)(i, path) == pending_text(
            pending,
            path,
            opt_text(manifests[i]),
        ),
{
}

}
