//! What a workspace is called.

use vstd::prelude::*;

use crate::json::{
    json_node, json_read, member, member_of, member_text, parse_json, text_member,
    text_of, JsonNode,
};
use crate::paths::{components_of, file_name, file_name_of, same_path};
use crate::text::{opt_text, same};

verus! {

broadcast use vstd::string::group_string_axioms;

/// The elements under `key` of an object; none if there is no list there.
pub open spec fn list_under(node: JsonNode, key: Seq<char>) -> Option<Seq<JsonNode>> {
    match member_of(node, key) {
        Some(JsonNode::List(nodes)) => Some(nodes),
        _ => None,
    }
}

/// The name of the first of these packages that has the id; none if there is no such package, if
/// it has no name, or if a package before it has no id.
pub open spec fn name_among(packages: Seq<JsonNode>, id: Seq<char>) -> Option<Seq<char>>
    decreases packages.len(),
{
    if packages.len() == 0 {
        None
    } else {
        match member_text(packages[0], "id"@) {
            None => None,
            Some(found) => if found == id {
                member_text(packages[0], "name"@)
            } else {
                name_among(packages.skip(1), id)
            },
        }
    }
}

/// The name of the package with an id, in cargo's metadata.
pub open spec fn name_by_id(metadata: JsonNode, id: Seq<char>) -> Option<Seq<char>> {
    match list_under(metadata, "packages"@) {
        Some(packages) => name_among(packages, id),
        None => None,
    }
}

/// The elements of a list of values, as contracts speak of them.
pub open spec fn nodes_of(values: Seq<serde_json::Value>) -> Seq<JsonNode> {
    values.map_values(|value: serde_json::Value| json_node(value))
}

fn elements_under<'a>(metadata: &'a serde_json::Value, key: &str) -> (r: Option<
    &'a Vec<serde_json::Value>,
>)
    ensures
        match r {
            Some(elements) => list_under(json_node(*metadata), key@) == Some(nodes_of(elements@)),
            None => list_under(json_node(*metadata), key@) is None,
        },
{
    match member(metadata, key) {
        Some(found) => found.as_array(),
        None => None,
    }
}

/// The name of the package with an id, in cargo's metadata.
pub fn package_name_by_id(metadata: &serde_json::Value, package_id: &str) -> (r: Option<String>)
    ensures
        opt_text(r) == name_by_id(json_node(*metadata), package_id@),
{
    let packages = match elements_under(metadata, "packages") {
        Some(packages) => packages,
        None => {
            return None;
        },
    };
    let ghost nodes = nodes_of(packages@);
    let mut i: usize = 0;
    assert(nodes.skip(0) =~= nodes);
    while i < packages.len()
        invariant
            i <= packages.len(),
            nodes == nodes_of(packages@),
            name_among(nodes.skip(i as int), package_id@) == name_by_id(
                json_node(*metadata),
                package_id@,
            ),
        decreases packages.len() - i,
    {
        assert(nodes.skip(i as int).skip(1) =~= nodes.skip(i + 1));
        assert(nodes.skip(i as int)[0] == json_node(packages@[i as int]));
        match text_member(&packages[i], "id") {
            Some(id) => {
                if same(id.as_str(), package_id) {
                    return text_member(&packages[i], "name");
                }
            },
            None => {
                return None;
            },
        }
        i += 1;
    }
    None
}

/// The id of the package that cargo resolves the workspace's dependencies for.
pub open spec fn root_id(metadata: JsonNode) -> Option<Seq<char>> {
    match member_of(metadata, "resolve"@) {
        Some(resolve) => member_text(resolve, "root"@),
        None => None,
    }
}

/// The name of the first of these members that has one.
pub open spec fn first_name(metadata: JsonNode, members: Seq<JsonNode>) -> Option<Seq<char>>
    decreases members.len(),
{
    if members.len() == 0 {
        None
    } else {
        let name = match text_of(members[0]) {
            Some(id) => name_by_id(metadata, id),
            None => None,
        };
        if name is Some {
            name
        } else {
            first_name(metadata, members.skip(1))
        }
    }
}

/// The name that the metadata declares for the workspace: that of the root package, or else of the
/// first default member that has one.
pub open spec fn declared_name(metadata: JsonNode) -> Option<Seq<char>> {
    let root = match root_id(metadata) {
        Some(id) => name_by_id(metadata, id),
        None => None,
    };
    if root is Some {
        root
    } else {
        match list_under(metadata, "workspace_default_members"@) {
            Some(members) => first_name(metadata, members),
            None => None,
        }
    }
}

/// The name that the metadata declares for the workspace.
pub fn declared_workspace_name(metadata: &serde_json::Value) -> (r: Option<String>)
    ensures
        opt_text(r) == declared_name(json_node(*metadata)),
{
    if let Some(resolve) = member(metadata, "resolve") {
        if let Some(id) = text_member(resolve, "root") {
            if let Some(name) = package_name_by_id(metadata, id.as_str()) {
                return Some(name);
            }
        }
    }
    let members = match elements_under(metadata, "workspace_default_members") {
        Some(members) => members,
        None => {
            return None;
        },
    };
    let ghost nodes = nodes_of(members@);
    let mut i: usize = 0;
    assert(nodes.skip(0) =~= nodes);
    while i < members.len()
        invariant
            i <= members.len(),
            nodes == nodes_of(members@),
            first_name(json_node(*metadata), nodes.skip(i as int)) == declared_name(
                json_node(*metadata),
            ),
        decreases members.len() - i,
    {
        assert(nodes.skip(i as int).skip(1) =~= nodes.skip(i + 1));
        assert(nodes.skip(i as int)[0] == json_node(members@[i as int]));
        if let Some(id) = members[i].as_str() {
            if let Some(name) = package_name_by_id(metadata, id) {
                return Some(name);
            }
        }
        i += 1;
    }
    None
}

/// A package that the workspace may be called after.
pub struct Candidate {
    pub name: String,
    pub manifest_path: String,
}

impl View for Candidate {
    type V = (Seq<char>, Seq<char>);

    open spec fn view(&self) -> (Seq<char>, Seq<char>) {
        (self.name@, self.manifest_path@)
    }
}

/// The packages that have both a name and a manifest, in their order.
pub open spec fn candidates_among(packages: Seq<JsonNode>) -> Seq<(Seq<char>, Seq<char>)>
    decreases packages.len(),
{
    if packages.len() == 0 {
        seq![]
    } else {
        let rest = candidates_among(packages.drop_last());
        match (
            member_text(packages.last(), "name"@),
            member_text(packages.last(), "manifest_path"@),
        ) {
            (Some(name), Some(manifest_path)) => rest.push((name, manifest_path)),
            _ => rest,
        }
    }
}

/// The packages of the metadata that the workspace may be called after.
pub open spec fn candidates_of(metadata: JsonNode) -> Seq<(Seq<char>, Seq<char>)> {
    match list_under(metadata, "packages"@) {
        Some(packages) => candidates_among(packages),
        None => seq![],
    }
}

/// Candidates, as contracts speak of them.
pub open spec fn candidate_views(candidates: Seq<Candidate>) -> Seq<(Seq<char>, Seq<char>)> {
    candidates.map_values(|candidate: Candidate| candidate@)
}

/// The packages of the metadata that the workspace may be called after.
pub fn name_candidates(metadata: &serde_json::Value) -> (r: Vec<Candidate>)
    ensures
        candidate_views(r@) == candidates_of(json_node(*metadata)),
{
    let mut r: Vec<Candidate> = Vec::new();
    assert(candidate_views(r@) =~= seq![]);
    let packages = match elements_under(metadata, "packages") {
        Some(packages) => packages,
        None => {
            return r;
        },
    };
    let ghost nodes = nodes_of(packages@);
    let mut i: usize = 0;
    assert(candidate_views(r@) =~= candidates_among(nodes.take(0)));
    while i < packages.len()
        invariant
            i <= packages.len(),
            nodes == nodes_of(packages@),
            candidate_views(r@) == candidates_among(nodes.take(i as int)),
        decreases packages.len() - i,
    {
        let ghost so_far = candidate_views(r@);
        assert(nodes.take(i + 1).drop_last() =~= nodes.take(i as int));
        assert(nodes.take(i + 1).last() == json_node(packages@[i as int]));
        if let Some(name) = text_member(&packages[i], "name") {
            if let Some(manifest_path) = text_member(&packages[i], "manifest_path") {
                let ghost added = (name@, manifest_path@);
                r.push(Candidate { name, manifest_path });
                assert(candidate_views(r@) =~= so_far.push(added));
            }
        }
        i += 1;
    }
    assert(nodes.take(i as int) =~= nodes);
    r
}

/// How far cargo's metadata tells what the workspace is called.
pub enum NameSearch {
    /// It is called this.
    Found(String),
    /// It is called like the one of these that has the workspace's manifest, if any has.
    Among(Vec<Candidate>),
    /// The metadata is not JSON, and this is why.
    Unreadable(String),
}

/// What the workspace is called by what `cargo metadata` wrote.
pub fn search_name(output: &[u8]) -> (r: NameSearch)
    ensures
        match json_read(output@) {
            Ok(metadata) => match declared_name(metadata) {
                Some(wanted) => r matches NameSearch::Found(name) && name@ == wanted,
                None => r matches NameSearch::Among(candidates) && candidate_views(candidates@)
                    == candidates_of(metadata),
            },
            Err(complaint) => r matches NameSearch::Unreadable(why) && why@ == complaint,
        },
{
    let metadata = match parse_json(output) {
        Ok(metadata) => metadata,
        Err(complaint) => {
            return NameSearch::Unreadable(complaint);
        },
    };
    match declared_workspace_name(&metadata) {
        Some(name) => NameSearch::Found(name),
        None => NameSearch::Among(name_candidates(&metadata)),
    }
}

/// The name of the first candidate whose manifest is the workspace's. `canonical` holds each
/// candidate's manifest as a canonical path, if it has one.
pub open spec fn name_of_manifest(
    candidates: Seq<Candidate>,
    canonical: Seq<Option<String>>,
    manifest: Seq<char>,
) -> Option<Seq<char>>
    decreases candidates.len(),
{
    if candidates.len() == 0 {
        None
    } else if canonical[0] matches Some(path) && components_of(path@) == components_of(manifest) {
        Some(candidates[0].name@)
    } else {
        name_of_manifest(candidates.skip(1), canonical.skip(1), manifest)
    }
}

/// The name of the first candidate whose manifest is the workspace's. `canonical` holds each
/// candidate's manifest as a canonical path, if it has one, and `manifest` is the workspace's.
pub fn match_manifest(
    candidates: &Vec<Candidate>,
    canonical: &Vec<Option<String>>,
    manifest: &str,
) -> (r: Option<String>)
    requires
        candidates.len() == canonical.len(),
    ensures
        opt_text(r) == name_of_manifest(candidates@, canonical@, manifest@),
{
    let mut i: usize = 0;
    assert(candidates@.skip(0) =~= candidates@);
    assert(canonical@.skip(0) =~= canonical@);
    while i < candidates.len()
        invariant
            i <= candidates.len(),
            candidates.len() == canonical.len(),
            name_of_manifest(candidates@.skip(i as int), canonical@.skip(i as int), manifest@)
                == name_of_manifest(candidates@, canonical@, manifest@),
        decreases candidates.len() - i,
    {
        assert(candidates@.skip(i as int).skip(1) =~= candidates@.skip(i + 1));
        assert(canonical@.skip(i as int).skip(1) =~= canonical@.skip(i + 1));
        assert(canonical@.skip(i as int)[0] == canonical@[i as int]);
        if let Some(path) = &canonical[i] {
            if same_path(path.as_str(), manifest) {
                return Some(candidates[i].name.as_str().to_owned());
            }
        }
        i += 1;
    }
    None
}

/// What a workspace is called when cargo does not tell: like its directory, or else `default`.
pub fn fallback_name(workspace_dir: &str, default: &str) -> (r: String)
    ensures
        r@ == match file_name_of(workspace_dir@) {
            Some(name) => name,
            None => default@,
        },
{
    match file_name(workspace_dir) {
        Some(name) => name,
        None => default.to_owned(),
    }
}

/// The name of the package with an id is that of the first package with it, as long as every package
/// before that has an id of its own.
pub proof fn first_package_with_id_is_named(packages: Seq<JsonNode>, id: Seq<char>, i: int)
    requires
        0 <= i <= packages.len(),
        forall|j: int|
            0 <= j < i ==> {
                &&& member_text(#[trigger] packages[j], "id"@) is Some
                &&& member_text(packages[j], "id"@) != Some(id)
            },
    ensures
        i == packages.len() ==> name_among(packages, id) is None,
        i < packages.len() && member_text(packages[i], "id"@) is None ==> name_among(
            packages,
            id,
        ) is None,
        i < packages.len() && member_text(packages[i], "id"@) == Some(id) ==> name_among(
            packages,
            id,
        ) == member_text(packages[i], "name"@),
    decreases i,
{
    if i > 0 {
        let rest = packages.skip(1);
        assert(member_text(packages[0], "id"@) != Some(id));
        assert forall|j: int| 0 <= j < i - 1 implies {
            &&& member_text(#[trigger] rest[j], "id"@) is Some
            &&& member_text(rest[j], "id"@) != Some(id)
        } by {
            assert(rest[j] == packages[j + 1]);
        }
        first_package_with_id_is_named(rest, id, i - 1);
    }
}

/// The packages are looked up in the list under `packages`, and without such a list there is no name.
pub proof fn packages_are_listed(metadata: JsonNode, packages: Seq<JsonNode>, id: Seq<char>)
    ensures
        member_of(metadata, "packages"@) == Some(JsonNode::List(packages)) ==> {
            &&& name_by_id(metadata, id) == name_among(packages, id)
            &&& candidates_of(metadata) == candidates_among(packages)
        },
        !(member_of(metadata, "packages"@) matches Some(node) && node is List) ==> {
            &&& name_by_id(metadata, id) is None
            &&& candidates_of(metadata).len() == 0
        },
{
}

/// The first default member with a name gives it to the workspace.
pub proof fn first_named_member_counts(
    metadata: JsonNode,
    members: Seq<JsonNode>,
    i: int,
    id: Seq<char>,
    name: Seq<char>,
)
    requires
        0 <= i <= members.len(),
        forall|j: int|
            0 <= j < i ==> (text_of(#[trigger] members[j]) matches Some(other) ==> name_by_id(
                metadata,
                other,
            ) is None),
    ensures
        i == members.len() ==> first_name(metadata, members) is None,
        i < members.len() && members[i] == JsonNode::Text(id) && name_by_id(metadata, id) == Some(
            name,
        ) ==> first_name(metadata, members) == Some(name),
    decreases i,
{
    if i > 0 {
        let rest = members.skip(1);
        assert(text_of(members[0]) matches Some(other) ==> name_by_id(metadata, other) is None);
        assert forall|j: int| 0 <= j < i - 1 implies (text_of(#[trigger] rest[j]) matches Some(other)
            ==> name_by_id(metadata, other) is None) by {
            assert(rest[j] == members[j + 1]);
        }
        first_named_member_counts(metadata, rest, i - 1, id, name);
    }
}

/// A workspace is called after its root package, and only if that has no name after its first
/// default member with one.
pub proof fn root_package_names_workspace(
    metadata: JsonNode,
    resolve: JsonNode,
    id: Seq<char>,
    members: Seq<JsonNode>,
)
    ensures
        member_of(metadata, "resolve"@) == Some(resolve) && member_of(resolve, "root"@) == Some(
            JsonNode::Text(id),
        ) && name_by_id(metadata, id) is Some ==> declared_name(metadata) == name_by_id(metadata, id),
        (member_of(metadata, "resolve"@) is None || (member_of(metadata, "resolve"@) == Some(resolve)
            && (!(member_of(resolve, "root"@) matches Some(node) && node is Text) || (member_of(
            resolve,
            "root"@,
        ) == Some(JsonNode::Text(id)) && name_by_id(metadata, id) is None)))) ==> {
            &&& member_of(metadata, "workspace_default_members"@) == Some(JsonNode::List(members))
                ==> declared_name(metadata) == first_name(metadata, members)
            &&& member_of(metadata, "workspace_default_members"@) is None ==> declared_name(
                metadata,
            ) is None
        },
{
}

/// The candidates of two lists of packages are those of the first and then those of the second, and
/// a package is one exactly if it has both a name and a manifest.
pub proof fn packages_with_name_and_manifest_are_candidates(
    a: Seq<JsonNode>,
    b: Seq<JsonNode>,
    package: JsonNode,
)
    ensures
        candidates_among(a + b) == candidates_among(a) + candidates_among(b),
        match (member_text(package, "name"@), member_text(package, "manifest_path"@)) {
            (Some(name), Some(path)) => candidates_among(seq![package]) == seq![(name, path)],
            _ => candidates_among(seq![package]).len() == 0,
        },
    decreases b.len(),
{
    let one = seq![package];
    assert(one.drop_last() =~= seq![]);
    assert(candidates_among(one.drop_last()) =~= seq![]);
    match (member_text(package, "name"@), member_text(package, "manifest_path"@)) {
        (Some(name), Some(path)) => {
            assert(candidates_among(one) =~= seq![(name, path)]);
        },
        _ => {},
    }
    if b.len() == 0 {
        assert(a + b =~= a);
        assert(candidates_among(a) + candidates_among(b) =~= candidates_among(a));
    } else {
        assert((a + b).drop_last() =~= a + b.drop_last());
        packages_with_name_and_manifest_are_candidates(a, b.drop_last(), package);
        assert(candidates_among(a + b) =~= candidates_among(a) + candidates_among(b));
    }
}

/// The first candidate whose manifest is that of the workspace gives its name to it.
pub proof fn first_candidate_with_manifest_counts(
    candidates: Seq<Candidate>,
    canonical: Seq<Option<String>>,
    manifest: Seq<char>,
    i: int,
)
    requires
        candidates.len() == canonical.len(),
        0 <= i <= candidates.len(),
        forall|j: int|
            0 <= j < i ==> !(#[trigger] canonical[j] matches Some(path) && components_of(path@)
                == components_of(manifest)),
    ensures
        i == candidates.len() ==> name_of_manifest(candidates, canonical, manifest) is None,
        i < candidates.len() && (canonical[i] matches Some(path) && components_of(path@)
            == components_of(manifest)) ==> name_of_manifest(candidates, canonical, manifest) == Some(
            candidates[i].name@,
        ),
    decreases i,
{
    if i > 0 {
        let rest = canonical.skip(1);
        assert(!(canonical[0] matches Some(path) && components_of(path@) == components_of(manifest)));
        assert forall|j: int| 0 <= j < i - 1 implies !(#[trigger] rest[j] matches Some(path)
            && components_of(path@) == components_of(manifest)) by {
            assert(rest[j] == canonical[j + 1]);
        }
        first_candidate_with_manifest_counts(candidates.skip(1), rest, manifest, i - 1);
    }
}

}
