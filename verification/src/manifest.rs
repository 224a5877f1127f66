//! Reading and editing `Cargo.toml` files.

use toml_edit::{DocumentMut, Item, Table};
use vstd::prelude::*;
use vstd::utf8::encode_utf8;

use crate::job::Job;
use crate::text::{opt_text, same, texts};
use crate::toml::{
    child_of, document_root, document_text, empty_table, entry_of, entry_or_insert, item_get,
    item_node, item_strings, node_texts, parse_document, print_document, table_entries, text_item,
    text_list, text_list_item, toml_entries, toml_read, TomlNode,
};

verus! {

broadcast use vstd::string::group_string_axioms;

/// The Rust version that every crate declares.
pub const RUST_VERSION: &'static str = "1.87";

/// What rustdoc is given to highlight code with arborium.
pub open spec fn docsrs_arguments() -> Seq<Seq<char>> {
    seq!["--html-in-header"@, "arborium-header.html"@]
}

/// What rustdoc is given to highlight code with arborium.
pub fn docsrs_args() -> (r: Vec<String>)
    ensures
        texts(r@) == docsrs_arguments(),
{
    let r = vec!["--html-in-header".to_owned(), "arborium-header.html".to_owned()];
    assert(texts(r@) =~= docsrs_arguments());
    r
}

/// Makes a table of an item that is none, and gives that table.
pub fn ensure_table(item: &mut Item) -> (r: &mut Table)
    ensures
        table_entries(*r) == match item_node(*old(item)) {
            TomlNode::Section(entries) => entries,
            _ => Map::empty(),
        },
        item_node(*final(item)) == TomlNode::Section(table_entries(*final(r))),
{
    if !item.is_table() {
        *item = empty_table();
    }
    item.as_table_mut().expect("item to be a table")
}

/// Whether a list holds exactly the expected texts.
pub fn array_matches(array: &Vec<Option<String>>, expected: &Vec<String>) -> (r: bool)
    ensures
        r == (array@.map_values(|s: Option<String>| opt_text(s)) == texts(expected@).map_values(
            |t: Seq<char>| Some(t),
        )),
{
    let ghost found = array@.map_values(|s: Option<String>| opt_text(s));
    let ghost wanted = texts(expected@).map_values(|t: Seq<char>| Some(t));
    if array.len() != expected.len() {
        assert(found.len() != wanted.len());
        return false;
    }
    let mut i: usize = 0;
    while i < array.len()
        invariant
            i <= array.len(),
            array.len() == expected.len(),
            found == array@.map_values(|s: Option<String>| opt_text(s)),
            wanted == texts(expected@).map_values(|t: Seq<char>| Some(t)),
            forall|j: int| 0 <= j < i ==> found[j] == wanted[j],
        decreases array.len() - i,
    {
        let matches = match &array[i] {
            Some(text) => same(text.as_str(), expected[i].as_str()),
            None => false,
        };
        if !matches {
            assert(found[i as int] != wanted[i as int]);
            return false;
        }
        assert(found[i as int] == wanted[i as int]);
        i += 1;
    }
    assert(found =~= wanted);
    true
}

/// The table under `key`; an empty one if there is something else there, or nothing.
pub open spec fn section_at(entries: Map<Seq<char>, TomlNode>, key: Seq<char>) -> Map<
    Seq<char>,
    TomlNode,
> {
    if entries.dom().contains(key) {
        match entries[key] {
            TomlNode::Section(section) => section,
            _ => Map::empty(),
        }
    } else {
        Map::empty()
    }
}

/// Whether a document of these entries describes a package in a table of its own.
pub open spec fn has_package(entries: Map<Seq<char>, TomlNode>) -> bool {
    entries.dom().contains("package"@) && entries["package"@] is Section
}

/// The arguments for rustdoc in the documentation settings of a document's package.
pub open spec fn docsrs_list(entries: Map<Seq<char>, TomlNode>) -> Option<TomlNode> {
    entry_of(
        section_at(section_at(section_at(entries, "package"@), "metadata"@), "docs.rs"@),
        "rustdoc-args"@,
    )
}

/// Whether rustdoc is given the wanted arguments.
pub open spec fn docsrs_correct(entries: Map<Seq<char>, TomlNode>) -> bool {
    docsrs_list(entries) matches Some(TomlNode::List(nodes)) && node_texts(nodes)
        == docsrs_arguments().map_values(|t: Seq<char>| Some(t))
}

/// The document with the wanted arguments for rustdoc and no other change, but that something
/// else than a table on the way to them is replaced by one.
pub open spec fn with_docsrs_metadata(entries: Map<Seq<char>, TomlNode>) -> Map<
    Seq<char>,
    TomlNode,
> {
    let package = section_at(entries, "package"@);
    let metadata = section_at(package, "metadata"@);
    let docs = section_at(metadata, "docs.rs"@);
    let new_docs = docs.insert("rustdoc-args"@, text_list(docsrs_arguments()));
    let new_metadata = metadata.insert("docs.rs"@, TomlNode::Section(new_docs));
    let new_package = package.insert("metadata"@, TomlNode::Section(new_metadata));
    entries.insert("package"@, TomlNode::Section(new_package))
}

/// The entries after the arguments for rustdoc were seen to: no change without a package or where
/// they are right.
pub open spec fn docsrs_ensured(entries: Map<Seq<char>, TomlNode>) -> Map<Seq<char>, TomlNode> {
    if has_package(entries) && !docsrs_correct(entries) {
        with_docsrs_metadata(entries)
    } else {
        entries
    }
}

/// Whether a document describes a package in a table of its own and does not give rustdoc the
/// wanted arguments.
fn lacks_docsrs_metadata(document: &DocumentMut) -> (r: bool)
    requires
        document_root(*document) is Section,
    ensures
        document_root(*document) matches TomlNode::Section(entries) && r == (has_package(entries)
            && !docsrs_correct(entries)),
{
    let package = match document.as_table().get("package") {
        Some(item) => match item.as_table() {
            Some(table) => table,
            None => {
                return false;
            },
        },
        None => {
            return false;
        },
    };
    let metadata = match package.get("metadata") {
        Some(item) => match item.as_table() {
            Some(table) => table,
            None => {
                return true;
            },
        },
        None => {
            return true;
        },
    };
    let docs = match metadata.get("docs.rs") {
        Some(item) => match item.as_table() {
            Some(table) => table,
            None => {
                return true;
            },
        },
        None => {
            return true;
        },
    };
    match docs.get("rustdoc-args") {
        Some(item) => match item_strings(item) {
            Some(strings) => !array_matches(&strings, &docsrs_args()),
            None => true,
        },
        None => true,
    }
}

/// Gives rustdoc the wanted arguments in the package's documentation settings. Says whether that
/// took a change; if not, the document is the same, its formatting included.
pub fn ensure_docsrs_metadata(document: &mut DocumentMut) -> (r: bool)
    requires
        document_root(*old(document)) is Section,
    ensures
        document_root(*old(document)) matches TomlNode::Section(entries) && {
            &&& document_root(*final(document)) == TomlNode::Section(docsrs_ensured(entries))
            &&& r == (has_package(entries) && !docsrs_correct(entries))
        },
        !r ==> *final(document) == *old(document),
{
    if !lacks_docsrs_metadata(document) {
        return false;
    }
    let root = document.as_table_mut();
    if let Some(package_item) = root.get_mut("package") {
        let package = ensure_table(package_item);
        let metadata = ensure_table(entry_or_insert(package, "metadata", empty_table()));
        let docs = ensure_table(entry_or_insert(metadata, "docs.rs", empty_table()));
        let _ = docs.insert("rustdoc-args", text_list_item(&docsrs_args()));
    }
    true
}

/// The Rust version that a document's package declares.
pub open spec fn declared_version(entries: Map<Seq<char>, TomlNode>) -> Option<TomlNode> {
    entry_of(section_at(entries, "package"@), "rust-version"@)
}

/// Whether the package declares the Rust version that every crate declares.
pub open spec fn rust_version_correct(entries: Map<Seq<char>, TomlNode>) -> bool {
    declared_version(entries) == Some(TomlNode::Text(RUST_VERSION@))
}

/// The entries after the Rust version was seen to: no change without a package or where it is
/// right.
pub open spec fn rust_version_ensured(entries: Map<Seq<char>, TomlNode>) -> Map<
    Seq<char>,
    TomlNode,
> {
    if has_package(entries) && !rust_version_correct(entries) {
        entries.insert(
            "package"@,
            TomlNode::Section(
                section_at(entries, "package"@).insert(
                    "rust-version"@,
                    TomlNode::Text(RUST_VERSION@),
                ),
            ),
        )
    } else {
        entries
    }
}

/// Whether a document describes a package in a table of its own that does not declare the Rust
/// version.
fn lacks_rust_version(document: &DocumentMut) -> (r: bool)
    requires
        document_root(*document) is Section,
    ensures
        document_root(*document) matches TomlNode::Section(entries) && r == (has_package(entries)
            && !rust_version_correct(entries)),
{
    let package = match document.as_table().get("package") {
        Some(item) => match item.as_table() {
            Some(table) => table,
            None => {
                return false;
            },
        },
        None => {
            return false;
        },
    };
    match package.get("rust-version") {
        Some(item) => match item.as_str() {
            Some(version) => !same(version, RUST_VERSION),
            None => true,
        },
        None => true,
    }
}

/// Makes the package declare the Rust version that every crate declares. Says whether that took a
/// change; if not, the document is the same, its formatting included.
pub fn ensure_rust_version(document: &mut DocumentMut) -> (r: bool)
    requires
        document_root(*old(document)) is Section,
    ensures
        document_root(*old(document)) matches TomlNode::Section(entries) && {
            &&& document_root(*final(document)) == TomlNode::Section(rust_version_ensured(entries))
            &&& r == (has_package(entries) && !rust_version_correct(entries))
        },
        !r ==> *final(document) == *old(document),
{
    if !lacks_rust_version(document) {
        return false;
    }
    let root = document.as_table_mut();
    if let Some(package_item) = root.get_mut("package") {
        let package = ensure_table(package_item);
        let _ = package.insert("rust-version", text_item(RUST_VERSION));
    }
    true
}

/// What can be seen to in a manifest.
#[derive(Clone, Copy)]
pub enum ManifestEdit {
    /// The arguments for rustdoc.
    DocsrsMetadata,
    /// The Rust version.
    RustVersion,
}

impl ManifestEdit {
    /// Whether a document of these entries needs the edit.
    pub open spec fn needed(self, entries: Map<Seq<char>, TomlNode>) -> bool {
        &&& has_package(entries)
        &&& match self {
            ManifestEdit::DocsrsMetadata => !docsrs_correct(entries),
            ManifestEdit::RustVersion => !rust_version_correct(entries),
        }
    }

    /// The entries after the edit.
    pub open spec fn edited(self, entries: Map<Seq<char>, TomlNode>) -> Map<Seq<char>, TomlNode> {
        match self {
            ManifestEdit::DocsrsMetadata => docsrs_ensured(entries),
            ManifestEdit::RustVersion => rust_version_ensured(entries),
        }
    }

    /// Makes the edit. Says whether it was needed; if not, the document is the same.
    pub fn apply(self, document: &mut DocumentMut) -> (r: bool)
        requires
            document_root(*old(document)) is Section,
        ensures
            document_root(*old(document)) matches TomlNode::Section(entries) && {
                &&& document_root(*final(document)) == TomlNode::Section(self.edited(entries))
                &&& r == self.needed(entries)
            },
            !r ==> *final(document) == *old(document),
    {
        match self {
            ManifestEdit::DocsrsMetadata => ensure_docsrs_metadata(document),
            ManifestEdit::RustVersion => ensure_rust_version(document),
        }
    }
}

/// Whether `job` writes `text` into the file at `path`, which holds `content`.
pub open spec fn writes(job: Job, path: Seq<char>, content: Seq<char>, text: Seq<char>) -> bool {
    &&& job.path@ == path
    &&& job.old_content matches Some(old) && old@ == encode_utf8(content)
    &&& job.new_content@ == encode_utf8(text)
    &&& !job.executable
}

/// The job that writes `new_content` into the file at `path`; none if the file holds that already.
pub fn job_for_change(path: &str, content: &str, new_content: &str) -> (r: Option<Job>)
    ensures
        match r {
            Some(job) => content@ != new_content@ && writes(job, path@, content@, new_content@),
            None => content@ == new_content@,
        },
{
    if same(content, new_content) {
        return None;
    }
    Some(
        Job {
            path: path.to_owned(),
            old_content: Some(content.as_bytes_vec()),
            new_content: new_content.as_bytes_vec(),
            executable: false,
        },
    )
}

/// Whether `job` is what seeing to `edit` takes in the manifest at `path` that holds `content`:
/// nothing if that is not TOML or does not need the edit, else the print of a document with the
/// edited entries, unless the manifest reads like that already.
pub open spec fn rewrites(
    job: Option<Job>,
    path: Seq<char>,
    content: Seq<char>,
    edit: ManifestEdit,
) -> bool {
    match toml_entries(content) {
        Some(entries) => if edit.needed(entries) {
            exists|document: DocumentMut|
                {
                    &&& document_root(document) == TomlNode::Section(edit.edited(entries))
                    &&& match job {
                        Some(job) => writes(job, path, content, #[trigger] document_text(document))
                            && document_text(document) != content,
                        None => document_text(document) == content,
                    }
                }
        } else {
            job is None
        },
        None => job is None,
    }
}

/// What is said about a manifest that is not TOML.
pub open spec fn bad_manifest(path: Seq<char>, complaint: Seq<char>) -> Seq<char> {
    "Failed to parse "@ + path + " as TOML: "@ + complaint
}

/// The job that sees to `edit` in the manifest at `path`, or else what is said about a manifest
/// that is not TOML. `content` is none if the manifest does not exist or cannot be read.
pub fn rewrite_cargo_toml(path: &str, content: Option<&str>, edit: ManifestEdit) -> (r: Result<
    Option<Job>,
    String,
>)
    ensures
        match content {
            Some(content) => match toml_read(content@) {
                Ok(_) => r matches Ok(job) && rewrites(job, path@, content@, edit),
                Err(complaint) => r matches Err(said) && said@ == bad_manifest(path@, complaint),
            },
            None => r matches Ok(job) && job is None,
        },
{
    let content = match content {
        Some(content) => content,
        None => {
            return Ok(None);
        },
    };
    let mut document = match parse_document(content) {
        Ok(document) => document,
        Err(complaint) => {
            let mut said = "Failed to parse ".to_owned();
            said.append(path);
            said.append(" as TOML: ");
            said.append(complaint.as_str());
            return Err(said);
        },
    };
    if !edit.apply(&mut document) {
        return Ok(None);
    }
    let new_content = print_document(&document);
    Ok(job_for_change(path, content, new_content.as_str()))
}

/// Whether a document of these entries turns readme generation off for its package.
pub open spec fn readme_disabled(entries: Map<Seq<char>, TomlNode>) -> bool {
    &&& entry_of(entries, "package"@) matches Some(package)
    &&& child_of(package, "metadata"@) matches Some(metadata)
    &&& child_of(metadata, "captain"@) matches Some(captain)
    &&& child_of(captain, "generate-readmes"@) == Some(TomlNode::Flag(false))
}

/// Whether a manifest turns readme generation off for its package.
pub fn crate_has_readme_disabled(content: &str) -> (r: bool)
    ensures
        r == (toml_entries(content@) matches Some(entries) && readme_disabled(entries)),
{
    let document = match parse_document(content) {
        Ok(document) => document,
        Err(_) => {
            return false;
        },
    };
    let package = match document.as_table().get("package") {
        Some(item) => item,
        None => {
            return false;
        },
    };
    let metadata = match item_get(package, "metadata") {
        Some(item) => item,
        None => {
            return false;
        },
    };
    let captain = match item_get(metadata, "captain") {
        Some(item) => item,
        None => {
            return false;
        },
    };
    let setting = match item_get(captain, "generate-readmes") {
        Some(item) => item,
        None => {
            return false;
        },
    };
    match setting.as_bool() {
        Some(flag) => !flag,
        None => false,
    }
}

/// The name that a document gives its package.
pub open spec fn package_name_in(entries: Map<Seq<char>, TomlNode>) -> Option<Seq<char>> {
    match entry_of(entries, "package"@) {
        Some(package) => match child_of(package, "name"@) {
            Some(TomlNode::Text(name)) => Some(name),
            _ => None,
        },
        None => None,
    }
}

/// The name that a manifest gives its package; none if it gives none or is not TOML.
pub fn package_name(content: &str) -> (r: Option<String>)
    ensures
        opt_text(r) == match toml_entries(content@) {
            Some(entries) => package_name_in(entries),
            None => None,
        },
{
    let document = match parse_document(content) {
        Ok(document) => document,
        Err(_) => {
            return None;
        },
    };
    let package = match document.as_table().get("package") {
        Some(item) => item,
        None => {
            return None;
        },
    };
    match item_get(package, "name") {
        Some(item) => match item.as_str() {
            Some(name) => Some(name.to_owned()),
            None => None,
        },
        None => None,
    }
}

/// The edition that a workspace declares for its packages, in tables of its own.
pub open spec fn workspace_edition_of(entries: Map<Seq<char>, TomlNode>) -> Option<Seq<char>> {
    match entry_of(section_at(section_at(entries, "workspace"@), "package"@), "edition"@) {
        Some(TomlNode::Text(edition)) => Some(edition),
        _ => None,
    }
}

/// The edition that a workspace declares for its packages in its root manifest.
pub fn workspace_edition(content: &str) -> (r: Option<String>)
    ensures
        opt_text(r) == match toml_entries(content@) {
            Some(entries) => workspace_edition_of(entries),
            None => None,
        },
{
    let document = match parse_document(content) {
        Ok(document) => document,
        Err(_) => {
            return None;
        },
    };
    let workspace = match document.as_table().get("workspace") {
        Some(item) => match item.as_table() {
            Some(table) => table,
            None => {
                return None;
            },
        },
        None => {
            return None;
        },
    };
    let package = match workspace.get("package") {
        Some(item) => match item.as_table() {
            Some(table) => table,
            None => {
                return None;
            },
        },
        None => {
            return None;
        },
    };
    match package.get("edition") {
        Some(item) => match item.as_str() {
            Some(edition) => Some(edition.to_owned()),
            None => None,
        },
        None => None,
    }
}

/// After the Rust version was seen to, a package declares it, and seeing to it again changes
/// nothing. Nothing but that entry of the package is changed.
pub proof fn rust_version_stays(entries: Map<Seq<char>, TomlNode>)
    ensures
        has_package(entries) ==> rust_version_correct(rust_version_ensured(entries)),
        !ManifestEdit::RustVersion.needed(rust_version_ensured(entries)),
        rust_version_ensured(rust_version_ensured(entries)) == rust_version_ensured(entries),
        forall|key: Seq<char>|
            key != "package"@ ==> #[trigger] entry_of(rust_version_ensured(entries), key)
                == entry_of(entries, key),
        forall|key: Seq<char>|
            key != "rust-version"@ ==> #[trigger] entry_of(
                section_at(rust_version_ensured(entries), "package"@),
                key,
            ) == entry_of(section_at(entries, "package"@), key),
{
}

/// After the arguments for rustdoc were seen to, a package gives them, and seeing to them again
/// changes nothing. Of the package, nothing but its metadata is changed.
pub proof fn docsrs_metadata_stays(entries: Map<Seq<char>, TomlNode>)
    ensures
        has_package(entries) ==> docsrs_correct(docsrs_ensured(entries)),
        !ManifestEdit::DocsrsMetadata.needed(docsrs_ensured(entries)),
        docsrs_ensured(docsrs_ensured(entries)) == docsrs_ensured(entries),
        forall|key: Seq<char>|
            key != "package"@ ==> #[trigger] entry_of(docsrs_ensured(entries), key) == entry_of(
                entries,
                key,
            ),
        forall|key: Seq<char>|
            key != "metadata"@ ==> #[trigger] entry_of(
                section_at(docsrs_ensured(entries), "package"@),
                key,
            ) == entry_of(section_at(entries, "package"@), key),
{
    let after = with_docsrs_metadata(entries);
    assert(node_texts(text_list(docsrs_arguments())->List_0) =~= docsrs_arguments().map_values(
        |t: Seq<char>| Some(t),
    ));
    assert(docsrs_correct(after));
}

/// Seeing to one edit does not undo the other: after both, in either order, neither is needed.
pub proof fn edits_keep_each_other(entries: Map<Seq<char>, TomlNode>)
    ensures
        !ManifestEdit::DocsrsMetadata.needed(rust_version_ensured(docsrs_ensured(entries))),
        !ManifestEdit::RustVersion.needed(rust_version_ensured(docsrs_ensured(entries))),
        !ManifestEdit::RustVersion.needed(docsrs_ensured(rust_version_ensured(entries))),
        !ManifestEdit::DocsrsMetadata.needed(docsrs_ensured(rust_version_ensured(entries))),
{
    reveal_strlit("metadata");
    reveal_strlit("rust-version");
    assert("metadata"@.len() != "rust-version"@.len());
    docsrs_metadata_stays(entries);
    rust_version_stays(docsrs_ensured(entries));
    rust_version_stays(entries);
    docsrs_metadata_stays(rust_version_ensured(entries));
}

/// What a table holds under a key is that table's entries, and anything else counts as an empty
/// table.
pub proof fn tables_are_entered(entries: Map<Seq<char>, TomlNode>, key: Seq<char>)
    ensures
        entries.dom().contains(key) ==> match entries[key] {
            TomlNode::Section(section) => section_at(entries, key) == section,
            _ => section_at(entries, key) == Map::<Seq<char>, TomlNode>::empty(),
        },
        !entries.dom().contains(key) ==> section_at(entries, key) == Map::<
            Seq<char>,
            TomlNode,
        >::empty(),
{
}

/// Seeing to the arguments for rustdoc leaves every other entry of the manifest, of its package, of
/// the package's metadata and of their part for docs.rs as it was.
pub proof fn other_metadata_is_kept(entries: Map<Seq<char>, TomlNode>, key: Seq<char>)
    ensures
        ({
            let after = docsrs_ensured(entries);
            let package = section_at(entries, "package"@);
            let new_package = section_at(after, "package"@);
            let metadata = section_at(package, "metadata"@);
            let new_metadata = section_at(new_package, "metadata"@);
            let docs = section_at(metadata, "docs.rs"@);
            let new_docs = section_at(new_metadata, "docs.rs"@);
            &&& key != "package"@ ==> entry_of(after, key) == entry_of(entries, key)
            &&& key != "metadata"@ ==> entry_of(new_package, key) == entry_of(package, key)
            &&& key != "docs.rs"@ ==> entry_of(new_metadata, key) == entry_of(metadata, key)
            &&& key != "rustdoc-args"@ ==> entry_of(new_docs, key) == entry_of(docs, key)
        }),
{
}

/// Whether a node is the list of the two arguments for rustdoc.
pub open spec fn is_argument_list(node: Option<TomlNode>) -> bool {
    node == Some(
        TomlNode::List(
            seq![
                TomlNode::Text("--html-in-header"@),
                TomlNode::Text("arborium-header.html"@),
            ],
        ),
    )
}

/// A package ends up with exactly the two arguments for rustdoc, and a manifest is changed exactly
/// if it has a package without them.
pub proof fn packages_get_rustdoc_arguments(entries: Map<Seq<char>, TomlNode>)
    ensures
        ({
            let described = entries.dom().contains("package"@) && entries["package"@] is Section;
            let list = |entries: Map<Seq<char>, TomlNode>|
                entry_of(
                    section_at(
                        section_at(section_at(entries, "package"@), "metadata"@),
                        "docs.rs"@,
                    ),
                    "rustdoc-args"@,
                );
            &&& described ==> is_argument_list(list(docsrs_ensured(entries)))
            &&& ManifestEdit::DocsrsMetadata.needed(entries) <==> described && !is_argument_list(
                list(entries),
            )
            &&& ManifestEdit::DocsrsMetadata.edited(entries) == docsrs_ensured(entries)
            &&& !described ==> docsrs_ensured(entries) == entries
            &&& is_argument_list(list(entries)) ==> docsrs_ensured(entries) == entries
        }),
{
    right_list_is_argument_list(entries);
    right_list_is_argument_list(docsrs_ensured(entries));
    docsrs_metadata_stays(entries);
}

proof fn right_list_is_argument_list(entries: Map<Seq<char>, TomlNode>)
    ensures
        docsrs_correct(entries) <==> is_argument_list(docsrs_list(entries)),
{
    let wanted = seq![
        TomlNode::Text("--html-in-header"@),
        TomlNode::Text("arborium-header.html"@),
    ];
    let texts_wanted = docsrs_arguments().map_values(|t: Seq<char>| Some(t));
    assert(node_texts(wanted) =~= texts_wanted);
    if docsrs_correct(entries) {
        let nodes = docsrs_list(entries)->0->List_0;
        assert(node_texts(nodes) == texts_wanted);
        assert(nodes.len() == node_texts(nodes).len());
        assert(node_texts(nodes)[0] == Some("--html-in-header"@));
        assert(node_texts(nodes)[1] == Some("arborium-header.html"@));
        assert(nodes =~= wanted);
    }
}

/// A package ends up with the Rust version, and a manifest is changed exactly if it has a package
/// without that version.
pub proof fn packages_get_rust_version(entries: Map<Seq<char>, TomlNode>)
    ensures
        ({
            let described = entries.dom().contains("package"@) && entries["package"@] is Section;
            let version = |entries: Map<Seq<char>, TomlNode>|
                entry_of(section_at(entries, "package"@), "rust-version"@);
            let wanted = Some(TomlNode::Text("1.87"@));
            &&& described ==> version(rust_version_ensured(entries)) == wanted
            &&& ManifestEdit::RustVersion.needed(entries) <==> described && version(entries) != wanted
            &&& ManifestEdit::RustVersion.edited(entries) == rust_version_ensured(entries)
            &&& !described ==> rust_version_ensured(entries) == entries
            &&& version(entries) == wanted ==> rust_version_ensured(entries) == entries
        }),
{
}

/// A manifest is written only if it is TOML and needs the edit, as the print of a document with the
/// edited entries that does not read as the manifest does; the job holds what the manifest held.
pub proof fn only_needed_edits_are_written(
    job: Option<Job>,
    path: Seq<char>,
    content: Seq<char>,
    edit: ManifestEdit,
)
    requires
        rewrites(job, path, content, edit),
    ensures
        job matches Some(job) ==> {
            &&& job.path@ == path
            &&& job.old_content matches Some(old) && old@ == encode_utf8(content)
            &&& !job.executable
            &&& toml_read(content) matches Ok(entries) && edit.needed(entries) && exists|
                document: DocumentMut,
            |
                {
                    &&& document_root(document) == TomlNode::Section(edit.edited(entries))
                    &&& job.new_content@ == encode_utf8(#[trigger] document_text(document))
                    &&& document_text(document) != content
                }
        },
        job is None && (toml_read(content) matches Ok(entries) && edit.needed(entries)) ==> exists|
            document: DocumentMut,
        |
            {
                &&& document_root(document) == TomlNode::Section(
                    edit.edited(toml_read(content)->Ok_0),
                )
                &&& #[trigger] document_text(document) == content
            },
{
}

/// Readmes are turned off by `generate-readmes = false` under `package.metadata.captain`, and by
/// nothing else.
pub proof fn one_flag_turns_readmes_off(entries: Map<Seq<char>, TomlNode>)
    ensures
        readme_disabled(entries) <==> match entry_of(entries, "package"@) {
            Some(package) => match child_of(package, "metadata"@) {
                Some(metadata) => match child_of(metadata, "captain"@) {
                    Some(captain) => child_of(captain, "generate-readmes"@) == Some(
                        TomlNode::Flag(false),
                    ),
                    None => false,
                },
                None => false,
            },
            None => false,
        },
{
}

/// A package is called what the text under `package.name` says, and an edition of a workspace is the
/// text under `workspace.package.edition`.
pub proof fn names_and_editions_are_texts(
    entries: Map<Seq<char>, TomlNode>,
    package: Map<Seq<char>, TomlNode>,
    text: Seq<char>,
)
    ensures
        entries.dom().contains("package"@) && entries["package"@] == TomlNode::Section(package)
            && package.dom().contains("name"@) && package["name"@] == TomlNode::Text(text)
            ==> package_name_in(entries) == Some(text),
        package_name_in(entries) == Some(text) ==> entries.dom().contains("package"@) && child_of(
            entries["package"@],
            "name"@,
        ) == Some(TomlNode::Text(text)),
        workspace_edition_of(entries) == Some(text) <==> entry_of(
            section_at(section_at(entries, "workspace"@), "package"@),
            "edition"@,
        ) == Some(TomlNode::Text(text)),
{
}

}
