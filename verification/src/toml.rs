//! What `toml_edit` does with TOML documents, as far as manifests need it.

use toml_edit::{Array, DocumentMut, Item, Table, Value};
use vstd::prelude::*;

use crate::text::{opt_text, texts};

verus! {

/// What a TOML item holds, without its formatting.
pub enum TomlNode {
    /// A placeholder that stands for nothing.
    Empty,
    Text(Seq<char>),
    Flag(bool),
    /// An array, placeholders among its nodes.
    List(Seq<TomlNode>),
    Inline(Map<Seq<char>, TomlNode>),
    Section(Map<Seq<char>, TomlNode>),
    /// A number, a date, or an array of tables.
    Other,
}

/// What stands under `key`, unless that is nothing.
pub open spec fn entry_of(entries: Map<Seq<char>, TomlNode>, key: Seq<char>) -> Option<TomlNode> {
    if entries.dom().contains(key) && entries[key] !is Empty {
        Some(entries[key])
    } else {
        None
    }
}

/// What stands under `key` in a table of either form.
pub open spec fn child_of(node: TomlNode, key: Seq<char>) -> Option<TomlNode> {
    match node {
        TomlNode::Section(entries) => entry_of(entries, key),
        TomlNode::Inline(entries) => entry_of(entries, key),
        _ => None,
    }
}

/// The text of a node that is one.
pub open spec fn node_text(node: TomlNode) -> Option<Seq<char>> {
    match node {
        TomlNode::Text(text) => Some(text),
        _ => None,
    }
}

/// The texts of a list's nodes, with none for a node that is no text.
pub open spec fn node_texts(nodes: Seq<TomlNode>) -> Seq<Option<Seq<char>>> {
    nodes.map_values(|node: TomlNode| node_text(node))
}

/// A list of texts as a node.
pub open spec fn text_list(list: Seq<Seq<char>>) -> TomlNode {
    TomlNode::List(list.map_values(|text: Seq<char>| TomlNode::Text(text)))
}

/// A document of `toml_edit`, with its formatting.
#[verifier::external_type_specification]
#[verifier::external_body]
pub struct ExDocumentMut(toml_edit::DocumentMut);

/// A table of `toml_edit`.
#[verifier::external_type_specification]
#[verifier::external_body]
pub struct ExTable(toml_edit::Table);

/// An item of `toml_edit`: what stands under a key.
#[verifier::external_type_specification]
#[verifier::external_body]
pub struct ExItem(toml_edit::Item);

/// What an item holds.
pub uninterp spec fn item_node(item: toml_edit::Item) -> TomlNode;

/// What a table holds, placeholders among it.
pub uninterp spec fn table_entries(table: toml_edit::Table) -> Map<Seq<char>, TomlNode>;

/// What the root of a document holds.
pub uninterp spec fn document_root(document: toml_edit::DocumentMut) -> TomlNode;

/// The text that a document prints as, which depends on its formatting too.
pub uninterp spec fn document_text(document: toml_edit::DocumentMut) -> Seq<char>;

/// The entries of the document that `toml_edit` reads in a text, or what it says about a text that
/// is not TOML.
pub uninterp spec fn toml_read(text: Seq<char>) -> Result<Map<Seq<char>, TomlNode>, Seq<char>>;

/// The entries of the document that a text is; none if it is not TOML.
pub open spec fn toml_entries(text: Seq<char>) -> Option<Map<Seq<char>, TomlNode>> {
    match toml_read(text) {
        Ok(entries) => Some(entries),
        Err(_) => None,
    }
}

/// `DocumentMut::from_str`, and the `Display` form of its error: the root of what it reads is a
/// table. Whether it can read the text, what the table holds, and what it says about a text that
/// is not TOML depend on the text alone.
#[verifier::external_body]
pub(crate) fn parse_document(text: &str) -> (r: Result<DocumentMut, String>)
    ensures
        match r {
            Ok(document) => toml_read(text@) matches Ok(entries) && document_root(document)
                == TomlNode::Section(entries),
            Err(complaint) => toml_read(text@) == Err::<Map<Seq<char>, TomlNode>, Seq<char>>(
                complaint@,
            ),
        },
{
    text.parse::<DocumentMut>().map_err(|error| error.to_string())
}

/// The `Display` form of a document, whose root must be a table.
#[verifier::external_body]
pub(crate) fn print_document(document: &DocumentMut) -> (r: String)
    requires
        document_root(*document) is Section,
    ensures
        r@ == document_text(*document),
{
    document.to_string()
}

/// `DocumentMut::as_table`: the root, which must be a table.
pub assume_specification[ DocumentMut::as_table ](document: &DocumentMut) -> (r: &Table)
    requires
        document_root(*document) is Section,
    ensures
        document_root(*document) == TomlNode::Section(table_entries(*r)),
;

/// `DocumentMut::as_table_mut`: the root, which must be a table. What the table holds in the end,
/// the root does.
pub assume_specification[ DocumentMut::as_table_mut ](document: &mut DocumentMut) -> (r: &mut Table)
    requires
        document_root(*old(document)) is Section,
    ensures
        document_root(*old(document)) == TomlNode::Section(table_entries(*r)),
        document_root(*final(document)) == TomlNode::Section(table_entries(*final(r))),
;

/// `Table::get`: what stands under the key, unless that is a placeholder.
pub assume_specification<'a>[ Table::get ](table: &'a Table, key: &str) -> (r: Option<&'a Item>)
    ensures
        match r {
            Some(item) => entry_of(table_entries(*table), key@) == Some(item_node(*item)),
            None => entry_of(table_entries(*table), key@) is None,
        },
;

/// `Table::get_mut`: what stands under the key, unless that is a placeholder; what is put in its
/// place, the table then holds.
pub assume_specification<'a>[ Table::get_mut ](table: &'a mut Table, key: &str) -> (r: Option<
    &'a mut Item,
>)
    ensures
        match r {
            Some(item) => {
                &&& entry_of(table_entries(*old(table)), key@) == Some(item_node(*item))
                &&& table_entries(*final(table)) == table_entries(*old(table)).insert(
                    key@,
                    item_node(*final(item)),
                )
            },
            None => {
                &&& entry_of(table_entries(*old(table)), key@) is None
                &&& *final(table) == *old(table)
            },
        },
;

/// `Table::insert`: the item stands under the key, and what stood there, a placeholder too, is
/// handed back.
pub assume_specification[ Table::insert ](table: &mut Table, key: &str, item: Item) -> (r: Option<
    Item,
>)
    ensures
        table_entries(*final(table)) == table_entries(*old(table)).insert(key@, item_node(item)),
        match r {
            Some(replaced) => table_entries(*old(table)).dom().contains(key@) && item_node(replaced)
                == table_entries(*old(table))[key@],
            None => !table_entries(*old(table)).dom().contains(key@),
        },
;

/// `Table::entry` and `Entry::or_insert`: what stands under the key, a placeholder too, or else the
/// item, which the table then holds.
#[verifier::external_body]
pub(crate) fn entry_or_insert<'a>(table: &'a mut Table, key: &str, item: Item) -> (r: &'a mut Item)
    ensures
        item_node(*r) == if table_entries(*old(table)).dom().contains(key@) {
            table_entries(*old(table))[key@]
        } else {
            item_node(item)
        },
        table_entries(*final(table)) == table_entries(*old(table)).insert(
            key@,
            item_node(*final(r)),
        ),
{
    table.entry(key).or_insert(item)
}

/// `Item::get` with a string: what stands under the key of a table of either form, unless that is
/// a placeholder.
#[verifier::external_body]
pub(crate) fn item_get<'a>(item: &'a Item, key: &str) -> (r: Option<&'a Item>)
    ensures
        match r {
            Some(child) => child_of(item_node(*item), key@) == Some(item_node(*child)),
            None => child_of(item_node(*item), key@) is None,
        },
{
    item.get(key)
}

/// `Item::is_table`, which an inline table is not.
pub assume_specification[ Item::is_table ](item: &Item) -> (r: bool)
    ensures
        r == (item_node(*item) is Section),
;

/// `Item::as_table`, which an inline table is not.
pub assume_specification[ Item::as_table ](item: &Item) -> (r: Option<&Table>)
    ensures
        match r {
            Some(table) => item_node(*item) == TomlNode::Section(table_entries(*table)),
            None => item_node(*item) !is Section,
        },
;

/// `Item::as_table_mut`, which an inline table is not. What the table holds in the end, the item
/// does.
pub assume_specification[ Item::as_table_mut ](item: &mut Item) -> (r: Option<&mut Table>)
    ensures
        match r {
            Some(table) => {
                &&& item_node(*old(item)) == TomlNode::Section(table_entries(*table))
                &&& item_node(*final(item)) == TomlNode::Section(table_entries(*final(table)))
            },
            None => item_node(*old(item)) !is Section && *final(item) == *old(item),
        },
;

/// `Item::as_str`: the text of an item that is a string.
pub assume_specification[ Item::as_str ](item: &Item) -> (r: Option<&str>)
    ensures
        match r {
            Some(text) => item_node(*item) == TomlNode::Text(text@),
            None => item_node(*item) !is Text,
        },
;

/// `Item::as_bool`: the value of an item that is a boolean.
pub assume_specification[ Item::as_bool ](item: &Item) -> (r: Option<bool>)
    ensures
        match r {
            Some(flag) => item_node(*item) == TomlNode::Flag(flag),
            None => item_node(*item) !is Flag,
        },
;

/// `Item::as_array`, and `Value::as_str` of what `Array::get` gives at each position below
/// `Array::len`; a placeholder in the array, where there is no value, gives nothing.
#[verifier::external_body]
pub(crate) fn item_strings(item: &Item) -> (r: Option<Vec<Option<String>>>)
    ensures
        match r {
            Some(strings) => item_node(*item) matches TomlNode::List(nodes) && node_texts(nodes)
                == strings@.map_values(|s: Option<String>| opt_text(s)),
            None => item_node(*item) !is List,
        },
{
    item.as_array().map(
        |a| (0..a.len()).map(|i| a.get(i).and_then(|v| v.as_str()).map(String::from)).collect(),
    )
}

/// `Table::new` as an item: an empty table.
#[verifier::external_body]
pub(crate) fn empty_table() -> (r: Item)
    ensures
        item_node(r) == TomlNode::Section(Map::empty()),
{
    Item::Table(Table::new())
}

/// `toml_edit::value` of a string.
#[verifier::external_body]
pub(crate) fn text_item(text: &str) -> (r: Item)
    ensures
        item_node(r) == TomlNode::Text(text@),
{
    toml_edit::value(text)
}

/// `Array::from_iter` of strings, as an item.
#[verifier::external_body]
pub(crate) fn text_list_item(list: &Vec<String>) -> (r: Item)
    ensures
        item_node(r) == text_list(texts(list@)),
{
    Item::Value(Value::Array(Array::from_iter(list)))
}

}
