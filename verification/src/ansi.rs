//! Terminal escape sequences: adding colours and taking them out.

use owo_colors::OwoColorize;
use vstd::prelude::*;
use vstd::slice::slice_to_vec;

verus! {

broadcast use vstd::string::group_string_axioms;

/// Whether the bytes are printable ASCII and line feeds alone.
pub open spec fn plain_bytes(data: Seq<u8>) -> bool {
    forall|i: int| 0 <= i < data.len() ==> 0x20 <= #[trigger] data[i] <= 0x7e || data[i] == 0x0a
}

/// Whether the text has no control character but the line feed.
pub open spec fn plain_text(text: Seq<char>) -> bool {
    forall|i: int|
        0 <= i < text.len() ==> #[trigger] text[i] == '\n' || !((text[i] as u32) < 0x20 || 0x80 <= (
        text[i] as u32) <= 0x9f)
}

/// What `strip_ansi_escapes::strip` leaves of bytes that are not plain.
pub uninterp spec fn bytes_left(data: Seq<u8>) -> Seq<u8>;

/// What `strip_ansi_escapes::strip_str` leaves of a text that is not plain.
pub uninterp spec fn text_left(text: Seq<char>) -> Seq<char>;

/// The bytes without escape sequences.
pub open spec fn stripped_bytes(data: Seq<u8>) -> Seq<u8> {
    if plain_bytes(data) {
        data
    } else {
        bytes_left(data)
    }
}

/// The text without escape sequences.
pub open spec fn stripped_text(text: Seq<char>) -> Seq<char> {
    if plain_text(text) {
        text
    } else {
        text_left(text)
    }
}

/// `strip_ansi_escapes::strip`: plain bytes it leaves as they are, and what it leaves of others
/// depends on them alone.
#[verifier::external_body]
pub(crate) fn strip_bytes(data: &[u8]) -> (r: Vec<u8>)
    ensures
        r@ == if plain_bytes(data@) {
            data@
        } else {
            bytes_left(data@)
        },
{
    strip_ansi_escapes::strip(data)
}

/// `strip_ansi_escapes::strip_str`: plain text it leaves as it is, and what it leaves of another
/// text depends on that alone.
#[verifier::external_body]
pub(crate) fn strip_text(text: &str) -> (r: String)
    ensures
        r@ == if plain_text(text@) {
            text@
        } else {
            text_left(text@)
        },
{
    strip_ansi_escapes::strip_str(text)
}

/// The bytes as a terminal is to be given them: without escape sequences unless it supports colour.
pub open spec fn bytes_for(data: Seq<u8>, color: bool) -> Seq<u8> {
    if color {
        data
    } else {
        stripped_bytes(data)
    }
}

/// The text as a terminal is to be given it: without escape sequences unless it supports colour.
pub open spec fn text_for(text: Seq<char>, color: bool) -> Seq<char> {
    if color {
        text
    } else {
        stripped_text(text)
    }
}

/// The bytes as a terminal is to be given them. `color` says whether it supports colour.
pub fn maybe_strip_bytes(data: &[u8], color: bool) -> (r: Vec<u8>)
    ensures
        r@ == bytes_for(data@, color),
{
    if color {
        slice_to_vec(data)
    } else {
        strip_bytes(data)
    }
}

/// The text as a terminal is to be given it. `color` says whether it supports colour.
pub fn maybe_strip_str(text: &str, color: bool) -> (r: String)
    ensures
        r@ == text_for(text@, color),
{
    if color {
        text.to_owned()
    } else {
        strip_text(text)
    }
}

/// `text` in red letters.
pub open spec fn in_red(text: Seq<char>) -> Seq<char> {
    "\x1b[31m"@ + text + "\x1b[39m"@
}

/// `text` in green letters.
pub open spec fn in_green(text: Seq<char>) -> Seq<char> {
    "\x1b[32m"@ + text + "\x1b[39m"@
}

/// `text` in yellow letters.
pub open spec fn in_yellow(text: Seq<char>) -> Seq<char> {
    "\x1b[33m"@ + text + "\x1b[39m"@
}

/// `text` in blue letters.
pub open spec fn in_blue(text: Seq<char>) -> Seq<char> {
    "\x1b[34m"@ + text + "\x1b[39m"@
}

/// `text` in cyan letters.
pub open spec fn in_cyan(text: Seq<char>) -> Seq<char> {
    "\x1b[36m"@ + text + "\x1b[39m"@
}

/// `text` in bold letters.
pub open spec fn in_bold(text: Seq<char>) -> Seq<char> {
    "\x1b[1m"@ + text + "\x1b[0m"@
}

/// `text` in dim letters.
pub open spec fn in_dim(text: Seq<char>) -> Seq<char> {
    "\x1b[2m"@ + text + "\x1b[0m"@
}

/// The `Display` form of `OwoColorize::red`.
#[verifier::external_body]
pub(crate) fn red(text: &str) -> (r: String)
    ensures
        r@ == in_red(text@),
{
    text.red().to_string()
}

/// The `Display` form of `OwoColorize::green`.
#[verifier::external_body]
pub(crate) fn green(text: &str) -> (r: String)
    ensures
        r@ == in_green(text@),
{
    text.green().to_string()
}

/// The `Display` form of `OwoColorize::yellow`.
#[verifier::external_body]
pub(crate) fn yellow(text: &str) -> (r: String)
    ensures
        r@ == in_yellow(text@),
{
    text.yellow().to_string()
}

/// The `Display` form of `OwoColorize::blue`.
#[verifier::external_body]
pub(crate) fn blue(text: &str) -> (r: String)
    ensures
        r@ == in_blue(text@),
{
    text.blue().to_string()
}

/// The `Display` form of `OwoColorize::cyan`.
#[verifier::external_body]
pub(crate) fn cyan(text: &str) -> (r: String)
    ensures
        r@ == in_cyan(text@),
{
    text.cyan().to_string()
}

/// The `Display` form of `OwoColorize::bold`.
#[verifier::external_body]
pub(crate) fn bold(text: &str) -> (r: String)
    ensures
        r@ == in_bold(text@),
{
    text.bold().to_string()
}

/// The `Display` form of `OwoColorize::dimmed`.
#[verifier::external_body]
pub(crate) fn dimmed(text: &str) -> (r: String)
    ensures
        r@ == in_dim(text@),
{
    text.dimmed().to_string()
}

/// A terminal that supports colour is given everything as it is, and one that does not is given
/// plain text and plain bytes as they are.
pub proof fn plain_output_stays(text: Seq<char>, data: Seq<u8>)
    ensures
        text_for(text, true) == text,
        bytes_for(data, true) == data,
        (forall|i: int|
            0 <= i < text.len() ==> #[trigger] text[i] == '\n' || (text[i] as u32 >= 0x20 && !(0x80
                <= (text[i] as u32) <= 0x9f))) ==> text_for(text, false) == text,
        (forall|i: int| 0 <= i < data.len() ==> 0x20 <= #[trigger] data[i] <= 0x7e || data[i] == 0x0a)
            ==> bytes_for(data, false) == data,
{
}

/// A terminal that does not support colour is given what is left without escape sequences, whatever
/// is written.
pub proof fn escapes_are_taken_out(text: Seq<char>, data: Seq<u8>)
    ensures
        !plain_text(text) ==> text_for(text, false) == text_left(text),
        !plain_bytes(data) ==> bytes_for(data, false) == bytes_left(data),
{
}

}
