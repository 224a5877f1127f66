//! The words of a document in KDL.
//!
//! A document is a list of nodes: a name, then arguments and properties `key=value`, then perhaps
//! nodes of its own in braces. A node ends with the line or at a semicolon.
//!
//! Type annotations, raw texts, texts over several lines in three quotes and escapes by code point
//! are not known here: they are read as the words that their characters make.

use vstd::prelude::*;

use crate::mercy::is_digit;
use crate::text::{is_white, is_whitespace, same, span, texts, to_chars};

verus! {

broadcast use vstd::string::group_string_axioms;

/// A word of a node.
pub enum Word {
    /// A text in quotes.
    Quoted(String),
    /// A name, a number or a keyword such as `#false`.
    Bare(String),
    /// The sign between the key and the value of a property.
    Equals,
    /// The mark `/-`, which takes what follows it out of the document.
    Dash,
}

/// A word of a node, as contracts speak of it.
pub enum WordView {
    Quoted(Seq<char>),
    Bare(Seq<char>),
    Equals,
    Dash,
}

impl View for Word {
    type V = WordView;

    open spec fn view(&self) -> WordView {
        match self {
            Word::Quoted(text) => WordView::Quoted(text@),
            Word::Bare(text) => WordView::Bare(text@),
            Word::Equals => WordView::Equals,
            Word::Dash => WordView::Dash,
        }
    }
}

/// Words, as contracts speak of them.
pub open spec fn word_views(words: Seq<Word>) -> Seq<WordView> {
    words.map_values(|word: Word| word@)
}

/// A part of a document.
pub enum Token {
    Word(Word),
    /// The end of a line, or a semicolon.
    End,
    Open,
    Close,
}

/// A part of a document, as contracts speak of it.
pub enum TokenView {
    Word(WordView),
    End,
    Open,
    Close,
}

impl View for Token {
    type V = TokenView;

    open spec fn view(&self) -> TokenView {
        match self {
            Token::Word(word) => TokenView::Word(word@),
            Token::End => TokenView::End,
            Token::Open => TokenView::Open,
            Token::Close => TokenView::Close,
        }
    }
}

/// Whether `c` ends a line.
pub open spec fn ends_line(c: char) -> bool {
    let u = c as u32;
    0xa <= u <= 0xd || u == 0x85 || u == 0x2028 || u == 0x2029
}

/// Whether `c` is white space within a line.
pub open spec fn is_blank(c: char) -> bool {
    (is_white(c) && !ends_line(c)) || c == '\u{feff}'
}

/// Whether `c` ends a bare word.
pub open spec fn ends_word(c: char) -> bool {
    ||| ends_line(c)
    ||| is_blank(c)
    ||| c == ';'
    ||| c == '{'
    ||| c == '}'
    ||| c == '='
    ||| c == '"'
    ||| c == '/'
    ||| c == '\\'
}

/// Whether a text starts with two characters.
pub open spec fn starts(text: Seq<char>, first: char, second: char) -> bool {
    text.len() >= 2 && text[0] == first && text[1] == second
}

/// How much of a text stands before the end of its first line.
pub open spec fn line_len(text: Seq<char>) -> nat
    decreases text.len(),
{
    if text.len() == 0 || ends_line(text[0]) {
        0
    } else {
        1 + line_len(text.skip(1))
    }
}

/// How long the line break is with which a text starts.
pub open spec fn break_len(text: Seq<char>) -> nat {
    if starts(text, '\r', '\n') {
        2
    } else if text.len() > 0 {
        1
    } else {
        0
    }
}

/// How much of a text belongs to the comments that are open before it, comments within comments
/// among it.
pub open spec fn comment_len(text: Seq<char>, open: nat) -> nat
    decreases text.len(),
{
    if text.len() == 0 || open == 0 {
        0
    } else if starts(text, '*', '/') {
        2 + comment_len(text.skip(2), (open - 1) as nat)
    } else if starts(text, '/', '*') {
        2 + comment_len(text.skip(2), open + 1)
    } else {
        1 + comment_len(text.skip(1), open)
    }
}

/// How much of a text belongs to the bare word that is begun before it.
pub open spec fn word_len(text: Seq<char>) -> nat
    decreases text.len(),
{
    if text.len() == 0 || ends_word(text[0]) {
        0
    } else {
        1 + word_len(text.skip(1))
    }
}

/// How much of a text belongs to the quotes that are opened before it, with those that close them.
pub open spec fn quote_len(text: Seq<char>) -> nat
    decreases text.len(),
{
    if text.len() == 0 {
        0
    } else if text[0] == '"' {
        1
    } else if text[0] == '\\' && text.len() > 1 {
        2 + quote_len(text.skip(2))
    } else {
        1 + quote_len(text.skip(1))
    }
}

/// What a character means after a backslash in quotes.
pub open spec fn escaped(c: char) -> char {
    if c == 'n' {
        '\n'
    } else if c == 'r' {
        '\r'
    } else if c == 't' {
        '\t'
    } else if c == 's' {
        ' '
    } else if c == 'b' {
        '\u{8}'
    } else if c == 'f' {
        '\u{c}'
    } else {
        c
    }
}

/// What stands in the quotes that are opened before a text.
pub open spec fn quote_text(text: Seq<char>) -> Seq<char>
    decreases text.len(),
{
    if text.len() == 0 || text[0] == '"' {
        seq![]
    } else if text[0] == '\\' && text.len() > 1 {
        seq![escaped(text[1])] + quote_text(text.skip(2))
    } else {
        seq![text[0]] + quote_text(text.skip(1))
    }
}

/// The part with which a text starts, if that is not a comment or white space, and its length.
/// A backslash joins a line with the next.
pub open spec fn first_token(text: Seq<char>) -> (Option<TokenView>, nat)
    recommends
        text.len() > 0,
{
    let c = text[0];
    let rest = text.skip(1);
    if ends_line(c) || c == ';' {
        (Some(TokenView::End), 1)
    } else if is_blank(c) {
        (None, 1)
    } else if c == '{' {
        (Some(TokenView::Open), 1)
    } else if c == '}' {
        (Some(TokenView::Close), 1)
    } else if c == '=' {
        (Some(TokenView::Word(WordView::Equals)), 1)
    } else if c == '"' {
        (Some(TokenView::Word(WordView::Quoted(quote_text(rest)))), 1 + quote_len(rest))
    } else if c == '\\' {
        (None, 1 + line_len(rest) + break_len(rest.skip(line_len(rest) as int)))
    } else if starts(text, '/', '/') {
        (None, 2 + line_len(text.skip(2)))
    } else if starts(text, '/', '*') {
        (None, 2 + comment_len(text.skip(2), 1))
    } else if starts(text, '/', '-') {
        (Some(TokenView::Word(WordView::Dash)), 2)
    } else {
        (
            Some(TokenView::Word(WordView::Bare(text.take(1 + word_len(rest) as int)))),
            1 + word_len(rest),
        )
    }
}

/// A line is no longer than the text.
pub proof fn line_fits(text: Seq<char>)
    ensures
        line_len(text) <= text.len(),
    decreases text.len(),
{
    if text.len() > 0 && !ends_line(text[0]) {
        line_fits(text.skip(1));
    }
}

proof fn comment_fits(text: Seq<char>, open: nat)
    ensures
        comment_len(text, open) <= text.len(),
    decreases text.len(),
{
    if text.len() == 0 || open == 0 {
    } else if starts(text, '*', '/') {
        comment_fits(text.skip(2), (open - 1) as nat);
    } else if starts(text, '/', '*') {
        comment_fits(text.skip(2), open + 1);
    } else {
        comment_fits(text.skip(1), open);
    }
}

proof fn word_fits(text: Seq<char>)
    ensures
        word_len(text) <= text.len(),
    decreases text.len(),
{
    if text.len() > 0 && !ends_word(text[0]) {
        word_fits(text.skip(1));
    }
}

proof fn quote_fits(text: Seq<char>)
    ensures
        quote_len(text) <= text.len(),
    decreases text.len(),
{
    if text.len() == 0 || text[0] == '"' {
    } else if text[0] == '\\' && text.len() > 1 {
        quote_fits(text.skip(2));
    } else {
        quote_fits(text.skip(1));
    }
}

/// A part of a text is not empty, and no longer than the text.
pub proof fn token_fits(text: Seq<char>)
    requires
        text.len() > 0,
    ensures
        0 < first_token(text).1 <= text.len(),
{
    let rest = text.skip(1);
    line_fits(rest);
    word_fits(rest);
    quote_fits(rest);
    if text.len() > 1 {
        line_fits(text.skip(2));
        comment_fits(text.skip(2), 1);
    }
}

/// A word stands by itself before what ends it.
pub proof fn word_is_whole(word: Seq<char>, rest: Seq<char>)
    requires
        forall|i: int| 0 <= i < word.len() ==> !ends_word(#[trigger] word[i]),
        rest.len() > 0 ==> ends_word(rest[0]),
    ensures
        word_len(word + rest) == word.len(),
    decreases word.len(),
{
    let text = word + rest;
    if word.len() > 0 {
        assert(text.skip(1) =~= word.skip(1) + rest);
        word_is_whole(word.skip(1), rest);
    } else {
        assert(text =~= rest);
    }
}

/// A line stands by itself before what ends it.
pub proof fn line_is_whole(line: Seq<char>, rest: Seq<char>)
    requires
        forall|i: int| 0 <= i < line.len() ==> !ends_line(#[trigger] line[i]),
        rest.len() > 0 ==> ends_line(rest[0]),
    ensures
        line_len(line + rest) == line.len(),
    decreases line.len(),
{
    let text = line + rest;
    if line.len() > 0 {
        assert(text.skip(1) =~= line.skip(1) + rest);
        line_is_whole(line.skip(1), rest);
    } else {
        assert(text =~= rest);
    }
}

fn is_line_end(c: char) -> (r: bool)
    ensures
        r == ends_line(c),
{
    let u = c as u32;
    (0xa <= u && u <= 0xd) || u == 0x85 || u == 0x2028 || u == 0x2029
}

fn is_blank_char(c: char) -> (r: bool)
    ensures
        r == is_blank(c),
{
    (is_whitespace(c) && !is_line_end(c)) || c == '\u{feff}'
}

fn is_word_end(c: char) -> (r: bool)
    ensures
        r == ends_word(c),
{
    is_line_end(c) || is_blank_char(c) || c == ';' || c == '{' || c == '}' || c == '=' || c == '"'
        || c == '/' || c == '\\'
}

fn starts_at(chars: &Vec<char>, at: usize, first: char, second: char) -> (r: bool)
    requires
        at <= chars.len(),
    ensures
        r == starts(chars@.skip(at as int), first, second),
{
    chars.len() - at >= 2 && chars[at] == first && chars[at + 1] == second
}

fn line_end(chars: &Vec<char>, at: usize) -> (r: usize)
    requires
        at <= chars.len(),
    ensures
        r == at + line_len(chars@.skip(at as int)),
        r <= chars.len(),
{
    let mut i: usize = at;
    while i < chars.len() && !is_line_end(chars[i])
        invariant
            at <= i <= chars.len(),
            i + line_len(chars@.skip(i as int)) == at + line_len(chars@.skip(at as int)),
        decreases chars.len() - i,
    {
        assert(chars@.skip(i as int).skip(1) =~= chars@.skip(i + 1));
        i += 1;
    }
    i
}

fn comment_end(chars: &Vec<char>, at: usize) -> (r: usize)
    requires
        0 < at <= chars.len(),
    ensures
        r == at + comment_len(chars@.skip(at as int), 1),
        r <= chars.len(),
{
    let mut i: usize = at;
    let mut open: usize = 1;
    while i < chars.len() && open > 0
        invariant
            0 < at <= i <= chars.len(),
            open <= i,
            i + comment_len(chars@.skip(i as int), open as nat) == at + comment_len(
                chars@.skip(at as int),
                1,
            ),
        decreases chars.len() - i,
    {
        assert(chars@.skip(i as int).skip(1) =~= chars@.skip(i + 1));
        if starts_at(chars, i, '*', '/') {
            assert(chars@.skip(i as int).skip(2) =~= chars@.skip(i + 2));
            open -= 1;
            i += 2;
        } else if starts_at(chars, i, '/', '*') {
            assert(chars@.skip(i as int).skip(2) =~= chars@.skip(i + 2));
            open += 1;
            i += 2;
        } else {
            i += 1;
        }
    }
    i
}

fn word_end(chars: &Vec<char>, at: usize) -> (r: usize)
    requires
        at <= chars.len(),
    ensures
        r == at + word_len(chars@.skip(at as int)),
        r <= chars.len(),
{
    let mut i: usize = at;
    while i < chars.len() && !is_word_end(chars[i])
        invariant
            at <= i <= chars.len(),
            i + word_len(chars@.skip(i as int)) == at + word_len(chars@.skip(at as int)),
        decreases chars.len() - i,
    {
        assert(chars@.skip(i as int).skip(1) =~= chars@.skip(i + 1));
        i += 1;
    }
    i
}

fn unescape(c: char) -> (r: char)
    ensures
        r == escaped(c),
{
    match c {
        'n' => '\n',
        'r' => '\r',
        't' => '\t',
        's' => ' ',
        'b' => '\u{8}',
        'f' => '\u{c}',
        _ => c,
    }
}

/// What stands in the quotes that are opened before `at`, and where they end.
fn read_quoted(chars: &Vec<char>, at: usize) -> (r: (String, usize))
    requires
        at <= chars.len(),
    ensures
        r.0@ == quote_text(chars@.skip(at as int)),
        r.1 == at + quote_len(chars@.skip(at as int)),
        r.1 <= chars.len(),
{
    let mut text = String::new();
    let mut i: usize = at;
    let ghost whole = quote_text(chars@.skip(at as int));
    while i < chars.len()
        invariant
            at <= i <= chars.len(),
            text@ + quote_text(chars@.skip(i as int)) == whole,
            whole == quote_text(chars@.skip(at as int)),
            i + quote_len(chars@.skip(i as int)) == at + quote_len(chars@.skip(at as int)),
        decreases chars.len() - i,
    {
        let ghost so_far = text@;
        let ghost rest = chars@.skip(i as int);
        if chars[i] == '"' {
            assert(text@ + quote_text(rest) =~= text@);
            return (text, i + 1);
        }
        if chars[i] == '\\' && chars.len() - i > 1 {
            text.push(unescape(chars[i + 1]));
            assert(rest.skip(2) =~= chars@.skip(i + 2));
            assert(text@ + quote_text(rest.skip(2)) =~= so_far + quote_text(rest));
            i += 2;
        } else {
            text.push(chars[i]);
            assert(rest.skip(1) =~= chars@.skip(i + 1));
            assert(text@ + quote_text(rest.skip(1)) =~= so_far + quote_text(rest));
            i += 1;
        }
    }
    assert(text@ + quote_text(chars@.skip(i as int)) =~= text@);
    (text, i)
}

/// The part that stands at `at`, if that is not a comment or white space, and where it ends.
pub fn next_token(chars: &Vec<char>, at: usize) -> (r: (Option<Token>, usize))
    requires
        at < chars.len(),
    ensures
        match r.0 {
            Some(token) => first_token(chars@.skip(at as int)).0 == Some(token@),
            None => first_token(chars@.skip(at as int)).0 is None,
        },
        r.1 == at + first_token(chars@.skip(at as int)).1,
        at < r.1 <= chars.len(),
{
    let ghost text = chars@.skip(at as int);
    proof {
        token_fits(text);
        assert(text.skip(1) =~= chars@.skip(at + 1));
        if text.len() > 1 {
            assert(text.skip(2) =~= chars@.skip(at + 2));
        }
    }
    let c = chars[at];
    if is_line_end(c) || c == ';' {
        (Some(Token::End), at + 1)
    } else if is_blank_char(c) {
        (None, at + 1)
    } else if c == '{' {
        (Some(Token::Open), at + 1)
    } else if c == '}' {
        (Some(Token::Close), at + 1)
    } else if c == '=' {
        (Some(Token::Word(Word::Equals)), at + 1)
    } else if c == '"' {
        let (quoted, end) = read_quoted(chars, at + 1);
        (Some(Token::Word(Word::Quoted(quoted))), end)
    } else if c == '\\' {
        let end = line_end(chars, at + 1);
        assert(text.skip(1).skip(line_len(text.skip(1)) as int) =~= chars@.skip(end as int));
        if starts_at(chars, end, '\r', '\n') {
            (None, end + 2)
        } else if end < chars.len() {
            (None, end + 1)
        } else {
            (None, end)
        }
    } else if starts_at(chars, at, '/', '/') {
        (None, line_end(chars, at + 2))
    } else if starts_at(chars, at, '/', '*') {
        (None, comment_end(chars, at + 2))
    } else if starts_at(chars, at, '/', '-') {
        (Some(Token::Word(Word::Dash)), at + 2)
    } else {
        let end = word_end(chars, at + 1);
        assert(text.take(end - at) =~= chars@.subrange(at as int, end as int));
        (Some(Token::Word(Word::Bare(span(chars, at, end)))), end)
    }
}

/// The text of a word that has one.
pub open spec fn name_of(word: WordView) -> Option<Seq<char>> {
    match word {
        WordView::Quoted(text) => Some(text),
        WordView::Bare(text) => Some(text),
        _ => None,
    }
}

/// The text of a word that has one.
pub fn word_name(word: &Word) -> (r: Option<&str>)
    ensures
        match r {
            Some(name) => name_of(word@) == Some(name@),
            None => name_of(word@) is None,
        },
{
    match word {
        Word::Quoted(text) => Some(text.as_str()),
        Word::Bare(text) => Some(text.as_str()),
        _ => None,
    }
}

/// Whether a bare word is a number or a keyword, and so not a text.
pub open spec fn is_no_text(word: Seq<char>) -> bool {
    ||| word.len() > 0 && (word[0] == '#' || is_digit(word[0]))
    ||| word.len() > 1 && (word[0] == '+' || word[0] == '-') && is_digit(word[1])
}

/// The text that a word stands for.
pub open spec fn value_of(word: WordView) -> Option<Seq<char>> {
    match word {
        WordView::Quoted(text) => Some(text),
        WordView::Bare(text) => if is_no_text(text) {
            None
        } else {
            Some(text)
        },
        _ => None,
    }
}

/// The name of a node, which is its first word; none if it is taken out of the document.
pub open spec fn node_name(words: Seq<WordView>) -> Option<Seq<char>> {
    if words.len() > 0 {
        name_of(words[0])
    } else {
        None
    }
}

/// The name of a node whose own nodes follow; none if it or they are taken out of the document.
pub open spec fn block_name(words: Seq<WordView>) -> Option<Seq<char>> {
    if words.len() > 0 && words.last() == WordView::Dash {
        None
    } else {
        node_name(words)
    }
}

/// The property of a node that starts with its word `i`, if that is set to `#true` or `#false`.
pub open spec fn property_at(words: Seq<WordView>, i: int) -> Option<(Seq<char>, bool)> {
    if 0 < i && i + 2 < words.len() && words[i - 1] != WordView::Dash && words[i + 1]
        == WordView::Equals {
        match (name_of(words[i]), words[i + 2]) {
            (Some(key), WordView::Bare(value)) => if value == "#true"@ {
                Some((key, true))
            } else if value == "#false"@ {
                Some((key, false))
            } else {
                None
            },
            _ => None,
        }
    } else {
        None
    }
}

/// The argument of a node that is its word `i`, if that is a text.
pub open spec fn argument_at(words: Seq<WordView>, i: int) -> Option<Seq<char>> {
    if 0 < i < words.len() && words[i - 1] != WordView::Dash && words[i - 1] != WordView::Equals
        && !(i + 1 < words.len() && words[i + 1] == WordView::Equals) {
        value_of(words[i])
    } else {
        None
    }
}

/// The texts among the arguments in the first `n` words of a node.
pub open spec fn arguments_in(words: Seq<WordView>, n: nat) -> Seq<Seq<char>>
    decreases n,
{
    if n == 0 {
        seq![]
    } else {
        let rest = arguments_in(words, (n - 1) as nat);
        match argument_at(words, n - 1) {
            Some(text) => rest.push(text),
            None => rest,
        }
    }
}

/// The name of a node.
pub fn read_node_name(words: &Vec<Word>) -> (r: Option<&str>)
    ensures
        match r {
            Some(name) => node_name(word_views(words@)) == Some(name@),
            None => node_name(word_views(words@)) is None,
        },
{
    if words.len() > 0 {
        word_name(&words[0])
    } else {
        None
    }
}

/// The name of a node whose own nodes follow.
pub fn read_block_name(words: &Vec<Word>) -> (r: Option<String>)
    ensures
        match r {
            Some(name) => block_name(word_views(words@)) == Some(name@),
            None => block_name(word_views(words@)) is None,
        },
{
    if words.len() > 0 {
        if let Word::Dash = &words[words.len() - 1] {
            return None;
        }
    }
    match read_node_name(words) {
        Some(name) => Some(name.to_owned()),
        None => None,
    }
}

/// The property of a node that starts with its word `i`, if that is set to `#true` or `#false`.
pub fn read_property(words: &Vec<Word>, i: usize) -> (r: Option<(&str, bool)>)
    requires
        i < words.len(),
    ensures
        match r {
            Some((key, on)) => property_at(word_views(words@), i as int) == Some((key@, on)),
            None => property_at(word_views(words@), i as int) is None,
        },
{
    if i == 0 || words.len() - i < 3 {
        return None;
    }
    if let Word::Dash = &words[i - 1] {
        return None;
    }
    match &words[i + 1] {
        Word::Equals => {},
        _ => {
            return None;
        },
    }
    let key = match word_name(&words[i]) {
        Some(key) => key,
        None => {
            return None;
        },
    };
    match &words[i + 2] {
        Word::Bare(value) => if same(value.as_str(), "#true") {
            Some((key, true))
        } else if same(value.as_str(), "#false") {
            Some((key, false))
        } else {
            None
        },
        _ => None,
    }
}

fn is_digit_char(c: char) -> (r: bool)
    ensures
        r == is_digit(c),
{
    '0' <= c && c <= '9'
}

fn word_value(word: &Word) -> (r: Option<&str>)
    ensures
        match r {
            Some(text) => value_of(word@) == Some(text@),
            None => value_of(word@) is None,
        },
{
    match word {
        Word::Quoted(text) => Some(text.as_str()),
        Word::Bare(text) => {
            let chars = to_chars(text.as_str());
            if chars.len() > 0 && (chars[0] == '#' || is_digit_char(chars[0])) {
                return None;
            }
            if chars.len() > 1 && (chars[0] == '+' || chars[0] == '-') && is_digit_char(chars[1]) {
                return None;
            }
            Some(text.as_str())
        },
        _ => None,
    }
}

fn read_argument(words: &Vec<Word>, i: usize) -> (r: Option<&str>)
    requires
        i < words.len(),
    ensures
        match r {
            Some(text) => argument_at(word_views(words@), i as int) == Some(text@),
            None => argument_at(word_views(words@), i as int) is None,
        },
{
    if i == 0 {
        return None;
    }
    match &words[i - 1] {
        Word::Dash => {
            return None;
        },
        Word::Equals => {
            return None;
        },
        _ => {},
    }
    if words.len() - i > 1 {
        if let Word::Equals = &words[i + 1] {
            return None;
        }
    }
    word_value(&words[i])
}

/// The texts among the arguments of a node.
pub fn arguments(words: &Vec<Word>) -> (r: Vec<String>)
    ensures
        texts(r@) == arguments_in(word_views(words@), words@.len()),
{
    let mut r: Vec<String> = Vec::new();
    let mut i: usize = 0;
    assert(texts(r@) =~= seq![]);
    while i < words.len()
        invariant
            i <= words.len(),
            texts(r@) == arguments_in(word_views(words@), i as nat),
        decreases words.len() - i,
    {
        let ghost so_far = texts(r@);
        if let Some(text) = read_argument(words, i) {
            r.push(text.to_owned());
            assert(texts(r@) =~= so_far.push(text@));
        }
        i += 1;
    }
    r
}

/// A comment without stars and slashes in it ends where it is closed.
pub proof fn comment_is_whole(comment: Seq<char>, rest: Seq<char>)
    requires
        forall|i: int| 0 <= i < comment.len() ==> #[trigger] comment[i] != '*' && comment[i] != '/',
    ensures
        comment_len(comment + seq!['*', '/'] + rest, 1) == comment.len() + 2,
    decreases comment.len(),
{
    let text = comment + seq!['*', '/'] + rest;
    if comment.len() > 0 {
        assert(text[0] == comment[0]);
        assert(text.skip(1) =~= comment.skip(1) + seq!['*', '/'] + rest);
        comment_is_whole(comment.skip(1), rest);
    } else {
        assert(text[0] == '*' && text[1] == '/');
        assert(comment_len(text.skip(2), 0) == 0);
    }
}

/// In quotes, a backslash makes a quote or a backslash stand for itself, and `n`, `r` and `t` for a
/// line feed, a carriage return and a tab.
pub proof fn escapes_stand_for_characters(c: char, rest: Seq<char>)
    ensures
        quote_text(seq!['\\', c] + rest) == seq![escaped(c)] + quote_text(rest),
        quote_len(seq!['\\', c] + rest) == 2 + quote_len(rest),
        escaped('"') == '"',
        escaped('\\') == '\\',
        escaped('n') == '\n',
        escaped('r') == '\r',
        escaped('t') == '\t',
{
    let text = seq!['\\', c] + rest;
    assert(text.skip(2) =~= rest);
}

/// The arguments of a node are the texts among its words that are neither its name nor a part of a
/// property nor taken out, in their order: one more word adds itself or nothing.
pub proof fn arguments_are_texts(words: Seq<WordView>, n: nat)
    requires
        n < words.len(),
    ensures
        ({
            let word = words[n as int];
            let before = arguments_in(words, n);
            let free = n > 0 && words[n - 1] != WordView::Dash && words[n - 1] != WordView::Equals
                && !(n + 1 < words.len() && words[n as int + 1] == WordView::Equals);
            &&& free && word is Quoted ==> arguments_in(words, n + 1) == before.push(
                word->Quoted_0,
            )
            &&& !free || word is Equals || word is Dash ==> arguments_in(words, n + 1) == before
        }),
{
}

/// White space within a line is passed over, a line ends with any of the characters that end one,
/// and a backslash joins a line with the next.
pub proof fn white_space_parts_words(c: char, rest: Seq<char>)
    ensures
        is_white(c) && !(0xa <= c as u32 <= 0xd || c as u32 == 0x85 || c as u32 == 0x2028 || c as u32
            == 0x2029) ==> first_token(seq![c] + rest) == (None::<TokenView>, 1nat),
        0xa <= c as u32 <= 0xd || c as u32 == 0x85 || c as u32 == 0x2028 || c as u32 == 0x2029
            ==> first_token(seq![c] + rest) == (Some(TokenView::End), 1nat),
        first_token(seq!['\\', '\n'] + rest) == (None::<TokenView>, 2nat),
        first_token(seq!['\\', '\r', '\n'] + rest) == (None::<TokenView>, 3nat),
{
    let joined_line = seq!['\\', '\n'] + rest;
    assert(joined_line.skip(1)[0] == '\n');
    assert(line_len(joined_line.skip(1)) == 0);
    assert(joined_line.skip(1).skip(0) =~= joined_line.skip(1));
    let other = seq!['\\', '\r', '\n'] + rest;
    assert(other.skip(1)[0] == '\r' && other.skip(1)[1] == '\n');
    assert(line_len(other.skip(1)) == 0);
    assert(other.skip(1).skip(0) =~= other.skip(1));
}

/// A text in quotes stands for itself, and so does a bare word that starts neither like a number nor
/// like a keyword.
pub proof fn words_stand_for_texts(text: Seq<char>)
    ensures
        value_of(WordView::Quoted(text)) == Some(text),
        name_of(WordView::Quoted(text)) == Some(text),
        name_of(WordView::Bare(text)) == Some(text),
        text.len() > 0 && text[0] != '#' && text[0] != '+' && text[0] != '-' && !('0' <= text[0]
            && text[0] <= '9') ==> value_of(WordView::Bare(text)) == Some(text),
        text.len() > 0 && (text[0] == '#' || ('0' <= text[0] && text[0] <= '9')) ==> value_of(
            WordView::Bare(text),
        ) is None,
{
}

}
