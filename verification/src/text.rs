//! Text as sequences of characters: searching, splitting, joining, ordering.

use vstd::prelude::*;
use vstd::utf8::{decode_utf8, is_ascii_chars, valid_utf8};

verus! {

broadcast use vstd::string::group_string_axioms;

/// The texts of a sequence of strings.
pub open spec fn texts(strings: Seq<String>) -> Seq<Seq<char>> {
    strings.map_values(|s: String| s@)
}

/// The text of an optional string.
pub open spec fn opt_text(s: Option<String>) -> Option<Seq<char>> {
    match s {
        Some(s) => Some(s@),
        None => None,
    }
}

/// Whether `pattern` stands in `text` at position `at`.
pub open spec fn occurs_at(text: Seq<char>, pattern: Seq<char>, at: int) -> bool {
    &&& 0 <= at
    &&& at + pattern.len() <= text.len()
    &&& text.subrange(at, at + pattern.len()) == pattern
}

/// Whether `pattern` stands anywhere in `text`.
pub open spec fn occurs(text: Seq<char>, pattern: Seq<char>) -> bool {
    exists|at: int| occurs_at(text, pattern, at)
}

/// The first position at which `pattern` stands in `text`; the length of `text` and one more if it
/// stands nowhere.
pub open spec fn first_occurrence(text: Seq<char>, pattern: Seq<char>) -> int
    decreases text.len(),
{
    if occurs_at(text, pattern, 0) {
        0
    } else if text.len() == 0 {
        1
    } else {
        1 + first_occurrence(text.skip(1), pattern)
    }
}

/// `text` with every occurrence of `pattern`, taken from the left without overlap, replaced.
pub open spec fn replaced(text: Seq<char>, pattern: Seq<char>, with: Seq<char>) -> Seq<char>
    decreases text.len(),
{
    if pattern.len() == 0 || text.len() < pattern.len() {
        text
    } else if occurs_at(text, pattern, 0) {
        with + replaced(text.skip(pattern.len() as int), pattern, with)
    } else {
        seq![text[0]] + replaced(text.skip(1), pattern, with)
    }
}

/// The parts, with `separator` between each two neighbours.
pub open spec fn joined(parts: Seq<Seq<char>>, separator: Seq<char>) -> Seq<char>
    decreases parts.len(),
{
    if parts.len() == 0 {
        seq![]
    } else if parts.len() == 1 {
        parts[0]
    } else {
        joined(parts.drop_last(), separator) + separator + parts.last()
    }
}

/// The Unicode `White_Space` property.
pub open spec fn is_white(c: char) -> bool {
    let u = c as u32;
    ||| 0x9 <= u <= 0xd
    ||| u == 0x20
    ||| u == 0x85
    ||| u == 0xa0
    ||| u == 0x1680
    ||| 0x2000 <= u <= 0x200a
    ||| u == 0x2028
    ||| u == 0x2029
    ||| u == 0x202f
    ||| u == 0x205f
    ||| u == 0x3000
}

/// `text` without the white space at its start.
pub open spec fn trimmed_start(text: Seq<char>) -> Seq<char>
    decreases text.len(),
{
    if text.len() > 0 && is_white(text[0]) {
        trimmed_start(text.skip(1))
    } else {
        text
    }
}

/// `text` without the white space at its end.
pub open spec fn trimmed_end(text: Seq<char>) -> Seq<char>
    decreases text.len(),
{
    if text.len() > 0 && is_white(text.last()) {
        trimmed_end(text.drop_last())
    } else {
        text
    }
}

/// `text` without the white space at both of its ends.
pub open spec fn trimmed(text: Seq<char>) -> Seq<char> {
    trimmed_end(trimmed_start(text))
}

/// The position of the first `c` in `text`, or the length of `text` if there is none.
pub open spec fn first_index(text: Seq<char>, c: char) -> nat
    decreases text.len(),
{
    if text.len() == 0 || text[0] == c {
        0
    } else {
        1 + first_index(text.skip(1), c)
    }
}

/// `line` without the carriage return that ends it, if one does.
pub open spec fn without_cr(line: Seq<char>) -> Seq<char> {
    if line.len() > 0 && line.last() == '\r' {
        line.drop_last()
    } else {
        line
    }
}

/// The lines of `text`: what stands before each line feed or before a carriage return and a line
/// feed, and what stands after the last one unless that is nothing.
pub open spec fn lines_of(text: Seq<char>) -> Seq<Seq<char>>
    decreases text.len(),
{
    let end = first_index(text, '\n');
    if text.len() == 0 {
        seq![]
    } else if end >= text.len() {
        seq![text]
    } else {
        seq![without_cr(text.take(end as int))] + lines_of(text.skip(end as int + 1))
    }
}

/// Whether `a` stands before `b` in the order of their characters' code points.
pub open spec fn text_less(a: Seq<char>, b: Seq<char>) -> bool
    decreases a.len(),
{
    if b.len() == 0 {
        false
    } else if a.len() == 0 {
        true
    } else if a[0] == b[0] {
        text_less(a.skip(1), b.skip(1))
    } else {
        a[0] < b[0]
    }
}

/// Each text stands before all that follow it.
pub open spec fn strictly_sorted(v: Seq<Seq<char>>) -> bool {
    forall|i: int, j: int| 0 <= i < j < v.len() ==> text_less(#[trigger] v[i], #[trigger] v[j])
}

/// `String::push` appends the character.
pub assume_specification[ String::push ](s: &mut String, c: char)
    ensures
        final(s)@ == old(s)@.push(c),
;

/// The characters of a text.
pub fn to_chars(s: &str) -> (r: Vec<char>)
    ensures
        r@ == s@,
{
    let mut r: Vec<char> = Vec::new();
    for c in it: s.chars()
        invariant
            r@ == s@.take(it.index() as int),
            it.seq() == s@,
    {
        r.push(c);
        assert(s@.take(it.index() as int).push(c) =~= s@.take(it.index() as int + 1));
    }
    assert(s@.take(s@.len() as int) =~= s@);
    r
}

/// The characters from `from` up to `to`, as a string.
pub fn span(chars: &Vec<char>, from: usize, to: usize) -> (r: String)
    requires
        from <= to <= chars.len(),
    ensures
        r@ == chars@.subrange(from as int, to as int),
{
    let mut r = String::new();
    let mut i: usize = from;
    while i < to
        invariant
            from <= i <= to <= chars.len(),
            r@ == chars@.subrange(from as int, i as int),
        decreases to - i,
    {
        r.push(chars[i]);
        i += 1;
        assert(chars@.subrange(from as int, i as int) =~= chars@.subrange(
            from as int,
            i - 1,
        ).push(chars@[i - 1]));
    }
    r
}

/// Whether two texts are the same.
pub fn same(a: &str, b: &str) -> (r: bool)
    ensures
        r == (a@ == b@),
{
    a.to_owned() == b.to_owned()
}

/// Whether two byte sequences are the same.
pub fn same_bytes(a: &[u8], b: &[u8]) -> (r: bool)
    ensures
        r == (a@ == b@),
{
    if a.len() != b.len() {
        return false;
    }
    let mut i: usize = 0;
    while i < a.len()
        invariant
            i <= a.len(),
            a.len() == b.len(),
            forall|j: int| 0 <= j < i ==> a@[j] == b@[j],
        decreases a.len() - i,
    {
        if a[i] != b[i] {
            return false;
        }
        i += 1;
    }
    assert(a@ =~= b@);
    true
}

/// Whether `pattern` stands in `text` at position `at`.
fn stands_at(text: &Vec<char>, pattern: &Vec<char>, at: usize) -> (r: bool)
    requires
        at <= text.len(),
    ensures
        r == occurs_at(text@, pattern@, at as int),
{
    if text.len() - at < pattern.len() {
        return false;
    }
    let mut i: usize = 0;
    while i < pattern.len()
        invariant
            i <= pattern.len(),
            at + pattern.len() <= text.len(),
            forall|j: int| 0 <= j < i ==> text@[at + j] == pattern@[j],
        decreases pattern.len() - i,
    {
        if text[at + i] != pattern[i] {
            assert(text@.subrange(at as int, at + pattern.len())[i as int] != pattern@[i as int]);
            return false;
        }
        i += 1;
    }
    assert(text@.subrange(at as int, at + pattern.len()) =~= pattern@);
    true
}

/// Whether `text` begins with `prefix`.
pub fn starts_with(text: &str, prefix: &str) -> (r: bool)
    ensures
        r == occurs_at(text@, prefix@, 0),
{
    let text = to_chars(text);
    let prefix = to_chars(prefix);
    stands_at(&text, &prefix, 0)
}

/// The first position at which `pattern` stands in `text`.
pub fn find(text: &str, pattern: &str) -> (r: Option<usize>)
    ensures
        match r {
            Some(at) => {
                &&& at == first_occurrence(text@, pattern@)
                &&& occurs_at(text@, pattern@, at as int)
            },
            None => !occurs(text@, pattern@),
        },
{
    let chars = to_chars(text);
    let pattern_chars = to_chars(pattern);
    let mut at: usize = 0;
    while at < chars.len()
        invariant
            at <= chars.len(),
            chars@ == text@,
            pattern_chars@ == pattern@,
            forall|i: int| 0 <= i < at ==> !occurs_at(text@, pattern@, i),
        decreases chars.len() - at,
    {
        if stands_at(&chars, &pattern_chars, at) {
            proof {
                first_occurrence_is_first(text@, pattern@, at as int);
            }
            return Some(at);
        }
        at += 1;
    }
    if stands_at(&chars, &pattern_chars, at) {
        proof {
            first_occurrence_is_first(text@, pattern@, at as int);
        }
        Some(at)
    } else {
        None
    }
}

/// The first position at which a pattern stands in a text is one at which it does, and no later
/// than any other.
pub proof fn first_occurrence_is_first(text: Seq<char>, pattern: Seq<char>, at: int)
    requires
        occurs_at(text, pattern, at),
    ensures
        0 <= first_occurrence(text, pattern) <= at,
        occurs_at(text, pattern, first_occurrence(text, pattern)),
    decreases text.len(),
{
    if !occurs_at(text, pattern, 0) {
        assert(at > 0);
        let rest = text.skip(1);
        assert(rest.subrange(at - 1, at - 1 + pattern.len()) =~= text.subrange(
            at,
            at + pattern.len(),
        ));
        first_occurrence_is_first(rest, pattern, at - 1);
        let first = first_occurrence(rest, pattern);
        assert(text.subrange(first + 1, first + 1 + pattern.len()) =~= rest.subrange(
            first,
            first + pattern.len(),
        ));
    }
}

/// Whether `pattern` stands anywhere in `text`.
pub fn contains(text: &str, pattern: &str) -> (r: bool)
    ensures
        r == occurs(text@, pattern@),
{
    match find(text, pattern) {
        Some(_) => true,
        None => false,
    }
}

/// `text` with every occurrence of `pattern` replaced by `with`.
pub fn replace(text: &str, pattern: &str, with: &str) -> (r: String)
    requires
        pattern@.len() > 0,
    ensures
        r@ == replaced(text@, pattern@, with@),
{
    let chars = to_chars(text);
    let pattern_chars = to_chars(pattern);
    let mut r = String::new();
    let mut i: usize = 0;
    assert(chars@.skip(0) =~= chars@);
    while i < chars.len()
        invariant
            i <= chars.len(),
            chars@ == text@,
            pattern_chars@ == pattern@,
            pattern@.len() > 0,
            r@ + replaced(chars@.skip(i as int), pattern@, with@) == replaced(
                text@,
                pattern@,
                with@,
            ),
        decreases chars.len() - i,
    {
        let ghost rest = chars@.skip(i as int);
        let ghost done = r@;
        assert(forall|n: int| 0 <= n <= rest.len() ==> rest.skip(n) =~= chars@.skip(i + n));
        if stands_at(&chars, &pattern_chars, i) {
            assert(rest.subrange(0, pattern@.len() as int) =~= chars@.subrange(
                i as int,
                i + pattern@.len(),
            ));
            assert(occurs_at(rest, pattern@, 0));
            r.append(with);
            i += pattern_chars.len();
            assert(r@ + replaced(chars@.skip(i as int), pattern@, with@) =~= done + replaced(
                rest,
                pattern@,
                with@,
            ));
        } else {
            proof {
                if rest.len() >= pattern@.len() {
                    assert(rest.subrange(0, pattern@.len() as int) =~= chars@.subrange(
                        i as int,
                        i + pattern@.len(),
                    ));
                    assert(!occurs_at(rest, pattern@, 0));
                } else {
                    assert(rest.skip(1).len() < pattern@.len());
                    assert(seq![rest[0]] + rest.skip(1) =~= rest);
                }
            }
            r.push(chars[i]);
            i += 1;
            assert(r@ + replaced(chars@.skip(i as int), pattern@, with@) =~= done + replaced(
                rest,
                pattern@,
                with@,
            ));
        }
    }
    assert(chars@.skip(i as int) =~= Seq::<char>::empty());
    assert(r@ + Seq::<char>::empty() =~= r@);
    r
}

/// The parts, with `separator` between each two neighbours.
pub fn join(parts: &[String], separator: &str) -> (r: String)
    ensures
        r@ == joined(texts(parts@), separator@),
{
    let mut r = String::new();
    let mut i: usize = 0;
    while i < parts.len()
        invariant
            i <= parts.len(),
            r@ == joined(texts(parts@).take(i as int), separator@),
        decreases parts.len() - i,
    {
        let ghost before = texts(parts@).take(i as int);
        let ghost after = texts(parts@).take(i + 1);
        assert(after.drop_last() =~= before);
        if i > 0 {
            r.append(separator);
        }
        r.append(parts[i].as_str());
        if i == 0 {
            assert(r@ =~= parts@[0]@);
        }
        i += 1;
    }
    assert(texts(parts@).take(i as int) =~= texts(parts@));
    r
}

/// Whether `c` is white space.
pub fn is_whitespace(c: char) -> (r: bool)
    ensures
        r == is_white(c),
{
    let u = c as u32;
    (0x9 <= u && u <= 0xd) || u == 0x20 || u == 0x85 || u == 0xa0 || u == 0x1680 || (0x2000 <= u
        && u <= 0x200a) || u == 0x2028 || u == 0x2029 || u == 0x202f || u == 0x205f || u == 0x3000
}

/// `text` without the white space at its end.
pub fn trim_end(text: &str) -> (r: String)
    ensures
        r@ == trimmed_end(text@),
{
    let chars = to_chars(text);
    let end = end_of_trimmed(&chars, 0);
    assert(chars@.skip(0) =~= chars@);
    assert(chars@.subrange(0, end as int) =~= chars@.take(end as int));
    span(&chars, 0, end)
}

/// Where the text that starts at `from` ends, once the white space at its end is gone.
fn end_of_trimmed(chars: &Vec<char>, from: usize) -> (end: usize)
    requires
        from <= chars.len(),
    ensures
        from <= end <= chars.len(),
        chars@.subrange(from as int, end as int) == trimmed_end(chars@.skip(from as int)),
{
    let mut end: usize = chars.len();
    assert(chars@.subrange(from as int, end as int) =~= chars@.skip(from as int));
    while end > from && is_whitespace(chars[end - 1])
        invariant
            from <= end <= chars.len(),
            trimmed_end(chars@.subrange(from as int, end as int)) == trimmed_end(
                chars@.skip(from as int),
            ),
        decreases end,
    {
        assert(chars@.subrange(from as int, end as int).drop_last() =~= chars@.subrange(
            from as int,
            end - 1,
        ));
        end -= 1;
    }
    if end > from {
        assert(chars@.subrange(from as int, end as int).last() == chars@[end - 1]);
    }
    end
}

/// `text` without the white space at both of its ends.
pub fn trim(text: &str) -> (r: String)
    ensures
        r@ == trimmed(text@),
{
    let chars = to_chars(text);
    let mut from: usize = 0;
    assert(chars@.skip(0) =~= chars@);
    while from < chars.len() && is_whitespace(chars[from])
        invariant
            from <= chars.len(),
            trimmed_start(chars@.skip(from as int)) == trimmed_start(chars@),
        decreases chars.len() - from,
    {
        assert(chars@.skip(from as int).skip(1) =~= chars@.skip(from + 1));
        from += 1;
    }
    assert(trimmed_start(chars@.skip(from as int)) == chars@.skip(from as int));
    let end = end_of_trimmed(&chars, from);
    span(&chars, from, end)
}

/// The position of the first `c` at or after `from`, or the length of `chars`.
fn find_char(chars: &Vec<char>, from: usize, c: char) -> (r: usize)
    requires
        from <= chars.len(),
    ensures
        r == from + first_index(chars@.skip(from as int), c),
        from <= r <= chars.len(),
{
    let mut i: usize = from;
    while i < chars.len() && chars[i] != c
        invariant
            from <= i <= chars.len(),
            i + first_index(chars@.skip(i as int), c) == from + first_index(
                chars@.skip(from as int),
                c,
            ),
        decreases chars.len() - i,
    {
        assert(chars@.skip(i as int).skip(1) =~= chars@.skip(i + 1));
        i += 1;
    }
    i
}

/// The lines of `text`, without what ends them.
pub fn lines(text: &str) -> (r: Vec<String>)
    ensures
        texts(r@) == lines_of(text@),
{
    let chars = to_chars(text);
    let mut r: Vec<String> = Vec::new();
    let mut from: usize = 0;
    assert(chars@.skip(0) =~= chars@);
    assert(texts(r@) + lines_of(chars@) =~= lines_of(chars@));
    while from < chars.len()
        invariant
            from <= chars.len(),
            chars@ == text@,
            texts(r@) + lines_of(chars@.skip(from as int)) == lines_of(text@),
        decreases chars.len() - from,
    {
        let ghost rest = chars@.skip(from as int);
        let ghost before = texts(r@);
        let end = find_char(&chars, from, '\n');
        let mut to: usize = end;
        if end < chars.len() && end > from && chars[end - 1] == '\r' {
            to = end - 1;
        }
        let line = span(&chars, from, to);
        let ghost line_text = line@;
        r.push(line);
        assert(texts(r@) =~= before.push(line_text));
        if end >= chars.len() {
            assert(line_text =~= rest);
            from = chars.len();
            assert(lines_of(rest) == seq![rest]);
            assert(chars@.skip(from as int) =~= Seq::<char>::empty());
            assert(texts(r@) + Seq::<Seq<char>>::empty() =~= before + lines_of(rest));
        } else {
            assert(rest.skip(end - from + 1) =~= chars@.skip(end + 1));
            assert(line_text =~= without_cr(rest.take(end - from)));
            from = end + 1;
            assert(texts(r@) + lines_of(chars@.skip(from as int)) =~= before + lines_of(rest));
        }
    }
    assert(chars@.skip(from as int) =~= Seq::<char>::empty());
    assert(texts(r@) + Seq::<Seq<char>>::empty() =~= texts(r@));
    r
}

/// Whether `a` stands before `b`.
pub fn before(a: &str, b: &str) -> (r: bool)
    ensures
        r == text_less(a@, b@),
{
    let ca = to_chars(a);
    let cb = to_chars(b);
    let mut i: usize = 0;
    assert(ca@.skip(0) =~= ca@ && cb@.skip(0) =~= cb@);
    while i < ca.len() && i < cb.len()
        invariant
            i <= ca.len(),
            i <= cb.len(),
            ca@ == a@,
            cb@ == b@,
            text_less(ca@.skip(i as int), cb@.skip(i as int)) == text_less(ca@, cb@),
        decreases ca.len() - i,
    {
        if ca[i] != cb[i] {
            return ca[i] < cb[i];
        }
        assert(ca@.skip(i as int).skip(1) =~= ca@.skip(i + 1));
        assert(cb@.skip(i as int).skip(1) =~= cb@.skip(i + 1));
        i += 1;
    }
    i < cb.len()
}

/// No text stands before itself.
pub proof fn text_less_irreflexive(a: Seq<char>)
    ensures
        !text_less(a, a),
    decreases a.len(),
{
    if a.len() > 0 {
        text_less_irreflexive(a.skip(1));
    }
}

/// Of two different texts one stands before the other.
pub proof fn text_less_total(a: Seq<char>, b: Seq<char>)
    ensures
        a == b || text_less(a, b) || text_less(b, a),
    decreases a.len(),
{
    if a.len() == 0 || b.len() == 0 {
        if a.len() == b.len() {
            assert(a =~= b);
        }
    } else if a[0] == b[0] {
        text_less_total(a.skip(1), b.skip(1));
        if a.skip(1) == b.skip(1) {
            assert(a =~= seq![a[0]] + a.skip(1));
            assert(b =~= seq![b[0]] + b.skip(1));
        }
    }
}

/// What stands before a text stands before all that follow it.
pub proof fn text_less_transitive(a: Seq<char>, b: Seq<char>, c: Seq<char>)
    requires
        text_less(a, b),
        text_less(b, c),
    ensures
        text_less(a, c),
    decreases a.len(),
{
    if a.len() > 0 && b.len() > 0 && c.len() > 0 && a[0] == b[0] && b[0] == c[0] {
        text_less_transitive(a.skip(1), b.skip(1), c.skip(1));
    }
}

/// Whether `text` is one of `strings`.
pub fn is_among(strings: &[String], text: &str) -> (r: bool)
    ensures
        r == texts(strings@).contains(text@),
{
    let mut i: usize = 0;
    while i < strings.len()
        invariant
            i <= strings.len(),
            forall|j: int| 0 <= j < i ==> strings@[j]@ != text@,
        decreases strings.len() - i,
    {
        if same(strings[i].as_str(), text) {
            assert(texts(strings@)[i as int] == text@);
            return true;
        }
        i += 1;
    }
    false
}

/// Puts `text` into a sorted list, unless it is there already.
pub fn insert_sorted(strings: &mut Vec<String>, text: String)
    requires
        strictly_sorted(texts(old(strings)@)),
    ensures
        strictly_sorted(texts(final(strings)@)),
        forall|t: Seq<char>| #[trigger]
            texts(final(strings)@).contains(t) <==> t == text@ || texts(old(strings)@).contains(t),
{
    let ghost before_all = texts(strings@);
    let ghost added = text@;
    let mut i: usize = 0;
    while i < strings.len() && before(strings[i].as_str(), text.as_str())
        invariant
            i <= strings.len(),
            texts(strings@) == before_all,
            added == text@,
            forall|j: int| 0 <= j < i ==> text_less(#[trigger] before_all[j], added),
        decreases strings.len() - i,
    {
        assert(before_all[i as int] == strings@[i as int]@);
        i += 1;
    }
    if i < strings.len() && same(strings[i].as_str(), text.as_str()) {
        assert(before_all[i as int] == added);
        return;
    }
    strings.insert(i, text);
    let ghost after = texts(strings@);
    proof {
        assert(after =~= before_all.insert(i as int, added));
        if i < before_all.len() {
            text_less_total(before_all[i as int], added);
        }
        assert forall|j: int| i <= j < before_all.len() implies text_less(
            added,
            #[trigger] before_all[j],
        ) by {
            if j > i {
                text_less_transitive(added, before_all[i as int], before_all[j]);
            }
        }
        assert(strictly_sorted(after));
        assert forall|t: Seq<char>| #[trigger] after.contains(t) <==> t == added
            || before_all.contains(t) by {
            if before_all.contains(t) {
                let k = choose|k: int| 0 <= k < before_all.len() && before_all[k] == t;
                if k < i {
                    assert(after[k] == t);
                } else {
                    assert(after[k + 1] == t);
                }
            }
            if t == added {
                assert(after[i as int] == t);
            }
            if after.contains(t) {
                let k = choose|k: int| 0 <= k < after.len() && after[k] == t;
                if k < i {
                    assert(before_all[k] == t);
                } else if k > i {
                    assert(before_all[k - 1] == t);
                }
            }
        }
    }
}

/// The text that `String::from_utf8_lossy` makes of bytes that are not valid UTF-8.
pub uninterp spec fn repaired(bytes: Seq<u8>) -> Seq<char>;

/// The text that the bytes are read as: that of valid UTF-8, or else a repaired one.
pub open spec fn lossy_text(bytes: Seq<u8>) -> Seq<char> {
    if valid_utf8(bytes) {
        decode_utf8(bytes)
    } else {
        repaired(bytes)
    }
}

/// `String::from_utf8_lossy`: the text of valid UTF-8; of other bytes some text that depends on
/// them alone.
#[verifier::external_body]
pub(crate) fn from_utf8_lossy(bytes: &[u8]) -> (r: String)
    ensures
        r@ == if valid_utf8(bytes@) {
            decode_utf8(bytes@)
        } else {
            repaired(bytes@)
        },
{
    String::from_utf8_lossy(bytes).into_owned()
}

/// The text that `str::to_lowercase` makes of one that is not ASCII.
pub uninterp spec fn unicode_lower(text: Seq<char>) -> Seq<char>;

/// The lower case letter of an upper case ASCII letter, and any other character itself.
pub open spec fn ascii_lower(c: char) -> char {
    if 'A' <= c && c <= 'Z' {
        ((c as u32 + 32) as u32) as char
    } else {
        c
    }
}

/// A text in lower case.
pub open spec fn lower_text(text: Seq<char>) -> Seq<char> {
    if is_ascii_chars(text) {
        text.map_values(|c: char| ascii_lower(c))
    } else {
        unicode_lower(text)
    }
}

/// `str::to_lowercase`: of ASCII text, each letter in lower case; of other text, some text that
/// depends on it alone.
#[verifier::external_body]
pub(crate) fn to_lowercase(text: &str) -> (r: String)
    ensures
        r@ == if is_ascii_chars(text@) {
            text@.map_values(|c: char| ascii_lower(c))
        } else {
            unicode_lower(text@)
        },
{
    text.to_lowercase()
}

/// The hexadecimal digit of a number below sixteen.
pub open spec fn hex_digit(n: nat) -> char {
    if n < 10 {
        ((48 + n) as u32) as char
    } else {
        ((87 + n) as u32) as char
    }
}

/// A number in hexadecimal.
pub open spec fn hex_of(n: nat) -> Seq<char>
    decreases n,
{
    if n < 16 {
        seq![hex_digit(n)]
    } else {
        hex_of(n / 16).push(hex_digit(n % 16))
    }
}

/// A character as the escape of its code point.
pub open spec fn unicode_escape(c: char) -> Seq<char> {
    seq!['\\', 'u', '{'] + hex_of((c as u32) as nat) + seq!['}']
}

/// A character as it stands in quotes: some with a backslash, other ASCII characters as they are
/// or, if they are control characters, by their code point, and those beyond ASCII in one of these
/// two ways; `shown` says which.
pub open spec fn quoted_char(c: char, shown: bool) -> Seq<char> {
    if c == '\t' {
        seq!['\\', 't']
    } else if c == '\r' {
        seq!['\\', 'r']
    } else if c == '\n' {
        seq!['\\', 'n']
    } else if c == '\0' {
        seq!['\\', '0']
    } else if c == '"' || c == '\\' {
        seq!['\\', c]
    } else if (c as u32) < 0x20 || (c as u32) == 0x7f {
        unicode_escape(c)
    } else if (c as u32) < 0x80 || shown {
        seq![c]
    } else {
        unicode_escape(c)
    }
}

/// Whether the `Debug` format of a `str` shows a character beyond ASCII as it is.
pub uninterp spec fn is_shown(c: char) -> bool;

/// A text in quotes, with escapes where it needs them.
pub open spec fn quoted(text: Seq<char>) -> Seq<char> {
    seq!['"'] + text.map_values(|c: char| quoted_char(c, is_shown(c))).flatten() + seq!['"']
}

/// The `Debug` format of a `str`: its characters one after the other, each as it stands in quotes,
/// between quotes. Whether one beyond ASCII is shown as it is depends on that character alone.
#[verifier::external_body]
pub(crate) fn quote(text: &str) -> (r: String)
    ensures
        r@ == seq!['"'] + text@.map_values(|c: char| quoted_char(c, is_shown(c))).flatten()
            + seq!['"'],
{
    format!("{:?}", text)
}

proof fn hex_of_is_injective(m: nat, n: nat)
    requires
        hex_of(m) == hex_of(n),
    ensures
        m == n,
    decreases m,
{
    hex_digits_are_no_braces(m);
    hex_digits_are_no_braces(n);
    assert(hex_of(m).last() == hex_digit(m % 16));
    assert(hex_of(n).last() == hex_digit(n % 16));
    if m < 16 {
        if n >= 16 {
            hex_digits_are_no_braces(n / 16);
        }
    } else if n < 16 {
        hex_digits_are_no_braces(m / 16);
    } else {
        assert(hex_of(m).drop_last() =~= hex_of(m / 16));
        assert(hex_of(n).drop_last() =~= hex_of(n / 16));
        hex_of_is_injective(m / 16, n / 16);
    }
}

proof fn hex_digits_are_no_braces(n: nat)
    ensures
        hex_of(n).len() > 0,
        forall|i: int| 0 <= i < hex_of(n).len() ==> #[trigger] hex_of(n)[i] != '}',
    decreases n,
{
    if n >= 16 {
        hex_digits_are_no_braces(n / 16);
    }
}

proof fn parts_before_braces(a: Seq<char>, b: Seq<char>, after_a: Seq<char>, after_b: Seq<char>)
    requires
        a + seq!['}'] + after_a == b + seq!['}'] + after_b,
        forall|i: int| 0 <= i < a.len() ==> #[trigger] a[i] != '}',
        forall|i: int| 0 <= i < b.len() ==> #[trigger] b[i] != '}',
    ensures
        a == b,
{
    let whole = a + seq!['}'] + after_a;
    assert(whole[a.len() as int] == '}');
    assert((b + seq!['}'] + after_b)[b.len() as int] == '}');
    if a.len() < b.len() {
        assert(whole[a.len() as int] == b[a.len() as int]);
    } else if b.len() < a.len() {
        assert(whole[b.len() as int] == a[b.len() as int]);
    } else {
        assert forall|i: int| 0 <= i < a.len() implies a[i] == b[i] by {
            assert(whole[i] == a[i] && whole[i] == b[i]);
        }
        assert(a =~= b);
    }
}

/// What stands in quotes for one character does not begin what stands there for another.
proof fn quoted_chars_differ(a: char, b: char, after_a: Seq<char>, after_b: Seq<char>)
    requires
        quoted_char(a, is_shown(a)) + after_a == quoted_char(b, is_shown(b)) + after_b,
    ensures
        a == b,
{
    let x = quoted_char(a, is_shown(a));
    let y = quoted_char(b, is_shown(b));
    let whole = x + after_a;
    assert(whole[0] == x[0] && whole[0] == y[0]);
    if x[0] == '\\' {
        assert(whole[1] == x[1] && whole[1] == y[1]);
        if x[1] == 'u' {
            let hex_a = hex_of((a as u32) as nat);
            let hex_b = hex_of((b as u32) as nat);
            assert(x == unicode_escape(a) && y == unicode_escape(b));
            assert(whole.skip(3) =~= hex_a + seq!['}'] + after_a);
            assert(whole.skip(3) =~= hex_b + seq!['}'] + after_b);
            hex_digits_are_no_braces((a as u32) as nat);
            hex_digits_are_no_braces((b as u32) as nat);
            parts_before_braces(hex_a, hex_b, after_a, after_b);
            hex_of_is_injective((a as u32) as nat, (b as u32) as nat);
        }
    }
}

proof fn quoted_chars_tell_texts_apart(a: Seq<char>, b: Seq<char>)
    requires
        a.map_values(|c: char| quoted_char(c, is_shown(c))).flatten() == b.map_values(
            |c: char| quoted_char(c, is_shown(c)),
        ).flatten(),
    ensures
        a == b,
    decreases a.len(),
{
    let form = |c: char| quoted_char(c, is_shown(c));
    let forms_a = a.map_values(form);
    let forms_b = b.map_values(form);
    if a.len() > 0 {
        assert(forms_a.drop_first() =~= a.drop_first().map_values(form));
    }
    if b.len() > 0 {
        assert(forms_b.drop_first() =~= b.drop_first().map_values(form));
    }
    if a.len() > 0 && b.len() > 0 {
        let after_a = forms_a.drop_first().flatten();
        let after_b = forms_b.drop_first().flatten();
        quoted_chars_differ(a[0], b[0], after_a, after_b);
        let n = forms_a[0].len() as int;
        assert((forms_a[0] + after_a).skip(n) =~= after_a);
        assert((forms_b[0] + after_b).skip(n) =~= after_b);
        quoted_chars_tell_texts_apart(a.drop_first(), b.drop_first());
        assert(a =~= seq![a[0]] + a.drop_first());
        assert(b =~= seq![b[0]] + b.drop_first());
    } else {
        assert(a =~= b);
    }
}

/// Different texts stand differently in quotes.
pub proof fn quotes_tell_texts_apart(a: Seq<char>, b: Seq<char>)
    requires
        quoted(a) == quoted(b),
    ensures
        a == b,
{
    let form = |c: char| quoted_char(c, is_shown(c));
    let inner_a = a.map_values(form).flatten();
    let inner_b = b.map_values(form).flatten();
    assert(inner_a =~= quoted(a).subrange(1, quoted(a).len() - 1));
    assert(inner_b =~= quoted(b).subrange(1, quoted(b).len() - 1));
    quoted_chars_tell_texts_apart(a, b);
}

proof fn first_index_after(line: Seq<char>, c: char, rest: Seq<char>)
    requires
        forall|i: int| 0 <= i < line.len() ==> #[trigger] line[i] != c,
        rest.len() > 0 ==> rest[0] == c,
    ensures
        first_index(line + rest, c) == line.len(),
    decreases line.len(),
{
    let text = line + rest;
    if line.len() > 0 {
        assert(text[0] == line[0]);
        assert(text.skip(1) =~= line.skip(1) + rest);
        first_index_after(line.skip(1), c, rest);
    } else {
        assert(text =~= rest);
    }
}

/// A line ends with a line feed or with a carriage return and a line feed, neither of which belongs
/// to it, or with the text; after the last line feed there is no further line.
pub proof fn lines_end_with_line_feeds(line: Seq<char>, rest: Seq<char>)
    requires
        forall|i: int| 0 <= i < line.len() ==> #[trigger] line[i] != '\n',
    ensures
        line.len() == 0 || line.last() != '\r' ==> lines_of(line + seq!['\n'] + rest) == seq![line]
            + lines_of(rest),
        lines_of(line + seq!['\r', '\n'] + rest) == seq![line] + lines_of(rest),
        line.len() > 0 ==> lines_of(line) == seq![line],
        lines_of(seq![]).len() == 0,
{
    let feed = seq!['\n'] + rest;
    let text = line + seq!['\n'] + rest;
    assert(text =~= line + feed);
    first_index_after(line, '\n', feed);
    assert(text.take(line.len() as int) =~= line);
    assert(text.skip(line.len() as int + 1) =~= rest);
    let with_cr = line.push('\r');
    let other = line + seq!['\r', '\n'] + rest;
    assert(other =~= with_cr + feed);
    first_index_after(with_cr, '\n', feed);
    assert(other.take(with_cr.len() as int) =~= with_cr);
    assert(other.skip(with_cr.len() as int + 1) =~= rest);
    assert(with_cr.drop_last() =~= line);
    let none: Seq<char> = seq![];
    first_index_after(line, '\n', none);
    assert(line + none =~= line);
}

/// Joining two lists of parts gives the two joined texts with a separator between them, and a part
/// by itself stays as it is.
pub proof fn joining_puts_separators_between(
    a: Seq<Seq<char>>,
    b: Seq<Seq<char>>,
    part: Seq<char>,
    separator: Seq<char>,
)
    ensures
        a.len() > 0 && b.len() > 0 ==> joined(a + b, separator) == joined(a, separator) + separator
            + joined(b, separator),
        joined(seq![part], separator) == part,
        joined(seq![], separator).len() == 0,
    decreases b.len(),
{
    if a.len() > 0 && b.len() > 0 {
        let both = a + b;
        assert(both.drop_last() =~= a + b.drop_last());
        assert(both.last() == b.last());
        if b.len() == 1 {
            assert(both.drop_last() =~= a);
        } else {
            joining_puts_separators_between(a, b.drop_last(), part, separator);
            assert(joined(both, separator) =~= joined(a, separator) + separator + joined(
                b,
                separator,
            ));
        }
    }
}

/// Trimming takes white space off both ends, all of it and nothing else.
pub proof fn trimming_takes_white_space_off(text: Seq<char>) -> (r: (Seq<char>, Seq<char>))
    ensures
        text == r.0 + trimmed(text) + r.1,
        forall|i: int| 0 <= i < r.0.len() ==> is_white(#[trigger] r.0[i]),
        forall|i: int| 0 <= i < r.1.len() ==> is_white(#[trigger] r.1[i]),
        trimmed(text).len() > 0 ==> !is_white(trimmed(text)[0]) && !is_white(trimmed(text).last()),
{
    let before = start_is_trimmed(text);
    let middle = trimmed_start(text);
    let after = end_is_trimmed(middle);
    assert(text =~= before + trimmed(text) + after);
    if trimmed(text).len() > 0 {
        assert(trimmed(text)[0] == middle[0]);
    }
    (before, after)
}

proof fn start_is_trimmed(text: Seq<char>) -> (r: Seq<char>)
    ensures
        text == r + trimmed_start(text),
        forall|i: int| 0 <= i < r.len() ==> is_white(#[trigger] r[i]),
        trimmed_start(text).len() > 0 ==> !is_white(trimmed_start(text)[0]),
    decreases text.len(),
{
    if text.len() > 0 && is_white(text[0]) {
        let rest = start_is_trimmed(text.skip(1));
        let all = seq![text[0]] + rest;
        assert(text =~= seq![text[0]] + text.skip(1));
        assert(all + trimmed_start(text) =~= seq![text[0]] + (rest + trimmed_start(text)));
        all
    } else {
        assert(text =~= Seq::<char>::empty() + text);
        Seq::empty()
    }
}

/// Trimming the end takes white space off it, all of it and nothing else.
pub proof fn end_is_trimmed(text: Seq<char>) -> (r: Seq<char>)
    ensures
        text == trimmed_end(text) + r,
        forall|i: int| 0 <= i < r.len() ==> is_white(#[trigger] r[i]),
        trimmed_end(text).len() > 0 ==> !is_white(trimmed_end(text).last()),
    decreases text.len(),
{
    if text.len() > 0 && is_white(text.last()) {
        let rest = end_is_trimmed(text.drop_last());
        let all = rest.push(text.last());
        assert(text =~= text.drop_last().push(text.last()));
        assert(trimmed_end(text) + all =~= (trimmed_end(text) + rest).push(text.last()));
        all
    } else {
        assert(text =~= text + Seq::<char>::empty());
        Seq::empty()
    }
}

/// Of two texts, the one with the smaller character at the first place where they differ stands
/// first, and a text stands before all that continue it.
pub proof fn first_difference_orders_texts(a: Seq<char>, b: Seq<char>, i: int)
    requires
        0 <= i <= a.len(),
        i < b.len(),
        a.take(i) == b.take(i),
    ensures
        i == a.len() ==> text_less(a, b),
        i < a.len() && a[i] < b[i] ==> text_less(a, b) && !text_less(b, a),
    decreases i,
{
    if i > 0 {
        assert(a[0] == a.take(i)[0] && b[0] == b.take(i)[0]);
        assert(a.skip(1).take(i - 1) =~= a.take(i).skip(1));
        assert(b.skip(1).take(i - 1) =~= b.take(i).skip(1));
        first_difference_orders_texts(a.skip(1), b.skip(1), i - 1);
    }
}

/// A pattern occurs in a text exactly if the text is something, the pattern and something more.
pub proof fn patterns_occur_between(
    before: Seq<char>,
    pattern: Seq<char>,
    after: Seq<char>,
    text: Seq<char>,
)
    ensures
        occurs(before + pattern + after, pattern),
        occurs(text, pattern) ==> exists|before: Seq<char>, after: Seq<char>|
            text == #[trigger] (before + pattern + after),
{
    let whole = before + pattern + after;
    assert(whole.subrange(before.len() as int, (before.len() + pattern.len()) as int) =~= pattern);
    assert(occurs_at(whole, pattern, before.len() as int));
    if occurs(text, pattern) {
        let at = choose|at: int| occurs_at(text, pattern, at);
        let start = text.take(at);
        let end = text.skip(at + pattern.len());
        assert(text =~= start + text.subrange(at, at + pattern.len()) + end);
        assert(text == start + pattern + end);
    }
}

/// In a sorted list each text stands before all that follow it, so none comes twice.
pub proof fn sorted_texts_come_once(list: Seq<Seq<char>>, i: int, j: int)
    requires
        strictly_sorted(list),
        0 <= i < j < list.len(),
    ensures
        text_less(list[i], list[j]),
        list[i] != list[j],
{
    text_less_irreflexive(list[i]);
}

}
