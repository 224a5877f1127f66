//! Paths as text, with `/` between their components.

use vstd::prelude::*;

use crate::text::{
    before, first_index, same, span, text_less, text_less_irreflexive, text_less_total,
    text_less_transitive, texts, to_chars,
};

verus! {

broadcast use vstd::string::group_string_axioms;

/// Whether the path starts at the root.
pub open spec fn has_root(path: Seq<char>) -> bool {
    path.len() > 0 && path[0] == '/'
}

/// Whether the path starts with the component `.`, which counts only there.
pub open spec fn starts_in_cur_dir(path: Seq<char>) -> bool {
    path.len() > 0 && path[0] == '.' && (path.len() == 1 || path[1] == '/')
}

/// How many characters the root or the leading `.` takes.
pub open spec fn body_start(path: Seq<char>) -> nat {
    if has_root(path) || starts_in_cur_dir(path) {
        1
    } else {
        0
    }
}

/// Whether what stands between two separators names nothing.
pub open spec fn names_nothing(piece: Seq<char>) -> bool {
    piece.len() == 0 || piece == seq!['.']
}

/// The names between the separators of a path's body.
pub open spec fn names_in(body: Seq<char>) -> Seq<Seq<char>>
    decreases body.len(),
{
    if body.len() == 0 {
        seq![]
    } else {
        let end = first_index(body, '/') as int;
        let piece = body.take(end);
        let rest = if end < body.len() {
            names_in(body.skip(end + 1))
        } else {
            seq![]
        };
        if names_nothing(piece) {
            rest
        } else {
            seq![piece] + rest
        }
    }
}

/// The components of a path: the root or a leading `.`, then the names.
pub open spec fn components_of(path: Seq<char>) -> Seq<Seq<char>> {
    path_head(path) + names_in(path.skip(body_start(path) as int))
}

/// The root or the leading `.` as a component, if the path has one.
pub open spec fn path_head(path: Seq<char>) -> Seq<Seq<char>> {
    if body_start(path) == 1 {
        seq![seq![path[0]]]
    } else {
        seq![]
    }
}

/// Where a component stands before its text is looked at: the root, then `.`, then `..`, then
/// names.
pub open spec fn component_rank(component: Seq<char>) -> int {
    if component == seq!['/'] {
        0
    } else if component == seq!['.'] {
        1
    } else if component == seq!['.', '.'] {
        2
    } else {
        3
    }
}

/// Whether component `a` stands before component `b`.
pub open spec fn component_less(a: Seq<char>, b: Seq<char>) -> bool {
    ||| component_rank(a) < component_rank(b)
    ||| component_rank(a) == component_rank(b) && text_less(a, b)
}

/// Whether the components `a` stand before the components `b`.
pub open spec fn components_less(a: Seq<Seq<char>>, b: Seq<Seq<char>>) -> bool
    decreases a.len(),
{
    if b.len() == 0 {
        false
    } else if a.len() == 0 {
        true
    } else if a[0] == b[0] {
        components_less(a.skip(1), b.skip(1))
    } else {
        component_less(a[0], b[0])
    }
}

/// Whether path `a` stands before path `b`.
pub open spec fn path_less(a: Seq<char>, b: Seq<char>) -> bool {
    components_less(components_of(a), components_of(b))
}

/// The position of the last `c` in `text`, or -1 if there is none.
pub open spec fn last_index(text: Seq<char>, c: char) -> int
    decreases text.len(),
{
    if text.len() == 0 {
        -1
    } else if text.last() == c {
        text.len() - 1
    } else {
        last_index(text.drop_last(), c)
    }
}

/// Where the last piece of a path's body starts; the body starts at `start`.
pub open spec fn last_piece_start(path: Seq<char>, start: nat) -> int {
    start + last_index(path.skip(start as int), '/') + 1
}

/// The path without its last piece and the separator before that.
pub open spec fn without_last_piece(path: Seq<char>, start: nat) -> Seq<char> {
    let at = last_piece_start(path, start);
    path.take(if at > start { at - 1 } else { start as int })
}

/// The path without the pieces at its end that name nothing.
pub open spec fn tidied(path: Seq<char>, start: nat) -> Seq<char>
    decreases path.len(),
    when start <= path.len()
    via tidied_decreases
{
    if path.len() <= start {
        path
    } else if names_nothing(path.skip(last_piece_start(path, start))) {
        tidied(without_last_piece(path, start), start)
    } else {
        path
    }
}

#[via_fn]
proof fn tidied_decreases(path: Seq<char>, start: nat) {
    if path.len() > start {
        last_index_bounds(path.skip(start as int), '/');
    }
}

proof fn last_index_bounds(text: Seq<char>, c: char)
    ensures
        -1 <= last_index(text, c) < text.len(),
        last_index(text, c) >= 0 ==> text[last_index(text, c)] == c,
    decreases text.len(),
{
    if text.len() > 0 && text.last() != c {
        last_index_bounds(text.drop_last(), c);
    }
}

/// The path without its last component; none if it has no component but perhaps the root.
pub open spec fn parent_of(path: Seq<char>) -> Option<Seq<char>> {
    let start = body_start(path);
    let tidy = tidied(path, start);
    if tidy.len() > start {
        Some(tidied(without_last_piece(tidy, start), start))
    } else if starts_in_cur_dir(path) {
        Some(seq![])
    } else {
        None
    }
}

/// `tail` itself if it starts at the root, else `base` continued by `tail`.
pub open spec fn joined_path(base: Seq<char>, tail: Seq<char>) -> Seq<char> {
    if has_root(tail) {
        tail
    } else if base.len() == 0 || base.last() == '/' {
        base + tail
    } else {
        base + seq!['/'] + tail
    }
}

/// What follows the last dot of the path's last name; none without a name, without a dot, or if
/// the only dot starts the name.
pub open spec fn extension_of(path: Seq<char>) -> Option<Seq<char>> {
    let components = components_of(path);
    if components.len() == 0 || component_rank(components.last()) != 3 {
        None
    } else {
        let dot = last_index(components.last(), '.');
        if dot <= 0 {
            None
        } else {
            Some(components.last().skip(dot + 1))
        }
    }
}

/// The last name of the path; none if the path does not end in a name.
pub open spec fn file_name_of(path: Seq<char>) -> Option<Seq<char>> {
    let components = components_of(path);
    if components.len() == 0 || component_rank(components.last()) != 3 {
        None
    } else {
        Some(components.last())
    }
}

/// `base` continued by `tail`.
pub fn join_path(base: &str, tail: &str) -> (r: String)
    ensures
        r@ == joined_path(base@, tail@),
{
    let base_chars = to_chars(base);
    let tail_chars = to_chars(tail);
    if tail_chars.len() > 0 && tail_chars[0] == '/' {
        return tail.to_owned();
    }
    let mut r = base.to_owned();
    if base_chars.len() > 0 && base_chars[base_chars.len() - 1] != '/' {
        r.push('/');
        assert(r@ =~= base@ + seq!['/']);
    }
    r.append(tail);
    r
}

/// The position after the last `c` at or after `from`, or `from`.
fn after_last(chars: &Vec<char>, from: usize, to: usize, c: char) -> (r: usize)
    requires
        from <= to <= chars.len(),
    ensures
        r == from + last_index(chars@.subrange(from as int, to as int), c) + 1,
        from <= r <= to,
{
    let mut i: usize = to;
    while i > from && chars[i - 1] != c
        invariant
            from <= i <= to <= chars.len(),
            last_index(chars@.subrange(from as int, i as int), c) == last_index(
                chars@.subrange(from as int, to as int),
                c,
            ),
        decreases i,
    {
        assert(chars@.subrange(from as int, i as int).drop_last() =~= chars@.subrange(
            from as int,
            i - 1,
        ));
        i -= 1;
    }
    if i > from {
        assert(chars@.subrange(from as int, i as int).last() == c);
    }
    i
}

/// How long the path of the first `to` characters is without the pieces at its end that name
/// nothing.
fn tidy(chars: &Vec<char>, start: usize, to: usize) -> (r: usize)
    requires
        start <= to <= chars.len(),
    ensures
        start <= r <= to,
        chars@.take(r as int) == tidied(chars@.take(to as int), start as nat),
    decreases to,
{
    if to <= start {
        return to;
    }
    let ghost path = chars@.take(to as int);
    let at = after_last(chars, start, to, '/');
    assert(path.skip(start as int) =~= chars@.subrange(start as int, to as int));
    assert(path.skip(at as int) =~= chars@.subrange(at as int, to as int));
    if at == to || (at + 1 == to && chars[at] == '.') {
        assert(names_nothing(path.skip(at as int))) by {
            if at + 1 == to {
                assert(path.skip(at as int) =~= seq!['.']);
            }
        }
        let shorter = if at > start {
            at - 1
        } else {
            start
        };
        assert(path.take(shorter as int) =~= chars@.take(shorter as int));
        proof {
            last_index_bounds(path.skip(start as int), '/');
        }
        tidy(chars, start, shorter)
    } else {
        assert(!names_nothing(path.skip(at as int))) by {
            if path.skip(at as int) == seq!['.'] {
                assert(path.skip(at as int)[0] == '.');
                assert(path.skip(at as int).len() == 1);
            }
        }
        to
    }
}

/// The path without its last component.
pub fn parent_path(path: &str) -> (r: Option<String>)
    ensures
        match r {
            Some(parent) => parent_of(path@) == Some(parent@),
            None => parent_of(path@) is None,
        },
{
    let chars = to_chars(path);
    let rooted = chars.len() > 0 && chars[0] == '/';
    let dotted = chars.len() > 0 && chars[0] == '.' && (chars.len() == 1 || chars[1] == '/');
    let start: usize = if rooted || dotted {
        1
    } else {
        0
    };
    assert(chars@.take(chars@.len() as int) =~= chars@);
    let end = tidy(&chars, start, chars.len());
    if end > start {
        let ghost tidy_path = chars@.take(end as int);
        let at = after_last(&chars, start, end, '/');
        assert(tidy_path.skip(start as int) =~= chars@.subrange(start as int, end as int));
        let shorter = if at > start {
            at - 1
        } else {
            start
        };
        assert(tidy_path.take(shorter as int) =~= chars@.take(shorter as int));
        let to = tidy(&chars, start, shorter);
        assert(chars@.subrange(0, to as int) =~= chars@.take(to as int));
        Some(span(&chars, 0, to))
    } else if dotted {
        Some(String::new())
    } else {
        None
    }
}

/// The components of a path.
pub fn components(path: &str) -> (r: Vec<String>)
    ensures
        texts(r@) == components_of(path@),
{
    let chars = to_chars(path);
    let rooted = chars.len() > 0 && chars[0] == '/';
    let dotted = chars.len() > 0 && chars[0] == '.' && (chars.len() == 1 || chars[1] == '/');
    let mut r: Vec<String> = Vec::new();
    let mut from: usize = 0;
    if rooted || dotted {
        r.push(span(&chars, 0, 1));
        from = 1;
        assert(chars@.subrange(0, 1) =~= seq![chars@[0]]);
    }
    let ghost body = chars@.skip(from as int);
    assert(texts(r@) =~= path_head(path@));
    while from < chars.len()
        invariant
            from <= chars.len(),
            texts(r@) + names_in(chars@.skip(from as int)) == path_head(path@) + names_in(body),
        decreases chars.len() - from,
    {
        let ghost rest = chars@.skip(from as int);
        let ghost done = texts(r@);
        let mut end: usize = from;
        while end < chars.len() && chars[end] != '/'
            invariant
                from <= end <= chars.len(),
                rest == chars@.skip(from as int),
                end - from + first_index(chars@.skip(end as int), '/') == first_index(rest, '/'),
            decreases chars.len() - end,
        {
            assert(chars@.skip(end as int).skip(1) =~= chars@.skip(end + 1));
            end += 1;
        }
        assert(rest.take(end - from) =~= chars@.subrange(from as int, end as int));
        let nothing = end == from || (end == from + 1 && chars[from] == '.');
        assert(nothing == names_nothing(rest.take(end - from))) by {
            if end == from + 1 && chars@[from as int] == '.' {
                assert(rest.take(end - from) =~= seq!['.']);
            }
            if rest.take(end - from) == seq!['.'] {
                assert(rest.take(end - from).len() == 1);
                assert(rest.take(end - from)[0] == '.');
            }
        }
        if !nothing {
            r.push(span(&chars, from, end));
            assert(texts(r@) =~= done.push(rest.take(end - from)));
        }
        let ghost tail = if end < chars.len() {
            names_in(chars@.skip(end + 1))
        } else {
            seq![]
        };
        proof {
            if end < chars.len() {
                assert(rest.skip(end - from + 1) =~= chars@.skip(end + 1));
            }
            assert(texts(r@) + tail =~= done + names_in(rest));
        }
        from = if end < chars.len() {
            end + 1
        } else {
            end
        };
        proof {
            if end >= chars.len() {
                assert(chars@.skip(from as int) =~= Seq::<char>::empty());
            }
            assert(names_in(chars@.skip(from as int)) == tail);
        }
    }
    assert(chars@.skip(from as int) =~= Seq::<char>::empty());
    assert(texts(r@) + Seq::<Seq<char>>::empty() =~= texts(r@));
    r
}

/// Where a component stands before its text is looked at.
fn rank_of(component: &str) -> (r: u8)
    ensures
        r as int == component_rank(component@),
{
    proof {
        reveal_strlit("/");
        reveal_strlit(".");
        reveal_strlit("..");
    }
    assert("/"@ =~= seq!['/'] && "."@ =~= seq!['.'] && ".."@ =~= seq!['.', '.']);
    if same(component, "/") {
        0
    } else if same(component, ".") {
        1
    } else if same(component, "..") {
        2
    } else {
        3
    }
}

/// Whether path `a` stands before path `b`.
pub fn path_before(a: &str, b: &str) -> (r: bool)
    ensures
        r == path_less(a@, b@),
{
    let ca = components(a);
    let cb = components(b);
    let ghost ta = texts(ca@);
    let ghost tb = texts(cb@);
    let mut i: usize = 0;
    assert(ta.skip(0) =~= ta && tb.skip(0) =~= tb);
    while i < ca.len() && i < cb.len()
        invariant
            i <= ca.len(),
            i <= cb.len(),
            ta == texts(ca@),
            tb == texts(cb@),
            components_less(ta, tb) == path_less(a@, b@),
            components_less(ta.skip(i as int), tb.skip(i as int)) == components_less(ta, tb),
        decreases ca.len() - i,
    {
        if !same(ca[i].as_str(), cb[i].as_str()) {
            let ra = rank_of(ca[i].as_str());
            let rb = rank_of(cb[i].as_str());
            assert(ta.skip(i as int)[0] == ca@[i as int]@ && tb.skip(i as int)[0] == cb@[i as int]@);
            return ra < rb || (ra == rb && before(ca[i].as_str(), cb[i].as_str()));
        }
        assert(ta.skip(i as int).skip(1) =~= ta.skip(i + 1));
        assert(tb.skip(i as int).skip(1) =~= tb.skip(i + 1));
        i += 1;
    }
    i < cb.len()
}

/// What follows the last dot of the path's last name.
pub fn extension(path: &str) -> (r: Option<String>)
    ensures
        match r {
            Some(ext) => extension_of(path@) == Some(ext@),
            None => extension_of(path@) is None,
        },
{
    let parts = components(path);
    let ghost all = texts(parts@);
    if parts.len() == 0 {
        return None;
    }
    let last = &parts[parts.len() - 1];
    assert(all.last() == last@);
    if rank_of(last.as_str()) != 3 {
        return None;
    }
    let chars = to_chars(last.as_str());
    assert(chars@.subrange(0, chars@.len() as int) =~= chars@);
    let at = after_last(&chars, 0, chars.len(), '.');
    if at <= 1 {
        None
    } else {
        assert(chars@.subrange(at as int, chars@.len() as int) =~= chars@.skip(at as int));
        Some(span(&chars, at, chars.len()))
    }
}

/// The last name of the path.
pub fn file_name(path: &str) -> (r: Option<String>)
    ensures
        match r {
            Some(name) => file_name_of(path@) == Some(name@),
            None => file_name_of(path@) is None,
        },
{
    let mut parts = components(path);
    let ghost all = texts(parts@);
    match parts.pop() {
        Some(last) => {
            assert(all.last() == last@);
            if rank_of(last.as_str()) == 3 {
                Some(last)
            } else {
                None
            }
        },
        None => None,
    }
}

/// Whether two paths have the same components.
pub fn same_path(a: &str, b: &str) -> (r: bool)
    ensures
        r == (components_of(a@) == components_of(b@)),
{
    let ca = components(a);
    let cb = components(b);
    let ghost ta = texts(ca@);
    let ghost tb = texts(cb@);
    if ca.len() != cb.len() {
        assert(ta.len() != tb.len());
        return false;
    }
    let mut i: usize = 0;
    while i < ca.len()
        invariant
            i <= ca.len(),
            ca.len() == cb.len(),
            ta == texts(ca@),
            tb == texts(cb@),
            ta == components_of(a@),
            tb == components_of(b@),
            forall|j: int| 0 <= j < i ==> ta[j] == tb[j],
        decreases ca.len() - i,
    {
        if !same(ca[i].as_str(), cb[i].as_str()) {
            assert(ta[i as int] != tb[i as int]);
            return false;
        }
        assert(ta[i as int] == tb[i as int]);
        i += 1;
    }
    assert(ta =~= tb);
    true
}

/// No list of components stands before itself.
proof fn components_less_irreflexive(a: Seq<Seq<char>>)
    ensures
        !components_less(a, a),
    decreases a.len(),
{
    if a.len() > 0 {
        components_less_irreflexive(a.skip(1));
    }
}

proof fn components_less_transitive(a: Seq<Seq<char>>, b: Seq<Seq<char>>, c: Seq<Seq<char>>)
    requires
        components_less(a, b),
        components_less(b, c),
    ensures
        components_less(a, c),
    decreases a.len(),
{
    if a.len() > 0 && b.len() > 0 && c.len() > 0 {
        if a[0] == b[0] && b[0] == c[0] {
            components_less_transitive(a.skip(1), b.skip(1), c.skip(1));
        } else if a[0] != b[0] && b[0] != c[0] {
            if component_rank(a[0]) == component_rank(b[0]) && component_rank(b[0])
                == component_rank(c[0]) {
                text_less_transitive(a[0], b[0], c[0]);
            }
            if a[0] == c[0] {
                text_less_irreflexive(a[0]);
            }
        }
    }
}

proof fn components_less_total(a: Seq<Seq<char>>, b: Seq<Seq<char>>)
    ensures
        a == b || components_less(a, b) || components_less(b, a),
    decreases a.len(),
{
    if a.len() == 0 || b.len() == 0 {
        if a.len() == b.len() {
            assert(a =~= b);
        }
    } else if a[0] == b[0] {
        components_less_total(a.skip(1), b.skip(1));
        if a.skip(1) == b.skip(1) {
            assert(a =~= seq![a[0]] + a.skip(1));
            assert(b =~= seq![b[0]] + b.skip(1));
        }
    } else {
        text_less_total(a[0], b[0]);
    }
}

/// No path stands before itself.
pub proof fn path_less_irreflexive(a: Seq<char>)
    ensures
        !path_less(a, a),
{
    components_less_irreflexive(components_of(a));
}

/// What stands before a path stands before all that follow it.
pub proof fn path_less_transitive(a: Seq<char>, b: Seq<char>, c: Seq<char>)
    requires
        path_less(a, b),
        path_less(b, c),
    ensures
        path_less(a, c),
{
    components_less_transitive(components_of(a), components_of(b), components_of(c));
}

/// Of two paths with different components one stands before the other.
pub proof fn path_less_total(a: Seq<char>, b: Seq<char>)
    ensures
        components_of(a) == components_of(b) || path_less(a, b) || path_less(b, a),
{
    components_less_total(components_of(a), components_of(b));
}

/// A parent is a shorter beginning of the path.
pub proof fn parent_is_shorter(path: Seq<char>)
    ensures
        parent_of(path) matches Some(parent) ==> parent.len() < path.len() && parent == path.take(
            parent.len() as int,
        ),
{
    let start = body_start(path);
    tidied_is_prefix(path, start);
    let tidy = tidied(path, start);
    if tidy.len() > start {
        last_index_bounds(tidy.skip(start as int), '/');
        let shorter = without_last_piece(tidy, start);
        tidied_is_prefix(shorter, start);
        let parent = tidied(shorter, start);
        assert(shorter =~= path.take(shorter.len() as int));
        assert(parent =~= path.take(parent.len() as int));
    } else if starts_in_cur_dir(path) {
        assert(path.take(0) =~= seq![]);
    }
}

proof fn tidied_is_prefix(path: Seq<char>, start: nat)
    requires
        start <= path.len(),
    ensures
        start <= tidied(path, start).len() <= path.len(),
        tidied(path, start) == path.take(tidied(path, start).len() as int),
    decreases path.len(),
{
    if path.len() > start {
        last_index_bounds(path.skip(start as int), '/');
        let shorter = without_last_piece(path, start);
        if names_nothing(path.skip(last_piece_start(path, start))) {
            tidied_is_prefix(shorter, start);
            assert(tidied(shorter, start) =~= path.take(tidied(shorter, start).len() as int));
        } else {
            assert(path.take(path.len() as int) =~= path);
        }
    } else {
        assert(path.take(path.len() as int) =~= path);
    }
}

proof fn first_index_of_both(a: Seq<char>, b: Seq<char>, c: char)
    ensures
        first_index(a, c) <= a.len(),
        first_index(a + b, c) == if first_index(a, c) < a.len() {
            first_index(a, c)
        } else {
            a.len() + first_index(b, c)
        },
    decreases a.len(),
{
    if a.len() == 0 {
        assert(a + b =~= b);
    } else if a[0] != c {
        assert((a + b).skip(1) =~= a.skip(1) + b);
        first_index_of_both(a.skip(1), b, c);
    }
}

/// The names on both sides of a separator are the names of the whole.
proof fn names_around_separator(a: Seq<char>, b: Seq<char>)
    ensures
        names_in(a + seq!['/'] + b) == names_in(a) + names_in(b),
    decreases a.len(),
{
    let whole = a + seq!['/'] + b;
    let tail = seq!['/'] + b;
    assert(whole =~= a + tail);
    first_index_of_both(a, tail, '/');
    let end = first_index(a, '/') as int;
    assert(first_index(tail, '/') == 0);
    assert(whole.take(end) =~= a.take(end));
    if end < a.len() {
        names_around_separator(a.skip(end + 1), b);
        assert(whole.skip(end + 1) =~= a.skip(end + 1) + seq!['/'] + b);
        assert(names_in(whole) =~= names_in(a) + names_in(b));
    } else {
        assert(whole.skip(end + 1) =~= b);
        assert(a.take(end) =~= a);
        if whole.len() == end + 1 {
            assert(b =~= seq![]);
        }
        assert(names_in(whole) =~= names_in(a) + names_in(b));
    }
}

proof fn last_index_is_last(text: Seq<char>, c: char)
    ensures
        forall|i: int| last_index(text, c) < i < text.len() ==> #[trigger] text[i] != c,
    decreases text.len(),
{
    if text.len() > 0 && text.last() != c {
        last_index_is_last(text.drop_last(), c);
        last_index_bounds(text.drop_last(), c);
        assert forall|i: int| last_index(text, c) < i < text.len() implies #[trigger] text[i] != c by {
            if i < text.len() - 1 {
                assert(text.drop_last()[i] == text[i]);
            }
        }
    }
}

proof fn no_index(text: Seq<char>, c: char)
    requires
        forall|i: int| 0 <= i < text.len() ==> #[trigger] text[i] != c,
    ensures
        first_index(text, c) == text.len(),
    decreases text.len(),
{
    if text.len() > 0 {
        assert forall|i: int| 0 <= i < text.skip(1).len() implies #[trigger] text.skip(1)[i] != c by {
            assert(text.skip(1)[i] == text[i + 1]);
        }
        assert(text[0] != c);
        no_index(text.skip(1), c);
    }
}

/// What stands after the last separator of a body is its last name, unless it names nothing.
proof fn names_end_in_last_piece(path: Seq<char>, start: nat)
    requires
        start <= path.len(),
    ensures
        start <= without_last_piece(path, start).len() <= path.len(),
        ({
            let piece = path.skip(last_piece_start(path, start));
            let before = names_in(without_last_piece(path, start).skip(start as int));
            names_in(path.skip(start as int)) == if names_nothing(piece) {
                before
            } else {
                before.push(piece)
            }
        }),
{
    let body = path.skip(start as int);
    let at = last_index(body, '/');
    let piece = path.skip(last_piece_start(path, start));
    last_index_bounds(body, '/');
    last_index_is_last(body, '/');
    assert(piece =~= body.skip(at + 1));
    assert forall|i: int| 0 <= i < piece.len() implies #[trigger] piece[i] != '/' by {
        assert(piece[i] == body[at + 1 + i]);
    }
    no_index(piece, '/');
    assert(piece.take(piece.len() as int) =~= piece);
    let shorter = without_last_piece(path, start);
    if at >= 0 {
        assert(shorter.skip(start as int) =~= body.take(at));
        assert(body =~= body.take(at) + seq!['/'] + piece);
        names_around_separator(body.take(at), piece);
        assert(names_in(body) =~= if names_nothing(piece) {
            names_in(body.take(at))
        } else {
            names_in(body.take(at)).push(piece)
        });
    } else {
        assert(piece =~= body);
        assert(shorter.skip(start as int) =~= seq![]);
        assert(names_in(body) =~= if names_nothing(piece) {
            seq![]
        } else {
            Seq::<Seq<char>>::empty().push(piece)
        });
    }
}

/// A beginning of a path that ends before a separator starts as the path does.
proof fn beginning_starts_alike(path: Seq<char>, length: int)
    requires
        body_start(path) <= length <= path.len(),
        length == body_start(path) || length == path.len() || path[length] == '/',
    ensures
        body_start(path.take(length)) == body_start(path),
        path_head(path.take(length)) == path_head(path),
{
    assert(path_head(path.take(length)) =~= path_head(path));
}

proof fn tidied_keeps_components(path: Seq<char>)
    ensures
        components_of(tidied(path, body_start(path))) == components_of(path),
        body_start(tidied(path, body_start(path))) == body_start(path),
    decreases path.len(),
{
    let start = body_start(path);
    if path.len() > start && names_nothing(path.skip(last_piece_start(path, start))) {
        let shorter = without_last_piece(path, start);
        last_index_bounds(path.skip(start as int), '/');
        names_end_in_last_piece(path, start);
        beginning_starts_alike(path, shorter.len() as int);
        tidied_keeps_components(shorter);
    }
}

/// The parent of a path has all components but the last. Only a path without components and the
/// root itself have no parent.
pub proof fn parent_drops_last_component(path: Seq<char>)
    ensures
        match parent_of(path) {
            Some(parent) => components_of(path).len() > 0 && components_of(parent)
                == components_of(path).drop_last(),
            None => components_of(path).len() == 0 || components_of(path) == seq![seq!['/']],
        },
{
    let start = body_start(path);
    let tidy = tidied(path, start);
    tidied_is_prefix(path, start);
    tidied_keeps_components(path);
    tidied_ends_in_name(path, start);
    if tidy.len() > start {
        let shorter = without_last_piece(tidy, start);
        last_index_bounds(tidy.skip(start as int), '/');
        names_end_in_last_piece(tidy, start);
        beginning_starts_alike(tidy, shorter.len() as int);
        tidied_keeps_components(shorter);
        assert(components_of(shorter) =~= components_of(path).drop_last());
    } else {
        assert(tidy.skip(start as int) =~= seq![]);
        assert(components_of(tidy) =~= path_head(tidy));
        if starts_in_cur_dir(path) {
            assert(components_of(seq![]) =~= components_of(path).drop_last());
        } else if has_root(path) {
            assert(components_of(path) =~= seq![seq!['/']]);
        }
    }
}

proof fn tidied_ends_in_name(path: Seq<char>, start: nat)
    requires
        start <= path.len(),
    ensures
        tidied(path, start).len() > start ==> !names_nothing(
            tidied(path, start).skip(last_piece_start(tidied(path, start), start)),
        ),
    decreases path.len(),
{
    if path.len() > start && names_nothing(path.skip(last_piece_start(path, start))) {
        last_index_bounds(path.skip(start as int), '/');
        tidied_ends_in_name(without_last_piece(path, start), start);
    }
}

/// Continuing a path adds the names of what continues it to its components.
pub proof fn joining_adds_components(base: Seq<char>, tail: Seq<char>)
    requires
        base.len() > 0,
        !has_root(tail),
    ensures
        components_of(joined_path(base, tail)) == components_of(base) + names_in(tail),
{
    let whole = joined_path(base, tail);
    let start = body_start(base) as int;
    if base.last() == '/' {
        let front = base.drop_last();
        if start == base.len() {
            assert(whole.skip(start) =~= tail);
            assert(base.skip(start) =~= seq![]);
        } else {
            let body = front.skip(start);
            assert(whole.skip(start) =~= body + seq!['/'] + tail);
            assert(base.skip(start) =~= body + seq!['/'] + seq![]);
            names_around_separator(body, tail);
            names_around_separator(body, seq![]);
            assert(names_in(body) + names_in(seq![]) =~= names_in(body));
        }
    } else {
        let body = base.skip(start);
        assert(whole.skip(start) =~= body + seq!['/'] + tail);
        names_around_separator(body, tail);
    }
    assert(body_start(whole) == start);
    assert(components_of(whole) =~= components_of(base) + names_in(tail));
}

/// What a directory is continued by to name a file in it is taken off again by taking the parent,
/// and is the name of the file.
pub proof fn parent_of_file_in_directory(dir: Seq<char>, name: Seq<char>)
    requires
        dir.len() > 0,
        name.len() > 0,
        component_rank(name) == 3,
        forall|i: int| 0 <= i < name.len() ==> #[trigger] name[i] != '/',
    ensures
        parent_of(joined_path(dir, name)) matches Some(parent) && components_of(parent)
            == components_of(dir),
        file_name_of(joined_path(dir, name)) == Some(name),
{
    let path = joined_path(dir, name);
    no_index(name, '/');
    assert(name.take(name.len() as int) =~= name);
    assert(name[0] != '/');
    assert(names_in(name) =~= seq![name]);
    joining_adds_components(dir, name);
    parent_drops_last_component(path);
    assert(components_of(path) =~= components_of(dir).push(name));
    assert(components_of(path).drop_last() =~= components_of(dir));
    if components_of(path) == seq![seq!['/']] {
        assert(components_of(path).last() == seq!['/']);
    }
}

/// Whether a text is the name of a file or a directory: it is not empty, not a single dot and has no
/// separator in it.
pub open spec fn is_file_name(name: Seq<char>) -> bool {
    &&& name.len() > 0
    &&& !(name.len() == 1 && name[0] == '.')
    &&& forall|i: int| 0 <= i < name.len() ==> #[trigger] name[i] != '/'
}

proof fn name_is_one_name(name: Seq<char>)
    requires
        is_file_name(name),
    ensures
        names_in(name) == seq![name],
        !has_root(name),
{
    no_index(name, '/');
    assert(name.take(name.len() as int) =~= name);
    assert(name[0] != '/');
    if name == seq!['.'] {
        assert(name.len() == 1 && name[0] == '.');
    }
    assert(names_in(name) =~= seq![name]);
}

/// A name in a directory is one more component, the root and a name by itself are one each, and
/// nothing is none.
pub proof fn names_are_components(dir: Seq<char>, name: Seq<char>)
    requires
        is_file_name(name),
    ensures
        dir.len() > 0 ==> components_of(joined_path(dir, name)) == components_of(dir).push(name),
        components_of(seq!['/']) == seq![seq!['/']],
        components_of(name) == seq![name],
        components_of(seq![]).len() == 0,
{
    name_is_one_name(name);
    if dir.len() > 0 {
        joining_adds_components(dir, name);
        assert(components_of(joined_path(dir, name)) =~= components_of(dir).push(name));
    }
    let root = seq!['/'];
    assert(root.skip(1) =~= seq![]);
    assert(components_of(root) =~= seq![seq!['/']]);
    assert(body_start(name) == 0);
    assert(name.skip(0) =~= name);
    assert(components_of(name) =~= seq![name]);
}

/// A path from the root stands by itself, and any other is put after its base with one separator
/// between them.
pub proof fn joining_puts_one_separator(base: Seq<char>, tail: Seq<char>)
    ensures
        tail.len() > 0 && tail[0] == '/' ==> joined_path(base, tail) == tail,
        !(tail.len() > 0 && tail[0] == '/') ==> {
            &&& base.len() == 0 ==> joined_path(base, tail) == tail
            &&& base.len() > 0 && base.last() == '/' ==> joined_path(base, tail) == base + tail
            &&& base.len() > 0 && base.last() != '/' ==> joined_path(base, tail) == base + seq!['/']
                + tail
        },
{
    if base.len() == 0 {
        assert(base + tail =~= tail);
    }
}

/// A separator at the end of a path or doubled within it makes no component, and neither does a dot
/// between separators.
pub proof fn separators_make_no_component(dir: Seq<char>, tail: Seq<char>)
    requires
        dir.len() > 0,
        !has_root(tail),
    ensures
        components_of(dir + seq!['/']) == components_of(dir),
        components_of(joined_path(dir, seq!['.', '/'] + tail)) == components_of(
            joined_path(dir, tail),
        ),
{
    let none: Seq<char> = seq![];
    let dot = seq!['.', '/'] + tail;
    joining_adds_components(dir, none);
    joining_adds_components(dir, tail);
    joining_adds_components(dir, dot);
    let one = seq!['.'];
    assert(dot =~= one + seq!['/'] + tail);
    names_around_separator(one, tail);
    assert(first_index(one, '/') == 1) by {
        no_index(one, '/');
    }
    assert(one.take(1) =~= one);
    assert(names_in(one) =~= seq![]);
    assert(names_in(dot) =~= names_in(tail));
    if dir.last() == '/' {
        let front = dir.drop_last();
        let start = body_start(dir) as int;
        let whole = dir + seq!['/'];
        assert(body_start(whole) == body_start(dir));
        assert(path_head(whole) =~= path_head(dir));
        assert(whole.skip(start) =~= dir.skip(start) + seq!['/'] + none);
        names_around_separator(dir.skip(start), none);
        assert(names_in(dir.skip(start)) + names_in(none) =~= names_in(dir.skip(start)));
    } else {
        assert(joined_path(dir, none) =~= dir + seq!['/']);
        assert(components_of(dir) + names_in(none) =~= components_of(dir));
    }
}

/// A parent is a beginning of its path that ends in a name, or in the separator that is the root.
pub proof fn parents_end_in_names(path: Seq<char>)
    ensures
        parent_of(path) matches Some(parent) ==> {
            &&& parent.len() < path.len()
            &&& parent == path.take(parent.len() as int)
            &&& parent.len() > 1 ==> parent.last() != '/'
        },
{
    parent_is_shorter(path);
    let start = body_start(path);
    let tidy = tidied(path, start);
    tidied_is_prefix(path, start);
    if tidy.len() > start {
        last_index_bounds(tidy.skip(start as int), '/');
        let shorter = without_last_piece(tidy, start);
        let parent = tidied(shorter, start);
        tidied_is_prefix(shorter, start);
        tidied_ends_in_name(shorter, start);
        if parent.len() > start {
            let at = last_piece_start(parent, start);
            last_index_bounds(parent.skip(start as int), '/');
            last_index_is_last(parent.skip(start as int), '/');
            let piece = parent.skip(at);
            assert(piece.len() > 0);
            assert(parent.last() == parent.skip(start as int)[parent.len() - 1 - start]);
        }
    }
}

proof fn last_index_of_dot(stem: Seq<char>, ext: Seq<char>)
    requires
        forall|i: int| 0 <= i < ext.len() ==> #[trigger] ext[i] != '.',
    ensures
        last_index(stem + seq!['.'] + ext, '.') == stem.len(),
    decreases ext.len(),
{
    let name = stem + seq!['.'] + ext;
    if ext.len() > 0 {
        assert(name.last() == ext[ext.len() - 1]);
        assert(name.drop_last() =~= stem + seq!['.'] + ext.drop_last());
        assert forall|i: int| 0 <= i < ext.drop_last().len() implies #[trigger] ext.drop_last()[i]
            != '.' by {
            assert(ext.drop_last()[i] == ext[i]);
        }
        last_index_of_dot(stem, ext.drop_last());
    } else {
        assert(name.last() == '.');
    }
}

proof fn no_last_index(text: Seq<char>, c: char)
    requires
        forall|i: int| 0 <= i < text.len() ==> #[trigger] text[i] != c,
    ensures
        last_index(text, c) == -1,
    decreases text.len(),
{
    if text.len() > 0 {
        assert(text[text.len() - 1] != c);
        assert forall|i: int| 0 <= i < text.drop_last().len() implies #[trigger] text.drop_last()[i]
            != c by {
            assert(text.drop_last()[i] == text[i]);
        }
        no_last_index(text.drop_last(), c);
    }
}

/// The extension of a file is what follows the last dot of its name, wherever the file stands; a
/// name without a dot has none, and neither has one whose only dot is its first character.
pub proof fn extension_follows_last_dot(dir: Seq<char>, stem: Seq<char>, ext: Seq<char>)
    requires
        dir.len() > 0,
        ext.len() > 0,
        forall|i: int| 0 <= i < stem.len() ==> #[trigger] stem[i] != '/',
        forall|i: int| 0 <= i < ext.len() ==> #[trigger] ext[i] != '/' && ext[i] != '.',
    ensures
        stem.len() > 0 ==> extension_of(joined_path(dir, stem + seq!['.'] + ext)) == Some(ext),
        extension_of(joined_path(dir, seq!['.'] + ext)) is None,
        extension_of(joined_path(dir, ext)) is None,
        file_name_of(joined_path(dir, stem + seq!['.'] + ext)) == Some(stem + seq!['.'] + ext),
{
    let name = stem + seq!['.'] + ext;
    let hidden = seq!['.'] + ext;
    let none: Seq<char> = seq![];
    assert forall|i: int| 0 <= i < name.len() implies #[trigger] name[i] != '/' by {
        if i < stem.len() {
            assert(name[i] == stem[i]);
        } else if i > stem.len() {
            assert(name[i] == ext[i - stem.len() - 1]);
        }
    }
    assert forall|i: int| 0 <= i < hidden.len() implies #[trigger] hidden[i] != '/' by {
        if i > 0 {
            assert(hidden[i] == ext[i - 1]);
        }
    }
    assert(name.last() == ext[ext.len() - 1]);
    assert(hidden.last() == ext[ext.len() - 1]);
    assert(ext[ext.len() - 1] != '.' && ext[ext.len() - 1] != '/');
    assert(seq!['/'].last() == '/' && seq!['.'].last() == '.' && seq!['.', '.'].last() == '.');
    assert(component_rank(name) == 3 && component_rank(hidden) == 3 && component_rank(ext) == 3);
    names_are_components(dir, name);
    names_are_components(dir, hidden);
    names_are_components(dir, ext);
    last_index_of_dot(stem, ext);
    last_index_of_dot(none, ext);
    assert(none + seq!['.'] + ext =~= hidden);
    no_last_index(ext, '.');
    assert(name.skip(stem.len() as int + 1) =~= ext);
}

/// Paths are ordered by the first components in which they differ, names by their characters, and a
/// path stands before all that continue it.
pub proof fn first_different_component_orders_paths(a: Seq<char>, b: Seq<char>, i: int)
    requires
        0 <= i <= components_of(a).len(),
        i < components_of(b).len(),
        components_of(a).take(i) == components_of(b).take(i),
    ensures
        i == components_of(a).len() ==> path_less(a, b),
        ({
            let first = components_of(a)[i];
            let second = components_of(b)[i];
            let special = |c: Seq<char>| c == seq!['/'] || c == seq!['.'] || c == seq!['.', '.'];
            i < components_of(a).len() && first != second && !special(first) && !special(second)
                ==> (path_less(a, b) <==> text_less(first, second))
        }),
{
    if i < components_of(a).len() && components_of(a)[i] != components_of(b)[i] {
        difference_orders_components(components_of(a), components_of(b), i);
    } else if i == components_of(a).len() {
        difference_orders_components(components_of(a), components_of(b), i);
    }
}

proof fn difference_orders_components(a: Seq<Seq<char>>, b: Seq<Seq<char>>, i: int)
    requires
        0 <= i <= a.len(),
        i < b.len(),
        a.take(i) == b.take(i),
        i < a.len() ==> a[i] != b[i],
    ensures
        i == a.len() ==> components_less(a, b),
        i < a.len() ==> (components_less(a, b) <==> component_less(a[i], b[i])),
    decreases i,
{
    if i > 0 {
        assert(a[0] == a.take(i)[0] && b[0] == b.take(i)[0]);
        assert(a.skip(1).take(i - 1) =~= a.take(i).skip(1));
        assert(b.skip(1).take(i - 1) =~= b.take(i).skip(1));
        difference_orders_components(a.skip(1), b.skip(1), i - 1);
    }
}

/// The root, a dot and the parent directory have no name.
pub proof fn only_names_are_file_names(dir: Seq<char>)
    requires
        dir.len() > 0,
    ensures
        file_name_of(seq!['/']) is None,
        file_name_of(seq![]) is None,
        file_name_of(joined_path(dir, seq!['.', '.'])) is None,
        extension_of(joined_path(dir, seq!['.', '.'])) is None,
{
    let up = seq!['.', '.'];
    assert(is_file_name(up));
    names_are_components(dir, up);
    assert(components_of(seq!['/']).last() == seq!['/']);
}

}
