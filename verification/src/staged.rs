//! The files that are staged, by what `git status --porcelain` says.

use vstd::prelude::*;
use vstd::utf8::{
    decode_utf8, encode_utf8, encode_utf8_decode_utf8, encode_utf8_first_scalar,
    encode_utf8_valid_utf8, is_char_boundary, is_char_boundary_start_end_of_seq, pop_first_scalar,
};

use crate::paths::{components_of, join_path, joined_path, same_path};
use crate::text::{
    find, first_occurrence, first_occurrence_is_first, from_utf8_lossy, lines, lines_of,
    lossy_text, occurs, occurs_at, span, texts, to_chars,
};

verus! {

broadcast use vstd::string::group_string_axioms;

/// The files that are staged and not changed since.
#[derive(Debug)]
pub struct StagedFiles {
    pub clean: Vec<String>,
}

/// Whether a line is too short to name a file.
pub open spec fn is_short(line: Seq<char>) -> bool {
    encode_utf8(line).len() < 3
}

/// Whether a line either is too short to name a file or has two marks and then, after three bytes,
/// a path.
pub open spec fn is_status_line(line: Seq<char>) -> bool {
    is_short(line) || (line.len() >= 2 && is_char_boundary(encode_utf8(line), 3))
}

/// What a status line names: a path, or two with an arrow between them.
pub open spec fn status_names(line: Seq<char>) -> Seq<char> {
    decode_utf8(encode_utf8(line).subrange(3, encode_utf8(line).len() as int))
}

/// Whether a status line is about a file that was renamed or copied in the index.
pub open spec fn is_moved(line: Seq<char>) -> bool {
    line[0] == 'R' || line[0] == 'C'
}

/// What follows the first ` -> ` of a text; the text itself if there is none.
pub open spec fn after_arrow(text: Seq<char>) -> Seq<char> {
    if occurs(text, " -> "@) {
        text.skip(first_occurrence(text, " -> "@) + 4)
    } else {
        text
    }
}

/// The path in the index that a status line names: of a file that was renamed or copied, the new
/// one.
pub open spec fn status_path(line: Seq<char>) -> Seq<char> {
    if is_moved(line) {
        after_arrow(status_names(line))
    } else {
        status_names(line)
    }
}

/// Whether a status line says that its file is staged and not changed since: the first mark is for
/// the index, the second for the working tree.
pub open spec fn is_clean(line: Seq<char>) -> bool {
    !is_short(line) && line[0] != ' ' && line[0] != '?' && line[1] == ' '
}

/// The files that the status lines say are staged and not changed since, as paths from `cwd`.
pub open spec fn clean_paths(status: Seq<Seq<char>>, cwd: Seq<char>) -> Seq<Seq<char>>
    decreases status.len(),
{
    if status.len() == 0 {
        seq![]
    } else {
        let rest = clean_paths(status.drop_last(), cwd);
        if is_clean(status.last()) {
            rest.push(joined_path(cwd, status_path(status.last())))
        } else {
            rest
        }
    }
}

/// Whether all lines of a status are status lines.
pub open spec fn is_status(status: Seq<char>) -> bool {
    forall|i: int| 0 <= i < lines_of(status).len() ==> is_status_line(#[trigger] lines_of(status)[i])
}

/// Whether a line is a status line.
fn check_line(line: &str) -> (r: bool)
    ensures
        r == is_status_line(line@),
{
    if line.as_bytes().len() < 3 {
        return true;
    }
    line.unicode_len() >= 2 && line.is_char_boundary(3)
}

/// What follows the first ` -> ` of a text; the text itself if there is none.
pub fn skip_arrow(text: &str) -> (r: String)
    ensures
        r@ == after_arrow(text@),
{
    proof {
        reveal_strlit(" -> ");
    }
    match find(text, " -> ") {
        Some(at) => {
            let chars = to_chars(text);
            assert(at + " -> "@.len() <= chars.len());
            assert(chars@.subrange(at + 4, chars@.len() as int) =~= text@.skip(at + 4));
            span(&chars, at + 4, chars.len())
        },
        None => text.to_owned(),
    }
}

/// The path of a clean file, if the line is about one.
fn clean_path(line: &str, cwd: &str) -> (r: Option<String>)
    requires
        is_status_line(line@),
    ensures
        match r {
            Some(path) => is_clean(line@) && path@ == joined_path(cwd@, status_path(line@)),
            None => !is_clean(line@),
        },
{
    if line.as_bytes().len() < 3 {
        return None;
    }
    let chars = to_chars(line);
    let x = chars[0];
    let y = chars[1];
    if x != ' ' && x != '?' && y == ' ' {
        let (_, names) = line.split_at(3);
        proof {
            encode_utf8_decode_utf8(names@);
        }
        if x == 'R' || x == 'C' {
            Some(join_path(cwd, skip_arrow(names).as_str()))
        } else {
            Some(join_path(cwd, names))
        }
    } else {
        None
    }
}

/// The files that a status says are staged and not changed since, as paths from `cwd`.
pub fn collect_staged_files(status: &str, cwd: &str) -> (r: StagedFiles)
    requires
        is_status(status@),
    ensures
        texts(r.clean@) == clean_paths(lines_of(status@), cwd@),
{
    let status_lines = lines(status);
    let ghost all = lines_of(status@);
    let mut clean: Vec<String> = Vec::new();
    let mut i: usize = 0;
    assert(texts(clean@) =~= clean_paths(all.take(0), cwd@));
    while i < status_lines.len()
        invariant
            i <= status_lines.len(),
            all == texts(status_lines@),
            all == lines_of(status@),
            is_status(status@),
            texts(clean@) == clean_paths(all.take(i as int), cwd@),
        decreases status_lines.len() - i,
    {
        let ghost so_far = texts(clean@);
        assert(all.take(i + 1).drop_last() =~= all.take(i as int));
        assert(all[i as int] == status_lines@[i as int]@);
        assert(is_status_line(all[i as int]));
        if let Some(path) = clean_path(status_lines[i].as_str(), cwd) {
            let ghost added = path@;
            clean.push(path);
            assert(texts(clean@) =~= so_far.push(added));
        }
        i += 1;
    }
    assert(all.take(i as int) =~= all);
    StagedFiles { clean }
}

/// The staged files by what git wrote, as paths from `cwd`; none if a line of it is not a status
/// line.
pub fn staged_files_in(output: &[u8], cwd: &str) -> (r: Option<StagedFiles>)
    ensures
        match r {
            Some(files) => is_status(lossy_text(output@)) && texts(files.clean@) == clean_paths(
                lines_of(lossy_text(output@)),
                cwd@,
            ),
            None => !is_status(lossy_text(output@)),
        },
{
    let status = from_utf8_lossy(output);
    let status_lines = lines(status.as_str());
    let ghost all = lines_of(status@);
    let mut i: usize = 0;
    while i < status_lines.len()
        invariant
            i <= status_lines.len(),
            all == texts(status_lines@),
            all == lines_of(status@),
            status@ == lossy_text(output@),
            forall|j: int| 0 <= j < i ==> is_status_line(#[trigger] all[j]),
        decreases status_lines.len() - i,
    {
        assert(all[i as int] == status_lines@[i as int]@);
        if !check_line(status_lines[i].as_str()) {
            assert(!is_status_line(lines_of(status@)[i as int]));
            return None;
        }
        i += 1;
    }
    Some(collect_staged_files(status.as_str(), cwd))
}

impl StagedFiles {
    /// Whether a file is staged and not changed since.
    pub open spec fn has(self, path: Seq<char>) -> bool {
        exists|i: int|
            0 <= i < self.clean@.len() && components_of((#[trigger] self.clean@[i])@)
                == components_of(path)
    }

    /// Whether a file is staged and not changed since.
    pub fn contains(&self, path: &str) -> (r: bool)
        ensures
            r == self.has(path@),
    {
        let mut i: usize = 0;
        while i < self.clean.len()
            invariant
                i <= self.clean.len(),
                forall|j: int|
                    0 <= j < i ==> components_of((#[trigger] self.clean@[j])@) != components_of(
                        path@,
                    ),
            decreases self.clean.len() - i,
        {
            if same_path(self.clean[i].as_str(), path) {
                return true;
            }
            i += 1;
        }
        false
    }
}

/// A line of two ASCII marks, an ASCII space and a path is a status line that names that path. Of a
/// file that was renamed or copied, it names the path after the arrow.
pub proof fn status_line_names_path(x: char, y: char, path: Seq<char>)
    requires
        (x as u32) < 0x80,
        (y as u32) < 0x80,
    ensures
        is_status_line(seq![x, y, ' '] + path),
        status_names(seq![x, y, ' '] + path) == path,
        x != 'R' && x != 'C' ==> status_path(seq![x, y, ' '] + path) == path,
        x == 'R' || x == 'C' ==> status_path(seq![x, y, ' '] + path) == after_arrow(path),
        is_clean(seq![x, y, ' '] + path) == (x != ' ' && x != '?' && y == ' '),
{
    let line = seq![x, y, ' '] + path;
    let bytes = encode_utf8(line);
    reveal_with_fuel(encode_utf8, 4);
    assert(line.drop_first() =~= seq![y, ' '] + path);
    assert(line.drop_first().drop_first() =~= seq![' '] + path);
    assert(line.drop_first().drop_first().drop_first() =~= path);
    assert(bytes.len() == 3 + encode_utf8(path).len());
    assert(bytes.subrange(3, bytes.len() as int) =~= encode_utf8(path));
    encode_utf8_decode_utf8(path);
    encode_utf8_valid_utf8(line);
    encode_utf8_valid_utf8(path);
    boundary_after_marks(x, y, path);
}

proof fn boundary_after_marks(x: char, y: char, path: Seq<char>)
    requires
        (x as u32) < 0x80,
        (y as u32) < 0x80,
    ensures
        is_char_boundary(encode_utf8(seq![x, y, ' '] + path), 3),
{
    assert((seq![' '] + path).drop_first() =~= path);
    assert((seq![y, ' '] + path).drop_first() =~= seq![' '] + path);
    assert((seq![x, y, ' '] + path).drop_first() =~= seq![y, ' '] + path);
    encode_utf8_valid_utf8(path);
    is_char_boundary_start_end_of_seq(encode_utf8(path));
    boundary_shifts(seq![' '] + path, 0);
    boundary_shifts(seq![y, ' '] + path, 1);
    boundary_shifts(seq![x, y, ' '] + path, 2);
}

proof fn boundary_shifts(line: Seq<char>, index: int)
    requires
        line.len() > 0,
        (line[0] as u32) < 0x80,
        index >= 0,
        is_char_boundary(encode_utf8(line.drop_first()), index),
    ensures
        is_char_boundary(encode_utf8(line), index + 1),
{
    let bytes = encode_utf8(line);
    let tail = encode_utf8(line.drop_first());
    encode_utf8_first_scalar(line);
    encode_utf8_valid_utf8(line);
    encode_utf8_valid_utf8(line.drop_first());
    assert(pop_first_scalar(bytes) =~= tail);
    assert(index <= tail.len());
}

/// Of two paths with an arrow between them, of which the first holds no space, the second is
/// what follows the arrow.
pub proof fn arrow_parts_paths(from: Seq<char>, to: Seq<char>)
    requires
        forall|i: int| 0 <= i < from.len() ==> #[trigger] from[i] != ' ',
    ensures
        after_arrow(from + " -> "@ + to) == to,
{
    let text = from + " -> "@ + to;
    let at = from.len() as int;
    reveal_strlit(" -> ");
    assert(text.subrange(at, at + 4) =~= " -> "@);
    assert(occurs_at(text, " -> "@, at));
    first_occurrence_is_first(text, " -> "@, at);
    let first = first_occurrence(text, " -> "@);
    if first < at {
        assert(text.subrange(first, first + 4)[0] == ' ');
        assert(text[first] == from[first]);
    }
    assert(text.skip(at + 4) =~= to);
}

/// Whether a line has the marks of a file that is staged and not changed since.
pub open spec fn has_clean_marks(line: Seq<char>) -> bool {
    &&& encode_utf8(line).len() >= 3
    &&& line[0] != ' '
    &&& line[0] != '?'
    &&& line[1] == ' '
}

/// The files of two parts of a status are those of the first part and then those of the second: no
/// line keeps another from being read.
pub proof fn status_is_read_line_by_line(a: Seq<Seq<char>>, b: Seq<Seq<char>>, cwd: Seq<char>)
    ensures
        clean_paths(a + b, cwd) == clean_paths(a, cwd) + clean_paths(b, cwd),
    decreases b.len(),
{
    if b.len() == 0 {
        assert(a + b =~= a);
        assert(clean_paths(a, cwd) + clean_paths(b, cwd) =~= clean_paths(a, cwd));
    } else {
        assert((a + b).drop_last() =~= a + b.drop_last());
        status_is_read_line_by_line(a, b.drop_last(), cwd);
        assert(clean_paths(a + b, cwd) =~= clean_paths(a, cwd) + clean_paths(b, cwd));
    }
}

/// A line gives a file exactly if its marks say that the file is staged and not changed since.
pub proof fn marks_decide(line: Seq<char>, cwd: Seq<char>)
    ensures
        has_clean_marks(line) ==> clean_paths(seq![line], cwd) == seq![
            joined_path(cwd, status_path(line)),
        ],
        !has_clean_marks(line) ==> clean_paths(seq![line], cwd).len() == 0,
{
    let status = seq![line];
    assert(status.drop_last() =~= seq![]);
    assert(clean_paths(status.drop_last(), cwd) =~= seq![]);
    assert(clean_paths(status, cwd) =~= if has_clean_marks(line) {
        seq![joined_path(cwd, status_path(line))]
    } else {
        seq![]
    });
}

/// Every line with the marks of a file that is staged and not changed since puts that file on the
/// list, and nothing else does.
pub proof fn clean_files_are_listed(status: Seq<Seq<char>>, cwd: Seq<char>, path: Seq<char>)
    ensures
        clean_paths(status, cwd).contains(path) <==> exists|i: int|
            0 <= i < status.len() && has_clean_marks(#[trigger] status[i]) && path == joined_path(
                cwd,
                status_path(status[i]),
            ),
        clean_paths(status, cwd).len() == status.filter(|line: Seq<char>| has_clean_marks(line)).len(),
    decreases status.len(),
{
    reveal(Seq::filter);
    if status.len() > 0 {
        let front = status.drop_last();
        let last = status.len() - 1;
        let before = clean_paths(front, cwd);
        let all = clean_paths(status, cwd);
        clean_files_are_listed(front, cwd, path);
        if before.contains(path) {
            let k = choose|k: int| 0 <= k < before.len() && before[k] == path;
            assert(all[k] == path);
            let i = choose|i: int|
                0 <= i < front.len() && has_clean_marks(#[trigger] front[i]) && path == joined_path(
                    cwd,
                    status_path(front[i]),
                );
            assert(status[i] == front[i]);
        }
        if all.contains(path) && !before.contains(path) {
            let k = choose|k: int| 0 <= k < all.len() && all[k] == path;
            if k < before.len() {
                assert(before[k] == path);
            }
            assert(has_clean_marks(status[last]));
        }
        if exists|i: int|
            0 <= i < status.len() && has_clean_marks(#[trigger] status[i]) && path == joined_path(
                cwd,
                status_path(status[i]),
            ) {
            let i = choose|i: int|
                0 <= i < status.len() && has_clean_marks(#[trigger] status[i]) && path
                    == joined_path(cwd, status_path(status[i]));
            if i < last {
                assert(front[i] == status[i]);
            } else {
                assert(all[all.len() - 1] == path);
            }
        }
    }
}

/// A file with a mark for the index and none for the working tree is on the list under its path, and
/// a file with any other mark for the working tree, or with none for the index, is not. Of a file
/// that was renamed or copied, the list has what follows the arrow.
pub proof fn staged_path_is_listed(x: char, y: char, path: Seq<char>, cwd: Seq<char>)
    requires
        (x as u32) < 0x80,
        (y as u32) < 0x80,
    ensures
        x != ' ' && x != '?' && y == ' ' && x != 'R' && x != 'C' ==> clean_paths(
            seq![seq![x, y, ' '] + path],
            cwd,
        ) == seq![joined_path(cwd, path)],
        y == ' ' && (x == 'R' || x == 'C') ==> clean_paths(seq![seq![x, y, ' '] + path], cwd)
            == seq![joined_path(cwd, after_arrow(path))],
        x == ' ' || x == '?' || y != ' ' ==> clean_paths(seq![seq![x, y, ' '] + path], cwd).len()
            == 0,
{
    let line = seq![x, y, ' '] + path;
    status_line_names_path(x, y, path);
    marks_decide(line, cwd);
}

/// What follows an arrow stands after the first one, and a text without an arrow stays.
pub proof fn first_arrow_counts(text: Seq<char>, at: int)
    ensures
        0 <= at && at + 4 <= text.len() && text.subrange(at, at + 4) == seq![' ', '-', '>', ' '] && (
        forall|k: int| 0 <= k < at ==> #[trigger] text.subrange(k, k + 4) != seq![' ', '-', '>', ' '])
            ==> after_arrow(text) == text.skip(at + 4),
        (forall|k: int|
            0 <= k <= text.len() - 4 ==> #[trigger] text.subrange(k, k + 4) != seq![
                ' ',
                '-',
                '>',
                ' ',
            ]) ==> after_arrow(text) == text,
{
    reveal_strlit(" -> ");
    assert(" -> "@ =~= seq![' ', '-', '>', ' ']);
    if 0 <= at && at + 4 <= text.len() && text.subrange(at, at + 4) == seq![' ', '-', '>', ' ']
        && (forall|k: int|
        0 <= k < at ==> #[trigger] text.subrange(k, k + 4) != seq![' ', '-', '>', ' ']) {
        assert(occurs_at(text, " -> "@, at));
        first_occurrence_is_first(text, " -> "@, at);
        let first = first_occurrence(text, " -> "@);
        if first < at {
            assert(text.subrange(first, first + 4) == " -> "@);
        }
    }
    if forall|k: int|
        0 <= k <= text.len() - 4 ==> #[trigger] text.subrange(k, k + 4) != seq![' ', '-', '>', ' '] {
        assert forall|k: int| !occurs_at(text, " -> "@, k) by {
            if occurs_at(text, " -> "@, k) {
                assert(text.subrange(k, k + 4) == " -> "@);
            }
        }
    }
}

/// A file counts as staged exactly if a path on the list has the same components.
pub proof fn staged_files_are_told_by_components(staged: StagedFiles, path: Seq<char>)
    ensures
        staged.has(path) <==> exists|i: int|
            0 <= i < staged.clean@.len() && components_of((#[trigger] staged.clean@[i])@)
                == components_of(path),
        texts(staged.clean@).contains(path) ==> staged.has(path),
{
    if texts(staged.clean@).contains(path) {
        let i = choose|i: int|
            0 <= i < texts(staged.clean@).len() && texts(staged.clean@)[i] == path;
        assert(staged.clean@[i]@ == path);
    }
}

/// A status is one exactly if each of its lines is too short to name a file or has two marks and then,
/// after three bytes, a path.
pub proof fn statuses_have_status_lines(status: Seq<char>)
    ensures
        is_status(status) <==> forall|i: int|
            0 <= i < lines_of(status).len() ==> {
                let line = #[trigger] lines_of(status)[i];
                encode_utf8(line).len() < 3 || (line.len() >= 2 && is_char_boundary(
                    encode_utf8(line),
                    3,
                ))
            },
{
    if is_status(status) {
        assert forall|i: int| 0 <= i < lines_of(status).len() implies {
            let line = #[trigger] lines_of(status)[i];
            encode_utf8(line).len() < 3 || (line.len() >= 2 && is_char_boundary(
                encode_utf8(line),
                3,
            ))
        } by {
            assert(is_status_line(lines_of(status)[i]));
        }
    }
}

}
