//! The lines that show how tasks are getting on.

use vstd::prelude::*;
use vstd::utf8::{
    decode_utf8, decode_utf8_encode_utf8, encode_utf8, encode_utf8_decode_utf8,
    encode_utf8_valid_utf8, is_char_boundary, valid_utf8_split,
};

use crate::ansi::{dimmed, green, in_dim, in_green, in_red, in_yellow, red, yellow};

verus! {

broadcast use vstd::string::group_string_axioms;

/// How wide the column of task names is.
pub const NAME_WIDTH: usize = 14;

/// How many bytes of a status message are shown.
pub const MESSAGE_LIMIT: usize = 50;

/// `n` spaces.
pub open spec fn spaces(n: nat) -> Seq<char> {
    Seq::new(n, |i: int| ' ')
}

/// A task name with spaces after it up to the width of the column.
pub open spec fn padded(name: Seq<char>) -> Seq<char> {
    if name.len() < NAME_WIDTH {
        name + spaces((NAME_WIDTH - name.len()) as nat)
    } else {
        name
    }
}

/// The line of a task that came to an end.
pub open spec fn end_line(mark: Seq<char>, name: Seq<char>, detail: Seq<char>) -> Seq<char> {
    "  "@ + mark + " "@ + padded(name) + " "@ + detail
}

/// Where the shown part of a long status message starts, in bytes.
pub open spec fn message_cut(message: Seq<char>) -> int {
    encode_utf8(message).len() - MESSAGE_LIMIT + 1
}

/// A status message, of a long one an ellipsis and its end.
pub open spec fn shortened(message: Seq<char>) -> Seq<char> {
    let bytes = encode_utf8(message);
    if bytes.len() > MESSAGE_LIMIT {
        "\u{2026}"@ + decode_utf8(bytes.subrange(message_cut(message), bytes.len() as int))
    } else {
        message
    }
}

/// A task name with spaces after it up to the width of the column.
pub fn pad_name(name: &str) -> (r: String)
    ensures
        r@ == padded(name@),
{
    let mut r = name.to_owned();
    let mut width: usize = name.unicode_len();
    let ghost start = width;
    assert(name@ + spaces(0) =~= name@);
    while width < NAME_WIDTH
        invariant
            start == name@.len(),
            start <= width,
            start < NAME_WIDTH ==> width <= NAME_WIDTH,
            start >= NAME_WIDTH ==> width == start,
            r@ == name@ + spaces((width - start) as nat),
        decreases NAME_WIDTH - width,
    {
        r.push(' ');
        width += 1;
        assert(r@ =~= name@ + spaces((width - start) as nat));
    }
    r
}

/// A status message, of a long one an ellipsis and its end.
pub fn shorten(message: &str) -> (r: String)
    requires
        encode_utf8(message@).len() > MESSAGE_LIMIT ==> is_char_boundary(
            encode_utf8(message@),
            message_cut(message@),
        ),
    ensures
        r@ == shortened(message@),
{
    let length: usize = message.as_bytes().len();
    if length > MESSAGE_LIMIT {
        let (_, end) = message.split_at(length - MESSAGE_LIMIT + 1);
        proof {
            encode_utf8_decode_utf8(end@);
        }
        let mut r = "\u{2026}".to_owned();
        r.append(end);
        r
    } else {
        message.to_owned()
    }
}

/// A task whose progress is shown.
pub struct TaskSpinner {
    pub name: String,
}

impl TaskSpinner {
    /// The line of the task while there is nothing to say about it.
    pub fn waiting(&self) -> (r: String)
        ensures
            r@ == padded(self.name@),
    {
        pad_name(self.name.as_str())
    }

    /// The line that says that the task succeeded, and in what time.
    pub fn succeed(&self, elapsed: &str) -> (r: String)
        ensures
            r@ == end_line(
                in_green("\u{2713}"@),
                self.name@,
                in_dim(elapsed@),
            ),
    {
        self.ended(green("\u{2713}"), elapsed)
    }

    /// The line that says that the task failed, and in what time.
    pub fn fail(&self, elapsed: &str) -> (r: String)
        ensures
            r@ == end_line(
                in_red("\u{2717}"@),
                self.name@,
                in_dim(elapsed@),
            ),
    {
        self.ended(red("\u{2717}"), elapsed)
    }

    /// The line that says that the task was left out, and why.
    pub fn skip(&self, reason: &str) -> (r: String)
        ensures
            r@ == end_line(
                in_yellow("\u{2298}"@),
                self.name@,
                in_dim(reason@),
            ),
    {
        self.ended(yellow("\u{2298}"), reason)
    }

    fn ended(&self, mark: String, detail: &str) -> (r: String)
        ensures
            r@ == end_line(mark@, self.name@, in_dim(detail@)),
    {
        let mut r = "  ".to_owned();
        r.append(mark.as_str());
        r.append(" ");
        r.append(pad_name(self.name.as_str()).as_str());
        r.append(" ");
        r.append(dimmed(detail).as_str());
        r
    }

    /// The line of the running task with its status.
    pub fn set_message(&self, message: &str) -> (r: String)
        requires
            encode_utf8(message@).len() > MESSAGE_LIMIT ==> is_char_boundary(
                encode_utf8(message@),
                message_cut(message@),
            ),
        ensures
            r@ == padded(self.name@) + " "@ + in_dim(shortened(message@)),
    {
        let mut r = pad_name(self.name.as_str());
        r.append(" ");
        r.append(dimmed(shorten(message).as_str()).as_str());
        r
    }
}

/// A status message is shown with no more characters than the limit.
pub proof fn message_fits(message: Seq<char>)
    requires
        encode_utf8(message).len() > MESSAGE_LIMIT ==> is_char_boundary(
            encode_utf8(message),
            message_cut(message),
        ),
    ensures
        shortened(message).len() <= MESSAGE_LIMIT,
{
    let bytes = encode_utf8(message);
    if bytes.len() > MESSAGE_LIMIT {
        let rest = bytes.subrange(message_cut(message), bytes.len() as int);
        reveal_strlit("\u{2026}");
        encode_utf8_valid_utf8(message);
        valid_utf8_split(bytes, message_cut(message));
        decode_utf8_encode_utf8(rest);
        no_more_chars_than_bytes(decode_utf8(rest));
    } else {
        no_more_chars_than_bytes(message);
    }
}

proof fn no_more_chars_than_bytes(text: Seq<char>)
    ensures
        text.len() <= encode_utf8(text).len(),
    decreases text.len(),
{
    if text.len() > 0 {
        no_more_chars_than_bytes(text.drop_first());
    }
}

/// A task name keeps its characters and gets spaces up to fourteen of them.
pub proof fn names_are_padded(name: Seq<char>)
    ensures
        padded(name).len() == (if name.len() < 14 {
            14
        } else {
            name.len()
        }),
        padded(name).take(name.len() as int) == name,
        forall|i: int| name.len() <= i < padded(name).len() ==> #[trigger] padded(name)[i] == ' ',
{
    assert(padded(name).take(name.len() as int) =~= name);
}

/// A message of up to fifty bytes is shown whole; of a longer one, the last forty-nine bytes are
/// shown after an ellipsis.
pub proof fn long_messages_show_their_end(message: Seq<char>)
    requires
        encode_utf8(message).len() > 50 ==> is_char_boundary(
            encode_utf8(message),
            encode_utf8(message).len() - 49,
        ),
    ensures
        encode_utf8(message).len() <= 50 ==> shortened(message) == message,
        encode_utf8(message).len() > 50 ==> {
            let bytes = encode_utf8(message);
            &&& shortened(message).len() > 0
            &&& shortened(message)[0] == '\u{2026}'
            &&& encode_utf8(shortened(message).skip(1)) == bytes.skip(bytes.len() - 49)
        },
{
    let bytes = encode_utf8(message);
    if bytes.len() > 50 {
        let rest = bytes.subrange(message_cut(message), bytes.len() as int);
        reveal_strlit("\u{2026}");
        encode_utf8_valid_utf8(message);
        valid_utf8_split(bytes, message_cut(message));
        decode_utf8_encode_utf8(rest);
        assert(shortened(message).skip(1) =~= decode_utf8(rest));
        assert(rest =~= bytes.skip(bytes.len() - 49));
    }
}

/// A task that came to an end is shown with its mark, its name in the column, and what is said about
/// it.
pub proof fn ended_tasks_are_shown(mark: Seq<char>, name: Seq<char>, detail: Seq<char>)
    ensures
        end_line(mark, name, detail) == seq![' ', ' '] + mark + seq![' '] + padded(name) + seq![' ']
            + detail,
{
    reveal_strlit("  ");
    reveal_strlit(" ");
    assert("  "@ =~= seq![' ', ' ']);
    assert(" "@ =~= seq![' ']);
}

}
