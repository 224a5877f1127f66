//! The output of a running command: what is kept of it, and what is shown while it runs.

use vstd::prelude::*;
use vstd::utf8::encode_utf8;

use crate::ansi::{maybe_strip_str, strip_text, stripped_text, text_for, yellow, in_yellow};
use crate::text::{join, joined, joining_puts_separators_between, opt_text, texts};

verus! {

broadcast use vstd::string::group_string_axioms;

/// How many milliseconds a command runs before its output is shown.
pub const QUIET_MILLIS: u64 = 5000;

/// How many milliseconds a second has.
pub const SECOND_MILLIS: u64 = 1000;

/// The lines that a command wrote.
pub struct Captured {
    pub stdout: Vec<String>,
    pub stderr: Vec<String>,
}

/// The lines that a command wrote, as contracts speak of them.
pub struct CapturedView {
    pub stdout: Seq<Seq<char>>,
    pub stderr: Seq<Seq<char>>,
}

impl View for Captured {
    type V = CapturedView;

    open spec fn view(&self) -> CapturedView {
        CapturedView { stdout: texts(self.stdout@), stderr: texts(self.stderr@) }
    }
}

impl CapturedView {
    /// These lines and then those of `more`.
    pub open spec fn followed_by(self, more: CapturedView) -> CapturedView {
        CapturedView { stdout: self.stdout + more.stdout, stderr: self.stderr + more.stderr }
    }

    /// Whether there is no line.
    pub open spec fn is_nothing(self) -> bool {
        self.stdout.len() == 0 && self.stderr.len() == 0
    }
}

/// The bytes of lines with a line feed between each two neighbours.
pub open spec fn output_bytes(lines: Seq<Seq<char>>) -> Seq<u8> {
    encode_utf8(joined(lines, "\n"@))
}

impl Captured {
    /// No line yet.
    pub fn new() -> (r: Self)
        ensures
            r@.is_nothing(),
    {
        Captured { stdout: Vec::new(), stderr: Vec::new() }
    }

    /// Adds lines that were written later.
    pub fn absorb(&mut self, more: Captured)
        ensures
            final(self)@ == old(self)@.followed_by(more@),
    {
        let mut more = more;
        let ghost added = more@;
        let ghost before = self@;
        self.stdout.append(&mut more.stdout);
        self.stderr.append(&mut more.stderr);
        assert(texts(self.stdout@) =~= before.stdout + added.stdout);
        assert(texts(self.stderr@) =~= before.stderr + added.stderr);
    }

    /// The bytes on standard output and on standard error.
    pub fn output(&self) -> (r: (Vec<u8>, Vec<u8>))
        ensures
            r.0@ == output_bytes(self@.stdout),
            r.1@ == output_bytes(self@.stderr),
    {
        (
            join(self.stdout.as_slice(), "\n").as_str().as_bytes_vec(),
            join(self.stderr.as_slice(), "\n").as_str().as_bytes_vec(),
        )
    }
}

/// Which terminals support colour.
#[derive(Clone, Copy)]
pub struct ColorSupport {
    pub stdout: bool,
    pub stderr: bool,
}

/// A line to show.
pub struct ShownLine {
    /// Whether it goes to standard error.
    pub to_stderr: bool,
    pub text: String,
}

impl View for ShownLine {
    type V = (bool, Seq<char>);

    open spec fn view(&self) -> (bool, Seq<char>) {
        (self.to_stderr, self.text@)
    }
}

/// Lines to show, as contracts speak of them.
pub open spec fn shown(lines: Seq<ShownLine>) -> Seq<(bool, Seq<char>)> {
    lines.map_values(|line: ShownLine| line@)
}

/// How lines of one stream are shown.
pub open spec fn stream_shown(lines: Seq<Seq<char>>, to_stderr: bool, color: bool) -> Seq<
    (bool, Seq<char>),
> {
    lines.map_values(|line: Seq<char>| (to_stderr, text_for(line, color)))
}

/// How the lines of a command are shown: first those of standard output.
pub open spec fn all_shown(lines: CapturedView, color: ColorSupport) -> Seq<(bool, Seq<char>)> {
    stream_shown(lines.stdout, false, color.stdout) + stream_shown(
        lines.stderr,
        true,
        color.stderr,
    )
}

fn show_stream(shown_lines: &mut Vec<ShownLine>, lines: &Vec<String>, to_stderr: bool, color: bool)
    ensures
        shown(final(shown_lines)@) == shown(old(shown_lines)@) + stream_shown(
            texts(lines@),
            to_stderr,
            color,
        ),
{
    let ghost before = shown(shown_lines@);
    let mut i: usize = 0;
    assert(before + stream_shown(texts(lines@).take(0), to_stderr, color) =~= before);
    while i < lines.len()
        invariant
            i <= lines.len(),
            shown(shown_lines@) == before + stream_shown(
                texts(lines@).take(i as int),
                to_stderr,
                color,
            ),
        decreases lines.len() - i,
    {
        let ghost so_far = shown(shown_lines@);
        let text = maybe_strip_str(lines[i].as_str(), color);
        shown_lines.push(ShownLine { to_stderr, text });
        i += 1;
        assert(shown(shown_lines@) =~= so_far.push((to_stderr, text_for(lines@[i - 1]@, color))));
        assert(shown(shown_lines@) =~= before + stream_shown(
            texts(lines@).take(i as int),
            to_stderr,
            color,
        ));
    }
    assert(texts(lines@).take(i as int) =~= texts(lines@));
}

fn show_all(shown_lines: &mut Vec<ShownLine>, lines: &Captured, color: ColorSupport)
    ensures
        shown(final(shown_lines)@) == shown(old(shown_lines)@) + all_shown(lines@, color),
{
    let ghost before = shown(shown_lines@);
    show_stream(shown_lines, &lines.stdout, false, color.stdout);
    show_stream(shown_lines, &lines.stderr, true, color.stderr);
    assert(shown(shown_lines@) =~= before + all_shown(lines@, color));
}

/// A running command whose output is shown once it has run for long.
pub struct Streaming {
    /// Whether its output is being shown.
    pub streaming: bool,
    /// The seconds that were last shown as its time, if any were.
    pub seconds: Option<u64>,
    pub captured: Captured,
}

/// A running command whose output is shown once it has run for long, as contracts speak of it.
pub struct StreamingView {
    pub streaming: bool,
    pub seconds: Option<u64>,
    pub captured: CapturedView,
}

impl View for Streaming {
    type V = StreamingView;

    open spec fn view(&self) -> StreamingView {
        StreamingView {
            streaming: self.streaming,
            seconds: self.seconds,
            captured: self.captured@,
        }
    }
}

/// A command that has just been started.
pub open spec fn just_started() -> StreamingView {
    StreamingView {
        streaming: false,
        seconds: None,
        captured: CapturedView { stdout: seq![], stderr: seq![] },
    }
}

/// What a look at a running command finds.
pub struct Look {
    /// For how many milliseconds the command has been running.
    pub elapsed: u64,
    /// The lines that it wrote since the last look.
    pub lines: CapturedView,
}

impl StreamingView {
    /// Whether the output starts to be shown at a look after so many milliseconds.
    pub open spec fn starts(self, elapsed: u64) -> bool {
        !self.streaming && elapsed >= QUIET_MILLIS
    }

    /// The seconds that are shown at a look after so many milliseconds: the whole ones, if they
    /// have grown since some were last shown.
    pub open spec fn ticks(self, elapsed: u64) -> Option<u64> {
        if self.seconds matches Some(last) && elapsed / SECOND_MILLIS <= last {
            None
        } else {
            Some(elapsed / SECOND_MILLIS)
        }
    }

    /// The command after a look.
    pub open spec fn after(self, look: Look) -> StreamingView {
        StreamingView {
            streaming: self.streaming || look.elapsed >= QUIET_MILLIS,
            seconds: if self.ticks(look.elapsed) is Some {
                self.ticks(look.elapsed)
            } else {
                self.seconds
            },
            captured: self.captured.followed_by(look.lines),
        }
    }

    /// The lines that are shown at a look: what was kept back if that is when showing starts, and
    /// what is new if anything is shown.
    pub open spec fn shown_at(self, look: Look, color: ColorSupport) -> Seq<(bool, Seq<char>)> {
        let kept_back = if self.starts(look.elapsed) {
            all_shown(self.captured, color)
        } else {
            seq![]
        };
        let new = if self.after(look).streaming {
            all_shown(look.lines, color)
        } else {
            seq![]
        };
        kept_back + new
    }

    /// The lines that are shown when the command has ended, of those that it wrote since the last
    /// look.
    pub open spec fn shown_at_end(self, rest: CapturedView, color: ColorSupport) -> Seq<
        (bool, Seq<char>),
    > {
        if self.streaming {
            all_shown(rest, color)
        } else {
            seq![]
        }
    }
}

/// What to do after a look at a running command.
pub struct Poll {
    /// The seconds to show as the command's time, if they have grown.
    pub seconds: Option<u64>,
    /// Whether to say first that output is shown from now on.
    pub started: bool,
    /// The lines to show.
    pub lines: Vec<ShownLine>,
    /// Whether there was no new line, so that the next look can wait.
    pub idle: bool,
}

/// What is left of a command that has ended.
pub struct Finished {
    /// The lines to show.
    pub lines: Vec<ShownLine>,
    /// Whether an empty line is to set the shown output off.
    pub blank_line: bool,
    pub stdout: Vec<u8>,
    pub stderr: Vec<u8>,
}

impl Streaming {
    /// A command that has just been started.
    pub fn new() -> (r: Self)
        ensures
            r@ == just_started(),
    {
        let r = Streaming { streaming: false, seconds: None, captured: Captured::new() };
        assert(r@.captured.stdout =~= seq![]);
        assert(r@.captured.stderr =~= seq![]);
        r
    }

    /// A look at the running command: after how many milliseconds, and which lines it wrote since
    /// the last look.
    pub fn poll(&mut self, elapsed: u64, lines: Captured, color: ColorSupport) -> (r: Poll)
        ensures
            ({
                let look = Look { elapsed, lines: lines@ };
                &&& final(self)@ == old(self)@.after(look)
                &&& r.seconds == old(self)@.ticks(elapsed)
                &&& r.started == old(self)@.starts(elapsed)
                &&& shown(r.lines@) == old(self)@.shown_at(look, color)
                &&& r.idle == lines@.is_nothing()
            }),
    {
        let ghost before = self@;
        let ghost look = Look { elapsed, lines: lines@ };
        let mut shown_lines: Vec<ShownLine> = Vec::new();
        assert(shown(shown_lines@) =~= seq![]);
        let started = !self.streaming && elapsed >= QUIET_MILLIS;
        if started {
            self.streaming = true;
            show_all(&mut shown_lines, &self.captured, color);
        }
        if self.streaming {
            show_all(&mut shown_lines, &lines, color);
        }
        assert(shown(shown_lines@) =~= before.shown_at(look, color));
        let idle = lines.stdout.len() == 0 && lines.stderr.len() == 0;
        assert(lines@.stdout.len() == lines.stdout.len());
        assert(lines@.stderr.len() == lines.stderr.len());
        self.captured.absorb(lines);
        let whole: u64 = elapsed / SECOND_MILLIS;
        let shown_before = match self.seconds {
            Some(last) => whole <= last,
            None => false,
        };
        let seconds = if shown_before {
            None
        } else {
            self.seconds = Some(whole);
            Some(whole)
        };
        Poll { seconds, started, lines: shown_lines, idle }
    }

    /// What is left once the command has ended. `rest` holds the lines that it wrote since the
    /// last look.
    pub fn finish(self, rest: Captured, color: ColorSupport) -> (r: Finished)
        ensures
            shown(r.lines@) == self@.shown_at_end(rest@, color),
            r.blank_line == self@.streaming,
            r.stdout@ == output_bytes(self@.captured.followed_by(rest@).stdout),
            r.stderr@ == output_bytes(self@.captured.followed_by(rest@).stderr),
    {
        let mut captured = self.captured;
        let mut shown_lines: Vec<ShownLine> = Vec::new();
        assert(shown(shown_lines@) =~= seq![]);
        if self.streaming {
            show_all(&mut shown_lines, &rest, color);
            assert(seq![] + all_shown(rest@, color) =~= all_shown(rest@, color));
        }
        captured.absorb(rest);
        let (stdout, stderr) = captured.output();
        Finished { lines: shown_lines, blank_line: self.streaming, stdout, stderr }
    }
}

/// What is said when the output of a command starts to be shown.
pub fn streaming_notice() -> (r: String)
    ensures
        r@ == "  "@ + in_yellow("\u{23f1}\u{fe0f}"@)
            + " Taking longer than expected, streaming output..."@,
{
    let mut r = "  ".to_owned();
    r.append(yellow("\u{23f1}\u{fe0f}").as_str());
    r.append(" Taking longer than expected, streaming output...");
    r
}

/// The command after some looks at it.
pub open spec fn after_looks(looks: Seq<Look>) -> StreamingView
    decreases looks.len(),
{
    if looks.len() == 0 {
        just_started()
    } else {
        after_looks(looks.drop_last()).after(looks.last())
    }
}

/// The lines shown at some looks.
pub open spec fn shown_at_looks(looks: Seq<Look>, color: ColorSupport) -> Seq<(bool, Seq<char>)>
    decreases looks.len(),
{
    if looks.len() == 0 {
        seq![]
    } else {
        shown_at_looks(looks.drop_last(), color) + after_looks(looks.drop_last()).shown_at(
            looks.last(),
            color,
        )
    }
}

/// The lines found at some looks.
pub open spec fn found_at_looks(looks: Seq<Look>) -> CapturedView
    decreases looks.len(),
{
    if looks.len() == 0 {
        CapturedView { stdout: seq![], stderr: seq![] }
    } else {
        found_at_looks(looks.drop_last()).followed_by(looks.last().lines)
    }
}

/// The seconds shown at some looks.
pub open spec fn seconds_at_looks(looks: Seq<Look>) -> Seq<u64>
    decreases looks.len(),
{
    if looks.len() == 0 {
        seq![]
    } else {
        let before = seconds_at_looks(looks.drop_last());
        match after_looks(looks.drop_last()).ticks(looks.last().elapsed) {
            Some(seconds) => before.push(seconds),
            None => before,
        }
    }
}

/// A running command's time is shown from the first look on, and no second twice: the seconds that
/// are shown grow.
pub proof fn seconds_grow(looks: Seq<Look>)
    ensures
        looks.len() > 0 ==> seconds_at_looks(looks).len() > 0 && seconds_at_looks(looks)[0]
            == looks[0].elapsed / SECOND_MILLIS,
        forall|i: int, j: int|
            0 <= i < j < seconds_at_looks(looks).len() ==> #[trigger] seconds_at_looks(looks)[i]
                < #[trigger] seconds_at_looks(looks)[j],
        after_looks(looks).seconds == if seconds_at_looks(looks).len() > 0 {
            Some(seconds_at_looks(looks).last())
        } else {
            None
        },
    decreases looks.len(),
{
    if looks.len() > 0 {
        let before = looks.drop_last();
        seconds_grow(before);
        if before.len() > 0 {
            assert(before[0] == looks[0]);
        }
    }
}

/// The shown lines that go to one stream.
pub open spec fn on_stream(lines: Seq<(bool, Seq<char>)>, to_stderr: bool) -> Seq<Seq<char>>
    decreases lines.len(),
{
    if lines.len() == 0 {
        seq![]
    } else {
        let rest = on_stream(lines.drop_last(), to_stderr);
        if lines.last().0 == to_stderr {
            rest.push(lines.last().1)
        } else {
            rest
        }
    }
}

/// The lines as their terminal is to be given them.
pub open spec fn as_shown(lines: Seq<Seq<char>>, color: bool) -> Seq<Seq<char>> {
    lines.map_values(|line: Seq<char>| text_for(line, color))
}

proof fn on_stream_of_both(a: Seq<(bool, Seq<char>)>, b: Seq<(bool, Seq<char>)>, to_stderr: bool)
    ensures
        on_stream(a + b, to_stderr) == on_stream(a, to_stderr) + on_stream(b, to_stderr),
    decreases b.len(),
{
    if b.len() == 0 {
        assert(a + b =~= a);
        assert(on_stream(a, to_stderr) + on_stream(b, to_stderr) =~= on_stream(a, to_stderr));
    } else {
        assert((a + b).drop_last() =~= a + b.drop_last());
        on_stream_of_both(a, b.drop_last(), to_stderr);
        assert(on_stream(a + b, to_stderr) =~= on_stream(a, to_stderr) + on_stream(b, to_stderr));
    }
}

proof fn on_stream_of_one(lines: Seq<Seq<char>>, written: bool, color: bool, to_stderr: bool)
    ensures
        on_stream(stream_shown(lines, written, color), to_stderr) == if written == to_stderr {
            as_shown(lines, color)
        } else {
            seq![]
        },
    decreases lines.len(),
{
    let all = stream_shown(lines, written, color);
    if lines.len() > 0 {
        assert(all.drop_last() =~= stream_shown(lines.drop_last(), written, color));
        on_stream_of_one(lines.drop_last(), written, color, to_stderr);
        assert(as_shown(lines.drop_last(), color).push(text_for(lines.last(), color)) =~= as_shown(
            lines,
            color,
        ));
    } else {
        assert(as_shown(lines, color) =~= seq![]);
    }
}

proof fn on_stream_of_all(lines: CapturedView, color: ColorSupport)
    ensures
        on_stream(all_shown(lines, color), false) == as_shown(lines.stdout, color.stdout),
        on_stream(all_shown(lines, color), true) == as_shown(lines.stderr, color.stderr),
{
    let out = stream_shown(lines.stdout, false, color.stdout);
    let err = stream_shown(lines.stderr, true, color.stderr);
    on_stream_of_both(out, err, false);
    on_stream_of_both(out, err, true);
    on_stream_of_one(lines.stdout, false, color.stdout, false);
    on_stream_of_one(lines.stdout, false, color.stdout, true);
    on_stream_of_one(lines.stderr, true, color.stderr, false);
    on_stream_of_one(lines.stderr, true, color.stderr, true);
    assert(on_stream(all_shown(lines, color), false) =~= as_shown(lines.stdout, color.stdout));
    assert(on_stream(all_shown(lines, color), true) =~= as_shown(lines.stderr, color.stderr));
}

/// However a running command is looked at, every line that was found is kept, and output is shown
/// from the first look on that comes after the quiet time, and only from then on: before it no
/// line was shown, and from then on every line found was shown once, in the order of its stream.
pub proof fn every_line_shown_once(looks: Seq<Look>, color: ColorSupport)
    ensures
        after_looks(looks).captured == found_at_looks(looks),
        after_looks(looks).streaming == exists|i: int|
            0 <= i < looks.len() && (#[trigger] looks[i]).elapsed >= QUIET_MILLIS,
        !after_looks(looks).streaming ==> shown_at_looks(looks, color) == Seq::<
            (bool, Seq<char>),
        >::empty(),
        after_looks(looks).streaming ==> {
            &&& on_stream(shown_at_looks(looks, color), false) == as_shown(
                found_at_looks(looks).stdout,
                color.stdout,
            )
            &&& on_stream(shown_at_looks(looks, color), true) == as_shown(
                found_at_looks(looks).stderr,
                color.stderr,
            )
        },
    decreases looks.len(),
{
    if looks.len() > 0 {
        let before = looks.drop_last();
        let look = looks.last();
        every_line_shown_once(before, color);
        assert(forall|i: int| 0 <= i < before.len() ==> before[i] == #[trigger] looks[i]);
        let state = after_looks(before);
        assert(state.after(look).streaming == exists|i: int|
            0 <= i < looks.len() && (#[trigger] looks[i]).elapsed >= QUIET_MILLIS) by {
            if state.streaming {
                let i = choose|i: int|
                    0 <= i < before.len() && (#[trigger] before[i]).elapsed >= QUIET_MILLIS;
                assert(looks[i].elapsed >= QUIET_MILLIS);
            }
            if look.elapsed >= QUIET_MILLIS {
                assert(looks[looks.len() - 1].elapsed >= QUIET_MILLIS);
            }
        }
        if state.after(look).streaming {
            on_stream_of_all(state.captured, color);
            on_stream_of_all(look.lines, color);
            let kept_back = if state.starts(look.elapsed) {
                all_shown(state.captured, color)
            } else {
                seq![]
            };
            let new = all_shown(look.lines, color);
            assert forall|to_stderr: bool|
                #![trigger on_stream(shown_at_looks(looks, color), to_stderr)]
                on_stream(shown_at_looks(looks, color), to_stderr) == as_shown(
                    if to_stderr {
                        found_at_looks(looks).stderr
                    } else {
                        found_at_looks(looks).stdout
                    },
                    if to_stderr {
                        color.stderr
                    } else {
                        color.stdout
                    },
                ) by {
                on_stream_of_both(
                    shown_at_looks(before, color),
                    state.shown_at(look, color),
                    to_stderr,
                );
                on_stream_of_both(kept_back, new, to_stderr);
                if state.streaming {
                    assert(on_stream(kept_back, to_stderr) =~= seq![]);
                } else {
                    assert(on_stream(shown_at_looks(before, color), to_stderr) =~= seq![]);
                }
                let lines = if to_stderr {
                    found_at_looks(looks).stderr
                } else {
                    found_at_looks(looks).stdout
                };
                let c = if to_stderr {
                    color.stderr
                } else {
                    color.stdout
                };
                assert(on_stream(shown_at_looks(looks, color), to_stderr) =~= as_shown(lines, c));
            }
        } else {
            assert(shown_at_looks(looks, color) =~= seq![]);
        }
    } else {
        assert(shown_at_looks(looks, color) =~= Seq::<(bool, Seq<char>)>::empty());
    }
}

/// Once a command has ended, all that it wrote has been kept, and either none of it was shown,
/// because it ended within the quiet time, or all of it, each line once.
pub proof fn whole_output_shown_or_none(looks: Seq<Look>, rest: CapturedView, color: ColorSupport)
    ensures
        ({
            let state = after_looks(looks);
            let all = found_at_looks(looks).followed_by(rest);
            let lines = shown_at_looks(looks, color) + state.shown_at_end(rest, color);
            &&& state.captured.followed_by(rest) == all
            &&& !state.streaming ==> lines == Seq::<(bool, Seq<char>)>::empty()
            &&& state.streaming ==> on_stream(lines, false) == as_shown(all.stdout, color.stdout)
            &&& state.streaming ==> on_stream(lines, true) == as_shown(all.stderr, color.stderr)
        }),
{
    let state = after_looks(looks);
    let all = found_at_looks(looks).followed_by(rest);
    let lines = shown_at_looks(looks, color) + state.shown_at_end(rest, color);
    every_line_shown_once(looks, color);
    if state.streaming {
        on_stream_of_all(rest, color);
        on_stream_of_both(shown_at_looks(looks, color), all_shown(rest, color), false);
        on_stream_of_both(shown_at_looks(looks, color), all_shown(rest, color), true);
        assert(on_stream(lines, false) =~= as_shown(all.stdout, color.stdout));
        assert(on_stream(lines, true) =~= as_shown(all.stderr, color.stderr));
    } else {
        assert(lines =~= Seq::<(bool, Seq<char>)>::empty());
    }
}

/// The line that stands for the state of a running command: the last one on standard error, where
/// cargo writes, or else the last one on standard output, without escape sequences.
pub open spec fn status_of(lines: CapturedView) -> Option<Seq<char>> {
    if lines.stderr.len() > 0 {
        Some(stripped_text(lines.stderr.last()))
    } else if lines.stdout.len() > 0 {
        Some(stripped_text(lines.stdout.last()))
    } else {
        None
    }
}

/// The line that stands for the state of a running command, of those that it wrote since the last
/// look.
pub fn status_line(lines: &Captured) -> (r: Option<String>)
    ensures
        opt_text(r) == status_of(lines@),
{
    assert(lines@.stdout.len() == lines.stdout.len());
    assert(lines@.stderr.len() == lines.stderr.len());
    if lines.stderr.len() > 0 {
        Some(strip_text(lines.stderr[lines.stderr.len() - 1].as_str()))
    } else if lines.stdout.len() > 0 {
        Some(strip_text(lines.stdout[lines.stdout.len() - 1].as_str()))
    } else {
        None
    }
}

/// The time of a command is shown in whole seconds, at the first look and whenever these have grown.
pub proof fn time_is_shown_when_it_grows(state: StreamingView, elapsed: u64)
    ensures
        state.ticks(elapsed) is Some <==> match state.seconds {
            Some(last) => elapsed / 1000 > last,
            None => true,
        },
        state.ticks(elapsed) matches Some(seconds) ==> seconds == elapsed / 1000,
{
}

/// The output starts to be shown at the first look after five seconds.
pub proof fn output_starts_after_five_seconds(state: StreamingView, look: Look)
    ensures
        state.starts(look.elapsed) <==> !state.streaming && look.elapsed >= 5000,
        state.after(look).streaming <==> state.streaming || look.elapsed >= 5000,
{
}

/// The state of a command is the last line on standard error, or else the last one on standard
/// output.
pub proof fn status_is_last_line(lines: CapturedView, line: Seq<char>)
    ensures
        status_of(CapturedView { stderr: lines.stderr.push(line), ..lines }) == Some(
            stripped_text(line),
        ),
        lines.stderr.len() == 0 ==> status_of(
            CapturedView { stdout: lines.stdout.push(line), ..lines },
        ) == Some(stripped_text(line)),
        status_of(lines) is None <==> lines.stdout.len() == 0 && lines.stderr.len() == 0,
{
}

/// The kept output is all lines with a line feed between each two, and lines of standard output are
/// shown before those of standard error.
pub proof fn output_is_all_lines(a: Seq<Seq<char>>, b: Seq<Seq<char>>, line: Seq<char>)
    ensures
        a.len() > 0 && b.len() > 0 ==> output_bytes(a + b) == encode_utf8(
            joined(a, "\n"@) + "\n"@ + joined(b, "\n"@),
        ),
        output_bytes(seq![line]) == encode_utf8(line),
{
    joining_puts_separators_between(a, b, line, "\n"@);
}

/// A look is idle exactly if it found no line.
pub proof fn idle_means_no_line(lines: CapturedView)
    ensures
        lines.is_nothing() <==> lines.stdout.len() + lines.stderr.len() == 0,
{
}

/// Lines found later follow those found before, each on its stream.
pub proof fn later_lines_follow(before: CapturedView, more: CapturedView)
    ensures
        before.followed_by(more).stdout == before.stdout + more.stdout,
        before.followed_by(more).stderr == before.stderr + more.stderr,
{
}

}
