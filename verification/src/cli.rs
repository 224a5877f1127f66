//! How captain is called.

use vstd::prelude::*;

use crate::text::{lower_text, opt_text, same, texts, to_lowercase};

verus! {

broadcast use vstd::string::group_string_axioms;

/// What captain is called to do.
pub enum Invocation {
    /// Check what is about to be pushed.
    PrePush,
    /// Set up a repository.
    Init,
    /// List the packages.
    DebugPackages,
    /// Generate and format files. Templates for readmes may stand in a directory of their own.
    Generate(Option<String>),
}

/// What captain is called to do, as contracts speak of it.
pub enum InvocationView {
    PrePush,
    Init,
    DebugPackages,
    Generate(Option<Seq<char>>),
}

impl View for Invocation {
    type V = InvocationView;

    open spec fn view(&self) -> InvocationView {
        match self {
            Invocation::PrePush => InvocationView::PrePush,
            Invocation::Init => InvocationView::Init,
            Invocation::DebugPackages => InvocationView::DebugPackages,
            Invocation::Generate(dir) => InvocationView::Generate(opt_text(*dir)),
        }
    }
}

/// The last template directory that the arguments give, or else `found`. An argument that is the
/// value of `--template-dir` does not start another option.
pub open spec fn template_dir_in(args: Seq<Seq<char>>, found: Option<Seq<char>>) -> Option<Seq<char>>
    decreases args.len(),
{
    if args.len() == 0 {
        found
    } else if args[0] == "--template-dir"@ && args.len() > 1 {
        template_dir_in(args.skip(2), Some(args[1]))
    } else {
        template_dir_in(args.skip(1), found)
    }
}

/// What the arguments, of which the first is the program, ask for.
pub open spec fn invocation_of(args: Seq<Seq<char>>) -> InvocationView {
    if args.len() > 1 && args[1] == "pre-push"@ {
        InvocationView::PrePush
    } else if args.len() > 1 && args[1] == "init"@ {
        InvocationView::Init
    } else if args.len() > 1 && args[1] == "debug-packages"@ {
        InvocationView::DebugPackages
    } else if args.len() > 0 {
        InvocationView::Generate(template_dir_in(args.skip(1), None))
    } else {
        InvocationView::Generate(None)
    }
}

/// What the arguments, of which the first is the program, ask for.
pub fn parse_args(args: &Vec<String>) -> (r: Invocation)
    ensures
        r@ == invocation_of(texts(args@)),
{
    let ghost all = texts(args@);
    if args.len() > 1 {
        assert(all[1] == args@[1]@);
        if same(args[1].as_str(), "pre-push") {
            return Invocation::PrePush;
        }
        if same(args[1].as_str(), "init") {
            return Invocation::Init;
        }
        if same(args[1].as_str(), "debug-packages") {
            return Invocation::DebugPackages;
        }
    }
    if args.len() == 0 {
        return Invocation::Generate(None);
    }
    let mut template_dir: Option<String> = None;
    let mut i: usize = 1;
    while i < args.len()
        invariant
            1 <= i <= args.len(),
            all == texts(args@),
            template_dir_in(all.skip(i as int), opt_text(template_dir))
                == template_dir_in(all.skip(1), None),
        decreases args.len() - i,
    {
        let ghost rest = all.skip(i as int);
        assert(rest[0] == args@[i as int]@);
        assert(rest.skip(1) =~= all.skip(i + 1));
        if same(args[i].as_str(), "--template-dir") && i + 1 < args.len() {
            assert(rest[1] == args@[i + 1]@);
            assert(rest.skip(2) =~= all.skip(i + 2));
            template_dir = Some(args[i + 1].as_str().to_owned());
            i += 2;
        } else {
            i += 1;
        }
    }
    Invocation::Generate(template_dir)
}

/// How much is logged.
#[derive(Clone, Copy, PartialEq, Eq, Structural)]
pub enum LogLevel {
    Trace,
    Debug,
    Info,
    Warn,
    Error,
}

/// The level that a setting names in any case of letters; the middle one if it names none.
pub open spec fn level_of(setting: Option<Seq<char>>) -> LogLevel {
    match setting {
        Some(text) => {
            let name = lower_text(text);
            if name == "trace"@ {
                LogLevel::Trace
            } else if name == "debug"@ {
                LogLevel::Debug
            } else if name == "warn"@ {
                LogLevel::Warn
            } else if name == "error"@ {
                LogLevel::Error
            } else {
                LogLevel::Info
            }
        },
        None => LogLevel::Info,
    }
}

/// The level that a setting names, if there is one.
pub fn log_level(setting: Option<&str>) -> (r: LogLevel)
    ensures
        r == level_of(
            match setting {
                Some(text) => Some(text@),
                None => None,
            },
        ),
{
    let name = match setting {
        Some(text) => to_lowercase(text),
        None => {
            return LogLevel::Info;
        },
    };
    named_level(name.as_str())
}

/// The level of a name in lower case.
pub fn named_level(name: &str) -> (r: LogLevel)
    ensures
        r == (if name@ == "trace"@ {
            LogLevel::Trace
        } else if name@ == "debug"@ {
            LogLevel::Debug
        } else if name@ == "warn"@ {
            LogLevel::Warn
        } else if name@ == "error"@ {
            LogLevel::Error
        } else {
            LogLevel::Info
        }),
{
    if same(name, "trace") {
        LogLevel::Trace
    } else if same(name, "debug") {
        LogLevel::Debug
    } else if same(name, "warn") {
        LogLevel::Warn
    } else if same(name, "error") {
        LogLevel::Error
    } else {
        LogLevel::Info
    }
}

/// A subcommand is told by the first argument after the program, and any other first argument means
/// that files are generated.
pub proof fn first_argument_is_subcommand(args: Seq<Seq<char>>)
    requires
        args.len() > 1,
    ensures
        args[1] == "pre-push"@ ==> invocation_of(args) == InvocationView::PrePush,
        args[1] == "init"@ ==> invocation_of(args) == InvocationView::Init,
        args[1] == "debug-packages"@ ==> invocation_of(args) == InvocationView::DebugPackages,
        args[1] != "pre-push"@ && args[1] != "init"@ && args[1] != "debug-packages"@
            ==> invocation_of(args) is Generate,
{
    reveal_strlit("pre-push");
    reveal_strlit("init");
    reveal_strlit("debug-packages");
    assert("pre-push"@.len() == 8 && "init"@.len() == 4 && "debug-packages"@.len() == 14);
}

/// Without `--template-dir` there is no custom template directory.
pub proof fn no_option_no_template_dir(args: Seq<Seq<char>>, found: Option<Seq<char>>)
    requires
        !args.contains("--template-dir"@),
    ensures
        template_dir_in(args, found) == found,
    decreases args.len(),
{
    if args.len() > 0 {
        assert(args[0] != "--template-dir"@);
        let rest = args.skip(1);
        assert forall|i: int| 0 <= i < rest.len() implies rest[i] != "--template-dir"@ by {
            assert(rest[i] == args[i + 1]);
        }
        no_option_no_template_dir(rest, found);
    }
}

/// What follows `--template-dir` is the custom template directory, wherever that stands among the
/// arguments, and of several the last counts.
pub proof fn last_template_dir_counts(
    before: Seq<Seq<char>>,
    dir: Seq<char>,
    after: Seq<Seq<char>>,
    found: Option<Seq<char>>,
)
    requires
        !before.contains("--template-dir"@),
    ensures
        template_dir_in(before + seq!["--template-dir"@, dir] + after, found) == template_dir_in(
            after,
            Some(dir),
        ),
        !after.contains("--template-dir"@) ==> template_dir_in(
            before + seq!["--template-dir"@, dir] + after,
            found,
        ) == Some(dir),
    decreases before.len(),
{
    let args = before + seq!["--template-dir"@, dir] + after;
    if before.len() == 0 {
        assert(args[0] == "--template-dir"@);
        assert(args.skip(2) =~= after);
    } else {
        let rest = before.skip(1);
        assert(args[0] == before[0]);
        assert(before[0] != "--template-dir"@);
        assert forall|i: int| 0 <= i < rest.len() implies rest[i] != "--template-dir"@ by {
            assert(rest[i] == before[i + 1]);
        }
        assert(args.skip(1) =~= rest + seq!["--template-dir"@, dir] + after);
        last_template_dir_counts(rest, dir, after, found);
    }
    if !after.contains("--template-dir"@) {
        no_option_no_template_dir(after, Some(dir));
    }
}

/// The custom template directory is looked for among the arguments after the program.
pub proof fn template_dir_is_an_argument(args: Seq<Seq<char>>)
    ensures
        invocation_of(args) matches InvocationView::Generate(dir) ==> {
            &&& args.len() > 0 ==> dir == template_dir_in(args.skip(1), None)
            &&& args.len() == 0 ==> dir is None
        },
{
}

/// A level is told by its name in lower case, and any other setting means the middle one.
pub proof fn levels_have_names(setting: Seq<char>)
    ensures
        lower_text(setting) == "trace"@ ==> level_of(Some(setting)) == LogLevel::Trace,
        lower_text(setting) == "debug"@ ==> level_of(Some(setting)) == LogLevel::Debug,
        lower_text(setting) == "warn"@ ==> level_of(Some(setting)) == LogLevel::Warn,
        lower_text(setting) == "error"@ ==> level_of(Some(setting)) == LogLevel::Error,
        lower_text(setting) != "trace"@ && lower_text(setting) != "debug"@ && lower_text(setting)
            != "warn"@ && lower_text(setting) != "error"@ ==> level_of(Some(setting))
            == LogLevel::Info,
        level_of(None) == LogLevel::Info,
{
    reveal_strlit("trace");
    reveal_strlit("debug");
    reveal_strlit("warn");
    reveal_strlit("error");
    assert("trace"@[0] == 't' && "debug"@[0] == 'd' && "warn"@[0] == 'w' && "error"@[0] == 'e');
}

}
