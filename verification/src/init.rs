//! Setting up a repository for captain.

use vstd::prelude::*;

use crate::config::{comments_set_nothing, file_config, ConfigView};
use crate::paths::{join_path, joined_path};
use crate::text::{lower_text, opt_text, same, to_lowercase, trim, trimmed};

verus! {

broadcast use vstd::string::group_string_axioms;

/// Whether the answer to a question is yes: `y` or `yes` in any case of letters, or nothing where
/// that means yes.
pub open spec fn says_yes(answer: Seq<char>, default: bool) -> bool {
    let word = lower_text(trimmed(answer));
    if word.len() == 0 {
        default
    } else {
        word == "y"@ || word == "yes"@
    }
}

/// Whether a word in lower case means yes; `default` says what no word means.
pub fn is_yes(word: &str, default: bool) -> (r: bool)
    ensures
        r == (if word@.len() == 0 {
            default
        } else {
            word@ == "y"@ || word@ == "yes"@
        }),
{
    if word.unicode_len() == 0 {
        default
    } else {
        same(word, "y") || same(word, "yes")
    }
}

/// Whether the answer to a question is yes. `answer` is none if it could not be read.
pub fn prompt_yes_no(answer: Option<&str>, default: bool) -> (r: bool)
    ensures
        r == match answer {
            Some(answer) => says_yes(answer@, default),
            None => default,
        },
{
    match answer {
        Some(answer) => {
            let word = to_lowercase(trim(answer).as_str());
            is_yes(word.as_str(), default)
        },
        None => default,
    }
}

/// How a question is asked.
pub fn prompt_text(question: &str, default: bool) -> (r: String)
    ensures
        r@ == question@ + " "@ + (if default {
            "[Y/n]"@
        } else {
            "[y/N]"@
        }) + " "@,
{
    let mut r = question.to_owned();
    r.append(" ");
    if default {
        r.append("[Y/n]");
    } else {
        r.append("[y/N]");
    }
    r.append(" ");
    r
}

/// A file to create.
pub struct InitFile {
    /// Its path from the root of the repository, for people to read.
    pub name: String,
    pub path: String,
    pub content: String,
    pub executable: bool,
}

/// A file to create, as contracts speak of it.
pub struct InitFileView {
    pub name: Seq<char>,
    pub path: Seq<char>,
    pub content: Seq<char>,
    pub executable: bool,
}

impl View for InitFile {
    type V = InitFileView;

    open spec fn view(&self) -> InitFileView {
        InitFileView {
            name: self.name@,
            path: self.path@,
            content: self.content@,
            executable: self.executable,
        }
    }
}

/// Files to create, as contracts speak of them.
pub open spec fn file_views(files: Seq<InitFile>) -> Seq<InitFileView> {
    files.map_values(|file: InitFile| file@)
}

/// A file of the repository in `root`.
pub open spec fn file_at(
    root: Seq<char>,
    name: Seq<char>,
    content: Seq<char>,
    executable: bool,
) -> InitFileView {
    InitFileView { name, path: joined_path(root, name), content, executable }
}

fn make_file(root: &str, name: &str, content: &str, executable: bool) -> (r: InitFile)
    ensures
        r@ == file_at(root@, name@, content@, executable),
{
    InitFile {
        name: name.to_owned(),
        path: join_path(root, name),
        content: content.to_owned(),
        executable,
    }
}

/// The hook that runs before a commit.
pub const PRE_COMMIT_HOOK: &'static str = "#!/bin/bash\ncaptain\n";

/// The hook that runs before a push.
pub const PRE_PUSH_HOOK: &'static str = "#!/bin/bash\ncaptain pre-push\n";

/// The script that installs the hooks.
pub const INSTALL_SCRIPT: &'static str = r#"#!/usr/bin/env bash
set -euo pipefail

HOOK_SOURCE_DIR="$(git rev-parse --show-toplevel)/hooks"
GIT_DIR="$(git rev-parse --git-dir)"

copy_hook() {
  local src="$1"
  local dst="$2"

  mkdir -p "$(dirname "$dst")"
  cp "$src" "$dst"
  chmod +x "$dst"

  echo "✔ installed $(basename "$src") → $dst"
}

install_for_dir() {
  local hook_dir="$1"

  for hook in "$HOOK_SOURCE_DIR"/*; do
    local name
    name="$(basename "$hook")"
    # Skip install.sh itself
    if [ "$name" = "install.sh" ]; then
      continue
    fi
    local target="$hook_dir/$name"

    copy_hook "$hook" "$target"
  done
}

echo "Installing hooks from $HOOK_SOURCE_DIR …"

# main repo
install_for_dir "$GIT_DIR/hooks"

# worktrees
for wt in "$GIT_DIR"/worktrees/*; do
  if [ -d "$wt" ]; then
    install_for_dir "$wt/hooks"
  fi
done

echo "All hooks installed successfully."
"#;

/// The tasks for Conductor.
pub const CONDUCTOR_TASKS: &'static str = r#"{
  "$schema": "https://raw.githubusercontent.com/bearcove/conductor/main/conductor.schema.json",
  "tasks": {
    "check": {
      "command": "cargo check --workspace --all-targets",
      "group": "build",
      "problemMatcher": "$rustc",
      "watchPatterns": ["**/*.rs", "**/Cargo.toml", "**/Cargo.lock"]
    },
    "clippy": {
      "command": "cargo clippy --workspace --all-targets -- -D warnings",
      "group": "build",
      "problemMatcher": "$rustc",
      "watchPatterns": ["**/*.rs", "**/Cargo.toml"]
    },
    "test": {
      "command": "cargo nextest run",
      "group": "test",
      "watchPatterns": ["**/*.rs"]
    }
  }
}
"#;

/// The hooks and the script that installs them.
pub open spec fn hooks_of(root: Seq<char>) -> Seq<InitFileView> {
    seq![
        file_at(root, "hooks/pre-commit"@, PRE_COMMIT_HOOK@, true),
        file_at(root, "hooks/pre-push"@, PRE_PUSH_HOOK@, true),
        file_at(root, "hooks/install.sh"@, INSTALL_SCRIPT@, true),
    ]
}

/// The hooks and the script that installs them.
pub fn hook_files(root: &str) -> (r: Vec<InitFile>)
    ensures
        file_views(r@) == hooks_of(root@),
{
    let r = vec![
        make_file(root, "hooks/pre-commit", PRE_COMMIT_HOOK, true),
        make_file(root, "hooks/pre-push", PRE_PUSH_HOOK, true),
        make_file(root, "hooks/install.sh", INSTALL_SCRIPT, true),
    ];
    assert(file_views(r@) =~= hooks_of(root@));
    r
}

/// The tasks for Conductor.
pub fn conductor_file(root: &str) -> (r: InitFile)
    ensures
        r@ == file_at(root@, "conductor.json"@, CONDUCTOR_TASKS@, false),
{
    make_file(root, "conductor.json", CONDUCTOR_TASKS, false)
}

/// The path of the configuration file.
pub const CONFIG_PATH: &'static str = ".config/captain/config.kdl";

/// The configuration file, which sets nothing.
pub const CONFIG_TEXT: &'static str = "// Captain configuration\n// All options default to true. Set properties to #false to disable.\n";

/// The configuration file that is created leaves everything as it is.
pub proof fn created_config_sets_nothing(base: ConfigView)
    ensures
        file_config(CONFIG_TEXT@, base) == base,
{
    reveal_strlit(
        "// Captain configuration\n// All options default to true. Set properties to #false to disable.\n",
    );
    reveal_strlit(" Captain configuration");
    reveal_strlit(" All options default to true. Set properties to #false to disable.");
    let first = " Captain configuration"@;
    let second = " All options default to true. Set properties to #false to disable."@;
    let none: Seq<char> = seq![];
    let rest = seq!['/', '/'] + second + seq!['\n'] + none;
    assert(CONFIG_TEXT@ =~= seq!['/', '/'] + first + seq!['\n'] + rest);
    comments_set_nothing(first, rest, base);
    comments_set_nothing(second, none, base);
}

/// The configuration file; none if there is one already.
pub fn config_file(root: &str, exists: bool) -> (r: Option<InitFile>)
    ensures
        match r {
            Some(file) => !exists && file@ == file_at(root@, CONFIG_PATH@, CONFIG_TEXT@, false),
            None => exists,
        },
{
    if exists {
        None
    } else {
        Some(make_file(root, CONFIG_PATH, CONFIG_TEXT, false))
    }
}

/// The template for the readme of a project.
pub open spec fn readme_template(name: Seq<char>) -> Seq<char> {
    "**"@ + name + "** is a Rust project.\n\n## Features\n\n- Feature 1\n- Feature 2\n\n## Installation\n\n```bash\ncargo install "@
        + name + "\n```\n\n## Usage\n\n```bash\n"@ + name + " --help\n```\n"@
}

/// The template for the readme of a project called `name`; none if there is one already.
pub fn readme_file(root: &str, name: &str, exists: bool) -> (r: Option<InitFile>)
    ensures
        match r {
            Some(file) => !exists && file@ == file_at(
                root@,
                "README.md.in"@,
                readme_template(name@),
                false,
            ),
            None => exists,
        },
{
    if exists {
        return None;
    }
    let mut content = "**".to_owned();
    content.append(name);
    content.append(
        "** is a Rust project.\n\n## Features\n\n- Feature 1\n- Feature 2\n\n## Installation\n\n```bash\ncargo install ",
    );
    content.append(name);
    content.append("\n```\n\n## Usage\n\n```bash\n");
    content.append(name);
    content.append(" --help\n```\n");
    Some(make_file(root, "README.md.in", content.as_str(), false))
}

/// The path of the template for the header of readmes.
pub const HEADER_TEMPLATE: &'static str = ".config/captain/readme-templates/readme-header.md";

/// The path of the template for the footer of readmes.
pub const FOOTER_TEMPLATE: &'static str = ".config/captain/readme-templates/readme-footer.md";

/// An empty file, unless it exists.
pub open spec fn empty_unless(root: Seq<char>, name: Seq<char>, exists: bool) -> Seq<InitFileView> {
    if exists {
        seq![]
    } else {
        seq![file_at(root, name, ""@, false)]
    }
}

/// Empty templates for the header and footer of readmes, as far as there are none yet.
pub fn template_files(root: &str, header_exists: bool, footer_exists: bool) -> (r: Vec<InitFile>)
    ensures
        file_views(r@) == empty_unless(root@, HEADER_TEMPLATE@, header_exists) + empty_unless(
            root@,
            FOOTER_TEMPLATE@,
            footer_exists,
        ),
{
    let mut r: Vec<InitFile> = Vec::new();
    if !header_exists {
        r.push(make_file(root, HEADER_TEMPLATE, "", false));
    }
    if !footer_exists {
        r.push(make_file(root, FOOTER_TEMPLATE, "", false));
    }
    assert(file_views(r@) =~= empty_unless(root@, HEADER_TEMPLATE@, header_exists) + empty_unless(
        root@,
        FOOTER_TEMPLATE@,
        footer_exists,
    ));
    r
}

/// Which of the files that are created only if they do not exist do exist.
#[derive(Clone, Copy)]
pub struct Existing {
    pub config: bool,
    pub header: bool,
    pub footer: bool,
    pub readme: bool,
}

impl Existing {
    /// Whether there is a file of this name.
    pub open spec fn has(self, name: Seq<char>) -> bool {
        ||| self.config && name == CONFIG_PATH@
        ||| self.header && name == HEADER_TEMPLATE@
        ||| self.footer && name == FOOTER_TEMPLATE@
        ||| self.readme && name == "README.md.in"@
    }
}

/// A question about files to create. Without an answer it means yes.
#[derive(Clone, Copy, PartialEq, Eq, Structural)]
pub enum Question {
    Hooks,
    Conductor,
    Config,
    Templates,
    Readme,
}

impl Question {
    /// Whether all the files that the question is about exist. Hooks and tasks are written anew.
    pub open spec fn is_settled(self, existing: Existing) -> bool {
        match self {
            Question::Hooks => false,
            Question::Conductor => false,
            Question::Config => existing.config,
            Question::Templates => existing.header && existing.footer,
            Question::Readme => existing.readme,
        }
    }

    /// The files that are created if the answer is yes. The project is called `name`.
    pub open spec fn files(
        self,
        root: Seq<char>,
        name: Seq<char>,
        existing: Existing,
    ) -> Seq<InitFileView> {
        match self {
            Question::Hooks => hooks_of(root),
            Question::Conductor => seq![
                file_at(root, "conductor.json"@, CONDUCTOR_TASKS@, false),
            ],
            Question::Config => if existing.config {
                seq![]
            } else {
                seq![file_at(root, CONFIG_PATH@, CONFIG_TEXT@, false)]
            },
            Question::Templates => empty_unless(root, HEADER_TEMPLATE@, existing.header)
                + empty_unless(root, FOOTER_TEMPLATE@, existing.footer),
            Question::Readme => if existing.readme {
                seq![]
            } else {
                seq![file_at(root, "README.md.in"@, readme_template(name), false)]
            },
        }
    }

    /// The files that are created upon an answer, which is none if it could not be read.
    pub open spec fn files_upon(
        self,
        answer: Option<Seq<char>>,
        root: Seq<char>,
        name: Seq<char>,
        existing: Existing,
    ) -> Seq<InitFileView> {
        if answer matches Some(answer) && !says_yes(answer, true) {
            seq![]
        } else {
            self.files(root, name, existing)
        }
    }

    /// The question in words.
    pub fn text(self) -> (r: String)
        ensures
            r@ == match self {
                Question::Hooks => "Create git hooks (pre-commit, pre-push)?"@,
                Question::Conductor => "Create conductor.json for VS Code task running?"@,
                Question::Config => "Create .config/captain/config.kdl?"@,
                Question::Templates => "Create empty README header and footer templates?"@,
                Question::Readme => "Create README.md.in template?"@,
            },
    {
        match self {
            Question::Hooks => "Create git hooks (pre-commit, pre-push)?".to_owned(),
            Question::Conductor => "Create conductor.json for VS Code task running?".to_owned(),
            Question::Config => "Create .config/captain/config.kdl?".to_owned(),
            Question::Templates => "Create empty README header and footer templates?".to_owned(),
            Question::Readme => "Create README.md.in template?".to_owned(),
        }
    }

    /// What is said if the question is not asked; nothing if it always is.
    pub fn notice(self) -> (r: Option<String>)
        ensures
            opt_text(r) == match self {
                Question::Hooks => None,
                Question::Conductor => None,
                Question::Config => Some(".config/captain/config.kdl already exists, skipping"@),
                Question::Templates => Some("README header and footer already exist, skipping"@),
                Question::Readme => Some("README.md.in already exists, skipping"@),
            },
    {
        match self {
            Question::Hooks => None,
            Question::Conductor => None,
            Question::Config => Some(
                ".config/captain/config.kdl already exists, skipping".to_owned(),
            ),
            Question::Templates => Some(
                "README header and footer already exist, skipping".to_owned(),
            ),
            Question::Readme => Some("README.md.in already exists, skipping".to_owned()),
        }
    }

    /// The files that are created upon an answer, which is none if it could not be read. The
    /// project is called `name`.
    pub fn files_to_create(
        self,
        answer: Option<&str>,
        root: &str,
        name: &str,
        existing: Existing,
    ) -> (r: Vec<InitFile>)
        ensures
            file_views(r@) == self.files_upon(
                match answer {
                    Some(answer) => Some(answer@),
                    None => None,
                },
                root@,
                name@,
                existing,
            ),
    {
        let mut files: Vec<InitFile> = Vec::new();
        assert(file_views(files@) =~= seq![]);
        if !prompt_yes_no(answer, true) {
            return files;
        }
        match self {
            Question::Hooks => {
                return hook_files(root);
            },
            Question::Conductor => {
                files.push(conductor_file(root));
            },
            Question::Config => {
                if let Some(file) = config_file(root, existing.config) {
                    files.push(file);
                }
            },
            Question::Templates => {
                return template_files(root, existing.header, existing.footer);
            },
            Question::Readme => {
                if let Some(file) = readme_file(root, name, existing.readme) {
                    files.push(file);
                }
            },
        }
        assert(file_views(files@) =~= self.files(root@, name@, existing));
        files
    }
}

/// A step of setting up.
#[derive(Clone, Copy, PartialEq, Eq, Structural)]
pub enum InitStep {
    Ask(Question),
    /// The question is not asked, since its files exist.
    Skip(Question),
}

/// The step for a question.
pub open spec fn step_for(question: Question, existing: Existing) -> InitStep {
    if question.is_settled(existing) {
        InitStep::Skip(question)
    } else {
        InitStep::Ask(question)
    }
}

/// The steps of setting up, one for each question.
pub open spec fn steps_of(existing: Existing) -> Seq<InitStep> {
    seq![
        step_for(Question::Hooks, existing),
        step_for(Question::Conductor, existing),
        step_for(Question::Config, existing),
        step_for(Question::Templates, existing),
        step_for(Question::Readme, existing),
    ]
}

fn step_or_skip(question: Question, settled: bool) -> (r: InitStep)
    ensures
        r == (if settled {
            InitStep::Skip(question)
        } else {
            InitStep::Ask(question)
        }),
{
    if settled {
        InitStep::Skip(question)
    } else {
        InitStep::Ask(question)
    }
}

/// The steps of setting up, one for each question.
pub fn init_steps(existing: Existing) -> (r: Vec<InitStep>)
    ensures
        r@ == steps_of(existing),
{
    let r = vec![
        InitStep::Ask(Question::Hooks),
        InitStep::Ask(Question::Conductor),
        step_or_skip(Question::Config, existing.config),
        step_or_skip(Question::Templates, existing.header && existing.footer),
        step_or_skip(Question::Readme, existing.readme),
    ];
    assert(r@ =~= steps_of(existing));
    r
}

/// The files that are created in some steps, given the answer to each question.
pub open spec fn files_created(
    steps: Seq<InitStep>,
    answers: spec_fn(Question) -> Option<Seq<char>>,
    root: Seq<char>,
    name: Seq<char>,
    existing: Existing,
) -> Seq<InitFileView>
    decreases steps.len(),
{
    if steps.len() == 0 {
        seq![]
    } else {
        let before = files_created(steps.drop_last(), answers, root, name, existing);
        match steps.last() {
            InitStep::Ask(question) => before + question.files_upon(
                answers(question),
                root,
                name,
                existing,
            ),
            InitStep::Skip(_) => before,
        }
    }
}

/// Whether none of the files is one that exists.
pub open spec fn are_new(files: Seq<InitFileView>, existing: Existing) -> bool {
    forall|i: int| 0 <= i < files.len() ==> !existing.has((#[trigger] files[i]).name)
}

/// Whatever the answers are, setting up leaves the files alone that are created only if they do
/// not exist, and asks no question about what exists.
pub proof fn existing_files_are_left_alone(
    answers: spec_fn(Question) -> Option<Seq<char>>,
    root: Seq<char>,
    name: Seq<char>,
    existing: Existing,
)
    ensures
        are_new(files_created(steps_of(existing), answers, root, name, existing), existing),
        forall|question: Question|
            #![trigger question.is_settled(existing)]
            steps_of(existing).contains(InitStep::Ask(question)) <==> !question.is_settled(existing),
{
    let steps = steps_of(existing);
    files_are_new(steps, answers, root, name, existing);
    assert forall|question: Question|
        steps.contains(InitStep::Ask(question)) <==> !#[trigger] question.is_settled(existing) by {
        let at: int = match question {
            Question::Hooks => 0,
            Question::Conductor => 1,
            Question::Config => 2,
            Question::Templates => 3,
            Question::Readme => 4,
        };
        assert(steps[at] == step_for(question, existing));
    }
}

proof fn files_are_new(
    steps: Seq<InitStep>,
    answers: spec_fn(Question) -> Option<Seq<char>>,
    root: Seq<char>,
    name: Seq<char>,
    existing: Existing,
)
    ensures
        are_new(files_created(steps, answers, root, name, existing), existing),
    decreases steps.len(),
{
    if steps.len() > 0 {
        let before = files_created(steps.drop_last(), answers, root, name, existing);
        let files = files_created(steps, answers, root, name, existing);
        files_are_new(steps.drop_last(), answers, root, name, existing);
        if let InitStep::Ask(question) = steps.last() {
            question_makes_new_files(question, root, name, existing);
            let more = question.files_upon(answers(question), root, name, existing);
            assert forall|i: int| 0 <= i < files.len() implies !existing.has(
                (#[trigger] files[i]).name,
            ) by {
                if i < before.len() {
                    assert(files[i] == before[i]);
                } else {
                    assert(files[i] == more[i - before.len()]);
                }
            }
        }
    }
}

proof fn question_makes_new_files(
    question: Question,
    root: Seq<char>,
    name: Seq<char>,
    existing: Existing,
)
    ensures
        are_new(question.files(root, name, existing), existing),
{
    reveal_strlit("hooks/pre-commit");
    reveal_strlit("hooks/pre-push");
    reveal_strlit("hooks/install.sh");
    reveal_strlit("conductor.json");
    reveal_strlit("README.md.in");
    reveal_strlit(".config/captain/config.kdl");
    reveal_strlit(".config/captain/readme-templates/readme-header.md");
    reveal_strlit(".config/captain/readme-templates/readme-footer.md");
    assert(HEADER_TEMPLATE@[40] != FOOTER_TEMPLATE@[40]);
}

/// If every question is answered with no, no file is created.
pub proof fn no_makes_no_file(
    answers: spec_fn(Question) -> Option<Seq<char>>,
    root: Seq<char>,
    name: Seq<char>,
    existing: Existing,
)
    requires
        forall|question: Question|
            #[trigger] answers(question) matches Some(answer) && !says_yes(answer, true),
    ensures
        files_created(steps_of(existing), answers, root, name, existing) == Seq::<
            InitFileView,
        >::empty(),
{
    nothing_is_created(steps_of(existing), answers, root, name, existing);
}

proof fn nothing_is_created(
    steps: Seq<InitStep>,
    answers: spec_fn(Question) -> Option<Seq<char>>,
    root: Seq<char>,
    name: Seq<char>,
    existing: Existing,
)
    requires
        forall|question: Question|
            #[trigger] answers(question) matches Some(answer) && !says_yes(answer, true),
    ensures
        files_created(steps, answers, root, name, existing) =~= seq![],
    decreases steps.len(),
{
    if steps.len() > 0 {
        nothing_is_created(steps.drop_last(), answers, root, name, existing);
        if let InitStep::Ask(question) = steps.last() {
            assert(answers(question) is Some);
        }
    }
}

/// An answer means yes if it is `y` or `yes` in any case of letters with white space around it, no
/// if it is another word, and what the question offers if it is none.
pub proof fn answers_are_words(answer: Seq<char>, default: bool)
    ensures
        lower_text(trimmed(answer)).len() == 0 ==> says_yes(answer, default) == default,
        lower_text(trimmed(answer)) == seq!['y'] || lower_text(trimmed(answer)) == seq!['y', 'e', 's']
            ==> says_yes(answer, default),
        lower_text(trimmed(answer)).len() > 0 && lower_text(trimmed(answer)) != seq!['y']
            && lower_text(trimmed(answer)) != seq!['y', 'e', 's'] ==> !says_yes(answer, default),
{
    reveal_strlit("y");
    reveal_strlit("yes");
    assert("y"@ =~= seq!['y']);
    assert("yes"@ =~= seq!['y', 'e', 's']);
}

/// The names of files.
pub open spec fn file_names(files: Seq<InitFileView>) -> Seq<Seq<char>> {
    files.map_values(|file: InitFileView| file.name)
}

/// Each question is about its own files, as far as these do not exist yet: the three hooks, which are
/// executable, the tasks, the configuration file, both templates, and the template of the readme.
pub proof fn questions_have_their_files(root: Seq<char>, name: Seq<char>, existing: Existing)
    ensures
        file_names(Question::Hooks.files(root, name, existing)) == seq![
            "hooks/pre-commit"@,
            "hooks/pre-push"@,
            "hooks/install.sh"@,
        ],
        forall|i: int|
            0 <= i < 3 ==> (#[trigger] Question::Hooks.files(root, name, existing)[i]).executable,
        file_names(Question::Conductor.files(root, name, existing)) == seq!["conductor.json"@],
        existing.config ==> Question::Config.files(root, name, existing).len() == 0,
        !existing.config ==> file_names(Question::Config.files(root, name, existing)) == seq![
            CONFIG_PATH@,
        ],
        file_names(Question::Templates.files(root, name, existing)) == (if existing.header {
            seq![]
        } else {
            seq![HEADER_TEMPLATE@]
        }) + (if existing.footer {
            seq![]
        } else {
            seq![FOOTER_TEMPLATE@]
        }),
        existing.readme ==> Question::Readme.files(root, name, existing).len() == 0,
        !existing.readme ==> file_names(Question::Readme.files(root, name, existing)) == seq![
            "README.md.in"@,
        ],
{
    assert(file_names(Question::Hooks.files(root, name, existing)) =~= seq![
        "hooks/pre-commit"@,
        "hooks/pre-push"@,
        "hooks/install.sh"@,
    ]);
    assert(file_names(Question::Conductor.files(root, name, existing)) =~= seq!["conductor.json"@]);
    if !existing.config {
        assert(file_names(Question::Config.files(root, name, existing)) =~= seq![CONFIG_PATH@]);
    }
    assert(file_names(Question::Templates.files(root, name, existing)) =~= (if existing.header {
        seq![]
    } else {
        seq![HEADER_TEMPLATE@]
    }) + (if existing.footer {
        seq![]
    } else {
        seq![FOOTER_TEMPLATE@]
    }));
    if !existing.readme {
        assert(file_names(Question::Readme.files(root, name, existing)) =~= seq!["README.md.in"@]);
    }
}

/// Every file that is created stands under its name in the repository.
pub proof fn files_stand_under_their_names(
    question: Question,
    root: Seq<char>,
    name: Seq<char>,
    existing: Existing,
    i: int,
)
    requires
        0 <= i < question.files(root, name, existing).len(),
    ensures
        ({
            let file = question.files(root, name, existing)[i];
            &&& file.path == joined_path(root, file.name)
            &&& file.executable <==> question == Question::Hooks
            &&& question == Question::Templates ==> file.content.len() == 0
        }),
{
    reveal_strlit("");
}

/// A yes, or no answer where that means yes, creates all files of a question, and a no none.
pub proof fn answers_decide(
    question: Question,
    answer: Seq<char>,
    root: Seq<char>,
    name: Seq<char>,
    existing: Existing,
)
    ensures
        question.files_upon(None, root, name, existing) == question.files(root, name, existing),
        says_yes(answer, true) ==> question.files_upon(Some(answer), root, name, existing)
            == question.files(root, name, existing),
        !says_yes(answer, true) ==> question.files_upon(Some(answer), root, name, existing).len()
            == 0,
{
}

/// The files that are created hold what is written for them, and the template of a readme is that of
/// the project's name.
pub proof fn files_hold_their_texts(root: Seq<char>, name: Seq<char>, existing: Existing)
    ensures
        ({
            let hooks = Question::Hooks.files(root, name, existing);
            &&& hooks[0].content == PRE_COMMIT_HOOK@
            &&& hooks[1].content == PRE_PUSH_HOOK@
            &&& hooks[2].content == INSTALL_SCRIPT@
        }),
        Question::Conductor.files(root, name, existing)[0].content == CONDUCTOR_TASKS@,
        !existing.config ==> Question::Config.files(root, name, existing)[0].content == CONFIG_TEXT@,
        !existing.readme ==> Question::Readme.files(root, name, existing)[0].content == "**"@ + name
            + "** is a Rust project.\n\n## Features\n\n- Feature 1\n- Feature 2\n\n## Installation\n\n```bash\ncargo install "@
            + name + "\n```\n\n## Usage\n\n```bash\n"@ + name + " --help\n```\n"@,
{
}

}
