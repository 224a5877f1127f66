//! What captain is configured to do.

use vstd::prelude::*;

use crate::json::{json_node, member, member_of, text_of, JsonNode};
use crate::kdl::{
    arguments, arguments_in, block_name, comment_is_whole, ends_line, ends_word, first_token,
    line_is_whole, next_token, node_name, property_at, quote_len, quote_text, read_block_name,
    read_node_name, read_property, token_fits, word_is_whole, word_views, Token, TokenView, Word,
    WordView,
};
use crate::text::{opt_text, same, texts, to_chars};

verus! {

broadcast use vstd::string::group_string_axioms;

/// One setting.
pub enum Setting {
    Flag(bool),
    /// A list, as far as it holds texts.
    Names(Vec<String>),
    /// Something else, or nothing.
    Other,
}

/// One setting, as contracts speak of it.
pub enum SettingView {
    Flag(bool),
    Names(Seq<Seq<char>>),
    Other,
}

impl View for Setting {
    type V = SettingView;

    open spec fn view(&self) -> SettingView {
        match self {
            Setting::Flag(flag) => SettingView::Flag(*flag),
            Setting::Names(names) => SettingView::Names(texts(names@)),
            Setting::Other => SettingView::Other,
        }
    }
}

/// Whether a setting leaves something on: all but `false` does.
pub open spec fn left_on(setting: SettingView) -> bool {
    setting != SettingView::Flag(false)
}

/// The features that a setting names: those of a list, none at all for `false`, and otherwise it
/// says nothing about features.
pub open spec fn features_of(setting: SettingView) -> Option<Seq<Seq<char>>> {
    match setting {
        SettingView::Names(names) => Some(names),
        SettingView::Flag(flag) => if flag {
            None
        } else {
            Some(seq![])
        },
        SettingView::Other => None,
    }
}

/// The names of optional features, as contracts speak of them.
pub open spec fn opt_texts(names: Option<Vec<String>>) -> Option<Seq<Seq<char>>> {
    match names {
        Some(names) => Some(texts(names@)),
        None => None,
    }
}

/// The settings of captain, as they were found.
pub struct CaptainSettings {
    pub generate_readmes: Setting,
    pub rustfmt: Setting,
    pub cargo_lock: Setting,
    pub arborium: Setting,
    pub rust_version: Setting,
    pub edition_2024: Setting,
    pub clippy: Setting,
    pub clippy_features: Setting,
    pub nextest: Setting,
    pub doc_tests: Setting,
    pub doc_test_features: Setting,
    pub docs: Setting,
    pub docs_features: Setting,
    pub cargo_shear: Setting,
}

/// What captain is configured to do.
#[derive(Debug)]
pub struct CaptainConfig {
    /// Generate the readmes.
    pub generate_readmes: bool,
    /// Format the staged Rust files.
    pub rustfmt: bool,
    /// Stage changes of `Cargo.lock`.
    pub cargo_lock: bool,
    /// Set up arborium for the documentation.
    pub arborium: bool,
    /// See to it that every crate declares the same Rust version.
    pub rust_version: bool,
    /// Require edition 2024.
    pub edition_2024: bool,
    /// Run clippy.
    pub clippy: bool,
    /// Features for clippy: all if none, else these and no more.
    pub clippy_features: Option<Vec<String>>,
    /// Run the tests.
    pub nextest: bool,
    /// Run the documentation tests.
    pub doc_tests: bool,
    /// Features for the documentation tests: all if none, else these and no more.
    pub doc_test_features: Option<Vec<String>>,
    /// Build the documentation.
    pub docs: bool,
    /// Features for the documentation: all if none, else these and no more.
    pub docs_features: Option<Vec<String>>,
    /// Look for unused dependencies.
    pub cargo_shear: bool,
    /// See whether all crates declare the same Rust version, where they declare one.
    pub same_rust_version: bool,
}

/// What captain is configured to do, as contracts speak of it.
pub struct ConfigView {
    pub generate_readmes: bool,
    pub rustfmt: bool,
    pub cargo_lock: bool,
    pub arborium: bool,
    pub rust_version: bool,
    pub edition_2024: bool,
    pub clippy: bool,
    pub clippy_features: Option<Seq<Seq<char>>>,
    pub nextest: bool,
    pub doc_tests: bool,
    pub doc_test_features: Option<Seq<Seq<char>>>,
    pub docs: bool,
    pub docs_features: Option<Seq<Seq<char>>>,
    pub cargo_shear: bool,
    pub same_rust_version: bool,
}

impl View for CaptainConfig {
    type V = ConfigView;

    open spec fn view(&self) -> ConfigView {
        ConfigView {
            generate_readmes: self.generate_readmes,
            rustfmt: self.rustfmt,
            cargo_lock: self.cargo_lock,
            arborium: self.arborium,
            rust_version: self.rust_version,
            edition_2024: self.edition_2024,
            clippy: self.clippy,
            clippy_features: opt_texts(self.clippy_features),
            nextest: self.nextest,
            doc_tests: self.doc_tests,
            doc_test_features: opt_texts(self.doc_test_features),
            docs: self.docs,
            docs_features: opt_texts(self.docs_features),
            cargo_shear: self.cargo_shear,
            same_rust_version: self.same_rust_version,
        }
    }
}

/// Everything on, with all features.
pub open spec fn default_config() -> ConfigView {
    ConfigView {
        generate_readmes: true,
        rustfmt: true,
        cargo_lock: true,
        arborium: true,
        rust_version: true,
        edition_2024: true,
        clippy: true,
        clippy_features: None,
        nextest: true,
        doc_tests: true,
        doc_test_features: None,
        docs: true,
        docs_features: None,
        cargo_shear: true,
        same_rust_version: true,
    }
}

impl Default for CaptainConfig {
    /// Everything on, with all features.
    fn default() -> (r: Self)
        ensures
            r@ == default_config(),
    {
        CaptainConfig {
            generate_readmes: true,
            rustfmt: true,
            cargo_lock: true,
            arborium: true,
            rust_version: true,
            edition_2024: true,
            clippy: true,
            clippy_features: None,
            nextest: true,
            doc_tests: true,
            doc_test_features: None,
            docs: true,
            docs_features: None,
            cargo_shear: true,
            same_rust_version: true,
        }
    }
}

/// What the settings ask for.
pub open spec fn configured(settings: CaptainSettings) -> ConfigView {
    ConfigView {
        generate_readmes: left_on(settings.generate_readmes@),
        rustfmt: left_on(settings.rustfmt@),
        cargo_lock: left_on(settings.cargo_lock@),
        arborium: left_on(settings.arborium@),
        rust_version: left_on(settings.rust_version@),
        edition_2024: left_on(settings.edition_2024@),
        clippy: left_on(settings.clippy@),
        clippy_features: features_of(settings.clippy_features@),
        nextest: left_on(settings.nextest@),
        doc_tests: left_on(settings.doc_tests@),
        doc_test_features: features_of(settings.doc_test_features@),
        docs: left_on(settings.docs@),
        docs_features: features_of(settings.docs_features@),
        cargo_shear: left_on(settings.cargo_shear@),
        same_rust_version: left_on(settings.rust_version@),
    }
}

fn is_left_on(setting: &Setting) -> (r: bool)
    ensures
        r == left_on(setting@),
{
    match setting {
        Setting::Flag(flag) => *flag,
        _ => true,
    }
}

fn take_features(setting: Setting) -> (r: Option<Vec<String>>)
    ensures
        opt_texts(r) == features_of(setting@),
{
    match setting {
        Setting::Names(names) => Some(names),
        Setting::Flag(flag) => if flag {
            None
        } else {
            let none: Vec<String> = Vec::new();
            assert(texts(none@) =~= seq![]);
            Some(none)
        },
        Setting::Other => None,
    }
}

/// What the settings ask for.
pub fn configure(settings: CaptainSettings) -> (r: CaptainConfig)
    ensures
        r@ == configured(settings),
{
    CaptainConfig {
        generate_readmes: is_left_on(&settings.generate_readmes),
        rustfmt: is_left_on(&settings.rustfmt),
        cargo_lock: is_left_on(&settings.cargo_lock),
        arborium: is_left_on(&settings.arborium),
        rust_version: is_left_on(&settings.rust_version),
        edition_2024: is_left_on(&settings.edition_2024),
        clippy: is_left_on(&settings.clippy),
        clippy_features: take_features(settings.clippy_features),
        nextest: is_left_on(&settings.nextest),
        doc_tests: is_left_on(&settings.doc_tests),
        doc_test_features: take_features(settings.doc_test_features),
        docs: is_left_on(&settings.docs),
        docs_features: take_features(settings.docs_features),
        cargo_shear: is_left_on(&settings.cargo_shear),
        same_rust_version: is_left_on(&settings.rust_version),
    }
}

/// The texts among the nodes, in their order.
pub open spec fn only_texts(nodes: Seq<JsonNode>) -> Seq<Seq<char>>
    decreases nodes.len(),
{
    if nodes.len() == 0 {
        seq![]
    } else {
        let rest = only_texts(nodes.drop_last());
        match text_of(nodes.last()) {
            Some(text) => rest.push(text),
            None => rest,
        }
    }
}

/// The setting that a JSON value makes.
pub open spec fn setting_of(node: Option<JsonNode>) -> SettingView {
    match node {
        Some(JsonNode::Flag(flag)) => SettingView::Flag(flag),
        Some(JsonNode::List(nodes)) => SettingView::Names(only_texts(nodes)),
        _ => SettingView::Other,
    }
}

/// The setting under `key` in a section.
pub fn read_setting(section: &serde_json::Value, key: &str) -> (r: Setting)
    ensures
        r@ == setting_of(member_of(json_node(*section), key@)),
{
    let value = match member(section, key) {
        Some(value) => value,
        None => {
            return Setting::Other;
        },
    };
    if let Some(elements) = value.as_array() {
        let ghost nodes = elements@.map_values(|element: serde_json::Value| json_node(element));
        let mut names: Vec<String> = Vec::new();
        let mut i: usize = 0;
        assert(texts(names@) =~= only_texts(nodes.take(0)));
        while i < elements.len()
            invariant
                i <= elements.len(),
                nodes == elements@.map_values(|element: serde_json::Value| json_node(element)),
                texts(names@) == only_texts(nodes.take(i as int)),
            decreases elements.len() - i,
        {
            assert(nodes.take(i + 1).drop_last() =~= nodes.take(i as int));
            if let Some(text) = elements[i].as_str() {
                let ghost before = texts(names@);
                names.push(text.to_owned());
                assert(texts(names@) =~= before.push(text@));
            }
            i += 1;
        }
        assert(nodes.take(i as int) =~= nodes);
        return Setting::Names(names);
    }
    match value.as_bool() {
        Some(flag) => Setting::Flag(flag),
        None => Setting::Other,
    }
}

/// What a section in JSON asks for.
pub open spec fn section_config(section: JsonNode) -> ConfigView {
    ConfigView {
        generate_readmes: left_on(setting_of(member_of(section, "generate-readmes"@))),
        rustfmt: left_on(setting_of(member_of(section, "rustfmt"@))),
        cargo_lock: left_on(setting_of(member_of(section, "cargo-lock"@))),
        arborium: left_on(setting_of(member_of(section, "arborium"@))),
        rust_version: left_on(setting_of(member_of(section, "rust-version"@))),
        edition_2024: left_on(setting_of(member_of(section, "edition-2024"@))),
        clippy: left_on(setting_of(member_of(section, "clippy"@))),
        clippy_features: features_of(setting_of(member_of(section, "clippy-features"@))),
        nextest: left_on(setting_of(member_of(section, "nextest"@))),
        doc_tests: left_on(setting_of(member_of(section, "doc-tests"@))),
        doc_test_features: features_of(setting_of(member_of(section, "doc-test-features"@))),
        docs: left_on(setting_of(member_of(section, "docs"@))),
        docs_features: features_of(setting_of(member_of(section, "docs-features"@))),
        cargo_shear: left_on(setting_of(member_of(section, "cargo-shear"@))),
        same_rust_version: left_on(setting_of(member_of(section, "rust-version"@))),
    }
}

/// The section for captain: that of the root package's metadata, or else that of the workspace's.
pub open spec fn captain_section(package: Option<JsonNode>, workspace: JsonNode) -> Option<
    JsonNode,
> {
    match package {
        Some(package) => match member_of(package, "captain"@) {
            Some(section) => Some(section),
            None => member_of(workspace, "captain"@),
        },
        None => member_of(workspace, "captain"@),
    }
}

/// What the metadata of the root package, if there is one, and of the workspace ask for. The
/// package's section counts alone if there is one; without any section the defaults hold.
pub open spec fn metadata_config(package: Option<JsonNode>, workspace: JsonNode) -> ConfigView {
    match captain_section(package, workspace) {
        Some(section) => section_config(section),
        None => default_config(),
    }
}

fn read_metadata(
    package_metadata: Option<&serde_json::Value>,
    workspace_metadata: &serde_json::Value,
) -> (r: CaptainConfig)
    ensures
        r@ == metadata_config(
            match package_metadata {
                Some(package) => Some(json_node(*package)),
                None => None,
            },
            json_node(*workspace_metadata),
        ),
{
    let in_package = match package_metadata {
        Some(package) => member(package, "captain"),
        None => None,
    };
    let section = match in_package {
        Some(section) => section,
        None => match member(workspace_metadata, "captain") {
            Some(section) => section,
            None => {
                return CaptainConfig::default();
            },
        },
    };
    configure(
        CaptainSettings {
            generate_readmes: read_setting(section, "generate-readmes"),
            rustfmt: read_setting(section, "rustfmt"),
            cargo_lock: read_setting(section, "cargo-lock"),
            arborium: read_setting(section, "arborium"),
            rust_version: read_setting(section, "rust-version"),
            edition_2024: read_setting(section, "edition-2024"),
            clippy: read_setting(section, "clippy"),
            clippy_features: read_setting(section, "clippy-features"),
            nextest: read_setting(section, "nextest"),
            doc_tests: read_setting(section, "doc-tests"),
            doc_test_features: read_setting(section, "doc-test-features"),
            docs: read_setting(section, "docs"),
            docs_features: read_setting(section, "docs-features"),
            cargo_shear: read_setting(section, "cargo-shear"),
        },
    )
}

/// A configuration in which the option called `key` of what runs before a commit is set.
pub open spec fn commit_option_set(config: ConfigView, key: Seq<char>, on: bool) -> ConfigView {
    if key == "generate-readmes"@ {
        ConfigView { generate_readmes: on, ..config }
    } else if key == "rustfmt"@ {
        ConfigView { rustfmt: on, ..config }
    } else if key == "cargo-lock"@ {
        ConfigView { cargo_lock: on, ..config }
    } else if key == "arborium"@ {
        ConfigView { arborium: on, ..config }
    } else if key == "rust-version"@ {
        ConfigView { rust_version: on, same_rust_version: on, ..config }
    } else if key == "edition-2024"@ {
        ConfigView { edition_2024: on, ..config }
    } else {
        config
    }
}

/// A configuration in which the option called `key` of what runs before a push is set.
pub open spec fn push_option_set(config: ConfigView, key: Seq<char>, on: bool) -> ConfigView {
    if key == "clippy"@ {
        ConfigView { clippy: on, ..config }
    } else if key == "nextest"@ {
        ConfigView { nextest: on, ..config }
    } else if key == "doc-tests"@ {
        ConfigView { doc_tests: on, ..config }
    } else if key == "docs"@ {
        ConfigView { docs: on, ..config }
    } else if key == "cargo-shear"@ {
        ConfigView { cargo_shear: on, ..config }
    } else {
        config
    }
}

/// A configuration in which the node called `node` sets the option called `key`. An option belongs
/// to one node, and others cannot set it.
pub open spec fn option_set(
    config: ConfigView,
    node: Seq<char>,
    key: Seq<char>,
    on: bool,
) -> ConfigView {
    if node == "pre-commit"@ {
        commit_option_set(config, key, on)
    } else if node == "pre-push"@ {
        push_option_set(config, key, on)
    } else {
        config
    }
}

fn set_commit_option(config: &mut CaptainConfig, key: &str, on: bool)
    ensures
        final(config)@ == commit_option_set(old(config)@, key@, on),
{
    if same(key, "generate-readmes") {
        config.generate_readmes = on;
    } else if same(key, "rustfmt") {
        config.rustfmt = on;
    } else if same(key, "cargo-lock") {
        config.cargo_lock = on;
    } else if same(key, "arborium") {
        config.arborium = on;
    } else if same(key, "rust-version") {
        config.rust_version = on;
        config.same_rust_version = on;
    } else if same(key, "edition-2024") {
        config.edition_2024 = on;
    }
}

fn set_push_option(config: &mut CaptainConfig, key: &str, on: bool)
    ensures
        final(config)@ == push_option_set(old(config)@, key@, on),
{
    if same(key, "clippy") {
        config.clippy = on;
    } else if same(key, "nextest") {
        config.nextest = on;
    } else if same(key, "doc-tests") {
        config.doc_tests = on;
    } else if same(key, "docs") {
        config.docs = on;
    } else if same(key, "cargo-shear") {
        config.cargo_shear = on;
    }
}

fn set_option(config: &mut CaptainConfig, node: &str, key: &str, on: bool)
    ensures
        final(config)@ == option_set(old(config)@, node@, key@, on),
{
    if same(node, "pre-commit") {
        set_commit_option(config, key, on);
    } else if same(node, "pre-push") {
        set_push_option(config, key, on);
    }
}

/// A configuration after the first `n` words of the node called `node`: a property sets an option,
/// and the last that sets it counts.
pub open spec fn options_set(
    config: ConfigView,
    node: Seq<char>,
    words: Seq<WordView>,
    n: nat,
) -> ConfigView
    decreases n,
{
    if n == 0 {
        config
    } else {
        let before = options_set(config, node, words, (n - 1) as nat);
        match property_at(words, n - 1) {
            Some((key, on)) => option_set(before, node, key, on),
            None => before,
        }
    }
}

/// A configuration in which the node called `node`, within `pre-push`, names features.
pub open spec fn features_set(
    config: ConfigView,
    node: Seq<char>,
    features: Seq<Seq<char>>,
) -> ConfigView {
    if node == "clippy-features"@ {
        ConfigView { clippy_features: Some(features), ..config }
    } else if node == "doc-test-features"@ {
        ConfigView { doc_test_features: Some(features), ..config }
    } else if node == "docs-features"@ {
        ConfigView { docs_features: Some(features), ..config }
    } else {
        config
    }
}

/// A configuration after a node of these words, within nodes of the names `parents`: a node within
/// none sets options, one within `pre-push` names features.
pub open spec fn node_set(
    config: ConfigView,
    parents: Seq<Option<Seq<char>>>,
    words: Seq<WordView>,
) -> ConfigView {
    match node_name(words) {
        Some(node) => if parents.len() == 0 {
            options_set(config, node, words, words.len())
        } else if parents.len() == 1 && parents[0] == Some("pre-push"@) {
            features_set(config, node, arguments_in(words, words.len()))
        } else {
            config
        },
        None => config,
    }
}

fn set_by_node(config: &mut CaptainConfig, parents: &Vec<Option<String>>, words: &Vec<Word>)
    ensures
        final(config)@ == node_set(old(config)@, opt_names(parents@), word_views(words@)),
{
    let node = match read_node_name(words) {
        Some(node) => node,
        None => {
            return;
        },
    };
    let ghost base = config@;
    if parents.len() == 0 {
        let mut i: usize = 0;
        while i < words.len()
            invariant
                i <= words.len(),
                config@ == options_set(base, node@, word_views(words@), i as nat),
            decreases words.len() - i,
        {
            if let Some((key, on)) = read_property(words, i) {
                set_option(config, node, key, on);
            }
            i += 1;
        }
        return;
    }
    let in_push = match &parents[0] {
        Some(parent) => parents.len() == 1 && same(parent.as_str(), "pre-push"),
        None => false,
    };
    if in_push {
        if same(node, "clippy-features") {
            config.clippy_features = Some(arguments(words));
        } else if same(node, "doc-test-features") {
            config.doc_test_features = Some(arguments(words));
        } else if same(node, "docs-features") {
            config.docs_features = Some(arguments(words));
        }
    }
}

/// How far a configuration file is read.
pub struct Reading {
    /// The names of the nodes that are open; none for one that is taken out of the file.
    pub parents: Seq<Option<Seq<char>>>,
    /// The words of the node that is being read.
    pub words: Seq<WordView>,
    /// What is configured so far.
    pub config: ConfigView,
}

/// The names of nodes, as contracts speak of them.
pub open spec fn opt_names(names: Seq<Option<String>>) -> Seq<Option<Seq<char>>> {
    names.map_values(|name: Option<String>| opt_text(name))
}

/// After the end of a node.
pub open spec fn node_ended(reading: Reading) -> Reading {
    Reading {
        parents: reading.parents,
        words: seq![],
        config: node_set(reading.config, reading.parents, reading.words),
    }
}

/// After one more part of the file. A mark that takes something out of the file waits for it
/// beyond the end of the line.
pub open spec fn token_read(reading: Reading, token: TokenView) -> Reading {
    match token {
        TokenView::Word(word) => Reading { words: reading.words.push(word), ..reading },
        TokenView::End => if reading.words.len() > 0 && reading.words.last() == WordView::Dash {
            reading
        } else {
            node_ended(reading)
        },
        TokenView::Open => Reading {
            parents: reading.parents.push(block_name(reading.words)),
            ..node_ended(reading)
        },
        TokenView::Close => Reading {
            parents: if reading.parents.len() > 0 {
                reading.parents.drop_last()
            } else {
                reading.parents
            },
            ..node_ended(reading)
        },
    }
}

/// After all of a text that is still to be read.
pub open spec fn text_read(reading: Reading, text: Seq<char>) -> Reading
    decreases text.len(),
{
    if text.len() == 0 {
        node_ended(reading)
    } else {
        proof {
            token_fits(text);
        }
        let (token, len) = first_token(text);
        let rest = text.skip(len as int);
        match token {
            Some(token) => text_read(token_read(reading, token), rest),
            None => text_read(reading, rest),
        }
    }
}

/// The start of a configuration file.
pub open spec fn nothing_read(base: ConfigView) -> Reading {
    Reading { parents: seq![], words: seq![], config: base }
}

/// What the text of a configuration file makes of a configuration: what it says nothing about stays
/// as it is.
pub open spec fn file_config(text: Seq<char>, base: ConfigView) -> ConfigView {
    text_read(nothing_read(base), text).config
}

struct Reader {
    parents: Vec<Option<String>>,
    words: Vec<Word>,
    config: CaptainConfig,
}

impl View for Reader {
    type V = Reading;

    closed spec fn view(&self) -> Reading {
        Reading {
            parents: opt_names(self.parents@),
            words: word_views(self.words@),
            config: self.config@,
        }
    }
}

impl Reader {
    fn end_node(&mut self)
        ensures
            final(self)@ == node_ended(old(self)@),
    {
        set_by_node(&mut self.config, &self.parents, &self.words);
        self.words = Vec::new();
        assert(word_views(self.words@) =~= seq![]);
    }

    fn read_token(&mut self, token: Token)
        ensures
            final(self)@ == token_read(old(self)@, token@),
    {
        match token {
            Token::Word(word) => {
                self.words.push(word);
                assert(self@.words =~= old(self)@.words.push(word@));
            },
            Token::End => {
                if self.words.len() > 0 {
                    if let Word::Dash = &self.words[self.words.len() - 1] {
                        return;
                    }
                }
                self.end_node();
            },
            Token::Open => {
                let name = read_block_name(&self.words);
                self.end_node();
                self.parents.push(name);
                assert(self@.parents =~= old(self)@.parents.push(block_name(old(self)@.words)));
            },
            Token::Close => {
                self.end_node();
                let _ = self.parents.pop();
                assert(self@.parents =~= if old(self)@.parents.len() > 0 {
                    old(self)@.parents.drop_last()
                } else {
                    old(self)@.parents
                });
            },
        }
    }
}

/// What the text of a configuration file makes of a configuration.
pub fn configure_by_file(config: CaptainConfig, text: &str) -> (r: CaptainConfig)
    ensures
        r@ == file_config(text@, config@),
{
    let chars = to_chars(text);
    let ghost base = config@;
    let mut reader = Reader { parents: Vec::new(), words: Vec::new(), config };
    let mut at: usize = 0;
    proof {
        assert(opt_names(reader.parents@) =~= seq![]);
        assert(word_views(reader.words@) =~= seq![]);
        assert(chars@.skip(0) =~= chars@);
    }
    while at < chars.len()
        invariant
            at <= chars.len(),
            text_read(reader@, chars@.skip(at as int)).config == file_config(text@, base),
        decreases chars.len() - at,
    {
        let (token, end) = next_token(&chars, at);
        assert(chars@.skip(at as int).skip(end - at) =~= chars@.skip(end as int));
        if let Some(token) = token {
            reader.read_token(token);
        }
        at = end;
    }
    reader.end_node();
    reader.config
}

/// What captain is configured to do: what the metadata of the root package, if there is one, and of
/// the workspace ask for, but for what the configuration file, if there is one, says otherwise.
pub fn load_captain_config(
    package_metadata: Option<&serde_json::Value>,
    workspace_metadata: &serde_json::Value,
    file: Option<&str>,
) -> (r: CaptainConfig)
    ensures
        r@ == ({
            let base = metadata_config(
                match package_metadata {
                    Some(package) => Some(json_node(*package)),
                    None => None,
                },
                json_node(*workspace_metadata),
            );
            match file {
                Some(text) => file_config(text@, base),
                None => base,
            }
        }),
{
    let base = read_metadata(package_metadata, workspace_metadata);
    match file {
        Some(text) => configure_by_file(base, text),
        None => base,
    }
}

/// A section that sets nothing leaves everything on, with all features, as no section does.
pub proof fn options_default_to_on(section: JsonNode)
    requires
        forall|key: Seq<char>| #[trigger] member_of(section, key) is None,
    ensures
        section_config(section) == default_config(),
{
}

/// A section of the root package counts alone; the workspace's counts only where the package has
/// none.
pub proof fn package_section_comes_first(package: JsonNode, workspace: JsonNode)
    ensures
        member_of(package, "captain"@) is Some ==> captain_section(Some(package), workspace)
            == member_of(package, "captain"@),
        member_of(package, "captain"@) is None ==> captain_section(Some(package), workspace)
            == captain_section(None, workspace),
{
}

/// Whether a text is a word that needs no quotes.
pub open spec fn is_plain(word: Seq<char>) -> bool {
    word.len() > 0 && forall|i: int| 0 <= i < word.len() ==> !ends_word(#[trigger] word[i])
}

/// The keyword for a flag.
pub open spec fn flag_word(on: bool) -> Seq<char> {
    if on {
        "#true"@
    } else {
        "#false"@
    }
}

/// A plain word is read whole.
proof fn plain_word_is_read(reading: Reading, word: Seq<char>, rest: Seq<char>)
    requires
        is_plain(word),
        rest.len() > 0 ==> ends_word(rest[0]),
    ensures
        text_read(reading, word + rest) == text_read(
            token_read(reading, TokenView::Word(WordView::Bare(word))),
            rest,
        ),
{
    let text = word + rest;
    assert(!ends_word(word[0]));
    assert(text[0] == word[0]);
    assert(text.skip(1) =~= word.skip(1) + rest);
    word_is_whole(word.skip(1), rest);
    assert(text.take(word.len() as int) =~= word);
    assert(text.skip(word.len() as int) =~= rest);
}

/// A character that is a part by itself, or none, is read alone.
proof fn one_char_is_read(reading: Reading, c: char, rest: Seq<char>)
    requires
        c == ' ' || c == '\n' || c == '=' || c == '{' || c == '}',
    ensures
        text_read(reading, seq![c] + rest) == match first_token(seq![c] + rest).0 {
            Some(token) => text_read(token_read(reading, token), rest),
            None => text_read(reading, rest),
        },
        first_token(seq![c] + rest).0 == (if c == ' ' {
            None
        } else if c == '\n' {
            Some(TokenView::End)
        } else if c == '=' {
            Some(TokenView::Word(WordView::Equals))
        } else if c == '{' {
            Some(TokenView::Open)
        } else {
            Some(TokenView::Close)
        }),
{
    let text = seq![c] + rest;
    assert(text.skip(1) =~= rest);
}

/// A line that sets a property of a node to `#true` or `#false` sets that option of the node, and
/// nothing else.
pub proof fn property_sets_option(node: Seq<char>, key: Seq<char>, on: bool, base: ConfigView)
    requires
        is_plain(node),
        is_plain(key),
    ensures
        file_config(node + seq![' '] + key + seq!['='] + flag_word(on), base) == option_set(
            base,
            node,
            key,
            on,
        ),
{
    reveal_strlit("#true");
    reveal_strlit("#false");
    let flag = flag_word(on);
    assert(is_plain(flag));
    let none: Seq<char> = seq![];
    let after_key = seq!['='] + flag;
    let after_node = seq![' '] + (key + after_key);
    assert(node + seq![' '] + key + seq!['='] + flag =~= node + after_node);
    assert(flag =~= flag + none);
    let start = nothing_read(base);
    plain_word_is_read(start, node, after_node);
    let named = token_read(start, TokenView::Word(WordView::Bare(node)));
    one_char_is_read(named, ' ', key + after_key);
    plain_word_is_read(named, key, after_key);
    let keyed = token_read(named, TokenView::Word(WordView::Bare(key)));
    one_char_is_read(keyed, '=', flag);
    let equal = token_read(keyed, TokenView::Word(WordView::Equals));
    plain_word_is_read(equal, flag, none);
    let end = token_read(equal, TokenView::Word(WordView::Bare(flag)));
    let words = seq![
        WordView::Bare(node),
        WordView::Bare(key),
        WordView::Equals,
        WordView::Bare(flag),
    ];
    assert(end.words =~= words);
    reveal_with_fuel(options_set, 5);
    assert("#true"@.len() != "#false"@.len());
    assert(property_at(words, 1) == Some((key, on)));
}

/// A file that turns rustfmt off turns off nothing else.
pub proof fn rustfmt_is_turned_off()
    ensures
        file_config("pre-commit rustfmt=#false"@, default_config()) == (ConfigView {
            rustfmt: false,
            ..default_config()
        }),
{
    reveal_strlit("pre-commit rustfmt=#false");
    reveal_strlit("pre-commit");
    reveal_strlit("rustfmt");
    reveal_strlit("#false");
    reveal_strlit("generate-readmes");
    assert("pre-commit rustfmt=#false"@ =~= "pre-commit"@ + seq![' '] + "rustfmt"@ + seq!['=']
        + flag_word(false));
    assert("generate-readmes"@.len() != "rustfmt"@.len());
    property_sets_option("pre-commit"@, "rustfmt"@, false, default_config());
}

/// A comment up to the end of its line says nothing, and neither does an empty file.
pub proof fn comments_set_nothing(comment: Seq<char>, rest: Seq<char>, base: ConfigView)
    requires
        forall|i: int| 0 <= i < comment.len() ==> !ends_line(#[trigger] comment[i]),
    ensures
        file_config(seq!['/', '/'] + comment + seq!['\n'] + rest, base) == file_config(rest, base),
        file_config(seq![], base) == base,
{
    let after = seq!['\n'] + rest;
    let text = seq!['/', '/'] + comment + seq!['\n'] + rest;
    assert(text.skip(2) =~= comment + after);
    line_is_whole(comment, after);
    assert(text.skip(2 + comment.len() as int) =~= after);
    let start = nothing_read(base);
    assert(text_read(start, text) == text_read(start, after));
    one_char_is_read(start, '\n', rest);
    assert(node_ended(start) == start);
}

/// Texts in quotes, each with a space before it.
pub open spec fn quoted_list(features: Seq<Seq<char>>) -> Seq<char>
    decreases features.len(),
{
    if features.len() == 0 {
        seq![]
    } else {
        seq![' ', '"'] + features[0] + seq!['"'] + quoted_list(features.skip(1))
    }
}

/// Whether a text stands in quotes as it is.
pub open spec fn needs_no_escape(text: Seq<char>) -> bool {
    forall|i: int| 0 <= i < text.len() ==> #[trigger] text[i] != '"' && text[i] != '\\'
}

proof fn quotes_hold_text(text: Seq<char>, rest: Seq<char>)
    requires
        needs_no_escape(text),
    ensures
        quote_text(text + seq!['"'] + rest) == text,
        quote_len(text + seq!['"'] + rest) == text.len() + 1,
    decreases text.len(),
{
    let whole = text + seq!['"'] + rest;
    if text.len() > 0 {
        assert(whole.skip(1) =~= text.skip(1) + seq!['"'] + rest);
        assert(whole[0] == text[0]);
        quotes_hold_text(text.skip(1), rest);
        assert(seq![text[0]] + text.skip(1) =~= text);
    } else {
        assert(whole[0] == '"');
        assert(text =~= seq![]);
    }
}

proof fn quoted_list_is_read(reading: Reading, features: Seq<Seq<char>>, rest: Seq<char>)
    requires
        forall|i: int| 0 <= i < features.len() ==> needs_no_escape(#[trigger] features[i]),
    ensures
        text_read(reading, quoted_list(features) + rest) == text_read(
            Reading {
                words: reading.words + features.map_values(
                    |feature: Seq<char>| WordView::Quoted(feature),
                ),
                ..reading
            },
            rest,
        ),
    decreases features.len(),
{
    let as_words = |feature: Seq<char>| WordView::Quoted(feature);
    if features.len() == 0 {
        assert(quoted_list(features) + rest =~= rest);
        assert(reading.words + features.map_values(as_words) =~= reading.words);
    } else {
        let first = features[0];
        let others = features.skip(1);
        let after = quoted_list(others) + rest;
        let quoted = seq!['"'] + (first + seq!['"'] + after);
        assert(quoted_list(features) + rest =~= seq![' '] + quoted);
        one_char_is_read(reading, ' ', quoted);
        assert(needs_no_escape(first));
        quotes_hold_text(first, after);
        assert(quoted.skip(1) =~= first + seq!['"'] + after);
        assert(quoted.skip(2 + first.len() as int) =~= after);
        let more = token_read(reading, TokenView::Word(WordView::Quoted(first)));
        assert(text_read(reading, quoted) == text_read(more, after));
        assert forall|i: int| 0 <= i < others.len() implies needs_no_escape(
            #[trigger] others[i],
        ) by {
            assert(others[i] == features[i + 1]);
        }
        quoted_list_is_read(more, others, rest);
        assert(more.words + others.map_values(as_words) =~= reading.words + features.map_values(
            as_words,
        ));
    }
}

proof fn quoted_words_are_arguments(node: Seq<char>, features: Seq<Seq<char>>, n: nat)
    requires
        n <= features.len(),
    ensures
        arguments_in(
            seq![WordView::Bare(node)] + features.map_values(
                |feature: Seq<char>| WordView::Quoted(feature),
            ),
            n + 1,
        ) == features.take(n as int),
    decreases n,
{
    let words = seq![WordView::Bare(node)] + features.map_values(
        |feature: Seq<char>| WordView::Quoted(feature),
    );
    reveal_with_fuel(arguments_in, 2);
    if n == 0 {
        assert(features.take(0) =~= seq![]);
    } else {
        quoted_words_are_arguments(node, features, (n - 1) as nat);
        assert(words[n as int] == WordView::Quoted(features[n - 1]));
        assert(features.take(n - 1).push(features[n - 1]) =~= features.take(n as int));
    }
}

/// Within `pre-push`, a node with the names of features in quotes names those features.
pub proof fn features_are_named(node: Seq<char>, features: Seq<Seq<char>>, base: ConfigView)
    requires
        is_plain(node),
        forall|i: int| 0 <= i < features.len() ==> needs_no_escape(#[trigger] features[i]),
    ensures
        file_config(
            "pre-push"@ + seq!['{'] + node + quoted_list(features) + seq!['}'],
            base,
        ) == features_set(base, node, features),
{
    reveal_strlit("pre-push");
    let parent = "pre-push"@;
    let none: Seq<char> = seq![];
    let after_list = seq!['}'] + none;
    let after_node = quoted_list(features) + after_list;
    let after_parent = seq!['{'] + (node + after_node);
    assert(parent + seq!['{'] + node + quoted_list(features) + seq!['}'] =~= parent + after_parent);
    assert(is_plain(parent));
    let start = nothing_read(base);
    plain_word_is_read(start, parent, after_parent);
    let named = token_read(start, TokenView::Word(WordView::Bare(parent)));
    one_char_is_read(named, '{', node + after_node);
    let opened = token_read(named, TokenView::Open);
    assert(named.words =~= seq![WordView::Bare(parent)]);
    reveal_with_fuel(options_set, 2);
    assert(opened.config == base);
    assert(opened.parents =~= seq![Some(parent)]);
    plain_word_is_read(opened, node, after_node);
    let inner = token_read(opened, TokenView::Word(WordView::Bare(node)));
    quoted_list_is_read(inner, features, after_list);
    let words = seq![WordView::Bare(node)] + features.map_values(
        |feature: Seq<char>| WordView::Quoted(feature),
    );
    let listed = Reading { words, ..inner };
    assert(inner.words + features.map_values(|feature: Seq<char>| WordView::Quoted(feature))
        =~= words);
    one_char_is_read(listed, '}', none);
    quoted_words_are_arguments(node, features, features.len());
    assert(features.take(features.len() as int) =~= features);
}

/// An option is off exactly if the section sets it to `false`.
pub proof fn only_false_turns_off(section: JsonNode)
    ensures
        ({
            let config = section_config(section);
            &&& config.generate_readmes <==> member_of(section, "generate-readmes"@) != Some(
                JsonNode::Flag(false),
            )
            &&& config.rustfmt <==> member_of(section, "rustfmt"@) != Some(JsonNode::Flag(false))
            &&& config.cargo_lock <==> member_of(section, "cargo-lock"@) != Some(
                JsonNode::Flag(false),
            )
            &&& config.arborium <==> member_of(section, "arborium"@) != Some(JsonNode::Flag(false))
            &&& config.rust_version <==> member_of(section, "rust-version"@) != Some(
                JsonNode::Flag(false),
            )
            &&& config.edition_2024 <==> member_of(section, "edition-2024"@) != Some(
                JsonNode::Flag(false),
            )
            &&& config.clippy <==> member_of(section, "clippy"@) != Some(JsonNode::Flag(false))
            &&& config.nextest <==> member_of(section, "nextest"@) != Some(JsonNode::Flag(false))
            &&& config.doc_tests <==> member_of(section, "doc-tests"@) != Some(
                JsonNode::Flag(false),
            )
            &&& config.docs <==> member_of(section, "docs"@) != Some(JsonNode::Flag(false))
            &&& config.cargo_shear <==> member_of(section, "cargo-shear"@) != Some(
                JsonNode::Flag(false),
            )
            &&& config.same_rust_version <==> member_of(section, "rust-version"@) != Some(
                JsonNode::Flag(false),
            )
        }),
{
}

/// Features are those of a list, as far as it holds texts, or none for `false`; anything else says
/// nothing about them.
pub proof fn lists_choose_features(node: Option<JsonNode>, names: Seq<Seq<char>>)
    ensures
        node == Some(JsonNode::Flag(false)) ==> features_of(setting_of(node)) == Some(
            Seq::<Seq<char>>::empty(),
        ),
        node == Some(
            JsonNode::List(names.map_values(|name: Seq<char>| JsonNode::Text(name))),
        ) ==> features_of(setting_of(node)) == Some(names),
        node is None || node == Some(JsonNode::Flag(true)) || node->0 is Text || node->0 is Object
            || node->0 is Other ==> features_of(setting_of(node)) is None,
{
    texts_are_kept(names);
}

proof fn texts_are_kept(names: Seq<Seq<char>>)
    ensures
        only_texts(names.map_values(|name: Seq<char>| JsonNode::Text(name))) == names,
    decreases names.len(),
{
    let nodes = names.map_values(|name: Seq<char>| JsonNode::Text(name));
    if names.len() > 0 {
        texts_are_kept(names.drop_last());
        assert(nodes.drop_last() =~= names.drop_last().map_values(
            |name: Seq<char>| JsonNode::Text(name),
        ));
        assert(names.drop_last().push(names.last()) =~= names);
    } else {
        assert(only_texts(nodes) =~= names);
    }
}

/// The texts of two parts of a list are those of the first and then those of the second, and what is
/// no text is passed over.
pub proof fn lists_are_read_one_by_one(a: Seq<JsonNode>, b: Seq<JsonNode>, node: JsonNode)
    ensures
        only_texts(a + b) == only_texts(a) + only_texts(b),
        match node {
            JsonNode::Text(text) => only_texts(seq![node]) == seq![text],
            _ => only_texts(seq![node]).len() == 0,
        },
    decreases b.len(),
{
    let one = seq![node];
    assert(one.drop_last() =~= seq![]);
    assert(only_texts(one.drop_last()) =~= seq![]);
    match node {
        JsonNode::Text(text) => {
            assert(only_texts(one) =~= seq![text]);
        },
        _ => {},
    }
    if b.len() == 0 {
        assert(a + b =~= a);
        assert(only_texts(a) + only_texts(b) =~= only_texts(a));
    } else {
        assert((a + b).drop_last() =~= a + b.drop_last());
        lists_are_read_one_by_one(a, b.drop_last(), node);
        assert(only_texts(a + b) =~= only_texts(a) + only_texts(b));
    }
}

/// The features of each check are those under the key for it.
pub proof fn each_check_has_its_features(section: JsonNode)
    ensures
        section_config(section).clippy_features == features_of(
            setting_of(member_of(section, "clippy-features"@)),
        ),
        section_config(section).doc_test_features == features_of(
            setting_of(member_of(section, "doc-test-features"@)),
        ),
        section_config(section).docs_features == features_of(
            setting_of(member_of(section, "docs-features"@)),
        ),
{
}

/// What the metadata ask for is what the section for captain does, and without one the defaults
/// hold; the section is that under `captain`.
pub proof fn section_decides(package: Option<JsonNode>, workspace: JsonNode, section: JsonNode)
    ensures
        package is None && member_of(workspace, "captain"@) == Some(section) ==> metadata_config(
            package,
            workspace,
        ) == section_config(section),
        (package matches Some(node) && member_of(node, "captain"@) == Some(section))
            ==> metadata_config(package, workspace) == section_config(section),
        (package is None || member_of(package->0, "captain"@) is None) && member_of(
            workspace,
            "captain"@,
        ) is None ==> metadata_config(package, workspace) == default_config(),
{
}

/// By default everything is on, with all features.
pub proof fn everything_is_on_by_default()
    ensures
        ({
            let config = default_config();
            &&& config.generate_readmes && config.rustfmt && config.cargo_lock && config.arborium
            &&& config.rust_version && config.edition_2024 && config.same_rust_version
            &&& config.clippy && config.nextest && config.doc_tests && config.docs
            &&& config.cargo_shear
            &&& config.clippy_features is None
            &&& config.doc_test_features is None
            &&& config.docs_features is None
        }),
{
}

/// Within `pre-commit`, each option of what runs before a commit sets itself and nothing else.
pub proof fn commit_options_set_themselves(config: ConfigView, on: bool)
    ensures
        option_set(config, "pre-commit"@, "generate-readmes"@, on) == (ConfigView {
            generate_readmes: on,
            ..config
        }),
        option_set(config, "pre-commit"@, "rustfmt"@, on) == (ConfigView { rustfmt: on, ..config }),
        option_set(config, "pre-commit"@, "cargo-lock"@, on) == (ConfigView {
            cargo_lock: on,
            ..config
        }),
        option_set(config, "pre-commit"@, "arborium"@, on) == (ConfigView {
            arborium: on,
            ..config
        }),
        option_set(config, "pre-commit"@, "rust-version"@, on) == (ConfigView {
            rust_version: on,
            same_rust_version: on,
            ..config
        }),
        option_set(config, "pre-commit"@, "edition-2024"@, on) == (ConfigView {
            edition_2024: on,
            ..config
        }),
{
    reveal_strlit("generate-readmes");
    reveal_strlit("rustfmt");
    reveal_strlit("cargo-lock");
    reveal_strlit("arborium");
    reveal_strlit("rust-version");
    reveal_strlit("edition-2024");
    reveal_strlit("clippy");
    reveal_strlit("nextest");
    reveal_strlit("doc-tests");
    reveal_strlit("docs");
    reveal_strlit("cargo-shear");
    assert("generate-readmes"@.len() == 16 && "rustfmt"@.len() == 7 && "cargo-lock"@.len() == 10
        && "arborium"@.len() == 8 && "rust-version"@.len() == 12 && "edition-2024"@.len() == 12
        && "clippy"@.len() == 6 && "nextest"@.len() == 7 && "doc-tests"@.len() == 9
        && "docs"@.len() == 4 && "cargo-shear"@.len() == 11);
    assert("cargo-lock"@[0] == 'c' && "cargo-lock"@.len() == 10);
    assert("rust-version"@[0] == 'r' && "edition-2024"@[0] == 'e');
}

/// Within `pre-push`, each option of what runs before a push sets itself and nothing else.
pub proof fn push_options_set_themselves(config: ConfigView, on: bool)
    ensures
        option_set(config, "pre-push"@, "clippy"@, on) == (ConfigView { clippy: on, ..config }),
        option_set(config, "pre-push"@, "nextest"@, on) == (ConfigView { nextest: on, ..config }),
        option_set(config, "pre-push"@, "doc-tests"@, on) == (ConfigView {
            doc_tests: on,
            ..config
        }),
        option_set(config, "pre-push"@, "docs"@, on) == (ConfigView { docs: on, ..config }),
        option_set(config, "pre-push"@, "cargo-shear"@, on) == (ConfigView {
            cargo_shear: on,
            ..config
        }),
{
    reveal_strlit("pre-commit");
    reveal_strlit("pre-push");
    reveal_strlit("generate-readmes");
    reveal_strlit("rustfmt");
    reveal_strlit("cargo-lock");
    reveal_strlit("arborium");
    reveal_strlit("rust-version");
    reveal_strlit("edition-2024");
    reveal_strlit("clippy");
    reveal_strlit("nextest");
    reveal_strlit("doc-tests");
    reveal_strlit("docs");
    reveal_strlit("cargo-shear");
    assert("generate-readmes"@.len() == 16 && "rustfmt"@.len() == 7 && "cargo-lock"@.len() == 10
        && "arborium"@.len() == 8 && "rust-version"@.len() == 12 && "edition-2024"@.len() == 12
        && "clippy"@.len() == 6 && "nextest"@.len() == 7 && "doc-tests"@.len() == 9
        && "docs"@.len() == 4 && "cargo-shear"@.len() == 11);
    assert("pre-commit"@.len() != "pre-push"@.len());
}

/// Other nodes set no option, and no other key does within the two that set some.
pub proof fn other_words_set_nothing(
    config: ConfigView,
    node: Seq<char>,
    key: Seq<char>,
    on: bool,
)
    ensures
        node != "pre-commit"@ && node != "pre-push"@ ==> option_set(config, node, key, on) == config,
        node == "pre-commit"@ && ({
            &&& key != "generate-readmes"@
            &&& key != "rustfmt"@
            &&& key != "cargo-lock"@
            &&& key != "arborium"@
            &&& key != "rust-version"@
            &&& key != "edition-2024"@
        }) ==> option_set(config, node, key, on) == config,
        node == "pre-push"@ && ({
            &&& key != "clippy"@
            &&& key != "nextest"@
            &&& key != "doc-tests"@
            &&& key != "docs"@
            &&& key != "cargo-shear"@
        }) ==> option_set(config, node, key, on) == config,
{
    reveal_strlit("pre-commit");
    reveal_strlit("pre-push");
    assert("pre-commit"@.len() != "pre-push"@.len());
}

/// Each list of features in a file sets itself and nothing else, and a node of another name names
/// none.
pub proof fn feature_lists_set_themselves(
    config: ConfigView,
    node: Seq<char>,
    features: Seq<Seq<char>>,
)
    ensures
        features_set(config, "clippy-features"@, features) == (ConfigView {
            clippy_features: Some(features),
            ..config
        }),
        features_set(config, "doc-test-features"@, features) == (ConfigView {
            doc_test_features: Some(features),
            ..config
        }),
        features_set(config, "docs-features"@, features) == (ConfigView {
            docs_features: Some(features),
            ..config
        }),
        node != "clippy-features"@ && node != "doc-test-features"@ && node != "docs-features"@
            ==> features_set(config, node, features) == config,
{
    reveal_strlit("clippy-features");
    reveal_strlit("doc-test-features");
    reveal_strlit("docs-features");
    assert("clippy-features"@.len() == 15 && "doc-test-features"@.len() == 17
        && "docs-features"@.len() == 13);
}

/// Properties of a node as they are written, each with a space before it.
pub open spec fn written_properties(properties: Seq<(Seq<char>, bool)>) -> Seq<char>
    decreases properties.len(),
{
    if properties.len() == 0 {
        seq![]
    } else {
        seq![' '] + properties[0].0 + seq!['='] + flag_word(properties[0].1) + written_properties(
            properties.skip(1),
        )
    }
}

/// The words of properties.
pub open spec fn property_words(properties: Seq<(Seq<char>, bool)>) -> Seq<WordView>
    decreases properties.len(),
{
    if properties.len() == 0 {
        seq![]
    } else {
        seq![
            WordView::Bare(properties[0].0),
            WordView::Equals,
            WordView::Bare(flag_word(properties[0].1)),
        ] + property_words(properties.skip(1))
    }
}

/// The configuration after properties of a node, each in turn.
pub open spec fn after_properties(
    config: ConfigView,
    node: Seq<char>,
    properties: Seq<(Seq<char>, bool)>,
) -> ConfigView
    decreases properties.len(),
{
    if properties.len() == 0 {
        config
    } else {
        after_properties(
            option_set(config, node, properties[0].0, properties[0].1),
            node,
            properties.skip(1),
        )
    }
}

/// Whether a flag's keyword is a plain word.
proof fn flags_are_plain(on: bool)
    ensures
        is_plain(flag_word(on)),
{
    reveal_strlit("#true");
    reveal_strlit("#false");
}

proof fn one_property_is_read(reading: Reading, key: Seq<char>, on: bool, after: Seq<char>)
    requires
        is_plain(key),
        after.len() > 0 ==> ends_word(after[0]),
    ensures
        text_read(reading, seq![' '] + (key + (seq!['='] + (flag_word(on) + after)))) == text_read(
            Reading {
                words: reading.words + seq![
                    WordView::Bare(key),
                    WordView::Equals,
                    WordView::Bare(flag_word(on)),
                ],
                ..reading
            },
            after,
        ),
{
    let flag = flag_word(on);
    flags_are_plain(on);
    let after_key = seq!['='] + (flag + after);
    one_char_is_read(reading, ' ', key + after_key);
    plain_word_is_read(reading, key, after_key);
    let keyed = token_read(reading, TokenView::Word(WordView::Bare(key)));
    one_char_is_read(keyed, '=', flag + after);
    let equal = token_read(keyed, TokenView::Word(WordView::Equals));
    plain_word_is_read(equal, flag, after);
    let more = token_read(equal, TokenView::Word(WordView::Bare(flag)));
    assert(more.words =~= reading.words + seq![
        WordView::Bare(key),
        WordView::Equals,
        WordView::Bare(flag),
    ]);
}

proof fn properties_start_with_space(properties: Seq<(Seq<char>, bool)>, rest: Seq<char>)
    requires
        rest.len() > 0 ==> ends_word(rest[0]),
    ensures
        (written_properties(properties) + rest).len() > 0 ==> ends_word(
            (written_properties(properties) + rest)[0],
        ),
{
    if properties.len() > 0 {
        assert((written_properties(properties) + rest)[0] == ' ');
    } else {
        assert(written_properties(properties) + rest =~= rest);
    }
}

proof fn properties_are_read(
    reading: Reading,
    properties: Seq<(Seq<char>, bool)>,
    rest: Seq<char>,
)
    requires
        forall|i: int| 0 <= i < properties.len() ==> is_plain((#[trigger] properties[i]).0),
        rest.len() > 0 ==> ends_word(rest[0]),
    ensures
        text_read(reading, written_properties(properties) + rest) == text_read(
            Reading { words: reading.words + property_words(properties), ..reading },
            rest,
        ),
    decreases properties.len(),
{
    if properties.len() == 0 {
        assert(written_properties(properties) + rest =~= rest);
        assert(reading.words + property_words(properties) =~= reading.words);
    } else {
        let (key, on) = properties[0];
        let others = properties.skip(1);
        let after = written_properties(others) + rest;
        let three = seq![WordView::Bare(key), WordView::Equals, WordView::Bare(flag_word(on))];
        assert(is_plain(properties[0].0));
        properties_start_with_space(others, rest);
        assert(written_properties(properties) + rest =~= seq![' '] + (key + (seq!['='] + (flag_word(
            on,
        ) + after))));
        one_property_is_read(reading, key, on, after);
        let more = Reading { words: reading.words + three, ..reading };
        assert forall|i: int| 0 <= i < others.len() implies is_plain((#[trigger] others[i]).0) by {
            assert(others[i] == properties[i + 1]);
        }
        properties_are_read(more, others, rest);
        assert(more.words + property_words(others) =~= reading.words + property_words(properties));
    }
}

/// The words of some properties after others set what both set, in turn.
proof fn properties_set_options(
    config: ConfigView,
    node: Seq<char>,
    before: Seq<WordView>,
    properties: Seq<(Seq<char>, bool)>,
)
    requires
        before.len() > 0,
        before.last() != WordView::Dash,
        before.last() != WordView::Equals,
    ensures
        options_set(
            config,
            node,
            before + property_words(properties),
            (before + property_words(properties)).len(),
        ) == after_properties(
            options_set(config, node, before + property_words(properties), before.len()),
            node,
            properties,
        ),
    decreases properties.len(),
{
    let words = before + property_words(properties);
    if properties.len() > 0 {
        reveal_strlit("#true");
        reveal_strlit("#false");
        assert("#true"@.len() != "#false"@.len());
        let (key, on) = properties[0];
        let n = before.len();
        let at = n as int;
        let three = seq![WordView::Bare(key), WordView::Equals, WordView::Bare(flag_word(on))];
        let others = properties.skip(1);
        let longer = before + three;
        assert(words =~= longer + property_words(others));
        assert(longer.last() == WordView::Bare(flag_word(on)));
        properties_set_options(config, node, longer, others);
        assert(words[at] == WordView::Bare(key));
        assert(words[at + 1] == WordView::Equals);
        assert(words[at + 2] == WordView::Bare(flag_word(on)));
        assert(words[at - 1] == before.last());
        assert(property_at(words, at) == Some((key, on)));
        assert(property_at(words, at + 1) is None);
        if others.len() > 0 {
            assert(words[at + 3] == property_words(others)[0]);
            assert(words[at + 3] == WordView::Bare(others[0].0));
        }
        assert(property_at(words, at + 2) is None);
        reveal_with_fuel(options_set, 4);
        let start = options_set(config, node, words, n);
        assert(options_set(config, node, words, n + 1) == option_set(start, node, key, on));
        assert(options_set(config, node, words, n + 2) == option_set(start, node, key, on));
        assert(options_set(config, node, words, n + 3) == option_set(start, node, key, on));
    } else {
        assert(words =~= before);
    }
}

/// A line of a node and its properties sets each of the options in turn, and what follows in the
/// file is read as if it stood alone.
pub proof fn lines_set_options_in_turn(
    node: Seq<char>,
    properties: Seq<(Seq<char>, bool)>,
    rest: Seq<char>,
    base: ConfigView,
)
    requires
        is_plain(node),
        forall|i: int| 0 <= i < properties.len() ==> is_plain((#[trigger] properties[i]).0),
    ensures
        file_config(node + written_properties(properties) + seq!['\n'] + rest, base) == file_config(
            rest,
            after_properties(base, node, properties),
        ),
{
    let feed = seq!['\n'] + rest;
    let after_node = written_properties(properties) + feed;
    assert(node + written_properties(properties) + seq!['\n'] + rest =~= node + after_node);
    properties_start_with_space(properties, feed);
    let start = nothing_read(base);
    plain_word_is_read(start, node, after_node);
    let named = token_read(start, TokenView::Word(WordView::Bare(node)));
    assert(named.words =~= seq![WordView::Bare(node)]);
    properties_are_read(named, properties, feed);
    let words = seq![WordView::Bare(node)] + property_words(properties);
    let read = Reading { words, ..named };
    one_char_is_read(read, '\n', rest);
    properties_set_options(base, node, seq![WordView::Bare(node)], properties);
    reveal_with_fuel(options_set, 2);
    assert(property_at(words, 0) is None);
    words_end_in_name(node, properties);
    assert(token_read(read, TokenView::End) == nothing_read(
        after_properties(base, node, properties),
    ));
}

proof fn words_end_in_name(node: Seq<char>, properties: Seq<(Seq<char>, bool)>)
    ensures
        (seq![WordView::Bare(node)] + property_words(properties)).last() is Bare,
    decreases properties.len(),
{
    if properties.len() > 0 {
        words_end_in_name(flag_word(properties[0].1), properties.skip(1));
        let inner = seq![WordView::Bare(flag_word(properties[0].1))] + property_words(
            properties.skip(1),
        );
        let all = seq![WordView::Bare(node)] + property_words(properties);
        assert(all.last() == inner.last());
    }
}

/// A block of features within `pre-push` names each list in turn, and what follows in the file is
/// read as if it stood alone.
pub proof fn blocks_name_features_in_turn(
    node: Seq<char>,
    features: Seq<Seq<char>>,
    rest: Seq<char>,
    base: ConfigView,
)
    requires
        is_plain(node),
        forall|i: int| 0 <= i < features.len() ==> needs_no_escape(#[trigger] features[i]),
    ensures
        file_config(
            "pre-push"@ + seq!['{'] + node + quoted_list(features) + seq!['}'] + rest,
            base,
        ) == file_config(rest, features_set(base, node, features)),
{
    reveal_strlit("pre-push");
    let parent = "pre-push"@;
    let after_list = seq!['}'] + rest;
    let after_node = quoted_list(features) + after_list;
    let after_parent = seq!['{'] + (node + after_node);
    assert(parent + seq!['{'] + node + quoted_list(features) + seq!['}'] + rest =~= parent
        + after_parent);
    assert(is_plain(parent));
    let start = nothing_read(base);
    plain_word_is_read(start, parent, after_parent);
    let named = token_read(start, TokenView::Word(WordView::Bare(parent)));
    one_char_is_read(named, '{', node + after_node);
    let opened = token_read(named, TokenView::Open);
    assert(named.words =~= seq![WordView::Bare(parent)]);
    reveal_with_fuel(options_set, 2);
    assert(opened.config == base);
    assert(opened.parents =~= seq![Some(parent)]);
    plain_word_is_read(opened, node, after_node);
    let inner = token_read(opened, TokenView::Word(WordView::Bare(node)));
    quoted_list_is_read(inner, features, after_list);
    let words = seq![WordView::Bare(node)] + features.map_values(
        |feature: Seq<char>| WordView::Quoted(feature),
    );
    let listed = Reading { words, ..inner };
    assert(inner.words + features.map_values(|feature: Seq<char>| WordView::Quoted(feature))
        =~= words);
    one_char_is_read(listed, '}', rest);
    quoted_words_are_arguments(node, features, features.len());
    assert(features.take(features.len() as int) =~= features);
    let closed = token_read(listed, TokenView::Close);
    assert(closed.parents =~= seq![]);
    assert(closed == nothing_read(features_set(base, node, features)));
}

/// Settings leave an option on unless they are `false`, each its own, and name the features of each
/// check.
pub proof fn settings_decide(settings: CaptainSettings)
    ensures
        ({
            let config = configured(settings);
            let on = |setting: Setting| setting@ != SettingView::Flag(false);
            &&& config.generate_readmes == on(settings.generate_readmes)
            &&& config.rustfmt == on(settings.rustfmt)
            &&& config.cargo_lock == on(settings.cargo_lock)
            &&& config.arborium == on(settings.arborium)
            &&& config.rust_version == on(settings.rust_version)
            &&& config.same_rust_version == on(settings.rust_version)
            &&& config.edition_2024 == on(settings.edition_2024)
            &&& config.clippy == on(settings.clippy)
            &&& config.nextest == on(settings.nextest)
            &&& config.doc_tests == on(settings.doc_tests)
            &&& config.docs == on(settings.docs)
            &&& config.cargo_shear == on(settings.cargo_shear)
            &&& config.clippy_features == features_of(settings.clippy_features@)
            &&& config.doc_test_features == features_of(settings.doc_test_features@)
            &&& config.docs_features == features_of(settings.docs_features@)
        }),
{
}

/// A semicolon ends a node as the end of a line does.
pub proof fn semicolons_end_nodes(reading: Reading, rest: Seq<char>)
    ensures
        text_read(reading, seq![';'] + rest) == text_read(reading, seq!['\n'] + rest),
{
    let text = seq![';'] + rest;
    let line = seq!['\n'] + rest;
    assert(text.skip(1) =~= rest);
    assert(line.skip(1) =~= rest);
}

/// A comment between `/*` and `*/` is passed over wherever it stands.
pub proof fn block_comments_are_passed_over(
    reading: Reading,
    comment: Seq<char>,
    rest: Seq<char>,
)
    requires
        forall|i: int| 0 <= i < comment.len() ==> #[trigger] comment[i] != '*' && comment[i] != '/',
    ensures
        text_read(reading, seq!['/', '*'] + comment + seq!['*', '/'] + rest) == text_read(
            reading,
            rest,
        ),
{
    let text = seq!['/', '*'] + comment + seq!['*', '/'] + rest;
    comment_is_whole(comment, rest);
    assert(text.skip(2) =~= comment + seq!['*', '/'] + rest);
    assert(text.skip(4 + comment.len() as int) =~= rest);
}

/// A property after `/-` sets nothing, and a node after it is not read.
pub proof fn dashed_words_set_nothing(
    config: ConfigView,
    node: Seq<char>,
    key: Seq<char>,
    on: bool,
    words: Seq<WordView>,
    parents: Seq<Option<Seq<char>>>,
)
    ensures
        node_set(
            config,
            seq![],
            seq![
                WordView::Bare(node),
                WordView::Dash,
                WordView::Bare(key),
                WordView::Equals,
                WordView::Bare(flag_word(on)),
            ],
        ) == config,
        words.len() > 0 && words[0] == WordView::Dash ==> node_set(config, parents, words) == config,
        words.len() > 0 && words[0] == WordView::Dash ==> block_name(words) is None,
        first_token(seq!['/', '-'] + key) == (Some(TokenView::Word(WordView::Dash)), 2nat),
{
    let dashed = seq![
        WordView::Bare(node),
        WordView::Dash,
        WordView::Bare(key),
        WordView::Equals,
        WordView::Bare(flag_word(on)),
    ];
    reveal_with_fuel(options_set, 6);
    assert(property_at(dashed, 0) is None);
    assert(property_at(dashed, 1) is None);
    assert(property_at(dashed, 2) is None);
    assert(property_at(dashed, 3) is None);
    assert(property_at(dashed, 4) is None);
}

}
