//! Which pre-push checks are left out, on request or by configuration.

use vstd::prelude::*;

use crate::config::{CaptainConfig, ConfigView};
use crate::size::{decimal, decimal_of, digit};
use crate::text::{join, joined, opt_text, texts, to_chars};

verus! {

broadcast use vstd::string::group_string_axioms;

/// Whether `c` is a decimal digit.
pub open spec fn is_digit(c: char) -> bool {
    '0' <= c && c <= '9'
}

/// The number that decimal digits write.
pub open spec fn number_of(digits: Seq<char>) -> nat
    decreases digits.len(),
{
    if digits.len() == 0 {
        0
    } else {
        number_of(digits.drop_last()) * 10 + (digits.last() as u32 - '0' as u32) as nat
    }
}

/// The digits of a number that may have a plus sign before it.
pub open spec fn unsigned(text: Seq<char>) -> Seq<char> {
    if text.len() > 0 && text[0] == '+' {
        text.skip(1)
    } else {
        text
    }
}

/// The number up to 255 that a text writes; none if it writes none.
pub open spec fn byte_number(text: Seq<char>) -> Option<u8> {
    let digits = unsigned(text);
    if digits.len() > 0 && (forall|i: int| 0 <= i < digits.len() ==> is_digit(#[trigger] digits[i]))
        && number_of(digits) <= u8::MAX {
        Some(number_of(digits) as u8)
    } else {
        None
    }
}

/// The level that a request for mercy asks for: its number, or one if it is no number.
pub open spec fn mercy_level_of(request: Seq<char>) -> u8 {
    match byte_number(request) {
        Some(level) => level,
        None => 1,
    }
}

/// More digits never write a smaller number.
proof fn number_grows(digits: Seq<char>, n: int)
    requires
        0 <= n <= digits.len(),
        forall|i: int| 0 <= i < digits.len() ==> is_digit(#[trigger] digits[i]),
    ensures
        number_of(digits.take(n)) <= number_of(digits),
    decreases digits.len(),
{
    if n == digits.len() {
        assert(digits.take(n) =~= digits);
    } else {
        assert(digits.drop_last().take(n) =~= digits.take(n));
        number_grows(digits.drop_last(), n);
    }
}

/// The number up to 255 that a text writes.
pub fn parse_byte(text: &str) -> (r: Option<u8>)
    ensures
        r == byte_number(text@),
{
    let chars = to_chars(text);
    let start: usize = if chars.len() > 0 && chars[0] == '+' {
        1
    } else {
        0
    };
    let ghost digits = unsigned(text@);
    assert(chars@.skip(start as int) =~= digits);
    if start == chars.len() {
        return None;
    }
    let mut i: usize = start;
    while i < chars.len() && '0' <= chars[i] && chars[i] <= '9'
        invariant
            start <= i <= chars.len(),
            digits == chars@.skip(start as int),
            forall|j: int| 0 <= j < i - start ==> is_digit(#[trigger] digits[j]),
        decreases chars.len() - i,
    {
        assert(digits[i - start] == chars@[i as int]);
        i += 1;
    }
    if i < chars.len() {
        assert(!is_digit(digits[i - start]));
        return None;
    }
    let mut number: u32 = 0;
    let mut k: usize = start;
    while k < chars.len()
        invariant
            start <= k <= chars.len(),
            start < chars.len(),
            digits == chars@.skip(start as int),
            digits == unsigned(text@),
            forall|j: int| 0 <= j < digits.len() ==> is_digit(#[trigger] digits[j]),
            number == number_of(digits.take(k - start)),
            number <= 255,
        decreases chars.len() - k,
    {
        assert(is_digit(digits[k - start]));
        assert(digits.take(k - start + 1).drop_last() =~= digits.take(k - start));
        number = number * 10 + (chars[k] as u32 - '0' as u32);
        k += 1;
        if number > 255 {
            proof {
                number_grows(digits, k - start);
            }
            return None;
        }
    }
    assert(digits.take(k - start) =~= digits);
    Some(number as u8)
}

/// The level that a request for mercy asks for.
pub fn mercy_level(request: &str) -> (r: u8)
    ensures
        r == mercy_level_of(request@),
{
    match parse_byte(request) {
        Some(level) => level,
        None => 1,
    }
}

/// The configuration at a level of mercy: from one on without the slow checks, from two on without
/// clippy, from three on without any check.
pub open spec fn merciful(config: ConfigView, level: u8) -> ConfigView {
    ConfigView {
        nextest: config.nextest && level < 1,
        doc_tests: config.doc_tests && level < 1,
        docs: config.docs && level < 1,
        clippy: config.clippy && level < 2,
        cargo_shear: config.cargo_shear && level < 3,
        same_rust_version: config.same_rust_version && level < 3,
        ..config
    }
}

/// The checks that a level of mercy leaves out, as far as they run a command.
pub open spec fn skipped_at(level: u8) -> Seq<Seq<char>> {
    let slow = if level >= 1 {
        seq!["nextest"@, "doc-tests"@, "docs"@]
    } else {
        seq![]
    };
    let clippy = if level >= 2 {
        seq!["clippy"@]
    } else {
        seq![]
    };
    let shear = if level >= 3 {
        seq!["cargo-shear"@]
    } else {
        seq![]
    };
    slow + clippy + shear
}

/// The checks that a level of mercy leaves out, as far as they run a command.
fn skipped_names(level: u8) -> (r: Vec<String>)
    ensures
        texts(r@) == skipped_at(level),
{
    let mut skipped: Vec<String> = Vec::new();
    if level >= 1 {
        skipped.push("nextest".to_owned());
        skipped.push("doc-tests".to_owned());
        skipped.push("docs".to_owned());
    }
    if level >= 2 {
        skipped.push("clippy".to_owned());
    }
    if level >= 3 {
        skipped.push("cargo-shear".to_owned());
    }
    assert(texts(skipped@) =~= skipped_at(level));
    skipped
}

/// Leaves out the checks of a level of mercy and names them.
pub fn have_mercy(config: &mut CaptainConfig, level: u8) -> (r: Vec<String>)
    ensures
        final(config)@ == merciful(old(config)@, level),
        texts(r@) == skipped_at(level),
{
    if level >= 1 {
        config.nextest = false;
        config.doc_tests = false;
        config.docs = false;
    }
    if level >= 2 {
        config.clippy = false;
    }
    if level >= 3 {
        config.cargo_shear = false;
        config.same_rust_version = false;
    }
    skipped_names(level)
}

/// `name`, unless the check is on.
pub open spec fn if_off(on: bool, name: Seq<char>) -> Seq<Seq<char>> {
    if on {
        seq![]
    } else {
        seq![name]
    }
}

/// The checks that a configuration leaves out, as far as they run a command.
pub open spec fn disabled_in(config: ConfigView) -> Seq<Seq<char>> {
    if_off(config.clippy, "clippy"@) + if_off(config.nextest, "nextest"@) + if_off(
        config.doc_tests,
        "doc-tests"@,
    ) + if_off(config.docs, "docs"@) + if_off(config.cargo_shear, "cargo-shear"@)
}

/// The checks that a configuration leaves out, as far as they run a command.
pub fn disabled_checks(config: &CaptainConfig) -> (r: Vec<String>)
    ensures
        texts(r@) == disabled_in(config@),
{
    let mut disabled: Vec<String> = Vec::new();
    if !config.clippy {
        disabled.push("clippy".to_owned());
    }
    if !config.nextest {
        disabled.push("nextest".to_owned());
    }
    if !config.doc_tests {
        disabled.push("doc-tests".to_owned());
    }
    if !config.docs {
        disabled.push("docs".to_owned());
    }
    if !config.cargo_shear {
        disabled.push("cargo-shear".to_owned());
    }
    assert(texts(disabled@) =~= disabled_in(config@));
    disabled
}

/// What is said about checks that are left out: those of a request for mercy if there is one, else
/// those of the configuration if there are any.
pub open spec fn notice_of(config: ConfigView, mercy: Option<Seq<char>>) -> Option<Seq<char>> {
    match mercy {
        Some(request) => {
            let level = mercy_level_of(request);
            Some(
                "\u{1f64f} HAVE_MERCY="@ + decimal_of(level as nat) + ": skipping "@ + joined(
                    skipped_at(level),
                    ", "@,
                ),
            )
        },
        None => if disabled_in(config).len() > 0 {
            Some("\u{23ed}\u{fe0f}  Disabled via config: "@ + joined(disabled_in(config), ", "@))
        } else {
            None
        },
    }
}

/// The configuration for the checks before a push, and what is said about those left out. `mercy`
/// is the request for mercy, if there is one.
pub fn pre_push_config(config: CaptainConfig, mercy: Option<&str>) -> (r: (
    CaptainConfig,
    Option<String>,
))
    ensures
        r.0@ == match mercy {
            Some(request) => merciful(config@, mercy_level_of(request@)),
            None => config@,
        },
        opt_text(r.1) == notice_of(
            config@,
            match mercy {
                Some(request) => Some(request@),
                None => None,
            },
        ),
{
    let mut config = config;
    match mercy {
        Some(request) => {
            let level = mercy_level(request);
            let skipped = have_mercy(&mut config, level);
            let mut notice = "\u{1f64f} HAVE_MERCY=".to_owned();
            notice.append(decimal(level as u64).as_str());
            notice.append(": skipping ");
            notice.append(join(skipped.as_slice(), ", ").as_str());
            (config, Some(notice))
        },
        None => {
            let disabled = disabled_checks(&config);
            assert(texts(disabled@).len() == disabled.len());
            if disabled.len() > 0 {
                let mut notice = "\u{23ed}\u{fe0f}  Disabled via config: ".to_owned();
                notice.append(join(disabled.as_slice(), ", ").as_str());
                (config, Some(notice))
            } else {
                (config, None)
            }
        },
    }
}

/// More mercy runs no check that less mercy leaves out, nothing but checks is left out, and from
/// level three on no check runs.
pub proof fn mercy_grows(config: ConfigView, less: u8, more: u8)
    requires
        less <= more,
    ensures
        merciful(config, more) == merciful(merciful(config, less), more),
        merciful(config, 0) == config,
        more >= 3 ==> disabled_in(merciful(config, more)).len() == 5,
        more >= 3 ==> !merciful(config, more).same_rust_version,
{
}

/// Mercy leaves out the slow checks from level one on, clippy from level two on and all checks from
/// level three on; all else of a configuration stays.
pub proof fn mercy_leaves_out_by_level(config: ConfigView, level: u8)
    ensures
        ({
            let after = merciful(config, level);
            &&& after.nextest == (config.nextest && level == 0)
            &&& after.doc_tests == (config.doc_tests && level == 0)
            &&& after.docs == (config.docs && level == 0)
            &&& after.clippy == (config.clippy && level <= 1)
            &&& after.cargo_shear == (config.cargo_shear && level <= 2)
            &&& after.same_rust_version == (config.same_rust_version && level <= 2)
            &&& after.generate_readmes == config.generate_readmes
            &&& after.rustfmt == config.rustfmt
            &&& after.cargo_lock == config.cargo_lock
            &&& after.arborium == config.arborium
            &&& after.rust_version == config.rust_version
            &&& after.edition_2024 == config.edition_2024
            &&& after.clippy_features == config.clippy_features
            &&& after.doc_test_features == config.doc_test_features
            &&& after.docs_features == config.docs_features
        }),
{
}

/// The names of what mercy leaves out are those of the checks that run a command, by level.
pub proof fn left_out_checks_are_named(level: u8)
    ensures
        level == 0 ==> skipped_at(level).len() == 0,
        level == 1 ==> skipped_at(level) == seq!["nextest"@, "doc-tests"@, "docs"@],
        level == 2 ==> skipped_at(level) == seq!["nextest"@, "doc-tests"@, "docs"@, "clippy"@],
        level >= 3 ==> skipped_at(level) == seq![
            "nextest"@,
            "doc-tests"@,
            "docs"@,
            "clippy"@,
            "cargo-shear"@,
        ],
{
    if level == 1 {
        assert(skipped_at(level) =~= seq!["nextest"@, "doc-tests"@, "docs"@]);
    } else if level == 2 {
        assert(skipped_at(level) =~= seq!["nextest"@, "doc-tests"@, "docs"@, "clippy"@]);
    } else if level >= 3 {
        assert(skipped_at(level) =~= seq![
            "nextest"@,
            "doc-tests"@,
            "docs"@,
            "clippy"@,
            "cargo-shear"@,
        ]);
    }
}

/// A check is named as disabled exactly if its option is off.
pub proof fn disabled_checks_are_named(config: ConfigView)
    ensures
        disabled_in(config).contains("clippy"@) <==> !config.clippy,
        disabled_in(config).contains("nextest"@) <==> !config.nextest,
        disabled_in(config).contains("doc-tests"@) <==> !config.doc_tests,
        disabled_in(config).contains("docs"@) <==> !config.docs,
        disabled_in(config).contains("cargo-shear"@) <==> !config.cargo_shear,
        disabled_in(config).len() <= 5,
{
    reveal_strlit("clippy");
    reveal_strlit("nextest");
    reveal_strlit("doc-tests");
    reveal_strlit("docs");
    reveal_strlit("cargo-shear");
    let all = disabled_in(config);
    let a: int = if config.clippy { 0 } else { 1 };
    let b: int = if config.nextest { a } else { a + 1 };
    let c: int = if config.doc_tests { b } else { b + 1 };
    let d: int = if config.docs { c } else { c + 1 };
    assert(!config.clippy ==> all[0] == "clippy"@);
    assert(!config.nextest ==> all[a] == "nextest"@);
    assert(!config.doc_tests ==> all[b] == "doc-tests"@);
    assert(!config.docs ==> all[c] == "docs"@);
    assert(!config.cargo_shear ==> all[d] == "cargo-shear"@);
    assert(forall|i: int|
        0 <= i < all.len() ==> {
            ||| !config.clippy && #[trigger] all[i] == "clippy"@
            ||| !config.nextest && all[i] == "nextest"@
            ||| !config.doc_tests && all[i] == "doc-tests"@
            ||| !config.docs && all[i] == "docs"@
            ||| !config.cargo_shear && all[i] == "cargo-shear"@
        });
    assert("clippy"@.len() == 6 && "nextest"@.len() == 7 && "doc-tests"@.len() == 9
        && "docs"@.len() == 4 && "cargo-shear"@.len() == 11);
}

proof fn decimal_is_number(n: nat)
    ensures
        number_of(decimal_of(n)) == n,
        decimal_of(n).len() > 0,
        forall|i: int| 0 <= i < decimal_of(n).len() ==> is_digit(#[trigger] decimal_of(n)[i]),
    decreases n,
{
    let digits = decimal_of(n);
    if n >= 10 {
        decimal_is_number(n / 10);
        assert(digits.drop_last() =~= decimal_of(n / 10));
        assert(digits.last() == digit(n % 10));
        assert(digits.last() as u32 == 48 + n % 10);
        assert forall|i: int| 0 <= i < digits.len() implies is_digit(#[trigger] digits[i]) by {
            if i < digits.len() - 1 {
                assert(digits[i] == decimal_of(n / 10)[i]);
            }
        }
    } else {
        assert(digits.drop_last() =~= seq![]);
        assert(number_of(digits.drop_last()) == 0);
        assert(digits.last() as u32 == 48 + n);
    }
}

/// A number from zero to 255 in decimal, with or without a plus sign, asks for that level, a larger
/// one asks for none, and neither does a text with anything else in it.
pub proof fn levels_are_numbers(n: nat, text: Seq<char>, i: int)
    ensures
        n <= 255 ==> byte_number(decimal_of(n)) == Some(n as u8),
        n <= 255 ==> byte_number(seq!['+'] + decimal_of(n)) == Some(n as u8),
        n > 255 ==> byte_number(decimal_of(n)) is None,
        0 <= i < text.len() && !('0' <= text[i] && text[i] <= '9') && !(i == 0 && text[i] == '+')
            ==> byte_number(text) is None,
        text.len() == 0 ==> byte_number(text) is None,
        byte_number(text) matches Some(level) ==> mercy_level_of(text) == level,
        byte_number(text) is None ==> mercy_level_of(text) == 1,
{
    decimal_is_number(n);
    let digits = decimal_of(n);
    assert(is_digit(digits[0]));
    assert(unsigned(digits) == digits);
    assert((seq!['+'] + digits).skip(1) =~= digits);
    if 0 <= i < text.len() && !('0' <= text[i] && text[i] <= '9') && !(i == 0 && text[i] == '+') {
        let rest = unsigned(text);
        if text[0] == '+' {
            assert(rest[i - 1] == text[i]);
            assert(!is_digit(rest[i - 1]));
        } else {
            assert(!is_digit(rest[i]));
        }
    }
}

/// Zeros before a number do not change it.
pub proof fn leading_zeros_count_for_nothing(digits: Seq<char>)
    requires
        digits.len() > 0,
        forall|i: int| 0 <= i < digits.len() ==> '0' <= #[trigger] digits[i] && digits[i] <= '9',
    ensures
        byte_number(seq!['0'] + digits) == byte_number(digits),
{
    let more = seq!['0'] + digits;
    zero_adds_nothing(digits);
    assert(forall|i: int| 0 <= i < digits.len() ==> is_digit(#[trigger] digits[i]));
    assert forall|i: int| 0 <= i < more.len() implies is_digit(#[trigger] more[i]) by {
        if i > 0 {
            assert(more[i] == digits[i - 1]);
        }
    }
    assert(digits[0] != '+');
    assert(unsigned(more) == more && unsigned(digits) == digits);
}

proof fn zero_adds_nothing(digits: Seq<char>)
    ensures
        number_of(seq!['0'] + digits) == number_of(digits),
    decreases digits.len(),
{
    let more = seq!['0'] + digits;
    if digits.len() == 0 {
        assert(more.drop_last() =~= seq![]);
        assert(more.last() == '0');
        assert(number_of(more.drop_last()) == 0);
    } else {
        assert(more.drop_last() =~= seq!['0'] + digits.drop_last());
        zero_adds_nothing(digits.drop_last());
    }
}

/// A request for mercy is always answered by its level and what that leaves out; without one, what is
/// disabled is told, if anything is.
pub proof fn notices_tell_what_is_left_out(config: ConfigView, request: Seq<char>)
    ensures
        notice_of(config, Some(request)) == Some(
            "\u{1f64f} HAVE_MERCY="@ + decimal_of(mercy_level_of(request) as nat) + ": skipping "@
                + joined(skipped_at(mercy_level_of(request)), ", "@),
        ),
        disabled_in(config).len() == 0 ==> notice_of(config, None) is None,
        disabled_in(config).len() > 0 ==> notice_of(config, None) == Some(
            "\u{23ed}\u{fe0f}  Disabled via config: "@ + joined(disabled_in(config), ", "@),
        ),
{
}

}
