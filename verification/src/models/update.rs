//! Whether a newer release exists, and what it changes.
//!
//! Pure data and rules, kept apart from the HTTP call that fetches releases so the parts that decide
//! anything (version order, which channel sees which release, what counts as newer) are proved without
//! a network.

use crate::util::text::{
    decimal, digit_char, digits_value, lemma_decimal_digits, lemma_decimal_parses_back,
    lemma_digits_are_not_white, lemma_digits_value_grows, lemma_first_index_of,
    lemma_trim_of_clean_text, all_digits, chars_equal, chars_of, find_char, first_index_of, has_prefix, is_digit,
    last_index_before, unsigned_body,
    parse_unsigned, parse_unsigned_spec, rfind_char, slice_chars, starts_with, string_from_chars,
    trim_bounds, trim_matches, trim_matches_spec, trim_spec,
};
use std::cmp::Ordering;
use vstd::prelude::*;
use vstd::std_specs::cmp::PartialOrdSpecImpl;

verus! {

/// Which releases this installation follows. Mirrors the installers' `--stable` and `--beta`.
#[derive(Debug, Clone, Copy, PartialEq, Eq, Structural)]
pub enum Channel {
    /// Stable releases only.
    Stable,
    /// The newest release of any kind, beta or stable.
    Beta,
}

/// A release version as the project numbers them: `0.6.0`, or `0.6.0-beta.2` before it.
///
/// Only the shapes the release tooling produces are understood. Anything else is not a version this
/// code will compare, which keeps a stray tag from being offered as an update.
#[derive(Debug, Clone, Copy, PartialEq, Eq, Structural)]
pub struct Version {
    pub major: u64,
    pub minor: u64,
    pub patch: u64,
    /// The beta number, or `None` for a stable release.
    pub beta: Option<u64>,
}

/// A number written the one way the release tooling writes it: ASCII digits only, with no leading
/// zero unless the number is zero itself.
pub open spec fn is_canonical_number(part: Seq<char>) -> bool {
    &&& part.len() > 0
    &&& all_digits(part)
    &&& (part.len() > 1 ==> part[0] != '0')
}

/// One numeric part of a version: a canonical number that fits in a `u64`.
pub open spec fn version_part(part: Seq<char>) -> Option<u64> {
    if !is_canonical_number(part) {
        None
    } else {
        match parse_unsigned_spec(part, u64::MAX as int) {
            Some(n) => Some(n as u64),
            None => None,
        }
    }
}

/// `major.minor.patch`: exactly three dot separated numbers.
pub open spec fn version_core(core: Seq<char>) -> Option<(u64, u64, u64)> {
    let d1 = first_index_of(core, '.');
    let rest1 = core.subrange(d1 + 1, core.len() as int);
    let d2 = first_index_of(rest1, '.');
    let rest2 = rest1.subrange(d2 + 1, rest1.len() as int);
    if d1 == core.len() || d2 == rest1.len() || first_index_of(rest2, '.') < rest2.len() {
        None
    } else {
        match (
            version_part(core.subrange(0, d1)),
            version_part(rest1.subrange(0, d2)),
            version_part(rest2),
        ) {
            (Some(major), Some(minor), Some(patch)) => Some((major, minor, patch)),
            _ => None,
        }
    }
}

pub open spec fn beta_marker() -> Seq<char> {
    seq!['b', 'e', 't', 'a', '.']
}

/// The beta suffix after the first `-`: `beta.` and a number. The outer `None` means the suffix is
/// not one this project writes.
pub open spec fn version_suffix(rest: Seq<char>) -> Option<u64> {
    if starts_with(rest, beta_marker()) {
        version_part(rest.subrange(5, rest.len() as int))
    } else {
        None
    }
}

/// `0.6.0` or `0.6.0-beta.2`, either with a leading `v`, surrounded by any whitespace.
pub open spec fn parse_version_spec(text: Seq<char>) -> Option<Version> {
    let trimmed = trim_spec(text);
    let t = if trimmed.len() > 0 && trimmed[0] == 'v' {
        trimmed.drop_first()
    } else {
        trimmed
    };
    let dash = first_index_of(t, '-');
    let beta: Option<Option<u64>> = if dash == t.len() {
        Some(None)
    } else {
        match version_suffix(t.subrange(dash + 1, t.len() as int)) {
            Some(b) => Some(Some(b)),
            None => None,
        }
    };
    match (beta, version_core(t.subrange(0, dash))) {
        (Some(beta), Some((major, minor, patch))) => Some(Version { major, minor, patch, beta }),
        _ => None,
    }
}

fn parse_part(chars: &[char], start: usize, end: usize) -> (value: Option<u64>)
    requires
        start <= end <= chars@.len(),
    ensures
        value == version_part(chars@.subrange(start as int, end as int)),
{
    let part = slice_chars(chars, start, end);
    if part.len() == 0 {
        return None;
    }
    if part[0] == '+' {
        assert(!is_digit(part@[0]));
        return None;
    }
    if part.len() > 1 && part[0] == '0' {
        return None;
    }
    let value = parse_unsigned(part.as_slice(), 0xffff_ffff_ffff_ffff);
    assert(unsigned_body(part@) == part@);
    value
}

#[verifier::rlimit(50)]
fn parse_core(t: &[char], end: usize) -> (parts: Option<(u64, u64, u64)>)
    requires
        end <= t@.len(),
    ensures
        parts == version_core(t@.subrange(0, end as int)),
{
    let ghost core = t@.subrange(0, end as int);
    let core_chars = slice_chars(t, 0, end);
    assert(core_chars@ == core);
    let d1 = find_char(core_chars.as_slice(), 0, '.');
    assert(core.subrange(0, core.len() as int) =~= core);
    if d1 == end {
        return None;
    }
    let d2 = find_char(core_chars.as_slice(), d1 + 1, '.');
    let ghost rest1 = core.subrange(d1 + 1, core.len() as int);
    if d2 == end {
        return None;
    }
    let d3 = find_char(core_chars.as_slice(), d2 + 1, '.');
    let ghost rest2 = rest1.subrange(d2 - d1, rest1.len() as int);
    assert(rest2 =~= core.subrange(d2 + 1, core.len() as int));
    if d3 < end {
        return None;
    }
    let major = parse_part(core_chars.as_slice(), 0, d1);
    let minor = parse_part(core_chars.as_slice(), d1 + 1, d2);
    let patch = parse_part(core_chars.as_slice(), d2 + 1, end);
    assert(rest1.subrange(0, d2 - d1 - 1) =~= core.subrange(d1 + 1, d2 as int));
    match (major, minor, patch) {
        (Some(major), Some(minor), Some(patch)) => Some((major, minor, patch)),
        _ => None,
    }
}

/// A version as the release tooling writes it: `MAJOR.MINOR.PATCH`, then `-beta.N` for a beta, each
/// number in plain decimal.
pub open spec fn version_text(version: Version) -> Seq<char> {
    decimal(version.major as nat) + seq!['.'] + decimal(version.minor as nat) + seq!['.'] + decimal(
        version.patch as nat,
    ) + match version.beta {
        Some(beta) => seq!['-'] + beta_marker() + decimal(beta as nat),
        None => Seq::<char>::empty(),
    }
}

proof fn lemma_decimal_is_canonical(n: nat)
    ensures
        is_canonical_number(decimal(n)),
        n >= 1 ==> decimal(n)[0] != '0',
        n <= u64::MAX ==> version_part(decimal(n)) == Some(n as u64),
    decreases n,
{
    lemma_decimal_digits(n);
    let d = decimal(n);
    if n < 10 {
        assert((digit_char(n as int) as u32) == n + 48);
        assert(d[0] == digit_char(n as int));
    } else {
        lemma_decimal_is_canonical(n / 10);
        assert(d[0] == decimal(n / 10)[0]);
    }
    if n <= u64::MAX {
        lemma_decimal_parses_back(n, u64::MAX as int);
    }
}

proof fn lemma_canonical_number_is_decimal(s: Seq<char>)
    requires
        is_canonical_number(s),
    ensures
        digits_value(s) >= 0,
        s == decimal(digits_value(s) as nat),
    decreases s.len(),
{
    let last = s.last();
    assert(is_digit(s[s.len() - 1]));
    let d = (last as u32) - 48;
    assert(0 <= d <= 9);
    assert((digit_char(d as int) as u32) == d + 48);
    vstd::utf8::char_u32_cast(last, last as u32);
    assert(digit_char(d as int) == last);
    if s.len() == 1 {
        assert(s.drop_last() =~= Seq::<char>::empty());
        assert(digits_value(s.drop_last()) == 0);
        assert(digits_value(s) == digits_value(s.drop_last()) * 10 + ((s.last() as u32) - 48));
        assert(digits_value(s) == d);
        assert(decimal(d as nat) =~= s);
    } else {
        let p = s.drop_last();
        assert(p[0] == s[0]);
        assert(is_canonical_number(p)) by {
            assert forall|i: int| 0 <= i < p.len() implies is_digit(#[trigger] p[i]) by {
                assert(p[i] == s[i]);
            }
        }
        lemma_canonical_number_is_decimal(p);
        lemma_digits_value_grows(p, 1);
        assert(p.take(1).drop_last() =~= Seq::<char>::empty());
        assert(p.take(1).last() == p[0]);
        assert(digits_value(p.take(1).drop_last()) == 0);
        assert(is_digit(p[0]));
        assert(digits_value(p.take(1)) == (p[0] as u32) as int - 48);
        let m = digits_value(p);
        assert(m >= 1);
        let n = digits_value(s);
        assert(n == m * 10 + d);
        assert(n / 10 == m && n % 10 == d) by (nonlinear_arith)
            requires
                n == m * 10 + d,
                0 <= d <= 9,
        ;
        assert(decimal(n as nat) == decimal(m as nat).push(digit_char(d as int)));
        assert(p.push(last) =~= s);
    }
}

proof fn lemma_first_index_past(a: Seq<char>, b: Seq<char>, c: char)
    requires
        forall|i: int| 0 <= i < a.len() ==> a[i] != c,
    ensures
        first_index_of(a + b, c) == a.len() + first_index_of(b, c),
    decreases a.len(),
{
    if a.len() == 0 {
        assert(a + b =~= b);
    } else {
        assert((a + b)[0] == a[0]);
        assert((a + b).drop_first() =~= a.drop_first() + b);
        lemma_first_index_past(a.drop_first(), b, c);
    }
}

proof fn lemma_decimal_lacks(n: nat, c: char)
    requires
        !is_digit(c),
    ensures
        forall|i: int| 0 <= i < decimal(n).len() ==> decimal(n)[i] != c,
        first_index_of(decimal(n), c) == decimal(n).len(),
{
    lemma_decimal_digits(n);
    let d = decimal(n);
    assert forall|i: int| 0 <= i < d.len() implies d[i] != c by {
        assert(is_digit(d[i]));
    }
    lemma_first_index_past(d, Seq::<char>::empty(), c);
    assert(d + Seq::<char>::empty() =~= d);
}

/// The core of a version's text: `MAJOR.MINOR.PATCH`.
pub open spec fn core_text(major: u64, minor: u64, patch: u64) -> Seq<char> {
    decimal(major as nat) + seq!['.'] + decimal(minor as nat) + seq!['.'] + decimal(patch as nat)
}

/// The suffix of a version's text: `-beta.N` for a beta, nothing for a release.
pub open spec fn suffix_text(beta: Option<u64>) -> Seq<char> {
    match beta {
        Some(beta) => seq!['-'] + beta_marker() + decimal(beta as nat),
        None => Seq::<char>::empty(),
    }
}

proof fn lemma_core_text_parses(major: u64, minor: u64, patch: u64)
    ensures
        version_core(core_text(major, minor, patch)) == Some((major, minor, patch)),
        forall|i: int|
            0 <= i < core_text(major, minor, patch).len() ==> core_text(major, minor, patch)[i]
                != '-',
        core_text(major, minor, patch).len() > 0,
        is_digit(core_text(major, minor, patch)[0]),
        is_digit(core_text(major, minor, patch).last()),
{
    let d1 = decimal(major as nat);
    let d2 = decimal(minor as nat);
    let d3 = decimal(patch as nat);
    lemma_decimal_is_canonical(major as nat);
    lemma_decimal_is_canonical(minor as nat);
    lemma_decimal_is_canonical(patch as nat);
    lemma_decimal_lacks(major as nat, '.');
    lemma_decimal_lacks(minor as nat, '.');
    lemma_decimal_lacks(patch as nat, '.');
    lemma_decimal_lacks(major as nat, '-');
    lemma_decimal_lacks(minor as nat, '-');
    lemma_decimal_lacks(patch as nat, '-');
    let core = core_text(major, minor, patch);
    let tail1 = seq!['.'] + d2 + seq!['.'] + d3;
    assert(core =~= d1 + tail1);
    lemma_first_index_past(d1, tail1, '.');
    let rest1 = core.subrange(d1.len() as int + 1, core.len() as int);
    assert(rest1 =~= d2 + (seq!['.'] + d3));
    lemma_first_index_past(d2, seq!['.'] + d3, '.');
    let rest2 = rest1.subrange(d2.len() as int + 1, rest1.len() as int);
    assert(rest2 =~= d3);
    assert(core.subrange(0, d1.len() as int) =~= d1);
    assert(rest1.subrange(0, d2.len() as int) =~= d2);
    assert forall|i: int| 0 <= i < core.len() implies core[i] != '-' by {
        if i < d1.len() {
            assert(core[i] == d1[i]);
        } else if i == d1.len() {
        } else if i < d1.len() + 1 + d2.len() {
            assert(core[i] == d2[i - d1.len() - 1]);
        } else if i == d1.len() + 1 + d2.len() {
        } else {
            assert(core[i] == d3[i - d1.len() - 2 - d2.len()]);
        }
    }
    assert(core[0] == d1[0]);
    assert(core.last() == d3.last());
}

proof fn lemma_suffix_text_parses(core: Seq<char>, beta: Option<u64>)
    requires
        forall|i: int| 0 <= i < core.len() ==> core[i] != '-',
    ensures
        ({
            let t = core + suffix_text(beta);
            let dash = first_index_of(t, '-');
            &&& dash == core.len()
            &&& t.subrange(0, dash) == core
            &&& dash == t.len() <==> beta is None
            &&& dash < t.len() ==> version_suffix(t.subrange(dash + 1, t.len() as int)) == beta
        }),
{
    let suffix = suffix_text(beta);
    let t = core + suffix;
    lemma_first_index_past(core, suffix, '-');
    assert(t.subrange(0, core.len() as int) =~= core);
    if let Some(b) = beta {
        let db = decimal(b as nat);
        lemma_decimal_is_canonical(b as nat);
        let rest = t.subrange(core.len() as int + 1, t.len() as int);
        assert(rest =~= beta_marker() + db);
        assert(rest.subrange(0, 5) =~= beta_marker());
        assert(rest.subrange(5, rest.len() as int) =~= db);
    } else {
        assert(t =~= core);
    }
}

proof fn lemma_version_text_parses(version: Version)
    ensures
        parse_version_spec(version_text(version)) == Some(version),
        parse_version_spec(seq!['v'] + version_text(version)) == Some(version),
{
    let core = core_text(version.major, version.minor, version.patch);
    let text = version_text(version);
    assert(text =~= core + suffix_text(version.beta));
    lemma_core_text_parses(version.major, version.minor, version.patch);
    lemma_suffix_text_parses(core, version.beta);
    let last = text.last();
    if let Some(b) = version.beta {
        lemma_decimal_digits(b as nat);
        assert(last == decimal(b as nat).last());
    } else {
        assert(last == core.last());
    }
    assert(text[0] == core[0]);
    lemma_digits_are_not_white(text[0]);
    lemma_digits_are_not_white(last);
    lemma_trim_of_clean_text(text);
    let tagged = seq!['v'] + text;
    assert(tagged.last() == last);
    lemma_trim_of_clean_text(tagged);
    assert(tagged.drop_first() =~= text);
}

proof fn lemma_canonical_core(core: Seq<char>, major: u64, minor: u64, patch: u64)
    requires
        version_core(core) == Some((major, minor, patch)),
    ensures
        core == core_text(major, minor, patch),
{
    let d1 = first_index_of(core, '.');
    lemma_first_index_of(core, '.');
    let rest1 = core.subrange(d1 + 1, core.len() as int);
    let d2 = first_index_of(rest1, '.');
    lemma_first_index_of(rest1, '.');
    let rest2 = rest1.subrange(d2 + 1, rest1.len() as int);
    let p1 = core.subrange(0, d1);
    let p2 = rest1.subrange(0, d2);
    lemma_canonical_number_is_decimal(p1);
    lemma_canonical_number_is_decimal(p2);
    lemma_canonical_number_is_decimal(rest2);
    assert(rest1 =~= p2 + seq!['.'] + rest2);
    assert(core =~= p1 + seq!['.'] + rest1);
    assert(core =~= core_text(major, minor, patch));
}

proof fn lemma_canonical_suffix(t: Seq<char>, beta: Option<u64>)
    requires
        ({
            let dash = first_index_of(t, '-');
            &&& dash == t.len() ==> beta is None
            &&& dash < t.len() ==> beta is Some && version_suffix(
                t.subrange(dash + 1, t.len() as int),
            ) == beta
        }),
    ensures
        t == t.subrange(0, first_index_of(t, '-')) + suffix_text(beta),
{
    let dash = first_index_of(t, '-');
    lemma_first_index_of(t, '-');
    if dash == t.len() {
        assert(t =~= t.subrange(0, dash) + suffix_text(beta));
    } else {
        let rest = t.subrange(dash + 1, t.len() as int);
        let part = rest.subrange(5, rest.len() as int);
        assert(starts_with(rest, beta_marker()));
        assert(version_part(part) == beta);
        lemma_canonical_number_is_decimal(part);
        assert(rest.subrange(0, 5) == beta_marker());
        assert(rest =~= rest.subrange(0, 5) + part);
        assert(t =~= t.subrange(0, dash) + suffix_text(beta));
    }
}

proof fn lemma_parsed_text_is_canonical(text: Seq<char>, version: Version)
    requires
        parse_version_spec(text) == Some(version),
    ensures
        ({
            let trimmed = trim_spec(text);
            trimmed == version_text(version) || trimmed == seq!['v'] + version_text(version)
        }),
{
    let trimmed = trim_spec(text);
    let t = if trimmed.len() > 0 && trimmed[0] == 'v' {
        trimmed.drop_first()
    } else {
        trimmed
    };
    let dash = first_index_of(t, '-');
    lemma_canonical_core(t.subrange(0, dash), version.major, version.minor, version.patch);
    lemma_canonical_suffix(t, version.beta);
    assert(version_text(version) =~= core_text(version.major, version.minor, version.patch)
        + suffix_text(version.beta));
    if trimmed.len() > 0 && trimmed[0] == 'v' {
        assert(trimmed =~= seq!['v'] + t);
    }
}

/// Only the shapes the release tooling writes are versions: each version's own text, with or without
/// a leading `v`, reads back as that version, and any text that reads as a version is, once trimmed,
/// exactly that version's text, with or without the `v`. So a stray tag such as `01.2.3` or `+1.2.3`
/// is never taken for a release.
pub proof fn lemma_only_canonical_texts_are_versions(version: Version, text: Seq<char>)
    ensures
        parse_version_spec(version_text(version)) == Some(version),
        parse_version_spec(seq!['v'] + version_text(version)) == Some(version),
        parse_version_spec(text) == Some(version) ==> trim_spec(text) == version_text(version)
            || trim_spec(text) == seq!['v'] + version_text(version),
{
    lemma_version_text_parses(version);
    if parse_version_spec(text) == Some(version) {
        lemma_parsed_text_is_canonical(text, version);
    }
}

/// Compare two versions: by major, minor and patch, and a beta comes before the release it previews,
/// earlier betas first.
pub open spec fn version_order(a: Version, b: Version) -> Ordering {
    if a.major != b.major {
        if a.major < b.major {
            Ordering::Less
        } else {
            Ordering::Greater
        }
    } else if a.minor != b.minor {
        if a.minor < b.minor {
            Ordering::Less
        } else {
            Ordering::Greater
        }
    } else if a.patch != b.patch {
        if a.patch < b.patch {
            Ordering::Less
        } else {
            Ordering::Greater
        }
    } else {
        match (a.beta, b.beta) {
            (None, None) => Ordering::Equal,
            (None, Some(_)) => Ordering::Greater,
            (Some(_), None) => Ordering::Less,
            (Some(left), Some(right)) => if left < right {
                Ordering::Less
            } else if left > right {
                Ordering::Greater
            } else {
                Ordering::Equal
            },
        }
    }
}

/// `a` is a later version than `b`.
pub open spec fn is_newer_spec(a: Version, b: Version) -> bool {
    version_order(a, b) == Ordering::Greater
}

impl Version {
    /// Parse `0.6.0`, `0.6.0-beta.2`, or either with a leading `v` as tags have.
    #[verifier::rlimit(100)]
    pub fn parse(text: &str) -> (version: Option<Self>)
        ensures
            version == parse_version_spec(text@),
    {
        let chars = chars_of(text);
        let (start, end) = trim_bounds(&chars);
        let trimmed = slice_chars(chars.as_slice(), start, end);
        let skip: usize = if trimmed.len() > 0 && trimmed[0] == 'v' { 1 } else { 0 };
        let t = slice_chars(trimmed.as_slice(), skip, trimmed.len());
        assert(t@ =~= (if trimmed@.len() > 0 && trimmed@[0] == 'v' {
            trimmed@.drop_first()
        } else {
            trimmed@
        }));
        let dash = find_char(t.as_slice(), 0, '-');
        assert(t@.subrange(0, t@.len() as int) =~= t@);
        let beta: Option<Option<u64>> = if dash == t.len() {
            Some(None)
        } else {
            let rest = slice_chars(t.as_slice(), dash + 1, t.len());
            let marker = vec!['b', 'e', 't', 'a', '.'];
            assert(marker@ =~= beta_marker());
            if has_prefix(rest.as_slice(), marker.as_slice()) {
                match parse_part(rest.as_slice(), 5, rest.len()) {
                    Some(b) => Some(Some(b)),
                    None => None,
                }
            } else {
                None
            }
        };
        let core = parse_core(t.as_slice(), dash);
        match (beta, core) {
            (Some(beta), Some((major, minor, patch))) => Some(Version { major, minor, patch, beta }),
            _ => None,
        }
    }

    pub fn is_beta(&self) -> (beta: bool)
        ensures
            beta == self.beta.is_some(),
    {
        self.beta.is_some()
    }

    /// Total order of versions.
    pub fn cmp(&self, other: &Self) -> (order: Ordering)
        ensures
            order == version_order(*self, *other),
    {
        if self.major != other.major {
            if self.major < other.major {
                Ordering::Less
            } else {
                Ordering::Greater
            }
        } else if self.minor != other.minor {
            if self.minor < other.minor {
                Ordering::Less
            } else {
                Ordering::Greater
            }
        } else if self.patch != other.patch {
            if self.patch < other.patch {
                Ordering::Less
            } else {
                Ordering::Greater
            }
        } else {
            match (self.beta, other.beta) {
                (None, None) => Ordering::Equal,
                (None, Some(_)) => Ordering::Greater,
                (Some(_), None) => Ordering::Less,
                (Some(left), Some(right)) => if left < right {
                    Ordering::Less
                } else if left > right {
                    Ordering::Greater
                } else {
                    Ordering::Equal
                },
            }
        }
    }

    /// `self` is a later version than `other`.
    pub fn is_newer_than(&self, other: &Self) -> (newer: bool)
        ensures
            newer == is_newer_spec(*self, *other),
    {
        match self.cmp(other) {
            Ordering::Greater => true,
            Ordering::Less => false,
            Ordering::Equal => false,
        }
    }
}

impl PartialOrd for Version {
    fn partial_cmp(&self, other: &Self) -> (order: Option<Ordering>)
        ensures
            order == Some(version_order(*self, *other)),
    {
        Some(self.cmp(other))
    }
}

impl PartialOrdSpecImpl for Version {
    open spec fn obeys_partial_cmp_spec() -> bool {
        true
    }

    open spec fn partial_cmp_spec(&self, other: &Self) -> Option<Ordering> {
        Some(version_order(*self, *other))
    }
}

/// Version order is a total order: every pair compares one way, the order reverses when the
/// operands swap, only equal versions compare equal, and it is transitive.
pub proof fn lemma_version_order_is_total(a: Version, b: Version, c: Version)
    ensures
        version_order(a, b) == Ordering::Equal <==> a == b,
        version_order(a, b) == Ordering::Less <==> version_order(b, a) == Ordering::Greater,
        version_order(a, b) == Ordering::Less && version_order(b, c) == Ordering::Less
            ==> version_order(a, c) == Ordering::Less,
{
}

/// Versions order by their numbers: a larger major number is later whatever follows it, then a larger
/// minor number, then a larger patch number; with equal numbers a release comes after its betas, and a
/// later beta after an earlier one. Only equal versions compare equal.
pub proof fn lemma_versions_order_by_their_numbers(a: Version, b: Version)
    ensures
        a.major > b.major ==> version_order(a, b) == Ordering::Greater,
        a.major < b.major ==> version_order(a, b) == Ordering::Less,
        a.major == b.major && a.minor > b.minor ==> version_order(a, b) == Ordering::Greater,
        a.major == b.major && a.minor < b.minor ==> version_order(a, b) == Ordering::Less,
        a.major == b.major && a.minor == b.minor && a.patch > b.patch ==> version_order(a, b)
            == Ordering::Greater,
        a.major == b.major && a.minor == b.minor && a.patch < b.patch ==> version_order(a, b)
            == Ordering::Less,
        a.major == b.major && a.minor == b.minor && a.patch == b.patch && a.beta is None
            && b.beta is Some ==> version_order(a, b) == Ordering::Greater,
        a.major == b.major && a.minor == b.minor && a.patch == b.patch && a.beta is Some
            && b.beta is None ==> version_order(a, b) == Ordering::Less,
        a.major == b.major && a.minor == b.minor && a.patch == b.patch && a.beta is Some
            && b.beta is Some ==> (a.beta.unwrap() > b.beta.unwrap() ==> version_order(a, b)
            == Ordering::Greater) && (a.beta.unwrap() < b.beta.unwrap() ==> version_order(a, b)
            == Ordering::Less),
        a == b ==> version_order(a, b) == Ordering::Equal,
        is_newer_spec(a, b) <==> version_order(a, b) == Ordering::Greater,
{
}

/// A beta comes before the release it previews and after every earlier release.
pub proof fn lemma_beta_precedes_its_release(beta: Version)
    requires
        beta.beta.is_some(),
    ensures
        version_order(beta, Version { beta: None, ..beta }) == Ordering::Less,
{
}

/// A published release, as much of it as the update notice needs.
#[derive(Debug, PartialEq, Eq)]
pub struct Release {
    /// The tag, like `v0.6.0`.
    pub tag: String,
    pub prerelease: bool,
    pub draft: bool,
    pub published_at_ms: Option<i64>,
    /// The release notes, as the Markdown written on the release.
    pub notes: String,
    /// The release page, for the full notes and the downloads.
    pub url: String,
}

impl Clone for Release {
    fn clone(&self) -> (copy: Self)
        ensures
            copy == *self,
    {
        Release {
            tag: self.tag.clone(),
            prerelease: self.prerelease,
            draft: self.draft,
            published_at_ms: self.published_at_ms,
            notes: self.notes.clone(),
            url: self.url.clone(),
        }
    }
}

/// The version a release is offered as on `channel` when `current` is running: published, allowed on
/// the channel by its flag and by its version, and newer. `None` when it is not offered.
pub open spec fn offered_version(current: Version, channel: Channel, release: Release) -> Option<Version> {
    if release.draft || (channel == Channel::Stable && release.prerelease) {
        None
    } else {
        match parse_version_spec(release.tag@) {
            Some(version) => if (channel == Channel::Stable && version.beta.is_some()) || !is_newer_spec(
                version,
                current,
            ) {
                None
            } else {
                Some(version)
            },
            None => None,
        }
    }
}

/// The offered releases with their versions, in the order they were listed.
pub open spec fn offered_releases(current: Version, channel: Channel, releases: Seq<Release>) -> Seq<
    (Version, Release),
>
    decreases releases.len(),
{
    if releases.len() == 0 {
        Seq::empty()
    } else {
        let earlier = offered_releases(current, channel, releases.drop_last());
        match offered_version(current, channel, releases.last()) {
            Some(version) => earlier.push((version, releases.last())),
            None => earlier,
        }
    }
}

/// Insert into a newest first list, after every entry at least as new: a stable insertion.
pub open spec fn insert_newest_first(sorted: Seq<(Version, Release)>, item: (Version, Release)) -> Seq<
    (Version, Release),
>
    decreases sorted.len(),
{
    if sorted.len() == 0 {
        seq![item]
    } else if is_newer_spec(item.0, sorted[0].0) {
        seq![item] + sorted
    } else {
        seq![sorted[0]] + insert_newest_first(sorted.drop_first(), item)
    }
}

/// Newest first, and releases of equal version in the order they were listed: a stable sort.
pub open spec fn newest_first(items: Seq<(Version, Release)>) -> Seq<(Version, Release)>
    decreases items.len(),
{
    if items.len() == 0 {
        Seq::empty()
    } else {
        insert_newest_first(newest_first(items.drop_last()), items.last())
    }
}

pub open spec fn releases_of(items: Seq<(Version, Release)>) -> Seq<Release> {
    items.map_values(|item: (Version, Release)| item.1)
}

/// The releases worth offering: published, on this channel, and newer than what is running. Newest
/// first, so the first is the one to install and the rest are what else changed on the way to it.
pub open spec fn newer_releases_spec(current: Version, channel: Channel, releases: Seq<Release>) -> Seq<
    Release,
> {
    releases_of(newest_first(offered_releases(current, channel, releases)))
}

/// No entry of the list is newer than one before it.
pub open spec fn is_newest_first(items: Seq<(Version, Release)>) -> bool {
    forall|i: int, j: int|
        0 <= i < j < items.len() ==> !is_newer_spec(#[trigger] items[j].0, #[trigger] items[i].0)
}

proof fn lemma_insert_is_position(sorted: Seq<(Version, Release)>, item: (Version, Release), k: int)
    requires
        0 <= k <= sorted.len(),
        forall|j: int| 0 <= j < k ==> !is_newer_spec(item.0, #[trigger] sorted[j].0),
        k == sorted.len() || is_newer_spec(item.0, sorted[k].0),
    ensures
        insert_newest_first(sorted, item) == sorted.take(k) + seq![item] + sorted.skip(k),
    decreases sorted.len(),
{
    if sorted.len() == 0 {
        assert(sorted.take(k) + seq![item] + sorted.skip(k) =~= seq![item]);
    } else if k == 0 {
        assert(sorted.take(0) + seq![item] + sorted.skip(0) =~= seq![item] + sorted);
    } else {
        let rest = sorted.drop_first();
        assert forall|j: int| 0 <= j < k - 1 implies !is_newer_spec(item.0, #[trigger] rest[j].0) by {
            assert(rest[j] == sorted[j + 1]);
        }
        assert(k - 1 == rest.len() || rest[k - 1] == sorted[k]);
        lemma_insert_is_position(rest, item, k - 1);
        assert(seq![sorted[0]] + (rest.take(k - 1) + seq![item] + rest.skip(k - 1)) =~= sorted.take(k)
            + seq![item] + sorted.skip(k));
    }
}

proof fn lemma_insert_keeps_order(sorted: Seq<(Version, Release)>, item: (Version, Release))
    requires
        is_newest_first(sorted),
    ensures
        is_newest_first(insert_newest_first(sorted, item)),
        insert_newest_first(sorted, item).len() == sorted.len() + 1,
    decreases sorted.len(),
{
    if sorted.len() > 0 {
        let rest = sorted.drop_first();
        assert forall|i: int, j: int| 0 <= i < j < rest.len() implies !is_newer_spec(
            #[trigger] rest[j].0,
            #[trigger] rest[i].0,
        ) by {
            assert(rest[i] == sorted[i + 1] && rest[j] == sorted[j + 1]);
        }
        lemma_insert_keeps_order(rest, item);
        let inserted = insert_newest_first(sorted, item);
        if is_newer_spec(item.0, sorted[0].0) {
            assert forall|i: int, j: int| 0 <= i < j < inserted.len() implies !is_newer_spec(
                #[trigger] inserted[j].0,
                #[trigger] inserted[i].0,
            ) by {
                if i > 0 {
                    assert(inserted[i] == sorted[i - 1] && inserted[j] == sorted[j - 1]);
                } else {
                    assert(inserted[j] == sorted[j - 1]);
                    if j - 1 > 0 {
                        assert(!is_newer_spec(sorted[j - 1].0, sorted[0].0));
                    }
                }
            }
        } else {
            let tail = insert_newest_first(rest, item);
            assert forall|i: int, j: int| 0 <= i < j < inserted.len() implies !is_newer_spec(
                #[trigger] inserted[j].0,
                #[trigger] inserted[i].0,
            ) by {
                if i > 0 {
                    assert(inserted[i] == tail[i - 1] && inserted[j] == tail[j - 1]);
                } else {
                    assert(inserted[0] == sorted[0]);
                    assert(inserted[j] == tail[j - 1]);
                    lemma_insert_members(rest, item, j - 1);
                }
            }
        }
    }
}

proof fn lemma_insert_members(sorted: Seq<(Version, Release)>, item: (Version, Release), k: int)
    requires
        0 <= k < sorted.len() + 1,
    ensures
        insert_newest_first(sorted, item).len() == sorted.len() + 1,
        insert_newest_first(sorted, item)[k] == item || exists|j: int|
            0 <= j < sorted.len() && insert_newest_first(sorted, item)[k] == sorted[j],
    decreases sorted.len(),
{
    if sorted.len() > 0 {
        let inserted = insert_newest_first(sorted, item);
        let rest = sorted.drop_first();
        if is_newer_spec(item.0, sorted[0].0) {
            if k > 0 {
                assert(inserted[k] == sorted[k - 1]);
            }
        } else {
            lemma_insert_members(rest, item, if k > 0 { k - 1 } else { 0 });
            if k > 0 {
                let tail = insert_newest_first(rest, item);
                assert(inserted[k] == tail[k - 1]);
                if tail[k - 1] != item {
                    let j = choose|j: int| 0 <= j < rest.len() && tail[k - 1] == rest[j];
                    assert(rest[j] == sorted[j + 1]);
                }
            }
        }
    }
}

proof fn lemma_newest_first_is_sorted(items: Seq<(Version, Release)>)
    ensures
        is_newest_first(newest_first(items)),
        newest_first(items).len() == items.len(),
    decreases items.len(),
{
    if items.len() > 0 {
        lemma_newest_first_is_sorted(items.drop_last());
        lemma_insert_keeps_order(newest_first(items.drop_last()), items.last());
    }
}

/// Every offered release is published, allowed on the channel and newer than what runs.
proof fn lemma_offered_are_newer(current: Version, channel: Channel, releases: Seq<Release>, k: int)
    requires
        0 <= k < offered_releases(current, channel, releases).len(),
    ensures
        offered_version(current, channel, offered_releases(current, channel, releases)[k].1)
            == Some(offered_releases(current, channel, releases)[k].0),
    decreases releases.len(),
{
    if releases.len() > 0 {
        let earlier = offered_releases(current, channel, releases.drop_last());
        if k < earlier.len() {
            lemma_offered_are_newer(current, channel, releases.drop_last(), k);
        }
    }
}

/// What [`newer_releases`] offers is newest first, and every entry is a published release on the
/// channel whose version is newer than the running one; on the stable channel, none is a beta.
pub proof fn lemma_offers_are_newer_and_newest_first(
    current: Version,
    channel: Channel,
    releases: Seq<Release>,
)
    ensures
        is_newest_first(newest_first(offered_releases(current, channel, releases))),
        forall|k: int|
            0 <= k < newest_first(offered_releases(current, channel, releases)).len() ==> {
                let (version, release) = #[trigger] newest_first(
                    offered_releases(current, channel, releases),
                )[k];
                &&& !release.draft
                &&& parse_version_spec(release.tag@) == Some(version)
                &&& is_newer_spec(version, current)
                &&& channel == Channel::Stable ==> !release.prerelease && version.beta.is_none()
            },
{
    let items = offered_releases(current, channel, releases);
    lemma_newest_first_is_sorted(items);
    assert forall|k: int| 0 <= k < newest_first(items).len() implies ({
        let (version, release) = #[trigger] newest_first(items)[k];
        &&& !release.draft
        &&& parse_version_spec(release.tag@) == Some(version)
        &&& is_newer_spec(version, current)
        &&& channel == Channel::Stable ==> !release.prerelease && version.beta.is_none()
    }) by {
        lemma_sorted_members(items, k);
        let j = choose|j: int| 0 <= j < items.len() && newest_first(items)[k] == items[j];
        lemma_offered_are_newer(current, channel, releases, j);
    }
}

proof fn lemma_sorted_members(items: Seq<(Version, Release)>, k: int)
    requires
        0 <= k < newest_first(items).len(),
    ensures
        exists|j: int| 0 <= j < items.len() && newest_first(items)[k] == items[j],
    decreases items.len(),
{
    lemma_newest_first_is_sorted(items);
    if items.len() > 0 {
        let prefix = newest_first(items.drop_last());
        lemma_newest_first_is_sorted(items.drop_last());
        lemma_insert_members(prefix, items.last(), k);
        if newest_first(items)[k] != items.last() {
            let j = choose|j: int| 0 <= j < prefix.len() && newest_first(items)[k] == prefix[j];
            lemma_sorted_members(items.drop_last(), j);
            let i = choose|i: int| 0 <= i < items.drop_last().len() && prefix[j] == items.drop_last()[i];
            assert(items.drop_last()[i] == items[i]);
        } else {
            assert(items[items.len() - 1] == items.last());
        }
    }
}

fn offered_version_of(current: &Version, channel: Channel, release: &Release) -> (version: Option<Version>)
    ensures
        version == offered_version(*current, channel, *release),
{
    if release.draft || (channel == Channel::Stable && release.prerelease) {
        return None;
    }
    match Version::parse(release.tag.as_str()) {
        Some(version) => if (channel == Channel::Stable && version.is_beta()) || !version.is_newer_than(
            current,
        ) {
            None
        } else {
            Some(version)
        },
        None => None,
    }
}

/// The releases worth offering: published, on this channel, and newer than what is running. Newest
/// first, so the first is the one to install and the rest are what else changed on the way to it.
pub fn newer_releases(current: &Version, channel: Channel, releases: &[Release]) -> (offered: Vec<Release>)
    ensures
        offered@ == newer_releases_spec(*current, channel, releases@),
{
    // Collect what is offered, in listed order.
    let mut candidates: Vec<(Version, Release)> = Vec::new();
    let mut i: usize = 0;
    while i < releases.len()
        invariant
            i <= releases@.len(),
            candidates@ == offered_releases(*current, channel, releases@.take(i as int)),
        decreases releases@.len() - i,
    {
        assert(releases@.take(i + 1).drop_last() =~= releases@.take(i as int));
        assert(releases@.take(i + 1).last() == releases@[i as int]);
        match offered_version_of(current, channel, &releases[i]) {
            Some(version) => candidates.push((version, releases[i].clone())),
            None => {},
        }
        i = i + 1;
    }
    assert(releases@.take(releases@.len() as int) =~= releases@);

    // A stable insertion sort, newest first.
    let mut sorted: Vec<(Version, Release)> = Vec::new();
    let mut n: usize = 0;
    while n < candidates.len()
        invariant
            n <= candidates@.len(),
            sorted@ == newest_first(candidates@.take(n as int)),
            sorted@.len() == n,
        decreases candidates@.len() - n,
    {
        let version = candidates[n].0;
        let mut k: usize = 0;
        while k < sorted.len() && !version.is_newer_than(&sorted[k].0)
            invariant
                k <= sorted@.len(),
                forall|j: int| 0 <= j < k ==> !is_newer_spec(version, #[trigger] sorted@[j].0),
            decreases sorted@.len() - k,
        {
            k = k + 1;
        }
        let item = (version, candidates[n].1.clone());
        proof {
            assert(item == candidates@[n as int]);
            lemma_insert_is_position(sorted@, item, k as int);
            assert(candidates@.take(n + 1).drop_last() =~= candidates@.take(n as int));
            assert(candidates@.take(n + 1).last() == item);
            lemma_newest_first_is_sorted(candidates@.take(n + 1));
        }
        sorted.insert(k, item);
        assert(sorted@ =~= newest_first(candidates@.take(n + 1)));
        n = n + 1;
    }
    assert(candidates@.take(candidates@.len() as int) =~= candidates@);

    let mut offered: Vec<Release> = Vec::new();
    let mut m: usize = 0;
    while m < sorted.len()
        invariant
            m <= sorted@.len(),
            offered@ == releases_of(sorted@.take(m as int)),
        decreases sorted@.len() - m,
    {
        offered.push(sorted[m].1.clone());
        assert(releases_of(sorted@.take(m + 1)) =~= releases_of(sorted@.take(m as int)).push(sorted@[m as int].1));
        m = m + 1;
    }
    assert(sorted@.take(sorted@.len() as int) =~= sorted@);
    offered
}

/// Which channel to follow when nothing says otherwise: a beta build keeps following betas, which is
/// what its installer was told, and anything else follows stable releases.
pub fn default_channel(current: &Version) -> (channel: Channel)
    ensures
        channel == (if current.beta.is_some() { Channel::Beta } else { Channel::Stable }),
{
    if current.is_beta() {
        Channel::Beta
    } else {
        Channel::Stable
    }
}

pub open spec fn channel_key() -> Seq<char> {
    seq!['O', 'A', 'R', '_', 'C', 'H', 'A', 'N', 'N', 'E', 'L', '=']
}

/// The value of the last line among the first `end` characters whose trimmed text starts with
/// `OAR_CHANNEL=`, as a shell sourcing the file would see it.
pub open spec fn channel_setting(text: Seq<char>, end: int) -> Option<Seq<char>>
    decreases end,
{
    let newline = last_index_before(text, end, '\n');
    let line = trim_spec(text.subrange(newline + 1, end));
    if 0 <= end <= text.len() && starts_with(line, channel_key()) {
        Some(line.subrange(12, line.len() as int))
    } else if newline < 0 || end <= 0 || end > text.len() {
        None
    } else {
        proof {
            lemma_last_index_before_bounds(text, end, '\n');
        }
        channel_setting(text, newline)
    }
}

/// `beta` or `stable`, possibly quoted and surrounded by whitespace.
pub open spec fn channel_named(value: Seq<char>) -> Option<Channel> {
    let word = trim_matches_spec(trim_spec(value), '"');
    if word == seq!['b', 'e', 't', 'a'] {
        Some(Channel::Beta)
    } else if word == seq!['s', 't', 'a', 'b', 'l', 'e'] {
        Some(Channel::Stable)
    } else {
        None
    }
}

pub open spec fn channel_from_config_spec(text: Seq<char>) -> Option<Channel> {
    match channel_setting(text, text.len() as int) {
        Some(value) => channel_named(value),
        None => None,
    }
}

pub proof fn lemma_last_index_before_bounds(s: Seq<char>, end: int, c: char)
    requires
        0 <= end <= s.len(),
    ensures
        -1 <= last_index_before(s, end, c) < end,
    decreases end,
{
    if end > 0 && s[end - 1] != c {
        lemma_last_index_before_bounds(s, end - 1, c);
    }
}

fn find_channel_setting(chars: &[char], key: &[char], end: usize) -> (value: Option<Vec<char>>)
    requires
        end <= chars@.len(),
        key@ == channel_key(),
    ensures
        match channel_setting(chars@, end as int) {
            Some(v) => value matches Some(found) && found@ == v,
            None => value is None,
        },
    decreases end,
{
    let newline = rfind_char(chars, end, '\n');
    let line_start: usize = match newline {
        Some(index) => index + 1,
        None => 0,
    };
    proof {
        lemma_last_index_before_bounds(chars@, end as int, '\n');
    }
    let line = slice_chars(chars, line_start, end);
    let (start, stop) = trim_bounds(&line);
    let trimmed = slice_chars(line.as_slice(), start, stop);
    if has_prefix(trimmed.as_slice(), key) {
        return Some(slice_chars(trimmed.as_slice(), 12, trimmed.len()));
    }
    match newline {
        Some(index) => find_channel_setting(chars, key, index),
        None => None,
    }
}

/// Read `OAR_CHANNEL` from the installer's `config` file, a list of `KEY=value` lines.
pub fn channel_from_config(text: &str) -> (channel: Option<Channel>)
    ensures
        channel == channel_from_config_spec(text@),
{
    let chars = chars_of(text);
    let key = vec!['O', 'A', 'R', '_', 'C', 'H', 'A', 'N', 'N', 'E', 'L', '='];
    assert(key@ =~= channel_key());
    let value = find_channel_setting(chars.as_slice(), key.as_slice(), chars.len());
    match value {
        Some(value) => {
            let (start, stop) = trim_bounds(&value);
            let inner = slice_chars(value.as_slice(), start, stop);
            let word = trim_matches(inner.as_slice(), '"');
            let beta = vec!['b', 'e', 't', 'a'];
            let stable = vec!['s', 't', 'a', 'b', 'l', 'e'];
            assert(beta@ =~= seq!['b', 'e', 't', 'a']);
            assert(stable@ =~= seq!['s', 't', 'a', 'b', 'l', 'e']);
            if chars_equal(word.as_slice(), beta.as_slice()) {
                Some(Channel::Beta)
            } else if chars_equal(word.as_slice(), stable.as_slice()) {
                Some(Channel::Stable)
            } else {
                None
            }
        },
        None => None,
    }
}

/// How this copy was installed, which decides how it is updated.
#[derive(Debug, PartialEq, Eq)]
pub enum InstallKind {
    /// A folder made by the installer scripts: run the installer again with `--update`.
    Installer { dir: String },
    /// Run by systemd, as the setup guide describes: replace the program and restart the unit.
    Systemd,
    /// Anything else, such as a program started by hand: download the new one from the release page.
    Manual,
}

/// Work out the install kind from what the process can see. `INVOCATION_ID` is set by systemd for every
/// unit it starts; the installers write a start script beside the program. `program_dir` is the
/// program's folder as it displays, and `start_script_found` says whether `start.sh` or `start.cmd`
/// is a file in it.
pub fn detect_install(
    invocation_id: Option<&str>,
    program_dir: Option<&str>,
    start_script_found: bool,
) -> (kind: InstallKind)
    ensures
        (invocation_id matches Some(id) && id@.len() > 0) ==> kind == InstallKind::Systemd,
        !(invocation_id matches Some(id) && id@.len() > 0) ==> match program_dir {
            Some(dir) => if start_script_found {
                kind matches InstallKind::Installer { dir: found } && found@ == dir@
            } else {
                kind == InstallKind::Manual
            },
            None => kind == InstallKind::Manual,
        },
{
    if let Some(id) = invocation_id {
        if !id.is_empty() {
            return InstallKind::Systemd;
        }
    }
    match program_dir {
        Some(dir) if start_script_found => {
            let chars = chars_of(dir);
            InstallKind::Installer { dir: string_from_chars(chars.as_slice()) }
        },
        _ => InstallKind::Manual,
    }
}

} // verus!
