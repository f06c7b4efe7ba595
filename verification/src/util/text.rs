//! Text handling with exact contracts: whitespace trimming, decimal numbers, and building strings.

use vstd::prelude::*;

verus! {

/// `char::is_whitespace`: the Unicode `White_Space` property.
pub open spec fn is_white_space(c: char) -> bool {
    let u = c as u32;
    ||| (0x09 <= u && u <= 0x0d)
    ||| u == 0x20
    ||| u == 0x85
    ||| u == 0xa0
    ||| u == 0x1680
    ||| (0x2000 <= u && u <= 0x200a)
    ||| u == 0x2028
    ||| u == 0x2029
    ||| u == 0x202f
    ||| u == 0x205f
    ||| u == 0x3000
}

pub fn is_whitespace(c: char) -> (white: bool)
    ensures
        white == is_white_space(c),
{
    let u = c as u32;
    (0x09 <= u && u <= 0x0d) || u == 0x20 || u == 0x85 || u == 0xa0 || u == 0x1680 || (0x2000 <= u
        && u <= 0x200a) || u == 0x2028 || u == 0x2029 || u == 0x202f || u == 0x205f || u == 0x3000
}

/// The text without its leading whitespace.
pub open spec fn trim_start_spec(s: Seq<char>) -> Seq<char>
    decreases s.len(),
{
    if s.len() > 0 && is_white_space(s[0]) {
        trim_start_spec(s.drop_first())
    } else {
        s
    }
}

/// The text without its trailing whitespace.
pub open spec fn trim_end_spec(s: Seq<char>) -> Seq<char>
    decreases s.len(),
{
    if s.len() > 0 && is_white_space(s.last()) {
        trim_end_spec(s.drop_last())
    } else {
        s
    }
}

/// `str::trim`: the text without leading and trailing whitespace.
pub open spec fn trim_spec(s: Seq<char>) -> Seq<char> {
    trim_end_spec(trim_start_spec(s))
}

/// The characters of a string, in order.
pub fn chars_of(s: &str) -> (chars: Vec<char>)
    ensures
        chars@ == s@,
{
    let mut chars: Vec<char> = Vec::new();
    for c in it: s.chars()
        invariant
            chars@ == it.seq().take(it.index()),
    {
        chars.push(c);
    }
    chars
}

/// `String::push`: appends one character.
#[verifier::external_body]
pub(crate) fn push_char(s: &mut String, c: char)
    ensures
        final(s)@ == old(s)@.push(c),
{
    s.push(c);
}

/// A string holding exactly `chars`.
pub fn string_from_chars(chars: &[char]) -> (s: String)
    ensures
        s@ == chars@,
{
    let mut s = String::new();
    let mut i: usize = 0;
    while i < chars.len()
        invariant
            i <= chars@.len(),
            s@ == chars@.take(i as int),
        decreases chars@.len() - i,
    {
        push_char(&mut s, chars[i]);
        assert(chars@.take(i + 1) =~= chars@.take(i as int).push(chars@[i as int]));
        i = i + 1;
    }
    assert(chars@.take(chars@.len() as int) =~= chars@);
    s
}

proof fn lemma_trim_start_skips(s: Seq<char>, k: int)
    requires
        0 <= k <= s.len(),
        forall|j: int| 0 <= j < k ==> is_white_space(#[trigger] s[j]),
        k == s.len() || !is_white_space(s[k]),
    ensures
        trim_start_spec(s) == s.subrange(k, s.len() as int),
    decreases k,
{
    if k == 0 {
        assert(s.subrange(0, s.len() as int) =~= s);
    } else {
        let rest = s.drop_first();
        assert forall|j: int| 0 <= j < k - 1 implies is_white_space(#[trigger] rest[j]) by {
            assert(rest[j] == s[j + 1]);
        }
        assert(k - 1 == rest.len() || rest[k - 1] == s[k]);
        lemma_trim_start_skips(rest, k - 1);
        assert(rest.subrange(k - 1, rest.len() as int) =~= s.subrange(k, s.len() as int));
    }
}

proof fn lemma_trim_end_skips(s: Seq<char>, k: int)
    requires
        0 <= k <= s.len(),
        forall|j: int| k <= j < s.len() ==> is_white_space(#[trigger] s[j]),
        k == 0 || !is_white_space(s[k - 1]),
    ensures
        trim_end_spec(s) == s.subrange(0, k),
    decreases s.len() - k,
{
    if k == s.len() {
        assert(s.subrange(0, k) =~= s);
    } else {
        let rest = s.drop_last();
        assert forall|j: int| k <= j < rest.len() implies is_white_space(#[trigger] rest[j]) by {
            assert(rest[j] == s[j]);
        }
        assert(k == 0 || rest[k - 1] == s[k - 1]);
        lemma_trim_end_skips(rest, k);
        assert(rest.subrange(0, k) =~= s.subrange(0, k));
    }
}

/// `str::trim` on a sequence of characters: the bounds of the text between the leading and the
/// trailing whitespace.
pub fn trim_bounds(chars: &Vec<char>) -> (bounds: (usize, usize))
    ensures
        bounds.0 <= bounds.1 <= chars@.len(),
        trim_spec(chars@) == chars@.subrange(bounds.0 as int, bounds.1 as int),
{
    let n = chars.len();
    let mut start: usize = 0;
    while start < n && is_whitespace(chars[start])
        invariant
            start <= n == chars@.len(),
            forall|j: int| 0 <= j < start ==> is_white_space(#[trigger] chars@[j]),
        decreases n - start,
    {
        start = start + 1;
    }
    let mut end: usize = n;
    while end > start && is_whitespace(chars[end - 1])
        invariant
            start <= end <= n == chars@.len(),
            forall|j: int| end <= j < n ==> is_white_space(#[trigger] chars@[j]),
        decreases end - start,
    {
        end = end - 1;
    }
    proof {
        lemma_trim_start_skips(chars@, start as int);
        let rest = chars@.subrange(start as int, n as int);
        assert forall|j: int| end - start <= j < rest.len() implies is_white_space(
            #[trigger] rest[j],
        ) by {
            assert(rest[j] == chars@[start + j]);
        }
        if end > start {
            assert(rest[end - start - 1] == chars@[end - 1]);
        }
        lemma_trim_end_skips(rest, end - start);
        assert(rest.subrange(0, end - start) =~= chars@.subrange(start as int, end as int));
    }
    (start, end)
}

/// `str::trim`, as an owned string.
pub fn trim(s: &str) -> (trimmed: String)
    ensures
        trimmed@ == trim_spec(s@),
{
    let chars = chars_of(s);
    let (start, end) = trim_bounds(&chars);
    let mut out = String::new();
    let mut i = start;
    while i < end
        invariant
            start <= i <= end <= chars@.len(),
            out@ == chars@.subrange(start as int, i as int),
        decreases end - i,
    {
        push_char(&mut out, chars[i]);
        assert(chars@.subrange(start as int, i + 1) =~= chars@.subrange(start as int, i as int).push(
            chars@[i as int],
        ));
        i = i + 1;
    }
    out
}

/// The ASCII digit for `d`.
pub open spec fn digit_char(d: int) -> char {
    (d + 48) as char
}

/// The decimal representation of `n`, without leading zeros.
pub open spec fn decimal(n: nat) -> Seq<char>
    decreases n,
{
    if n < 10 {
        seq![digit_char(n as int)]
    } else {
        decimal(n / 10).push(digit_char((n % 10) as int))
    }
}

/// The decimal representation of a signed number, with a minus sign when negative.
pub open spec fn signed_decimal(n: int) -> Seq<char> {
    if n < 0 {
        seq!['-'] + decimal((-n) as nat)
    } else {
        decimal(n as nat)
    }
}

fn digit(d: u64) -> (c: char)
    requires
        d < 10,
    ensures
        c == digit_char(d as int),
{
    let c: char = match d {
        0 => '0',
        1 => '1',
        2 => '2',
        3 => '3',
        4 => '4',
        5 => '5',
        6 => '6',
        7 => '7',
        8 => '8',
        _ => '9',
    };
    assert(c == digit_char(d as int));
    c
}

/// The digits of `n`, most significant first.
pub fn decimal_chars(n: u64) -> (chars: Vec<char>)
    ensures
        chars@ == decimal(n as nat),
    decreases n,
{
    if n < 10 {
        let mut chars: Vec<char> = Vec::new();
        chars.push(digit(n));
        assert(chars@ =~= decimal(n as nat));
        chars
    } else {
        let mut chars = decimal_chars(n / 10);
        chars.push(digit(n % 10));
        chars
    }
}

/// `u64::to_string`.
pub fn u64_to_decimal(n: u64) -> (text: String)
    ensures
        text@ == decimal(n as nat),
{
    let chars = decimal_chars(n);
    string_from_chars(chars.as_slice())
}

/// `digits` with zeros in front until it is `width` long.
pub open spec fn zero_padded(digits: Seq<char>, width: nat) -> Seq<char> {
    if digits.len() >= width {
        digits
    } else {
        Seq::new((width - digits.len()) as nat, |_i: int| '0') + digits
    }
}

/// The decimal digits of `n`, zero-padded to `width`, as `format!("{n:0width$}")` writes them.
pub fn padded_decimal(n: u64, width: usize) -> (chars: Vec<char>)
    ensures
        chars@ == zero_padded(decimal(n as nat), width as nat),
{
    let digits = decimal_chars(n);
    if digits.len() >= width {
        return digits;
    }
    let zeros = width - digits.len();
    let mut chars: Vec<char> = Vec::new();
    let mut i: usize = 0;
    while i < zeros
        invariant
            i <= zeros,
            chars@ == Seq::new(i as nat, |_i: int| '0'),
        decreases zeros - i,
    {
        chars.push('0');
        assert(chars@ =~= Seq::new((i + 1) as nat, |_i: int| '0'));
        i = i + 1;
    }
    let mut j: usize = 0;
    while j < digits.len()
        invariant
            j <= digits@.len(),
            chars@ == Seq::new(zeros as nat, |_i: int| '0') + digits@.take(j as int),
        decreases digits@.len() - j,
    {
        chars.push(digits[j]);
        assert(digits@.take(j + 1) =~= digits@.take(j as int).push(digits@[j as int]));
        assert(chars@ =~= Seq::new(zeros as nat, |_i: int| '0') + digits@.take(j + 1));
        j = j + 1;
    }
    assert(digits@.take(digits@.len() as int) =~= digits@);
    chars
}

/// Appends every character of `more` to `chars`.
pub fn extend_chars(chars: &mut Vec<char>, more: &[char])
    ensures
        final(chars)@ == old(chars)@ + more@,
{
    let mut i: usize = 0;
    while i < more.len()
        invariant
            i <= more@.len(),
            chars@ == old(chars)@ + more@.take(i as int),
        decreases more@.len() - i,
    {
        chars.push(more[i]);
        assert(more@.take(i + 1) =~= more@.take(i as int).push(more@[i as int]));
        i = i + 1;
    }
    assert(more@.take(more@.len() as int) =~= more@);
}

/// `i64::to_string`.
pub fn i64_to_decimal(n: i64) -> (text: String)
    ensures
        text@ == signed_decimal(n as int),
{
    if n < 0 {
        let magnitude: u64 = if n == i64::MIN {
            0x8000_0000_0000_0000
        } else {
            (-n) as u64
        };
        let mut text = String::new();
        push_char(&mut text, '-');
        let digits = decimal_chars(magnitude);
        let mut i: usize = 0;
        while i < digits.len()
            invariant
                i <= digits@.len(),
                digits@ == decimal(magnitude as nat),
                text@ == seq!['-'] + digits@.take(i as int),
            decreases digits@.len() - i,
        {
            push_char(&mut text, digits[i]);
            assert(digits@.take(i + 1) =~= digits@.take(i as int).push(digits@[i as int]));
            assert(seq!['-'] + digits@.take(i + 1) =~= (seq!['-'] + digits@.take(i as int)).push(
                digits@[i as int],
            ));
            i = i + 1;
        }
        assert(digits@.take(digits@.len() as int) =~= digits@);
        text
    } else {
        u64_to_decimal(n as u64)
    }
}

pub open spec fn is_digit(c: char) -> bool {
    48 <= (c as u32) <= 57
}

pub open spec fn all_digits(s: Seq<char>) -> bool {
    forall|i: int| 0 <= i < s.len() ==> is_digit(#[trigger] s[i])
}

/// The value of a run of decimal digits.
pub open spec fn digits_value(s: Seq<char>) -> int
    decreases s.len(),
{
    if s.len() == 0 {
        0
    } else {
        digits_value(s.drop_last()) * 10 + ((s.last() as u32) - 48)
    }
}

/// `str::parse` for an unsigned integer type whose largest value is `max`: an optional `+`, then at
/// least one ASCII digit and nothing else, with a value no larger than `max`.
pub open spec fn parse_unsigned_spec(s: Seq<char>, max: int) -> Option<int> {
    parse_digits_spec(unsigned_body(s), max)
}

/// The digits of an unsigned number: the text without one optional leading `+`.
pub open spec fn unsigned_body(s: Seq<char>) -> Seq<char> {
    if s.len() > 0 && s[0] == '+' {
        s.drop_first()
    } else {
        s
    }
}

/// At least one ASCII digit and nothing else, with a value no larger than `max`.
pub open spec fn parse_digits_spec(body: Seq<char>, max: int) -> Option<int> {
    if body.len() == 0 || !all_digits(body) {
        None
    } else if digits_value(body) > max {
        None
    } else {
        Some(digits_value(body))
    }
}

pub(crate) proof fn lemma_digits_value_grows(s: Seq<char>, k: int)
    requires
        0 <= k <= s.len(),
        all_digits(s),
    ensures
        digits_value(s.take(k)) <= digits_value(s),
        digits_value(s.take(k)) >= 0,
    decreases s.len() - k,
{
    if k < s.len() {
        lemma_digits_value_grows(s, k + 1);
        assert(s.take(k + 1).drop_last() =~= s.take(k));
        assert(is_digit(s[k]));
        lemma_digits_value_nonnegative(s.take(k));
    } else {
        assert(s.take(k) =~= s);
        lemma_digits_value_nonnegative(s);
    }
}

proof fn lemma_digits_value_nonnegative(s: Seq<char>)
    requires
        all_digits(s),
    ensures
        digits_value(s) >= 0,
    decreases s.len(),
{
    if s.len() > 0 {
        lemma_digits_value_nonnegative(s.drop_last());
        assert(is_digit(s[s.len() - 1]));
    }
}

/// Parse an unsigned decimal number no larger than `max`, as `str::parse` does for unsigned integers.
pub fn parse_unsigned(chars: &[char], max: u64) -> (value: Option<u64>)
    ensures
        value == (match parse_unsigned_spec(chars@, max as int) {
            Some(v) => Some(v as u64),
            None => None,
        }),
        parse_unsigned_spec(chars@, max as int) matches Some(v) ==> 0 <= v <= max,
{
    let n = chars.len();
    let start: usize = if n > 0 && chars[0] == '+' { 1 } else { 0 };
    let ghost body = unsigned_body(chars@);
    assert(body =~= chars@.subrange(start as int, n as int));
    if start == n {
        return None;
    }
    let mut value: u64 = 0;
    let mut i = start;
    while i < n
        invariant
            start <= i <= n == chars@.len(),
            body == chars@.subrange(start as int, n as int),
            body == unsigned_body(chars@),
            all_digits(body.take(i - start)),
            value == digits_value(body.take(i - start)),
            value <= max,
        decreases n - i,
    {
        let c = chars[i];
        let code = c as u32;
        if code < 48 || code > 57 {
            assert(!all_digits(body)) by {
                assert(body[i - start] == c);
                assert(!is_digit(body[i - start]));
            }
            assert(parse_unsigned_spec(chars@, max as int) is None);
            return None;
        }
        let d = (code - 48) as u64;
        assert(body.take(i + 1 - start).drop_last() =~= body.take(i - start));
        assert(body.take(i + 1 - start).last() == c);
        assert(all_digits(body.take(i + 1 - start))) by {
            assert forall|j: int| 0 <= j < i + 1 - start implies is_digit(
                #[trigger] body.take(i + 1 - start)[j],
            ) by {
                if j < i - start {
                    assert(body.take(i + 1 - start)[j] == body.take(i - start)[j]);
                }
            }
        }
        let next: u128 = value as u128 * 10 + d as u128;
        if next > max as u128 {
            proof {
                assert(digits_value(body.take(i + 1 - start)) > max);
                if all_digits(body) {
                    lemma_digits_value_grows(body, i + 1 - start);
                }
            }
            return None;
        }
        value = next as u64;
        i = i + 1;
    }
    assert(body.take(n - start) =~= body);
    Some(value)
}

/// Two texts hold the same characters.
pub fn chars_equal(a: &[char], b: &[char]) -> (equal: bool)
    ensures
        equal == (a@ == b@),
{
    if a.len() != b.len() {
        return false;
    }
    let mut i: usize = 0;
    while i < a.len()
        invariant
            a@.len() == b@.len(),
            i <= a@.len(),
            forall|j: int| 0 <= j < i ==> a@[j] == b@[j],
        decreases a@.len() - i,
    {
        if a[i] != b[i] {
            return false;
        }
        i = i + 1;
    }
    assert(a@ =~= b@);
    true
}

/// `str == str`.
pub fn str_equal(a: &str, b: &str) -> (equal: bool)
    ensures
        equal == (a@ == b@),
{
    let left = chars_of(a);
    let right = chars_of(b);
    chars_equal(left.as_slice(), right.as_slice())
}

/// `char::to_ascii_lowercase`.
pub open spec fn ascii_lower(c: char) -> char {
    if 65 <= (c as u32) <= 90 {
        ((c as u32) + 32) as char
    } else {
        c
    }
}

/// `str::to_ascii_lowercase`.
pub open spec fn ascii_lower_spec(s: Seq<char>) -> Seq<char> {
    s.map_values(|c: char| ascii_lower(c))
}

pub fn to_ascii_lowercase(chars: &[char]) -> (lower: Vec<char>)
    ensures
        lower@ == ascii_lower_spec(chars@),
{
    let mut lower: Vec<char> = Vec::new();
    let mut i: usize = 0;
    while i < chars.len()
        invariant
            i <= chars@.len(),
            lower@ == ascii_lower_spec(chars@.take(i as int)),
        decreases chars@.len() - i,
    {
        let c = chars[i];
        let code = c as u32;
        let mapped: char = if 65 <= code && code <= 90 {
            let shifted = (code + 32) as u8;
            shifted as char
        } else {
            c
        };
        lower.push(mapped);
        assert(ascii_lower_spec(chars@.take(i + 1)) =~= ascii_lower_spec(chars@.take(i as int)).push(
            ascii_lower(c),
        ));
        i = i + 1;
    }
    assert(chars@.take(chars@.len() as int) =~= chars@);
    lower
}

/// The decimal representation of a number is a non-empty run of digits worth that number.
pub proof fn lemma_decimal_digits(n: nat)
    ensures
        decimal(n).len() >= 1,
        all_digits(decimal(n)),
        digits_value(decimal(n)) == n,
    decreases n,
{
    assert((digit_char((n % 10) as int) as u32) == (n % 10) + 48);
    if n < 10 {
        let d = decimal(n);
        assert(d.drop_last() =~= Seq::<char>::empty());
        assert(digits_value(Seq::<char>::empty()) == 0);
        assert(d.last() == digit_char(n as int));
        assert(n % 10 == n);
        assert(digits_value(d) == digits_value(d.drop_last()) * 10 + ((d.last() as u32) - 48));
    } else {
        lemma_decimal_digits(n / 10);
        let d = decimal(n);
        assert(d.drop_last() =~= decimal(n / 10));
        assert forall|i: int| 0 <= i < d.len() implies is_digit(#[trigger] d[i]) by {
            if i < d.len() - 1 {
                assert(d[i] == decimal(n / 10)[i]);
            }
        }
    }
}

/// Text that neither starts nor ends with whitespace is its own trim.
pub proof fn lemma_trim_of_clean_text(s: Seq<char>)
    requires
        s.len() == 0 || (!is_white_space(s[0]) && !is_white_space(s.last())),
    ensures
        trim_spec(s) == s,
{
    lemma_trim_start_skips(s, 0);
    assert(s.subrange(0, s.len() as int) =~= s);
    lemma_trim_end_skips(s, s.len() as int);
    assert(s.subrange(0, s.len() as int) =~= s);
}

proof fn lemma_trim_start_is_clean(s: Seq<char>)
    ensures
        trim_start_spec(s).len() == 0 || !is_white_space(trim_start_spec(s)[0]),
    decreases s.len(),
{
    if s.len() > 0 && is_white_space(s[0]) {
        lemma_trim_start_is_clean(s.drop_first());
    }
}

proof fn lemma_trim_end_is_clean_prefix(s: Seq<char>)
    ensures
        trim_end_spec(s).len() <= s.len(),
        trim_end_spec(s) == s.subrange(0, trim_end_spec(s).len() as int),
        trim_end_spec(s).len() == 0 || !is_white_space(trim_end_spec(s).last()),
    decreases s.len(),
{
    if s.len() > 0 && is_white_space(s.last()) {
        lemma_trim_end_is_clean_prefix(s.drop_last());
        let r = trim_end_spec(s.drop_last());
        assert(s.drop_last().subrange(0, r.len() as int) =~= s.subrange(0, r.len() as int));
    } else {
        assert(s.subrange(0, s.len() as int) =~= s);
    }
}

/// Trimmed text neither starts nor ends with whitespace, so trimming it again changes nothing.
pub proof fn lemma_trim_is_idempotent(s: Seq<char>)
    ensures
        trim_spec(s).len() == 0 || (!is_white_space(trim_spec(s)[0]) && !is_white_space(
            trim_spec(s).last(),
        )),
        trim_spec(trim_spec(s)) == trim_spec(s),
{
    let start = trim_start_spec(s);
    lemma_trim_start_is_clean(s);
    lemma_trim_end_is_clean_prefix(start);
    let t = trim_spec(s);
    if t.len() > 0 {
        assert(t[0] == start[0]);
    }
    lemma_trim_of_clean_text(t);
}

/// Digits are not whitespace.
pub proof fn lemma_digits_are_not_white(c: char)
    requires
        is_digit(c),
    ensures
        !is_white_space(c),
        c != '+',
{
}

/// Printing a number in decimal and parsing it back gives the number.
pub proof fn lemma_decimal_parses_back(n: nat, max: int)
    requires
        n <= max,
    ensures
        trim_spec(decimal(n)) == decimal(n),
        parse_unsigned_spec(decimal(n), max) == Some(n as int),
{
    lemma_decimal_digits(n);
    let d = decimal(n);
    lemma_digits_are_not_white(d[0]);
    lemma_digits_are_not_white(d[d.len() - 1]);
    lemma_trim_of_clean_text(d);
    assert(unsigned_body(d) == d);
}

/// Index of the first `c` in `s`, or the length of `s` when there is none.
pub open spec fn first_index_of(s: Seq<char>, c: char) -> int
    decreases s.len(),
{
    if s.len() == 0 {
        0
    } else if s[0] == c {
        0
    } else {
        1 + first_index_of(s.drop_first(), c)
    }
}

pub proof fn lemma_first_index_of(s: Seq<char>, c: char)
    ensures
        0 <= first_index_of(s, c) <= s.len(),
        first_index_of(s, c) < s.len() ==> s[first_index_of(s, c)] == c,
        forall|j: int| 0 <= j < first_index_of(s, c) ==> s[j] != c,
    decreases s.len(),
{
    if s.len() > 0 && s[0] != c {
        lemma_first_index_of(s.drop_first(), c);
        assert forall|j: int| 0 <= j < first_index_of(s, c) implies s[j] != c by {
            if j > 0 {
                assert(s[j] == s.drop_first()[j - 1]);
            }
        }
    }
}

/// Position of the first `c` at or after `from`, or the length when there is none.
pub fn find_char(chars: &[char], from: usize, c: char) -> (index: usize)
    requires
        from <= chars@.len(),
    ensures
        index == from + first_index_of(chars@.subrange(from as int, chars@.len() as int), c),
        from <= index <= chars@.len(),
{
    let mut i = from;
    proof {
        lemma_first_index_of(chars@.subrange(from as int, chars@.len() as int), c);
    }
    while i < chars.len() && chars[i] != c
        invariant
            from <= i <= chars@.len(),
            forall|j: int| from <= j < i ==> chars@[j] != c,
        decreases chars@.len() - i,
    {
        i = i + 1;
    }
    proof {
        let rest = chars@.subrange(from as int, chars@.len() as int);
        let k = first_index_of(rest, c);
        if k < i - from {
            assert(rest[k] == chars@[from + k]);
        }
        if i - from < k {
            assert(rest[i - from] == chars@[i as int]);
        }
    }
    i
}

/// The characters from `start` up to `end`.
pub fn slice_chars(chars: &[char], start: usize, end: usize) -> (part: Vec<char>)
    requires
        start <= end <= chars@.len(),
    ensures
        part@ == chars@.subrange(start as int, end as int),
{
    let mut part: Vec<char> = Vec::new();
    let mut i = start;
    while i < end
        invariant
            start <= i <= end <= chars@.len(),
            part@ == chars@.subrange(start as int, i as int),
        decreases end - i,
    {
        part.push(chars[i]);
        assert(chars@.subrange(start as int, i + 1) =~= chars@.subrange(start as int, i as int).push(
            chars@[i as int],
        ));
        i = i + 1;
    }
    part
}

/// `s` begins with `prefix`.
pub open spec fn starts_with(s: Seq<char>, prefix: Seq<char>) -> bool {
    prefix.len() <= s.len() && s.subrange(0, prefix.len() as int) == prefix
}

pub fn has_prefix(chars: &[char], prefix: &[char]) -> (found: bool)
    ensures
        found == starts_with(chars@, prefix@),
{
    if prefix.len() > chars.len() {
        return false;
    }
    let mut i: usize = 0;
    while i < prefix.len()
        invariant
            prefix@.len() <= chars@.len(),
            i <= prefix@.len(),
            forall|j: int| 0 <= j < i ==> chars@[j] == prefix@[j],
        decreases prefix@.len() - i,
    {
        if chars[i] != prefix[i] {
            assert(chars@.subrange(0, prefix@.len() as int)[i as int] != prefix@[i as int]);
            return false;
        }
        i = i + 1;
    }
    assert(chars@.subrange(0, prefix@.len() as int) =~= prefix@);
    true
}

/// Index of the last `c` among the first `end` characters, or -1 when there is none.
pub open spec fn last_index_before(s: Seq<char>, end: int, c: char) -> int
    decreases end,
{
    if end <= 0 {
        -1
    } else if s[end - 1] == c {
        end - 1
    } else {
        last_index_before(s, end - 1, c)
    }
}

pub fn rfind_char(chars: &[char], end: usize, c: char) -> (index: Option<usize>)
    requires
        end <= chars@.len(),
    ensures
        match index {
            Some(i) => i == last_index_before(chars@, end as int, c) && i < end,
            None => last_index_before(chars@, end as int, c) == -1,
        },
{
    let mut i = end;
    while i > 0
        invariant
            i <= end <= chars@.len(),
            last_index_before(chars@, end as int, c) == last_index_before(chars@, i as int, c),
        decreases i,
    {
        if chars[i - 1] == c {
            return Some(i - 1);
        }
        i = i - 1;
    }
    None
}

/// The text without leading and trailing `c` characters.
pub open spec fn trim_matches_spec(s: Seq<char>, c: char) -> Seq<char>
    decreases s.len(),
{
    if s.len() > 0 && s[0] == c {
        trim_matches_spec(s.drop_first(), c)
    } else if s.len() > 0 && s.last() == c {
        trim_matches_spec(s.drop_last(), c)
    } else {
        s
    }
}

/// `str::trim_matches` for a single character.
/// The text without the copies of `c` it starts with.
pub open spec fn trim_start_matches_spec(s: Seq<char>, c: char) -> Seq<char>
    decreases s.len(),
{
    if s.len() > 0 && s[0] == c {
        trim_start_matches_spec(s.drop_first(), c)
    } else {
        s
    }
}

/// `str::trim_start_matches` with a single character.
pub fn trim_start_matches(chars: &[char], c: char) -> (trimmed: Vec<char>)
    ensures
        trimmed@ == trim_start_matches_spec(chars@, c),
{
    let mut start: usize = 0;
    assert(chars@.subrange(0, chars@.len() as int) =~= chars@);
    while start < chars.len() && chars[start] == c
        invariant
            start <= chars@.len(),
            trim_start_matches_spec(chars@, c) == trim_start_matches_spec(
                chars@.subrange(start as int, chars@.len() as int),
                c,
            ),
        decreases chars@.len() - start,
    {
        assert(chars@.subrange(start as int, chars@.len() as int).drop_first() =~= chars@.subrange(
            start + 1,
            chars@.len() as int,
        ));
        start = start + 1;
    }
    slice_chars(chars, start, chars.len())
}

pub fn trim_matches(chars: &[char], c: char) -> (trimmed: Vec<char>)
    ensures
        trimmed@ == trim_matches_spec(chars@, c),
{
    let mut start: usize = 0;
    let mut end: usize = chars.len();
    assert(chars@.subrange(0, chars@.len() as int) =~= chars@);
    while start < end && (chars[start] == c || chars[end - 1] == c)
        invariant
            start <= end <= chars@.len(),
            trim_matches_spec(chars@, c) == trim_matches_spec(chars@.subrange(start as int, end as int), c),
        decreases end - start,
    {
        let ghost current = chars@.subrange(start as int, end as int);
        if chars[start] == c {
            assert(current.drop_first() =~= chars@.subrange(start + 1, end as int));
            start = start + 1;
        } else {
            assert(current.drop_last() =~= chars@.subrange(start as int, end - 1));
            end = end - 1;
        }
    }
    slice_chars(chars, start, end)
}

} // verus!
