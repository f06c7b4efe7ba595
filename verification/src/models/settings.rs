//! User editable runtime preferences.
//!
//! Settings live in a key value table rather than a single row table so adding a preference is a code
//! change only, with no schema migration. The typed struct here is the contract: [`Settings::from_pairs`]
//! is the single place that parses the stored strings, and every value is clamped rather than rejected
//! so a hand edited database can never stop the service from booting.
//!
//! The input gain is a 32 bit float. This library keeps it as its IEEE 754 bit pattern and clamps it
//! by that pattern; turning the stored text into that pattern, and back, is done by the application,
//! which hands the parsed pattern to [`Settings::from_pairs`] and the printed value to
//! [`Settings::to_pairs`].

use crate::util::text::{
    ascii_lower_spec, chars_equal, chars_of, decimal, lemma_decimal_digits, lemma_decimal_parses_back,
    lemma_trim_of_clean_text, parse_unsigned, parse_unsigned_spec, str_equal, string_from_chars,
    to_ascii_lowercase, trim_bounds, trim_spec, u64_to_decimal, unsigned_body,
};
use vstd::prelude::*;

verus! {

pub const KEY_INPUT_DEVICE_ID: &'static str = "input_device_id";
pub const KEY_GAIN: &'static str = "gain";
pub const KEY_SEGMENT_SECONDS: &'static str = "segment_seconds";
pub const KEY_RETENTION_HOURS: &'static str = "retention_hours";
pub const KEY_AUTO_START: &'static str = "auto_start";
pub const KEY_AUTO_START_DELAY_SECONDS: &'static str = "auto_start_delay_seconds";
pub const KEY_FRAME_MS: &'static str = "frame_ms";
pub const KEY_RECORDINGS_DIR: &'static str = "recordings_dir";
pub const KEY_RECORDING_SAMPLE_RATE: &'static str = "recording_sample_rate";
pub const KEY_CHECK_FOR_UPDATES: &'static str = "check_for_updates";

/// Sample rates the recorder will downmix to, highest first.
///
/// Uncompressed PCM means the rate *is* the bit rate: at 16 bit mono, 48 kHz is 768 kbit/s and 8 kHz is
/// 128 kbit/s, so this list is also the storage ladder.
pub const SUPPORTED_SAMPLE_RATES: [u32; 5] = [48_000, 32_000, 24_000, 16_000, 8_000];

/// Bit pattern of the gain `1.0`, the default.
pub const GAIN_ONE_BITS: u32 = 0x3f80_0000;
/// Bit pattern of the gain `4.0`, the top of the gain range.
pub const GAIN_MAX_BITS: u32 = 0x4080_0000;
/// Bit pattern of the gain `0.0`, the bottom of the gain range.
pub const GAIN_MIN_BITS: u32 = 0;

pub const SEGMENT_SECONDS_RANGE: (u32, u32) = (5, 300);
/// Ten years is the largest finite window. Anything longer is really "keep forever", which has its own
/// representation rather than being encoded as an implausibly large number.
pub const RETENTION_HOURS_RANGE: (u32, u32) = (1, 87_600);
pub const FRAME_MS_RANGE: (u32, u32) = (20, 500);
/// Ten minutes is far longer than any USB interface takes to enumerate.
pub const AUTO_START_DELAY_SECONDS_RANGE: (u32, u32) = (0, 600);

/// Bits per second a mono 16 bit stream occupies at `sample_rate`.
pub fn bit_rate_for(sample_rate: u32) -> (bits: u32)
    requires
        sample_rate * 16 <= u32::MAX,
    ensures
        bits == sample_rate * 16,
{
    sample_rate * 16
}

#[derive(Debug, PartialEq, Eq)]
pub struct Settings {
    /// `None` means follow the system default input device.
    pub input_device_id: Option<String>,
    /// The input gain, as the bit pattern of an `f32`.
    pub gain_bits: u32,
    pub segment_seconds: u32,
    /// How long recordings are kept. `None` means keep them forever.
    pub retention_hours: Option<u32>,
    pub auto_start: bool,
    /// How long auto start waits after the service boots before opening the device.
    pub auto_start_delay_seconds: u32,
    pub frame_ms: u32,
    /// Rate the recorder downsamples to. `None` keeps the device's own rate.
    pub recording_sample_rate: Option<u32>,
    /// Where segment files are written. `None` uses `<data dir>/recordings`.
    pub recordings_dir: Option<String>,
    /// Whether to ask every few hours if a newer release exists.
    pub check_for_updates: bool,
}

/// The settings as the contracts speak of them, text as characters.
pub struct SettingsView {
    pub input_device_id: Option<Seq<char>>,
    pub gain_bits: u32,
    pub segment_seconds: u32,
    pub retention_hours: Option<u32>,
    pub auto_start: bool,
    pub auto_start_delay_seconds: u32,
    pub frame_ms: u32,
    pub recording_sample_rate: Option<u32>,
    pub recordings_dir: Option<Seq<char>>,
    pub check_for_updates: bool,
}

pub open spec fn opt_text(value: Option<String>) -> Option<Seq<char>> {
    match value {
        Some(text) => Some(text@),
        None => None,
    }
}

impl View for Settings {
    type V = SettingsView;

    open spec fn view(&self) -> SettingsView {
        SettingsView {
            input_device_id: opt_text(self.input_device_id),
            gain_bits: self.gain_bits,
            segment_seconds: self.segment_seconds,
            retention_hours: self.retention_hours,
            auto_start: self.auto_start,
            auto_start_delay_seconds: self.auto_start_delay_seconds,
            frame_ms: self.frame_ms,
            recording_sample_rate: self.recording_sample_rate,
            recordings_dir: opt_text(self.recordings_dir),
            check_for_updates: self.check_for_updates,
        }
    }
}

pub open spec fn default_settings() -> SettingsView {
    SettingsView {
        input_device_id: None,
        gain_bits: GAIN_ONE_BITS,
        segment_seconds: 10,
        retention_hours: Some(24),
        auto_start: true,
        auto_start_delay_seconds: 0,
        frame_ms: 100,
        recording_sample_rate: None,
        recordings_dir: None,
        check_for_updates: true,
    }
}

impl Default for Settings {
    fn default() -> (settings: Self)
        ensures
            settings@ == default_settings(),
    {
        Self {
            input_device_id: None,
            gain_bits: GAIN_ONE_BITS,
            segment_seconds: 10,
            retention_hours: Some(24),
            auto_start: true,
            auto_start_delay_seconds: 0,
            frame_ms: 100,
            recording_sample_rate: None,
            recordings_dir: None,
            check_for_updates: true,
        }
    }
}

/// An `f32` bit pattern is finite when its exponent field is not all ones.
pub open spec fn gain_is_finite(bits: u32) -> bool {
    (bits / 0x80_0000) % 256 != 255
}

/// `f32::clamp(0.0, 4.0)` on a finite gain, and `1.0` for infinities and NaN. Positive floats order as
/// their bit patterns do; a negative float is below zero unless it is negative zero, which `clamp`
/// leaves as it is.
pub open spec fn clamp_gain_spec(bits: u32) -> u32 {
    if !gain_is_finite(bits) {
        GAIN_ONE_BITS
    } else if bits > 0x8000_0000 {
        GAIN_MIN_BITS
    } else if bits < 0x8000_0000 && bits > GAIN_MAX_BITS {
        GAIN_MAX_BITS
    } else {
        bits
    }
}

pub fn clamp_gain(bits: u32) -> (clamped: u32)
    ensures
        clamped == clamp_gain_spec(bits),
{
    if (bits / 0x80_0000) % 256 == 255 {
        GAIN_ONE_BITS
    } else if bits > 0x8000_0000 {
        GAIN_MIN_BITS
    } else if bits < 0x8000_0000 && bits > GAIN_MAX_BITS {
        GAIN_MAX_BITS
    } else {
        bits
    }
}

pub open spec fn clamp_u32(value: u32, low: u32, high: u32) -> u32 {
    if value < low {
        low
    } else if value > high {
        high
    } else {
        value
    }
}

fn clamp_to(value: u32, low: u32, high: u32) -> (clamped: u32)
    ensures
        clamped == clamp_u32(value, low, high),
{
    if value < low {
        low
    } else if value > high {
        high
    } else {
        value
    }
}

pub open spec fn abs_diff(a: u32, b: u32) -> int {
    if a >= b {
        a - b
    } else {
        b - a
    }
}

/// The supported rate closest to `rate`; on a tie the higher one, which comes first in the ladder.
pub open spec fn nearest_rate_spec(rate: u32) -> u32 {
    let best01 = if abs_diff(32_000, rate) < abs_diff(48_000, rate) { 32_000u32 } else { 48_000u32 };
    let best012 = if abs_diff(24_000, rate) < abs_diff(best01, rate) { 24_000u32 } else { best01 };
    let best0123 = if abs_diff(16_000, rate) < abs_diff(best012, rate) {
        16_000u32
    } else {
        best012
    };
    if abs_diff(8_000, rate) < abs_diff(best0123, rate) {
        8_000u32
    } else {
        best0123
    }
}

pub open spec fn is_supported_rate(rate: u32) -> bool {
    rate == 48_000 || rate == 32_000 || rate == 24_000 || rate == 16_000 || rate == 8_000
}

/// Snap an arbitrary rate onto the closest supported one, so a hand edited database or an old client
/// cannot put the recorder on a rate the UI has no way to display or undo.
pub fn nearest_supported_rate(rate: u32) -> (nearest: u32)
    ensures
        nearest == nearest_rate_spec(rate),
        is_supported_rate(nearest),
        forall|other: u32| is_supported_rate(other) ==> abs_diff(nearest, rate) <= abs_diff(other, rate),
{
    let mut best: u32 = SUPPORTED_SAMPLE_RATES[0];
    let mut best_distance: u32 = if best >= rate { best - rate } else { rate - best };
    let mut i: usize = 1;
    while i < 5
        invariant
            1 <= i <= 5,
            SUPPORTED_SAMPLE_RATES@ == seq![48_000u32, 32_000, 24_000, 16_000, 8_000],
            best_distance == abs_diff(best, rate),
            i == 1 ==> best == 48_000u32,
            i == 2 ==> best == (if abs_diff(32_000, rate) < abs_diff(48_000, rate) { 32_000u32 } else { 48_000u32 }),
            i == 3 ==> best == ({
                let best01 = if abs_diff(32_000, rate) < abs_diff(48_000, rate) { 32_000u32 } else { 48_000u32 };
                if abs_diff(24_000, rate) < abs_diff(best01, rate) { 24_000u32 } else { best01 }
            }),
            i == 4 ==> best == ({
                let best01 = if abs_diff(32_000, rate) < abs_diff(48_000, rate) { 32_000u32 } else { 48_000u32 };
                let best012 = if abs_diff(24_000, rate) < abs_diff(best01, rate) { 24_000u32 } else { best01 };
                if abs_diff(16_000, rate) < abs_diff(best012, rate) { 16_000u32 } else { best012 }
            }),
            i == 5 ==> best == nearest_rate_spec(rate),
        decreases 5 - i,
    {
        let candidate = SUPPORTED_SAMPLE_RATES[i];
        let distance = if candidate >= rate { candidate - rate } else { rate - candidate };
        if distance < best_distance {
            best = candidate;
            best_distance = distance;
        }
        i = i + 1;
    }
    best
}

/// The value stored last under `key`; later rows win, as they would when collected into a map.
pub open spec fn lookup(pairs: Seq<(Seq<char>, Seq<char>)>, key: Seq<char>) -> Option<Seq<char>>
    decreases pairs.len(),
{
    if pairs.len() == 0 {
        None
    } else if pairs.last().0 == key {
        Some(pairs.last().1)
    } else {
        lookup(pairs.drop_last(), key)
    }
}

pub fn find_value(pairs: &[(String, String)], key: &str) -> (value: Option<String>)
    ensures
        opt_text(value) == lookup(pairs_view(pairs@), key@),
{
    let mut i = pairs.len();
    assert(pairs_view(pairs@).take(i as int) =~= pairs_view(pairs@));
    while i > 0
        invariant
            i <= pairs@.len(),
            lookup(pairs_view(pairs@), key@) == lookup(pairs_view(pairs@).take(i as int), key@),
        decreases i,
    {
        let (name, value) = &pairs[i - 1];
        assert(pairs_view(pairs@).take(i as int).drop_last() =~= pairs_view(pairs@).take(i - 1));
        assert(pairs_view(pairs@).take(i as int).last() == (pairs@[i - 1].0@, pairs@[i - 1].1@));
        if str_equal(name.as_str(), key) {
            return Some(value.clone());
        }
        i = i - 1;
    }
    None
}

/// `value.trim().parse::<u32>()`, when there is a value.
pub open spec fn parsed_u32(raw: Option<Seq<char>>) -> Option<u32> {
    match raw {
        Some(text) => match parse_unsigned_spec(trim_spec(text), u32::MAX as int) {
            Some(n) => Some(n as u32),
            None => None,
        },
        None => None,
    }
}

pub open spec fn parse_u32_spec(raw: Option<Seq<char>>, fallback: u32) -> u32 {
    match parsed_u32(raw) {
        Some(n) => n,
        None => fallback,
    }
}

/// Parse the retention value, where a stored empty string means keep forever.
///
/// A key that is absent entirely is a different case from one stored empty: absent means the setting
/// was never written and should fall back to the default, while empty is a deliberate choice of forever.
pub open spec fn parse_retention_spec(raw: Option<Seq<char>>, fallback: Option<u32>) -> Option<u32> {
    match raw {
        None => fallback,
        Some(text) => if trim_spec(text).len() == 0 {
            None
        } else {
            match parsed_u32(raw) {
                Some(n) => Some(n),
                None => fallback,
            }
        },
    }
}

pub open spec fn true_words(word: Seq<char>) -> bool {
    word == seq!['t', 'r', 'u', 'e'] || word == seq!['1'] || word == seq!['y', 'e', 's']
}

pub open spec fn false_words(word: Seq<char>) -> bool {
    word == seq!['f', 'a', 'l', 's', 'e'] || word == seq!['0'] || word == seq!['n', 'o']
}

/// `true`, `1` and `yes` mean on, `false`, `0` and `no` mean off, in any letter case and surrounded by
/// any whitespace; anything else falls back.
pub open spec fn parse_bool_spec(raw: Option<Seq<char>>, fallback: bool) -> bool {
    match raw {
        Some(text) => {
            let word = ascii_lower_spec(trim_spec(text));
            if true_words(word) {
                true
            } else if false_words(word) {
                false
            } else {
                fallback
            }
        },
        None => fallback,
    }
}

/// Trimmed text, or nothing when only whitespace is left.
pub open spec fn non_blank(raw: Option<Seq<char>>) -> Option<Seq<char>> {
    match raw {
        Some(text) => if trim_spec(text).len() == 0 {
            None
        } else {
            Some(trim_spec(text))
        },
        None => None,
    }
}

fn trimmed_value(raw: &Option<String>) -> (value: Option<Vec<char>>)
    ensures
        match raw {
            Some(text) => value matches Some(v) && v@ == trim_spec(text@),
            None => value is None,
        },
{
    match raw {
        Some(text) => {
            let chars = chars_of(text.as_str());
            let (start, end) = trim_bounds(&chars);
            let mut out: Vec<char> = Vec::new();
            let mut i = start;
            while i < end
                invariant
                    start <= i <= end <= chars@.len(),
                    out@ == chars@.subrange(start as int, i as int),
                decreases end - i,
            {
                out.push(chars[i]);
                assert(chars@.subrange(start as int, i + 1) =~= chars@.subrange(start as int, i as int).push(
                    chars@[i as int],
                ));
                i = i + 1;
            }
            Some(out)
        },
        None => None,
    }
}

fn parse_u32(raw: &Option<String>, fallback: u32) -> (value: u32)
    ensures
        value == parse_u32_spec(opt_text(*raw), fallback),
{
    match trimmed_value(raw) {
        Some(chars) => match parse_unsigned(chars.as_slice(), 0xffff_ffff) {
            Some(n) => n as u32,
            None => fallback,
        },
        None => fallback,
    }
}

fn parsed_u32_of(raw: &Option<String>) -> (value: Option<u32>)
    ensures
        value == parsed_u32(opt_text(*raw)),
{
    match trimmed_value(raw) {
        Some(chars) => match parse_unsigned(chars.as_slice(), 0xffff_ffff) {
            Some(n) => Some(n as u32),
            None => None,
        },
        None => None,
    }
}

fn parse_retention(raw: &Option<String>, fallback: Option<u32>) -> (value: Option<u32>)
    ensures
        value == parse_retention_spec(opt_text(*raw), fallback),
{
    match trimmed_value(raw) {
        None => fallback,
        Some(chars) => if chars.len() == 0 {
            None
        } else {
            match parse_unsigned(chars.as_slice(), 0xffff_ffff) {
                Some(n) => Some(n as u32),
                None => fallback,
            }
        },
    }
}

fn parse_bool(raw: &Option<String>, fallback: bool) -> (value: bool)
    ensures
        value == parse_bool_spec(opt_text(*raw), fallback),
{
    match trimmed_value(raw) {
        Some(chars) => {
            let word = to_ascii_lowercase(chars.as_slice());
            let yes_true = vec!['t', 'r', 'u', 'e'];
            let yes_one = vec!['1'];
            let yes_yes = vec!['y', 'e', 's'];
            let no_false = vec!['f', 'a', 'l', 's', 'e'];
            let no_zero = vec!['0'];
            let no_no = vec!['n', 'o'];
            assert(yes_true@ =~= seq!['t', 'r', 'u', 'e']);
            assert(yes_one@ =~= seq!['1']);
            assert(yes_yes@ =~= seq!['y', 'e', 's']);
            assert(no_false@ =~= seq!['f', 'a', 'l', 's', 'e']);
            assert(no_zero@ =~= seq!['0']);
            assert(no_no@ =~= seq!['n', 'o']);
            if chars_equal(word.as_slice(), yes_true.as_slice()) || chars_equal(
                word.as_slice(),
                yes_one.as_slice(),
            ) || chars_equal(word.as_slice(), yes_yes.as_slice()) {
                true
            } else if chars_equal(word.as_slice(), no_false.as_slice()) || chars_equal(
                word.as_slice(),
                no_zero.as_slice(),
            ) || chars_equal(word.as_slice(), no_no.as_slice()) {
                false
            } else {
                fallback
            }
        },
        None => fallback,
    }
}

fn non_blank_value(raw: &Option<String>) -> (value: Option<String>)
    ensures
        opt_text(value) == non_blank(opt_text(*raw)),
{
    match trimmed_value(raw) {
        Some(chars) => if chars.len() == 0 {
            None
        } else {
            Some(string_from_chars(chars.as_slice()))
        },
        None => None,
    }
}

/// Every value forced into its documented range.
pub open spec fn clamped_spec(s: SettingsView) -> SettingsView {
    SettingsView {
        gain_bits: clamp_gain_spec(s.gain_bits),
        segment_seconds: clamp_u32(s.segment_seconds, 5, 300),
        retention_hours: match s.retention_hours {
            Some(hours) => Some(clamp_u32(hours, 1, 87_600)),
            None => None,
        },
        frame_ms: clamp_u32(s.frame_ms, 20, 500),
        auto_start_delay_seconds: clamp_u32(s.auto_start_delay_seconds, 0, 600),
        recording_sample_rate: match s.recording_sample_rate {
            Some(rate) => Some(nearest_rate_spec(rate)),
            None => None,
        },
        ..s
    }
}

/// The typed settings rebuilt from stored rows: missing or unparseable values fall back to the
/// default, text is trimmed and blank text means unset, and the result is clamped. `gain_bits` is the
/// stored gain parsed as an `f32`, when it parses.
pub open spec fn from_pairs_spec(pairs: Seq<(Seq<char>, Seq<char>)>, gain_bits: Option<u32>) -> SettingsView {
    let defaults = default_settings();
    clamped_spec(
        SettingsView {
            input_device_id: non_blank(lookup(pairs, KEY_INPUT_DEVICE_ID@)),
            gain_bits: match gain_bits {
                Some(bits) => bits,
                None => defaults.gain_bits,
            },
            segment_seconds: parse_u32_spec(lookup(pairs, KEY_SEGMENT_SECONDS@), defaults.segment_seconds),
            retention_hours: parse_retention_spec(
                lookup(pairs, KEY_RETENTION_HOURS@),
                defaults.retention_hours,
            ),
            auto_start: parse_bool_spec(lookup(pairs, KEY_AUTO_START@), defaults.auto_start),
            check_for_updates: parse_bool_spec(
                lookup(pairs, KEY_CHECK_FOR_UPDATES@),
                defaults.check_for_updates,
            ),
            auto_start_delay_seconds: parse_u32_spec(
                lookup(pairs, KEY_AUTO_START_DELAY_SECONDS@),
                defaults.auto_start_delay_seconds,
            ),
            frame_ms: parse_u32_spec(lookup(pairs, KEY_FRAME_MS@), defaults.frame_ms),
            recording_sample_rate: match parsed_u32(lookup(pairs, KEY_RECORDING_SAMPLE_RATE@)) {
                Some(rate) => Some(nearest_rate_spec(rate)),
                None => None,
            },
            recordings_dir: non_blank(lookup(pairs, KEY_RECORDINGS_DIR@)),
        },
    )
}

/// Decimal text of an optional number, empty when there is none.
pub open spec fn optional_decimal(value: Option<u32>) -> Seq<char> {
    match value {
        Some(n) => decimal(n as nat),
        None => Seq::empty(),
    }
}

pub open spec fn bool_text(value: bool) -> Seq<char> {
    if value {
        seq!['t', 'r', 'u', 'e']
    } else {
        seq!['f', 'a', 'l', 's', 'e']
    }
}

pub open spec fn text_or_empty(value: Option<Seq<char>>) -> Seq<char> {
    match value {
        Some(text) => text,
        None => Seq::empty(),
    }
}

/// The stored rows: every key once, in a fixed order, numbers in decimal, booleans as `true` and
/// `false`, and an absent value as empty text.
pub open spec fn to_pairs_spec(s: SettingsView, gain_text: Seq<char>) -> Seq<(Seq<char>, Seq<char>)> {
    seq![
        (KEY_INPUT_DEVICE_ID@, text_or_empty(s.input_device_id)),
        (KEY_GAIN@, gain_text),
        (KEY_SEGMENT_SECONDS@, decimal(s.segment_seconds as nat)),
        (KEY_RETENTION_HOURS@, optional_decimal(s.retention_hours)),
        (KEY_AUTO_START@, bool_text(s.auto_start)),
        (KEY_CHECK_FOR_UPDATES@, bool_text(s.check_for_updates)),
        (KEY_AUTO_START_DELAY_SECONDS@, decimal(s.auto_start_delay_seconds as nat)),
        (KEY_FRAME_MS@, decimal(s.frame_ms as nat)),
        (KEY_RECORDING_SAMPLE_RATE@, optional_decimal(s.recording_sample_rate)),
        (KEY_RECORDINGS_DIR@, text_or_empty(s.recordings_dir)),
    ]
}

pub open spec fn pairs_view(pairs: Seq<(String, String)>) -> Seq<(Seq<char>, Seq<char>)> {
    pairs.map_values(|pair: (String, String)| (pair.0@, pair.1@))
}

pub open spec fn effective_rate_spec(s: SettingsView, device_rate: u32) -> u32 {
    match s.recording_sample_rate {
        Some(target) => if device_rate > 0 && device_rate < target {
            device_rate
        } else {
            target
        },
        None => device_rate,
    }
}

fn clone_opt(value: &Option<String>) -> (copy: Option<String>)
    ensures
        opt_text(copy) == opt_text(*value),
{
    match value {
        Some(text) => Some(text.clone()),
        None => None,
    }
}

fn text_of(value: &str) -> (text: String)
    ensures
        text@ == value@,
{
    let chars = chars_of(value);
    string_from_chars(chars.as_slice())
}

fn bool_string(value: bool) -> (text: String)
    ensures
        text@ == bool_text(value),
{
    let chars = if value { vec!['t', 'r', 'u', 'e'] } else { vec!['f', 'a', 'l', 's', 'e'] };
    string_from_chars(chars.as_slice())
}

fn optional_number(value: Option<u32>) -> (text: String)
    ensures
        text@ == optional_decimal(value),
{
    match value {
        Some(n) => u64_to_decimal(n as u64),
        None => String::new(),
    }
}

fn text_or_nothing(value: &Option<String>) -> (text: String)
    ensures
        text@ == text_or_empty(opt_text(*value)),
{
    match value {
        Some(text) => text.clone(),
        None => String::new(),
    }
}

impl Settings {
    /// Rebuild the typed settings from the raw key value rows, falling back to the default for
    /// anything missing or unparseable. `gain_bits` is the `f32` bit pattern of the stored gain text,
    /// trimmed and parsed, when it parses.
    pub fn from_pairs(pairs: &[(String, String)], gain_bits: Option<u32>) -> (settings: Self)
        ensures
            settings@ == from_pairs_spec(pairs_view(pairs@), gain_bits),
    {
        let input_device_id = non_blank_value(&find_value(pairs, KEY_INPUT_DEVICE_ID));
        let settings = Self {
            input_device_id,
            gain_bits: match gain_bits {
                Some(bits) => bits,
                None => GAIN_ONE_BITS,
            },
            segment_seconds: parse_u32(&find_value(pairs, KEY_SEGMENT_SECONDS), 10),
            retention_hours: parse_retention(&find_value(pairs, KEY_RETENTION_HOURS), Some(24)),
            auto_start: parse_bool(&find_value(pairs, KEY_AUTO_START), true),
            check_for_updates: parse_bool(&find_value(pairs, KEY_CHECK_FOR_UPDATES), true),
            auto_start_delay_seconds: parse_u32(&find_value(pairs, KEY_AUTO_START_DELAY_SECONDS), 0),
            frame_ms: parse_u32(&find_value(pairs, KEY_FRAME_MS), 100),
            recording_sample_rate: match parsed_u32_of(&find_value(pairs, KEY_RECORDING_SAMPLE_RATE)) {
                Some(rate) => Some(nearest_supported_rate(rate)),
                None => None,
            },
            recordings_dir: non_blank_value(&find_value(pairs, KEY_RECORDINGS_DIR)),
        };
        settings.clamped()
    }

    /// Project the settings back onto the key value rows the repository stores. `gain_text` is the
    /// gain as an `f32` prints.
    pub fn to_pairs(&self, gain_text: &str) -> (pairs: Vec<(String, String)>)
        ensures
            pairs_view(pairs@) == to_pairs_spec(self@, gain_text@),
    {
        let mut pairs: Vec<(String, String)> = Vec::new();
        pairs.push((text_of(KEY_INPUT_DEVICE_ID), text_or_nothing(&self.input_device_id)));
        pairs.push((text_of(KEY_GAIN), text_of(gain_text)));
        pairs.push((text_of(KEY_SEGMENT_SECONDS), u64_to_decimal(self.segment_seconds as u64)));
        // Forever is stored as an empty value rather than a sentinel number, so nobody has to remember
        // that some particular hour count secretly means something else.
        pairs.push((text_of(KEY_RETENTION_HOURS), optional_number(self.retention_hours)));
        pairs.push((text_of(KEY_AUTO_START), bool_string(self.auto_start)));
        pairs.push((text_of(KEY_CHECK_FOR_UPDATES), bool_string(self.check_for_updates)));
        pairs.push(
            (
                text_of(KEY_AUTO_START_DELAY_SECONDS),
                u64_to_decimal(self.auto_start_delay_seconds as u64),
            ),
        );
        pairs.push((text_of(KEY_FRAME_MS), u64_to_decimal(self.frame_ms as u64)));
        pairs.push((text_of(KEY_RECORDING_SAMPLE_RATE), optional_number(self.recording_sample_rate)));
        pairs.push((text_of(KEY_RECORDINGS_DIR), text_or_nothing(&self.recordings_dir)));
        assert(pairs_view(pairs@) =~= to_pairs_spec(self@, gain_text@));
        pairs
    }

    /// Force every value into its documented range.
    pub fn clamped(self) -> (settings: Self)
        ensures
            settings@ == clamped_spec(self@),
    {
        let retention_hours = match self.retention_hours {
            Some(hours) => Some(clamp_to(hours, 1, 87_600)),
            None => None,
        };
        let recording_sample_rate = match self.recording_sample_rate {
            Some(rate) => Some(nearest_supported_rate(rate)),
            None => None,
        };
        Self {
            input_device_id: self.input_device_id,
            gain_bits: clamp_gain(self.gain_bits),
            segment_seconds: clamp_to(self.segment_seconds, 5, 300),
            retention_hours,
            auto_start: self.auto_start,
            auto_start_delay_seconds: clamp_to(self.auto_start_delay_seconds, 0, 600),
            frame_ms: clamp_to(self.frame_ms, 20, 500),
            recording_sample_rate,
            recordings_dir: self.recordings_dir,
            check_for_updates: self.check_for_updates,
        }
    }

    /// The rate the recorder should produce, given what the device offers. Never above the device rate.
    pub fn effective_sample_rate(&self, device_rate: u32) -> (rate: u32)
        ensures
            rate == effective_rate_spec(self@, device_rate),
            device_rate > 0 ==> rate <= device_rate,
    {
        match self.recording_sample_rate {
            Some(target) => if device_rate > 0 && device_rate < target {
                device_rate
            } else {
                target
            },
            None => device_rate,
        }
    }

    /// How long the janitor keeps material, in milliseconds, or `None` to keep it forever.
    pub fn retention_ms(&self) -> (ms: Option<i64>)
        ensures
            ms == (match self.retention_hours {
                Some(hours) => Some((hours * 3_600_000) as i64),
                None => None,
            }),
    {
        match self.retention_hours {
            Some(hours) => Some(hours as i64 * 3_600_000),
            None => None,
        }
    }

    /// True when nothing is ever pruned.
    pub fn keeps_forever(&self) -> (forever: bool)
        ensures
            forever == self.retention_hours.is_none(),
    {
        self.retention_hours.is_none()
    }

    pub fn clone(&self) -> (copy: Self)
        ensures
            copy@ == self@,
    {
        Self {
            input_device_id: clone_opt(&self.input_device_id),
            gain_bits: self.gain_bits,
            segment_seconds: self.segment_seconds,
            retention_hours: self.retention_hours,
            auto_start: self.auto_start,
            auto_start_delay_seconds: self.auto_start_delay_seconds,
            frame_ms: self.frame_ms,
            recording_sample_rate: self.recording_sample_rate,
            recordings_dir: clone_opt(&self.recordings_dir),
            check_for_updates: self.check_for_updates,
        }
    }
}

/// A partial settings update.
///
/// Every field is optional so a caller can change one preference without having to send back values it
/// does not care about, and without risking a lost update when two clients edit different fields.
#[derive(Debug)]
pub struct SettingsPatch {
    /// `Some(None)` clears the stored device and returns to the system default, while `None` leaves it
    /// untouched.
    pub input_device_id: Option<Option<String>>,
    /// The new gain, as the bit pattern of an `f32`.
    pub gain_bits: Option<u32>,
    pub segment_seconds: Option<u32>,
    /// `Some(None)` switches to keeping forever, `None` leaves the current window alone.
    pub retention_hours: Option<Option<u32>>,
    pub auto_start: Option<bool>,
    pub auto_start_delay_seconds: Option<u32>,
    pub frame_ms: Option<u32>,
    /// `Some(None)` returns to the device's own rate.
    pub recording_sample_rate: Option<Option<u32>>,
    /// `Some(None)` returns to the default location under the data directory.
    pub recordings_dir: Option<Option<String>>,
    pub check_for_updates: Option<bool>,
}

pub open spec fn opt_opt_text(value: Option<Option<String>>) -> Option<Option<Seq<char>>> {
    match value {
        Some(inner) => Some(opt_text(inner)),
        None => None,
    }
}

/// A replacement text field: trimmed, and blank means unset.
pub open spec fn patched_text(current: Option<Seq<char>>, change: Option<Option<Seq<char>>>) -> Option<Seq<char>> {
    match change {
        Some(new_value) => non_blank(new_value),
        None => current,
    }
}

pub open spec fn patched<T>(current: T, change: Option<T>) -> T {
    match change {
        Some(new_value) => new_value,
        None => current,
    }
}

/// The settings a patch produces from `base`: each field the patch sets replaces the base value,
/// text is trimmed with blank meaning unset, everything else is kept, and the result is clamped.
pub open spec fn apply_spec(patch: SettingsPatch, base: SettingsView) -> SettingsView {
    clamped_spec(
        SettingsView {
            input_device_id: patched_text(base.input_device_id, opt_opt_text(patch.input_device_id)),
            gain_bits: patched(base.gain_bits, patch.gain_bits),
            segment_seconds: patched(base.segment_seconds, patch.segment_seconds),
            retention_hours: patched(base.retention_hours, patch.retention_hours),
            auto_start: patched(base.auto_start, patch.auto_start),
            auto_start_delay_seconds: patched(base.auto_start_delay_seconds, patch.auto_start_delay_seconds),
            frame_ms: patched(base.frame_ms, patch.frame_ms),
            recording_sample_rate: patched(base.recording_sample_rate, patch.recording_sample_rate),
            recordings_dir: patched_text(base.recordings_dir, opt_opt_text(patch.recordings_dir)),
            check_for_updates: patched(base.check_for_updates, patch.check_for_updates),
        },
    )
}

pub open spec fn patch_is_empty(patch: SettingsPatch) -> bool {
    &&& patch.input_device_id is None
    &&& patch.gain_bits is None
    &&& patch.segment_seconds is None
    &&& patch.retention_hours is None
    &&& patch.auto_start is None
    &&& patch.auto_start_delay_seconds is None
    &&& patch.frame_ms is None
    &&& patch.recording_sample_rate is None
    &&& patch.recordings_dir is None
    &&& patch.check_for_updates is None
}

fn patched_value(current: &Option<String>, change: &Option<Option<String>>) -> (value: Option<String>)
    ensures
        opt_text(value) == patched_text(opt_text(*current), opt_opt_text(*change)),
{
    match change {
        Some(new_value) => non_blank_value(new_value),
        None => clone_opt(current),
    }
}

fn same_text(a: &Option<String>, b: &Option<String>) -> (same: bool)
    ensures
        same == (opt_text(*a) == opt_text(*b)),
{
    match (a, b) {
        (Some(x), Some(y)) => x.eq(y),
        (None, None) => true,
        _ => false,
    }
}

impl SettingsPatch {
    pub fn default() -> (patch: Self)
        ensures
            patch_is_empty(patch),
    {
        Self {
            input_device_id: None,
            gain_bits: None,
            segment_seconds: None,
            retention_hours: None,
            auto_start: None,
            auto_start_delay_seconds: None,
            frame_ms: None,
            recording_sample_rate: None,
            recordings_dir: None,
            check_for_updates: None,
        }
    }

    pub fn is_empty(&self) -> (empty: bool)
        ensures
            empty == patch_is_empty(*self),
    {
        self.input_device_id.is_none() && self.gain_bits.is_none() && self.segment_seconds.is_none()
            && self.retention_hours.is_none() && self.auto_start.is_none()
            && self.auto_start_delay_seconds.is_none() && self.frame_ms.is_none()
            && self.recording_sample_rate.is_none() && self.recordings_dir.is_none()
            && self.check_for_updates.is_none()
    }

    /// Apply the patch to `base` and return the clamped result.
    pub fn apply_to(&self, base: &Settings) -> (updated: Settings)
        ensures
            updated@ == apply_spec(*self, base@),
    {
        let updated = Settings {
            input_device_id: patched_value(&base.input_device_id, &self.input_device_id),
            gain_bits: match self.gain_bits {
                Some(bits) => bits,
                None => base.gain_bits,
            },
            segment_seconds: match self.segment_seconds {
                Some(value) => value,
                None => base.segment_seconds,
            },
            retention_hours: match self.retention_hours {
                Some(value) => value,
                None => base.retention_hours,
            },
            auto_start: match self.auto_start {
                Some(value) => value,
                None => base.auto_start,
            },
            auto_start_delay_seconds: match self.auto_start_delay_seconds {
                Some(value) => value,
                None => base.auto_start_delay_seconds,
            },
            frame_ms: match self.frame_ms {
                Some(value) => value,
                None => base.frame_ms,
            },
            recording_sample_rate: match self.recording_sample_rate {
                Some(value) => value,
                None => base.recording_sample_rate,
            },
            recordings_dir: patched_value(&base.recordings_dir, &self.recordings_dir),
            check_for_updates: match self.check_for_updates {
                Some(value) => value,
                None => base.check_for_updates,
            },
        };
        updated.clamped()
    }

    /// True when the patch changes something that only takes effect on a fresh capture stream.
    pub fn requires_capture_restart(&self, base: &Settings) -> (restart: bool)
        ensures
            restart == (apply_spec(*self, base@).input_device_id != base@.input_device_id
                || apply_spec(*self, base@).frame_ms != base@.frame_ms),
    {
        let updated = self.apply_to(base);
        !same_text(&updated.input_device_id, &base.input_device_id) || updated.frame_ms != base.frame_ms
    }
}

/// Text a setting can hold: non-empty and without surrounding whitespace.
pub open spec fn clean_text(text: Option<Seq<char>>) -> bool {
    text matches Some(t) ==> t.len() > 0 && trim_spec(t) == t
}

proof fn lemma_bool_text_parses_back(value: bool, fallback: bool)
    ensures
        parse_bool_spec(Some(bool_text(value)), fallback) == value,
{
    let t = bool_text(value);
    lemma_trim_of_clean_text(t);
    assert(ascii_lower_spec(t) =~= t);
}

/// Saving settings and loading them back gives the same settings: the rows [`Settings::to_pairs`]
/// writes, read by [`Settings::from_pairs`] with the gain parsed back from its printed form, rebuild
/// every value. This holds for settings that are already in range and whose text values are already
/// trimmed and non-empty, which is what clamping and patching produce.
pub proof fn lemma_pairs_round_trip(s: SettingsView, gain_text: Seq<char>)
    requires
        clamped_spec(s) == s,
        clean_text(s.input_device_id),
        clean_text(s.recordings_dir),
    ensures
        from_pairs_spec(to_pairs_spec(s, gain_text), Some(s.gain_bits)) == s,
{
    reveal_strlit("input_device_id");
    reveal_strlit("gain");
    reveal_strlit("segment_seconds");
    reveal_strlit("retention_hours");
    reveal_strlit("auto_start");
    reveal_strlit("auto_start_delay_seconds");
    reveal_strlit("frame_ms");
    reveal_strlit("recordings_dir");
    reveal_strlit("recording_sample_rate");
    reveal_strlit("check_for_updates");
    reveal_with_fuel(lookup, 11);
    assert(KEY_INPUT_DEVICE_ID@[0] == 'i');
    assert(KEY_SEGMENT_SECONDS@[0] == 's');
    assert(KEY_RETENTION_HOURS@[0] == 'r');
    assert(KEY_INPUT_DEVICE_ID@.len() == 15);
    assert(KEY_SEGMENT_SECONDS@.len() == 15);
    assert(KEY_RETENTION_HOURS@.len() == 15);
    assert(KEY_GAIN@.len() == 4);
    assert(KEY_AUTO_START@.len() == 10);
    assert(KEY_AUTO_START_DELAY_SECONDS@.len() == 24);
    assert(KEY_FRAME_MS@.len() == 8);
    assert(KEY_RECORDINGS_DIR@.len() == 14);
    assert(KEY_RECORDING_SAMPLE_RATE@.len() == 21);
    assert(KEY_CHECK_FOR_UPDATES@.len() == 17);
    let pairs = to_pairs_spec(s, gain_text);
    lemma_decimal_parses_back(s.segment_seconds as nat, u32::MAX as int);
    lemma_decimal_parses_back(s.frame_ms as nat, u32::MAX as int);
    lemma_decimal_parses_back(s.auto_start_delay_seconds as nat, u32::MAX as int);
    if let Some(hours) = s.retention_hours {
        lemma_decimal_parses_back(hours as nat, u32::MAX as int);
        lemma_decimal_digits(hours as nat);
    } else {
        assert(trim_spec(Seq::<char>::empty()) =~= Seq::<char>::empty()) by {
            lemma_trim_of_clean_text(Seq::<char>::empty());
        }
    }
    if let Some(rate) = s.recording_sample_rate {
        lemma_decimal_parses_back(rate as nat, u32::MAX as int);
    } else {
        lemma_trim_of_clean_text(Seq::<char>::empty());
        assert(unsigned_body(Seq::<char>::empty()) =~= Seq::<char>::empty());
    }
    lemma_trim_of_clean_text(Seq::<char>::empty());
    lemma_bool_text_parses_back(s.auto_start, true);
    lemma_bool_text_parses_back(s.check_for_updates, true);
    assert(lookup(pairs, KEY_INPUT_DEVICE_ID@) == Some(text_or_empty(s.input_device_id)));
    assert(lookup(pairs, KEY_SEGMENT_SECONDS@) == Some(decimal(s.segment_seconds as nat)));
    assert(lookup(pairs, KEY_RETENTION_HOURS@) == Some(optional_decimal(s.retention_hours)));
    assert(lookup(pairs, KEY_AUTO_START@) == Some(bool_text(s.auto_start)));
    assert(lookup(pairs, KEY_CHECK_FOR_UPDATES@) == Some(bool_text(s.check_for_updates)));
    assert(lookup(pairs, KEY_AUTO_START_DELAY_SECONDS@) == Some(
        decimal(s.auto_start_delay_seconds as nat),
    ));
    assert(lookup(pairs, KEY_FRAME_MS@) == Some(decimal(s.frame_ms as nat)));
    assert(lookup(pairs, KEY_RECORDING_SAMPLE_RATE@) == Some(optional_decimal(s.recording_sample_rate)));
    assert(lookup(pairs, KEY_RECORDINGS_DIR@) == Some(text_or_empty(s.recordings_dir)));
}

/// Clamping twice is clamping once: every clamped value is already in range.
pub proof fn lemma_clamping_is_idempotent(s: SettingsView)
    ensures
        clamped_spec(clamped_spec(s)) == clamped_spec(s),
{
    if let Some(rate) = s.recording_sample_rate {
        lemma_nearest_rate_is_fixed(nearest_rate_spec(rate));
        lemma_nearest_rate_is_supported(rate);
    }
}

proof fn lemma_nearest_rate_is_supported(rate: u32)
    ensures
        is_supported_rate(nearest_rate_spec(rate)),
{
}

/// A supported rate is its own nearest supported rate.
pub proof fn lemma_nearest_rate_is_fixed(rate: u32)
    requires
        is_supported_rate(rate),
    ensures
        nearest_rate_spec(rate) == rate,
{
}

/// A patch that sets nothing changes nothing, once the settings are in range.
pub proof fn lemma_empty_patch_changes_nothing(patch: SettingsPatch, base: SettingsView)
    requires
        patch_is_empty(patch),
        clamped_spec(base) == base,
    ensures
        apply_spec(patch, base) == base,
{
}

/// A patch touches only the fields it sets: every field it leaves unset keeps the base value, clamped.
pub proof fn lemma_patch_touches_only_what_it_sets(patch: SettingsPatch, base: SettingsView)
    ensures
        ({
            let updated = apply_spec(patch, base);
            let kept = clamped_spec(base);
            &&& patch.input_device_id is None ==> updated.input_device_id == kept.input_device_id
            &&& patch.gain_bits is None ==> updated.gain_bits == kept.gain_bits
            &&& patch.segment_seconds is None ==> updated.segment_seconds == kept.segment_seconds
            &&& patch.retention_hours is None ==> updated.retention_hours == kept.retention_hours
            &&& patch.auto_start is None ==> updated.auto_start == kept.auto_start
            &&& patch.auto_start_delay_seconds is None ==> updated.auto_start_delay_seconds
                == kept.auto_start_delay_seconds
            &&& patch.frame_ms is None ==> updated.frame_ms == kept.frame_ms
            &&& patch.recording_sample_rate is None ==> updated.recording_sample_rate
                == kept.recording_sample_rate
            &&& patch.recordings_dir is None ==> updated.recordings_dir == kept.recordings_dir
            &&& patch.check_for_updates is None ==> updated.check_for_updates == kept.check_for_updates
        }),
{
}

/// A patch replaces every field it sets: a switch takes the new value, a number the new value forced
/// into its range, an optional number the new choice (`None` to clear it, such as keeping recordings
/// forever), and a text the new text trimmed, with blank text clearing it.
pub proof fn lemma_patch_sets_what_it_sets(patch: SettingsPatch, base: SettingsView)
    ensures
        ({
            let updated = apply_spec(patch, base);
            &&& patch.auto_start matches Some(on) ==> updated.auto_start == on
            &&& patch.check_for_updates matches Some(on) ==> updated.check_for_updates == on
            &&& patch.segment_seconds matches Some(v) ==> updated.segment_seconds == if v < 5 {
                5
            } else if v > 300 {
                300
            } else {
                v
            }
            &&& patch.frame_ms matches Some(v) ==> updated.frame_ms == if v < 20 {
                20
            } else if v > 500 {
                500
            } else {
                v
            }
            &&& patch.auto_start_delay_seconds matches Some(v) ==> updated.auto_start_delay_seconds
                == if v > 600 {
                600
            } else {
                v
            }
            &&& patch.retention_hours == Some(None::<u32>) ==> updated.retention_hours is None
            &&& patch.retention_hours matches Some(Some(hours)) ==> updated.retention_hours == Some(
                if hours < 1 {
                    1
                } else if hours > 87_600 {
                    87_600
                } else {
                    hours
                },
            )
            &&& patch.recording_sample_rate == Some(None::<u32>) ==> updated.recording_sample_rate
                is None
            &&& patch.recording_sample_rate matches Some(Some(rate)) ==> updated.recording_sample_rate
                == Some(nearest_rate_spec(rate))
            &&& patch.gain_bits matches Some(bits) ==> updated.gain_bits == clamp_gain_spec(bits)
            &&& patch.input_device_id == Some(None::<String>) ==> updated.input_device_id is None
            &&& patch.input_device_id matches Some(Some(id)) ==> updated.input_device_id == if trim_spec(
                id@,
            ).len() == 0 {
                None::<Seq<char>>
            } else {
                Some(trim_spec(id@))
            }
            &&& patch.recordings_dir == Some(None::<String>) ==> updated.recordings_dir is None
            &&& patch.recordings_dir matches Some(Some(dir)) ==> updated.recordings_dir == if trim_spec(
                dir@,
            ).len() == 0 {
                None::<Seq<char>>
            } else {
                Some(trim_spec(dir@))
            }
        }),
{
}

/// A stored switch reads as what it says, whatever the default: `0`, `no` and `false` are off and `1`,
/// `yes` and `true` are on, in any letter case and with any whitespace around them.
pub proof fn lemma_stored_switches_read_as_written(text: Seq<char>, fallback: bool)
    ensures
        ({
            let word = ascii_lower_spec(trim_spec(text));
            &&& (word == seq!['0'] || word == seq!['n', 'o'] || word == seq!['f', 'a', 'l', 's', 'e'])
                ==> !parse_bool_spec(Some(text), fallback)
            &&& (word == seq!['1'] || word == seq!['y', 'e', 's'] || word == seq!['t', 'r', 'u', 'e'])
                ==> parse_bool_spec(Some(text), fallback)
        }),
{
    let word = ascii_lower_spec(trim_spec(text));
    if word == seq!['0'] {
        assert(word[0] != seq!['1'][0]);
        assert(!true_words(word));
    } else if word == seq!['n', 'o'] {
        assert(word[0] != seq!['y', 'e', 's'][0]);
        assert(!true_words(word));
    } else if word == seq!['f', 'a', 'l', 's', 'e'] {
        assert(word.len() != seq!['t', 'r', 'u', 'e'].len());
        assert(!true_words(word));
    }
}

/// Loading settings honours a stored switch: when the last stored `auto_start` or `check_for_updates`
/// row says off (`0`, `no`, `false`, in any case and spacing) the loaded setting is off, and when it
/// says on it is on, whatever the default.
pub proof fn lemma_loaded_switches_follow_their_rows(
    pairs: Seq<(Seq<char>, Seq<char>)>,
    gain_bits: Option<u32>,
    text: Seq<char>,
)
    ensures
        ({
            let word = ascii_lower_spec(trim_spec(text));
            let off = word == seq!['0'] || word == seq!['n', 'o'] || word == seq!['f', 'a', 'l', 's', 'e'];
            let on = word == seq!['1'] || word == seq!['y', 'e', 's'] || word == seq!['t', 'r', 'u', 'e'];
            let loaded = from_pairs_spec(pairs, gain_bits);
            &&& lookup(pairs, KEY_AUTO_START@) == Some(text) ==> (off ==> !loaded.auto_start) && (on
                ==> loaded.auto_start)
            &&& lookup(pairs, KEY_CHECK_FOR_UPDATES@) == Some(text) ==> (off
                ==> !loaded.check_for_updates) && (on ==> loaded.check_for_updates)
        }),
{
    lemma_stored_switches_read_as_written(text, true);
}

} // verus!
