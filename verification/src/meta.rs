//! Video metadata and the probe-output parser.
//!
//! The probe collaborator reports a flat `key=value` list (commas and/or
//! newlines between pairs, possibly CRLF-terminated) holding `width`,
//! `height`, `r_frame_rate` as a rational `N/D`, and `duration` in decimal
//! seconds. This module parses that text into exact integers: the frame rate
//! stays a rational and the duration becomes microseconds, so nothing here
//! is approximated.

use vstd::prelude::*;

use crate::MICROS_PER_SEC;
use crate::clock::MAX_FPS_PART;
use crate::digits::{all_digits, digits_val, spec_parse_u64};
use crate::scan::{
    chars_of, strip_cr, strip_cr_chars, trim_of, trim_chars, split_tokens,
    split_token_chars, find_first, find_char, subrange_chars, chars_eq,
    lemma_strip_cr_idempotent,
};

verus! {

/// Largest accepted pixel dimension.
pub const MAX_DIM: u32 = 1_000_000;

/// The probed facts about a video, all exact: pixel dimensions, the frame
/// rate as a rational `fps_num / fps_den` frames per second, and the
/// duration in microseconds.
#[derive(Clone, Copy, PartialEq, Eq, Structural, Debug)]
pub struct VideoMetadata {
    pub width: u32,
    pub height: u32,
    pub fps_num: u32,
    pub fps_den: u32,
    pub duration_micros: u64,
}

impl VideoMetadata {
    /// Dimensions and rate are positive and bounded; the duration is
    /// positive.
    pub open spec fn wf(self) -> bool {
        &&& 1 <= self.width <= MAX_DIM
        &&& 1 <= self.height <= MAX_DIM
        &&& 1 <= self.fps_num <= MAX_FPS_PART
        &&& 1 <= self.fps_den <= MAX_FPS_PART
        &&& 1 <= self.duration_micros
    }

    /// The frame a timestamp falls in: `micros * fps`, rounded down.
    pub open spec fn spec_frame_of_micros(self, micros: int) -> int {
        micros * self.fps_num / (self.fps_den * MICROS_PER_SEC)
    }

    /// The timestamp a frame starts at: `frame / fps`, rounded down.
    pub open spec fn spec_micros_of_frame(self, frame: int) -> int {
        frame * (self.fps_den * MICROS_PER_SEC) / (self.fps_num as int)
    }

    /// Convert a timestamp to its frame number.
    pub fn frame_of_micros(&self, micros: u64) -> (frame: u64)
        requires
            self.wf(),
        ensures
            frame == self.spec_frame_of_micros(micros as int),
    {
        proof {
            let m = micros as int;
            let n = self.fps_num as int;
            let den = self.fps_den as int;
            let d = den * 1_000_000;
            assert(1_000_000 <= den * 1_000_000 <= 1_000_000_000_000int)
                by (nonlinear_arith)
                requires 1 <= den <= 1_000_000;
            assert(0 <= m * n && m * n <= 0xFFFF_FFFF_FFFF_FFFF * 1_000_000int)
                by (nonlinear_arith)
                requires 0 <= m <= 0xFFFF_FFFF_FFFF_FFFF, 0 <= n <= 1_000_000;
            // dividing by at least a million keeps the result in u64 range
            vstd::arithmetic::div_mod::lemma_div_is_ordered_by_denominator(
                m * n, 1_000_000, d);
            vstd::arithmetic::div_mod::lemma_div_is_ordered(
                m * n, 0xFFFF_FFFF_FFFF_FFFF * 1_000_000int, 1_000_000);
            vstd::arithmetic::div_mod::lemma_div_multiples_vanish(
                0xFFFF_FFFF_FFFF_FFFFint, 1_000_000);
            assert(1_000_000 * 0xFFFF_FFFF_FFFF_FFFFint
                == 0xFFFF_FFFF_FFFF_FFFF * 1_000_000int)
                by (nonlinear_arith);
        }
        let num = self.fps_num as u128;
        let den_unit = (self.fps_den as u128) * (MICROS_PER_SEC as u128);
        let p: u128 = (micros as u128) * num;
        let q: u128 = p / den_unit;
        q as u64
    }

    /// Convert a frame number to the timestamp it starts at, saturating at
    /// `u64::MAX` microseconds (over half a million years).
    pub fn micros_of_frame(&self, frame: u64) -> (micros: u64)
        requires
            self.wf(),
        ensures
            micros == if self.spec_micros_of_frame(frame as int) <= u64::MAX {
                self.spec_micros_of_frame(frame as int)
            } else {
                u64::MAX as int
            },
    {
        proof {
            let f = frame as int;
            let den = self.fps_den as int;
            let d = den * 1_000_000;
            assert(1_000_000 <= den * 1_000_000 <= 1_000_000_000_000int)
                by (nonlinear_arith)
                requires 1 <= den <= 1_000_000;
            assert(0 <= f * d <= 0xFFFF_FFFF_FFFF_FFFF * 1_000_000_000_000int)
                by (nonlinear_arith)
                requires 0 <= f <= 0xFFFF_FFFF_FFFF_FFFF, 0 < d <= 1_000_000_000_000int;
            vstd::arithmetic::div_mod::lemma_div_pos_is_pos(f * d, self.fps_num as int);
        }
        let den_unit = (self.fps_den as u128) * (MICROS_PER_SEC as u128);
        let p: u128 = (frame as u128) * den_unit;
        let q: u128 = p / (self.fps_num as u128);
        if q > u64::MAX as u128 {
            u64::MAX
        } else {
            q as u64
        }
    }

    /// How many frames a fixed number of seconds spans: `secs * fps`,
    /// rounded down.
    pub open spec fn spec_frames_of_secs(self, secs: int) -> int {
        secs * self.fps_num / (self.fps_den as int)
    }

    /// Frames spanned by `secs` seconds (used for the fixed seek deltas).
    pub fn frames_of_secs(&self, secs: u32) -> (frames: u64)
        requires
            self.wf(),
            secs <= 3600,
        ensures
            frames == self.spec_frames_of_secs(secs as int),
            frames <= 3600 * MAX_FPS_PART,
    {
        proof {
            assert(0 <= secs * self.fps_num <= 3600 * 1_000_000int) by (nonlinear_arith)
                requires 0 <= secs <= 3600, 0 <= self.fps_num <= 1_000_000;
            vstd::arithmetic::div_mod::lemma_div_nonincreasing(
                (secs * self.fps_num) as int, self.fps_den as int);
        }
        let p: u64 = (secs as u64) * (self.fps_num as u64);
        p / (self.fps_den as u64)
    }
}

/// Why probe output was rejected. Each variant names the first field, in
/// fixed checking order (pair shape, width, height, frame rate, duration),
/// that was missing or malformed.
#[derive(Clone, Copy, PartialEq, Eq, Structural, Debug)]
pub enum ProbeError {
    /// A token did not have the shape `key=value`.
    MalformedPair,
    MissingWidth,
    BadWidth,
    MissingHeight,
    BadHeight,
    MissingFrameRate,
    /// The frame rate was not `N/D` with `1 <= N, D <= 1_000_000`.
    BadFrameRate,
    MissingDuration,
    /// The duration was not a positive decimal number of seconds.
    BadDuration,
}

/// The user-facing description of each probe error.
pub open spec fn spec_probe_error_text(e: ProbeError) -> Seq<char> {
    match e {
        ProbeError::MalformedPair => "probe output line is not key=value"@,
        ProbeError::MissingWidth => "probe output is missing width"@,
        ProbeError::BadWidth => "probe output has a bad width"@,
        ProbeError::MissingHeight => "probe output is missing height"@,
        ProbeError::BadHeight => "probe output has a bad height"@,
        ProbeError::MissingFrameRate => "probe output is missing r_frame_rate"@,
        ProbeError::BadFrameRate => "probe output has a bad r_frame_rate"@,
        ProbeError::MissingDuration => "probe output is missing duration"@,
        ProbeError::BadDuration => "probe output has a bad duration"@,
    }
}

impl ProbeError {
    /// A short description, for the startup error message.
    pub fn message(&self) -> (r: &'static str)
        ensures
            r@ == spec_probe_error_text(*self),
    {
        match self {
            ProbeError::MalformedPair => "probe output line is not key=value",
            ProbeError::MissingWidth => "probe output is missing width",
            ProbeError::BadWidth => "probe output has a bad width",
            ProbeError::MissingHeight => "probe output is missing height",
            ProbeError::BadHeight => "probe output has a bad height",
            ProbeError::MissingFrameRate => "probe output is missing r_frame_rate",
            ProbeError::BadFrameRate => "probe output has a bad r_frame_rate",
            ProbeError::MissingDuration => "probe output is missing duration",
            ProbeError::BadDuration => "probe output has a bad duration",
        }
    }
}

/// A token split at its first `=`: the key and the value.
pub open spec fn token_pair(t: Seq<char>) -> Option<(Seq<char>, Seq<char>)> {
    let k = find_first(t, '=');
    if k == -1 {
        Option::None
    } else {
        Option::Some((t.take(k), t.subrange(k + 1, t.len() as int)))
    }
}

/// Every token has the shape `key=value`.
pub open spec fn all_pairs_ok(tokens: Seq<Seq<char>>) -> bool {
    forall|i: int| 0 <= i < tokens.len() ==> token_pair(#[trigger] tokens[i]) is Some
}

/// The value of the last pair with the given key, if any: later occurrences
/// of a key override earlier ones.
pub open spec fn lookup_value(
    pairs: Seq<(Seq<char>, Seq<char>)>,
    key: Seq<char>,
) -> Option<Seq<char>>
    decreases pairs.len(),
{
    if pairs.len() == 0 {
        Option::None
    } else if pairs.last().0 == key {
        Option::Some(pairs.last().1)
    } else {
        lookup_value(pairs.drop_last(), key)
    }
}

/// Ten to the `k`.
pub open spec fn pow10(k: int) -> int
    decreases k,
{
    if k <= 0 {
        1
    } else {
        10 * pow10(k - 1)
    }
}

/// A digit string's value is below ten to its length.
pub proof fn lemma_digits_val_bound(s: Seq<char>)
    requires
        all_digits(s),
    ensures
        0 <= digits_val(s) < pow10(s.len() as int),
    decreases s.len(),
{
    if s.len() == 0 {
    } else {
        let d = s.drop_last();
        assert(forall|i: int| 0 <= i < d.len() ==> crate::digits::is_digit_char(#[trigger] d[i]));
        lemma_digits_val_bound(d);
        assert(digits_val(d) * 10 + crate::digits::digit_char_val(s.last())
            < pow10(d.len() as int) * 10) by (nonlinear_arith)
            requires
                0 <= digits_val(d),
                digits_val(d) < pow10(d.len() as int),
                crate::digits::digit_char_val(s.last()) < 10,
            ;
        assert(0 <= digits_val(d) * 10) by (nonlinear_arith)
            requires 0 <= digits_val(d);
    }
}

/// What a parsed `width` or `height` value means: a decimal in
/// `1 ..= MAX_DIM`.
pub open spec fn spec_parse_dim(v: Seq<char>) -> Option<u32> {
    match spec_parse_u64(v) {
        Option::None => Option::None,
        Option::Some(n) => if 1 <= n <= MAX_DIM {
            Option::Some(n as u32)
        } else {
            Option::None
        },
    }
}

/// What a parsed `r_frame_rate` value means: `N/D` with both parts decimal
/// and in `1 ..= MAX_FPS_PART`.
pub open spec fn spec_parse_rate(v: Seq<char>) -> Option<(u32, u32)> {
    let k = find_first(v, '/');
    if k == -1 {
        Option::None
    } else {
        let n = spec_parse_u64(v.take(k));
        let d = spec_parse_u64(v.subrange(k + 1, v.len() as int));
        match (n, d) {
            (Option::Some(n), Option::Some(d)) => {
                if 1 <= n <= MAX_FPS_PART && 1 <= d <= MAX_FPS_PART {
                    Option::Some((n as u32, d as u32))
                } else {
                    Option::None
                }
            },
            _ => Option::None,
        }
    }
}

/// The microseconds a fractional-seconds digit string denotes: its first six
/// digits, zero-padded on the right to six places.
pub open spec fn spec_frac_micros(frac: Seq<char>) -> int {
    if frac.len() >= 6 {
        digits_val(frac.take(6))
    } else {
        digits_val(frac) * pow10(6 - frac.len())
    }
}

/// What a parsed `duration` value means: `secs[.frac]` in decimal, positive,
/// converted to microseconds (fractional digits beyond the sixth are
/// dropped).
pub open spec fn spec_parse_duration(v: Seq<char>) -> Option<u64> {
    let k = find_first(v, '.');
    let whole = if k == -1 { v } else { v.take(k) };
    let frac = if k == -1 { Seq::<char>::empty() } else { v.subrange(k + 1, v.len() as int) };
    match spec_parse_u64(whole) {
        Option::None => Option::None,
        Option::Some(secs) => {
            if !all_digits(frac) {
                Option::None
            } else if secs > (u64::MAX - 999_999) / 1_000_000 {
                Option::None
            } else {
                let total = secs * MICROS_PER_SEC + spec_frac_micros(frac);
                if total >= 1 {
                    Option::Some(total as u64)
                } else {
                    Option::None
                }
            }
        },
    }
}

/// What parsing probe output means, end to end: drop carriage returns, trim
/// whitespace, split into tokens on commas and newlines, require every token
/// to be `key=value` (later keys override earlier ones), then read the four
/// required fields in order.
pub open spec fn spec_parse_probe(s: Seq<char>) -> Result<VideoMetadata, ProbeError> {
    let tokens = split_tokens(trim_of(strip_cr(s)));
    if !all_pairs_ok(tokens) {
        Result::Err(ProbeError::MalformedPair)
    } else {
        let pairs = tokens.map_values(|t: Seq<char>| token_pair(t)->Some_0);
        match lookup_value(pairs, "width"@) {
            Option::None => Result::Err(ProbeError::MissingWidth),
            Option::Some(wv) => match spec_parse_dim(wv) {
                Option::None => Result::Err(ProbeError::BadWidth),
                Option::Some(w) => match lookup_value(pairs, "height"@) {
                    Option::None => Result::Err(ProbeError::MissingHeight),
                    Option::Some(hv) => match spec_parse_dim(hv) {
                        Option::None => Result::Err(ProbeError::BadHeight),
                        Option::Some(h) => match lookup_value(pairs, "r_frame_rate"@) {
                            Option::None => Result::Err(ProbeError::MissingFrameRate),
                            Option::Some(rv) => match spec_parse_rate(rv) {
                                Option::None => Result::Err(ProbeError::BadFrameRate),
                                Option::Some(rate) => match lookup_value(pairs, "duration"@) {
                                    Option::None => Result::Err(ProbeError::MissingDuration),
                                    Option::Some(dv) => match spec_parse_duration(dv) {
                                        Option::None => Result::Err(ProbeError::BadDuration),
                                        Option::Some(dur) => Result::Ok(VideoMetadata {
                                            width: w,
                                            height: h,
                                            fps_num: rate.0,
                                            fps_den: rate.1,
                                            duration_micros: dur,
                                        }),
                                    },
                                },
                            },
                        },
                    },
                },
            },
        }
    }
}

/// The parser never looks at carriage returns, so LF and CRLF probe output
/// parse identically: parsing any text equals parsing that text with its
/// carriage returns removed.
pub proof fn lemma_parse_probe_crlf_insensitive(s: Seq<char>)
    ensures
        spec_parse_probe(s) == spec_parse_probe(strip_cr(s)),
{
    lemma_strip_cr_idempotent(s);
}

/// The pairs a vector of split tokens denotes.
pub open spec fn view_pairs(pairs: Seq<(Vec<char>, Vec<char>)>) -> Seq<(Seq<char>, Seq<char>)> {
    pairs.map_values(|p: (Vec<char>, Vec<char>)| (p.0@, p.1@))
}

/// Find the value of the last pair carrying `key`.
fn lookup_pair<'a>(
    pairs: &'a Vec<(Vec<char>, Vec<char>)>,
    key: &Vec<char>,
) -> (r: Option<&'a Vec<char>>)
    ensures
        r matches Option::Some(v) ==> lookup_value(view_pairs(pairs@), key@)
            == Option::Some(v@),
        r is None ==> lookup_value(view_pairs(pairs@), key@) is None,
{
    let mut i: usize = pairs.len();
    proof {
        assert(view_pairs(pairs@).take(pairs@.len() as int) =~= view_pairs(pairs@));
    }
    while i > 0
        invariant
            0 <= i <= pairs@.len(),
            lookup_value(view_pairs(pairs@), key@)
                == lookup_value(view_pairs(pairs@).take(i as int), key@),
        decreases i,
    {
        i = i - 1;
        proof {
            assert(view_pairs(pairs@).take(i as int + 1).drop_last()
                =~= view_pairs(pairs@).take(i as int));
            assert(view_pairs(pairs@).take(i as int + 1).last()
                == view_pairs(pairs@)[i as int]);
        }
        if chars_eq(&pairs[i].0, key) {
            return Option::Some(&pairs[i].1);
        }
    }
    proof {
        assert(view_pairs(pairs@).take(0) =~= Seq::empty());
    }
    Option::None
}

/// Parse a `width` or `height` value.
fn parse_dim_chars(v: &Vec<char>) -> (r: Option<u32>)
    ensures
        r == spec_parse_dim(v@),
        r matches Option::Some(d) ==> 1 <= d <= MAX_DIM,
{
    match crate::digits::parse_u64_chars(v) {
        Option::None => Option::None,
        Option::Some(n) => {
            if 1 <= n && n <= MAX_DIM as u64 {
                Option::Some(n as u32)
            } else {
                Option::None
            }
        },
    }
}

/// Parse an `r_frame_rate` value of the shape `N/D`.
fn parse_rate_chars(v: &Vec<char>) -> (r: Option<(u32, u32)>)
    ensures
        r == spec_parse_rate(v@),
        r matches Option::Some(p) ==> 1 <= p.0 <= MAX_FPS_PART && 1 <= p.1 <= MAX_FPS_PART,
{
    let n_all = v.len();
    match find_char(v, '/') {
        Option::None => Option::None,
        Option::Some(k) => {
            let numer = subrange_chars(v, 0, k);
            let denom = subrange_chars(v, k + 1, n_all);
            proof {
                assert(numer@ =~= v@.take(k as int));
            }
            let n = crate::digits::parse_u64_chars(&numer);
            let d = crate::digits::parse_u64_chars(&denom);
            match (n, d) {
                (Option::Some(n), Option::Some(d)) => {
                    if 1 <= n && n <= MAX_FPS_PART as u64 && 1 <= d && d <= MAX_FPS_PART as u64 {
                        Option::Some((n as u32, d as u32))
                    } else {
                        Option::None
                    }
                },
                _ => Option::None,
            }
        },
    }
}

/// Ten to the `k`, for the small exponents the duration parser pads with.
fn pow10_small(k: usize) -> (r: u64)
    requires
        k <= 6,
    ensures
        r == pow10(k as int),
{
    proof {
        reveal_with_fuel(pow10, 8);
    }
    match k {
        0 => 1,
        1 => 10,
        2 => 100,
        3 => 1_000,
        4 => 10_000,
        5 => 100_000,
        _ => 1_000_000,
    }
}

/// A fractional part shorter than six digits denotes fewer than a million
/// microseconds.
proof fn lemma_frac_micros_bound(frac: Seq<char>)
    requires
        all_digits(frac),
    ensures
        0 <= spec_frac_micros(frac) <= 999_999,
{
    reveal_with_fuel(pow10, 8);
    if frac.len() >= 6 {
        let t = frac.take(6);
        assert(forall|i: int| 0 <= i < t.len() ==> crate::digits::is_digit_char(#[trigger] t[i]));
        lemma_digits_val_bound(t);
    } else {
        lemma_digits_val_bound(frac);
        let l = frac.len() as int;
        let v = digits_val(frac);
        assert(v * pow10(6 - l) <= (pow10(l) - 1) * pow10(6 - l)) by (nonlinear_arith)
            requires 0 <= v <= pow10(l) - 1, 0 < pow10(6 - l);
        assert(0 <= v * pow10(6 - l)) by (nonlinear_arith)
            requires 0 <= v, 0 < pow10(6 - l);
        assert((pow10(l) - 1) * pow10(6 - l) == pow10(l) * pow10(6 - l) - pow10(6 - l))
            by (nonlinear_arith);
        assert(pow10(l) * pow10(6 - l) == 1_000_000) by (nonlinear_arith)
            requires
                0 <= l < 6,
                pow10(l) == pow10(l),
                pow10(l) * pow10(6 - l) == pow10(l) * pow10(6 - l),
                (l == 0 ==> pow10(l) == 1 && pow10(6 - l) == 1_000_000)
                    && (l == 1 ==> pow10(l) == 10 && pow10(6 - l) == 100_000)
                    && (l == 2 ==> pow10(l) == 100 && pow10(6 - l) == 10_000)
                    && (l == 3 ==> pow10(l) == 1_000 && pow10(6 - l) == 1_000)
                    && (l == 4 ==> pow10(l) == 10_000 && pow10(6 - l) == 100)
                    && (l == 5 ==> pow10(l) == 100_000 && pow10(6 - l) == 10),
            ;
    }
}

/// Parse a `duration` value: positive decimal seconds, to microseconds.
fn parse_duration_chars(v: &Vec<char>) -> (r: Option<u64>)
    ensures
        r == spec_parse_duration(v@),
        r matches Option::Some(d) ==> 1 <= d,
{
    let n_all = v.len();
    let (whole, frac): (Vec<char>, Vec<char>) = match find_char(v, '.') {
        Option::None => (subrange_chars(v, 0, n_all), Vec::new()),
        Option::Some(k) => (subrange_chars(v, 0, k), subrange_chars(v, k + 1, n_all)),
    };
    proof {
        assert(v@.subrange(0, v@.len() as int) =~= v@);
    }
    let secs = match crate::digits::parse_u64_chars(&whole) {
        Option::None => {
            return Option::None;
        },
        Option::Some(secs) => secs,
    };
    if !crate::digits::all_digits_chars(&frac) {
        return Option::None;
    }
    if secs > (u64::MAX - 999_999) / 1_000_000 {
        return Option::None;
    }
    let frac_m: u64 = if frac.len() >= 6 {
        let head = subrange_chars(&frac, 0, 6);
        proof {
            assert(head@ =~= frac@.take(6));
            assert(forall|i: int| 0 <= i < head@.len()
                ==> crate::digits::is_digit_char(#[trigger] head@[i]));
            lemma_digits_val_bound(head@);
            reveal_with_fuel(pow10, 8);
        }
        match crate::digits::parse_u64_chars(&head) {
            Option::Some(x) => x,
            Option::None => vstd::pervasive::unreached(),
        }
    } else {
        let raw = match crate::digits::parse_u64_chars(&frac) {
            Option::Some(x) => x,
            Option::None => {
                if frac.len() == 0 {
                    0
                } else {
                    proof {
                        lemma_digits_val_bound(frac@);
                        reveal_with_fuel(pow10, 8);
                    }
                    vstd::pervasive::unreached()
                }
            },
        };
        proof {
            lemma_digits_val_bound(frac@);
            reveal_with_fuel(pow10, 8);
            assert(raw * pow10(6 - frac@.len()) == spec_frac_micros(frac@));
            lemma_frac_micros_bound(frac@);
        }
        raw * pow10_small(6 - frac.len())
    };
    proof {
        lemma_frac_micros_bound(frac@);
        // secs fits after scaling to microseconds
        assert(secs * 1_000_000 <= u64::MAX - 999_999) by (nonlinear_arith)
            requires
                0 <= secs <= (u64::MAX - 999_999) / 1_000_000,
                (u64::MAX - 999_999) / 1_000_000 * 1_000_000 <= u64::MAX - 999_999,
            ;
        vstd::arithmetic::div_mod::lemma_fundamental_div_mod(
            (u64::MAX - 999_999) as int, 1_000_000);
    }
    let total: u64 = secs * MICROS_PER_SEC + frac_m;
    if total >= 1 {
        Option::Some(total)
    } else {
        Option::None
    }
}

/// Parse the probe collaborator's report: a flat `key=value` list holding
/// `width`, `height`, `r_frame_rate` and `duration`. Returns exactly what
/// `spec_parse_probe` prescribes; every accepted result is well-formed
/// metadata.
pub fn parse_probe_output(s: &str) -> (r: Result<VideoMetadata, ProbeError>)
    ensures
        r == spec_parse_probe(s@),
        r matches Result::Ok(m) ==> m.wf(),
{
    let raw = chars_of(s);
    let clean = strip_cr_chars(&raw);
    let trimmed = trim_chars(&clean);
    let tokens = split_token_chars(&trimmed);
    let ghost gtokens = tokens@.map_values(|t: Vec<char>| t@);
    proof {
        assert(gtokens == split_tokens(trim_of(strip_cr(s@))));
    }

    let mut pairs: Vec<(Vec<char>, Vec<char>)> = Vec::new();
    let mut i: usize = 0;
    while i < tokens.len()
        invariant
            0 <= i <= tokens@.len(),
            gtokens == tokens@.map_values(|t: Vec<char>| t@),
            forall|j: int| 0 <= j < i ==> token_pair(#[trigger] gtokens[j]) is Some,
            pairs@.len() == i,
            forall|j: int| 0 <= j < i ==> token_pair(#[trigger] gtokens[j])
                == Option::Some((pairs@[j].0@, pairs@[j].1@)),
            gtokens == split_tokens(trim_of(strip_cr(s@))),
        decreases tokens@.len() - i,
    {
        let t = &tokens[i];
        proof {
            assert(gtokens[i as int] == tokens@[i as int]@);
        }
        match find_char(t, '=') {
            Option::None => {
                proof {
                    assert(token_pair(gtokens[i as int]) is None);
                    assert(!all_pairs_ok(gtokens));
                }
                return Result::Err(ProbeError::MalformedPair);
            },
            Option::Some(k) => {
                let key = subrange_chars(t, 0, k);
                let val = subrange_chars(t, k + 1, t.len());
                proof {
                    assert(key@ =~= gtokens[i as int].take(k as int));
                }
                pairs.push((key, val));
            },
        }
        i = i + 1;
    }
    assert(all_pairs_ok(gtokens));
    let ghost gpairs = gtokens.map_values(|t: Seq<char>| token_pair(t)->Some_0);
    proof {
        assert(view_pairs(pairs@) =~= gpairs);
    }

    let width_key = chars_of("width");
    let w = match lookup_pair(&pairs, &width_key) {
        Option::None => {
            return Result::Err(ProbeError::MissingWidth);
        },
        Option::Some(v) => match parse_dim_chars(v) {
            Option::None => {
                return Result::Err(ProbeError::BadWidth);
            },
            Option::Some(w) => w,
        },
    };
    let height_key = chars_of("height");
    let h = match lookup_pair(&pairs, &height_key) {
        Option::None => {
            return Result::Err(ProbeError::MissingHeight);
        },
        Option::Some(v) => match parse_dim_chars(v) {
            Option::None => {
                return Result::Err(ProbeError::BadHeight);
            },
            Option::Some(h) => h,
        },
    };
    let rate_key = chars_of("r_frame_rate");
    let rate = match lookup_pair(&pairs, &rate_key) {
        Option::None => {
            return Result::Err(ProbeError::MissingFrameRate);
        },
        Option::Some(v) => match parse_rate_chars(v) {
            Option::None => {
                return Result::Err(ProbeError::BadFrameRate);
            },
            Option::Some(rate) => rate,
        },
    };
    let duration_key = chars_of("duration");
    let dur = match lookup_pair(&pairs, &duration_key) {
        Option::None => {
            return Result::Err(ProbeError::MissingDuration);
        },
        Option::Some(v) => match parse_duration_chars(v) {
            Option::None => {
                return Result::Err(ProbeError::BadDuration);
            },
            Option::Some(dur) => dur,
        },
    };
    Result::Ok(VideoMetadata {
        width: w,
        height: h,
        fps_num: rate.0,
        fps_den: rate.1,
        duration_micros: dur,
    })
}

} // verus!
