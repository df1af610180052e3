//! Semantic versions and the version ranges used by the `semver` scope algebra.
//!
//! A range is one of: an exact version `1.2.3[-pre]`, a caret range `^1.2.3`,
//! a tilde range `~1.2.3`, a bounded range `>=1.2.3 <2.0.0`, or a wildcard
//! `1.x` / `1.*` / `1.2.x` / `1.2.*`. Every range denotes an interval of
//! versions; a prerelease version only lies in the single-version interval of
//! itself.

use vstd::prelude::*;
use crate::text::{
    all_digits, chars_of, copy_string, digits_value, find_char, first_index_of, has_prefix, is_digit,
    lemma_digits_nonneg, lemma_first_index_of, lemma_trim_end_shape, lemma_trim_start_shape,
    trim_end_seq, trim_start_seq, lex_order, lex_order_chars, lower_chars, lower_seq,
    parse_u64_chars, parse_u64_seq, split_chars, split_seq, starts_with, strip_all_prefix,
    strip_all_prefix_chars, string_of, sub_chars, trim_chars, trim_seq, words_chars, words_seq,
    Order,
};

verus! {

/// A parsed version. Bounds computed from a parsed version may exceed 64 bits
/// by one (the bound after `u64::MAX`), so components are held in 128 bits.
#[derive(Clone, Debug)]
pub struct SemVer {
    pub major: u128,
    pub minor: u128,
    pub patch: u128,
    pub prerelease: Option<String>,
}

/// A version as mathematical values.
pub struct VerV {
    pub major: int,
    pub minor: int,
    pub patch: int,
    pub pre: Option<Seq<char>>,
}

impl View for SemVer {
    type V = VerV;

    open spec fn view(&self) -> VerV {
        VerV {
            major: self.major as int,
            minor: self.minor as int,
            patch: self.patch as int,
            pre: match self.prerelease {
                Some(p) => Some(p@),
                None => None,
            },
        }
    }
}

/// An interval of versions; `hi == None` means unbounded above.
#[derive(Clone, Debug)]
pub struct SemVerInterval {
    pub lo: SemVer,
    pub hi: Option<SemVer>,
    pub lo_inclusive: bool,
    pub hi_inclusive: bool,
}

pub struct IntervalV {
    pub lo: VerV,
    pub hi: Option<VerV>,
    pub lo_inclusive: bool,
    pub hi_inclusive: bool,
}

impl View for SemVerInterval {
    type V = IntervalV;

    open spec fn view(&self) -> IntervalV {
        IntervalV {
            lo: self.lo@,
            hi: match self.hi {
                Some(h) => Some(h@),
                None => None,
            },
            lo_inclusive: self.lo_inclusive,
            hi_inclusive: self.hi_inclusive,
        }
    }
}

// ---------------------------------------------------------------------------
// Specification
// ---------------------------------------------------------------------------

pub open spec fn release(major: int, minor: int, patch: int) -> VerV {
    VerV { major, minor, patch, pre: None }
}

/// A numeric version component: decimal digits without a leading zero,
/// fitting in 64 bits.
pub open spec fn part_ok(p: Seq<char>) -> bool {
    &&& p.len() > 0
    &&& all_digits(p)
    &&& digits_value(p) <= u64::MAX
    &&& !(p.len() > 1 && p[0] == '0')
}

/// The core `M.m.p` of a version string together with its prerelease tag
/// (everything after the first `-`).
pub open spec fn split_prerelease(raw: Seq<char>) -> (Seq<char>, Option<Seq<char>>) {
    match first_index_of(raw, '-') {
        Some(i) => (raw.take(i), Some(raw.skip(i + 1))),
        None => (raw, None),
    }
}

/// `M.m.p[-pre]`, after trimming whitespace.
pub open spec fn parse_exact_spec(input: Seq<char>) -> Option<VerV> {
    let raw = trim_seq(input);
    let core = split_prerelease(raw).0;
    let parts = split_seq(core, '.');
    if parts.len() == 3 && part_ok(parts[0]) && part_ok(parts[1]) && part_ok(parts[2]) {
        Some(
            VerV {
                major: digits_value(parts[0]),
                minor: digits_value(parts[1]),
                patch: digits_value(parts[2]),
                pre: split_prerelease(raw).1,
            },
        )
    } else {
        None
    }
}

pub open spec fn order_int(a: int, b: int) -> Order {
    if a < b {
        Order::Less
    } else if a > b {
        Order::Greater
    } else {
        Order::Equal
    }
}

/// Order of the numeric cores.
pub open spec fn core_order(a: VerV, b: VerV) -> Order {
    if a.major != b.major {
        order_int(a.major, b.major)
    } else if a.minor != b.minor {
        order_int(a.minor, b.minor)
    } else {
        order_int(a.patch, b.patch)
    }
}

/// Version precedence: cores first; a release follows its prereleases;
/// prerelease tags compare as strings.
pub open spec fn ver_order(a: VerV, b: VerV) -> Order {
    if core_order(a, b) != Order::Equal {
        core_order(a, b)
    } else {
        match (a.pre, b.pre) {
            (None, None) => Order::Equal,
            (None, Some(_)) => Order::Greater,
            (Some(_), None) => Order::Less,
            (Some(x), Some(y)) => lex_order(x, y),
        }
    }
}

pub open spec fn is_star(p: Seq<char>) -> bool {
    p.len() == 1 && (p[0] == 'x' || p[0] == '*')
}

pub open spec fn half_open(lo: VerV, hi: VerV) -> IntervalV {
    IntervalV { lo, hi: Some(hi), lo_inclusive: true, hi_inclusive: false }
}

pub open spec fn point(v: VerV) -> IntervalV {
    IntervalV { lo: v, hi: Some(v), lo_inclusive: true, hi_inclusive: true }
}

/// Upper bound of a caret range.
pub open spec fn caret_hi(lo: VerV) -> VerV {
    if lo.major == 0 {
        if lo.minor == 0 {
            release(0, 0, lo.patch + 1)
        } else {
            release(lo.major, lo.minor + 1, 0)
        }
    } else {
        release(lo.major + 1, 0, 0)
    }
}

pub open spec fn caret_spec(rest: Seq<char>) -> Option<IntervalV> {
    match parse_exact_spec(rest) {
        None => None,
        Some(lo) => if lo.pre is Some {
            None
        } else {
            Some(half_open(lo, caret_hi(lo)))
        },
    }
}

pub open spec fn tilde_spec(rest: Seq<char>) -> Option<IntervalV> {
    match parse_exact_spec(rest) {
        None => None,
        Some(lo) => if lo.pre is Some {
            None
        } else {
            Some(half_open(lo, release(lo.major, lo.minor + 1, 0)))
        },
    }
}

/// `>=A <B` written as exactly two words.
pub open spec fn is_bounded_form(words: Seq<Seq<char>>) -> bool {
    words.len() == 2 && has_prefix(words[0], ">="@) && has_prefix(words[1], "<"@)
}

pub open spec fn bounded_spec(words: Seq<Seq<char>>) -> Option<IntervalV> {
    let lo = parse_exact_spec(strip_all_prefix(words[0], ">="@));
    let hi = parse_exact_spec(strip_all_prefix(words[1], "<"@));
    match (lo, hi) {
        (Some(l), Some(h)) => if l.pre is Some || h.pre is Some {
            None
        } else {
            Some(half_open(l, h))
        },
        _ => None,
    }
}

/// `M.x`, `M.*`, `M.m.x`, `M.m.*` (already lower-cased).
pub open spec fn wildcard_spec(lower: Seq<char>) -> Option<IntervalV> {
    let parts = split_seq(lower, '.');
    if parts.len() < 1 || parts.len() > 3 {
        None
    } else {
        match parse_u64_seq(parts[0]) {
            None => None,
            Some(major) => if parts.len() == 2 && is_star(parts[1]) {
                Some(half_open(release(major as int, 0, 0), release(major + 1, 0, 0)))
            } else if parts.len() == 3 {
                if is_star(parts[1]) {
                    None
                } else {
                    match parse_u64_seq(parts[1]) {
                        None => None,
                        Some(minor) => if is_star(parts[2]) {
                            Some(
                                half_open(
                                    release(major as int, minor as int, 0),
                                    release(major as int, minor + 1, 0),
                                ),
                            )
                        } else {
                            None
                        },
                    }
                }
            } else {
                None
            },
        }
    }
}

/// The interval denoted by a range string, if it is one of the accepted forms.
pub open spec fn parse_range_spec(range: Seq<char>) -> Option<IntervalV> {
    let raw = trim_seq(range);
    if raw.len() == 0 {
        None
    } else if parse_exact_spec(raw) is Some {
        Some(point(parse_exact_spec(raw)->0))
    } else if raw[0] == '^' {
        caret_spec(raw.skip(1))
    } else if raw[0] == '~' {
        tilde_spec(raw.skip(1))
    } else if has_prefix(raw, ">="@) && is_bounded_form(words_seq(raw)) {
        bounded_spec(words_seq(raw))
    } else {
        wildcard_spec(lower_seq(raw))
    }
}

pub open spec fn is_point_spec(iv: IntervalV) -> bool {
    match iv.hi {
        Some(hi) => iv.lo_inclusive && iv.hi_inclusive && ver_order(iv.lo, hi) == Order::Equal,
        None => false,
    }
}

pub open spec fn above_lo(v: VerV, iv: IntervalV) -> bool {
    if iv.lo_inclusive {
        ver_order(v, iv.lo) != Order::Less
    } else {
        ver_order(v, iv.lo) == Order::Greater
    }
}

pub open spec fn below_hi(v: VerV, iv: IntervalV) -> bool {
    match iv.hi {
        None => true,
        Some(hi) => if iv.hi_inclusive {
            ver_order(v, hi) != Order::Greater
        } else {
            ver_order(v, hi) == Order::Less
        },
    }
}

/// Membership: a prerelease is only in the single-version interval of itself.
pub open spec fn in_interval_spec(v: VerV, iv: IntervalV) -> bool {
    if v.pre is Some {
        is_point_spec(iv) && ver_order(v, iv.lo) == Order::Equal
    } else {
        above_lo(v, iv) && below_hi(v, iv)
    }
}

pub open spec fn satisfies_spec(version: Seq<char>, range: Seq<char>) -> bool {
    match (parse_exact_spec(version), parse_range_spec(range)) {
        (Some(v), Some(iv)) => in_interval_spec(v, iv),
        _ => false,
    }
}

/// Interval containment, decided on the bounds.
pub open spec fn interval_subset_spec(child: IntervalV, parent: IntervalV) -> bool {
    let lo = ver_order(child.lo, parent.lo);
    if lo == Order::Less {
        false
    } else if lo == Order::Equal && child.lo_inclusive && !parent.lo_inclusive {
        false
    } else {
        match parent.hi {
            None => true,
            Some(p_hi) => match child.hi {
                None => false,
                Some(c_hi) => {
                    let hi = ver_order(c_hi, p_hi);
                    !(hi == Order::Greater) && !(hi == Order::Equal && child.hi_inclusive
                        && !parent.hi_inclusive)
                },
            },
        }
    }
}

pub open spec fn range_subset_spec(child: Seq<char>, parent: Seq<char>) -> bool {
    match (parse_range_spec(child), parse_range_spec(parent)) {
        (Some(c), Some(p)) => interval_subset_spec(c, p),
        _ => false,
    }
}

/// `a`'s lower bound does not pass `b`'s upper bound.
pub open spec fn lo_before_hi(a: IntervalV, b: IntervalV) -> bool {
    match b.hi {
        None => true,
        Some(hi) => {
            let c = ver_order(a.lo, hi);
            c == Order::Less || (c == Order::Equal && a.lo_inclusive && b.hi_inclusive)
        },
    }
}

pub open spec fn intervals_overlap_spec(a: IntervalV, b: IntervalV) -> bool {
    if is_point_spec(a) {
        in_interval_spec(a.lo, b)
    } else if is_point_spec(b) {
        in_interval_spec(b.lo, a)
    } else {
        lo_before_hi(a, b) && lo_before_hi(b, a)
    }
}

pub open spec fn ranges_overlap_spec(a: Seq<char>, b: Seq<char>) -> bool {
    match (parse_range_spec(a), parse_range_spec(b)) {
        (Some(x), Some(y)) => intervals_overlap_spec(x, y),
        _ => false,
    }
}

// ---------------------------------------------------------------------------
// Implementation
// ---------------------------------------------------------------------------

/// A field-by-field copy of `v`.
pub fn copy_semver(v: &SemVer) -> (r: SemVer)
    ensures
        r@ == v@,
{
    let prerelease = match &v.prerelease {
        Some(p) => Some(copy_string(p.as_str())),
        None => None,
    };
    SemVer { major: v.major, minor: v.minor, patch: v.patch, prerelease }
}

/// Checks one numeric component and returns its value.
fn parse_part(p: &Vec<char>) -> (r: Option<u128>)
    ensures
        match r {
            Some(v) => part_ok(p@) && v == digits_value(p@),
            None => !part_ok(p@),
        },
{
    if p.len() == 0 {
        return None;
    }
    if p.len() > 1 && p[0] == '0' {
        return None;
    }
    if p[0] == '+' {
        assert(!is_digit(p@[0]));
        return None;
    }
    match parse_u64_chars(p) {
        None => {
            assert(!(p@.len() > 0 && p@[0] == '+'));
            None
        },
        Some(v) => {
            assert(!(p@.len() > 0 && p@[0] == '+'));
            proof {
                lemma_digits_nonneg(p@);
            }
            Some(v as u128)
        },
    }
}

fn parse_exact_chars(input: &Vec<char>) -> (r: Option<SemVer>)
    ensures
        match r {
            Some(v) => parse_exact_spec(input@) == Some(v@),
            None => parse_exact_spec(input@) is None,
        },
{
    let raw = trim_chars(input);
    let (core, pre): (Vec<char>, Option<String>) = match find_char(&raw, '-') {
        Some(i) => {
            proof {
                lemma_first_index_of(raw@, '-');
            }
            let c = sub_chars(&raw, 0, i);
            let p = sub_chars(&raw, i + 1, raw.len());
            assert(c@ =~= raw@.take(i as int));
            assert(p@ =~= raw@.skip(i + 1));
            (c, Some(string_of(&p)))
        },
        None => (sub_chars(&raw, 0, raw.len()), None),
    };
    assert(core@ =~= split_prerelease(raw@).0);
    let parts = split_chars(&core, '.');
    if parts.len() != 3 {
        return None;
    }
    let major = match parse_part(&parts[0]) {
        Some(v) => v,
        None => return None,
    };
    let minor = match parse_part(&parts[1]) {
        Some(v) => v,
        None => return None,
    };
    let patch = match parse_part(&parts[2]) {
        Some(v) => v,
        None => return None,
    };
    let r = SemVer { major, minor, patch, prerelease: pre };
    assert(r@.pre == split_prerelease(raw@).1);
    Some(r)
}

/// Parses an exact version `M.m.p[-pre]` (surrounding whitespace ignored).
pub fn parse_exact_version(input: &str) -> (r: Option<SemVer>)
    ensures
        match r {
            Some(v) => parse_exact_spec(input@) == Some(v@),
            None => parse_exact_spec(input@) is None,
        },
{
    let cs = chars_of(input);
    parse_exact_chars(&cs)
}

/// Whether `input` is an exact version.
pub fn is_exact_version(input: &str) -> (r: bool)
    ensures
        r == parse_exact_spec(input@) is Some,
{
    parse_exact_version(input).is_some()
}

fn order_u128(a: u128, b: u128) -> (r: Order)
    ensures
        r == order_int(a as int, b as int),
{
    if a < b {
        Order::Less
    } else if a > b {
        Order::Greater
    } else {
        Order::Equal
    }
}

/// Compares the numeric cores of two versions.
pub fn compare_core(a: &SemVer, b: &SemVer) -> (r: Order)
    ensures
        r == core_order(a@, b@),
{
    if a.major != b.major {
        order_u128(a.major, b.major)
    } else if a.minor != b.minor {
        order_u128(a.minor, b.minor)
    } else {
        order_u128(a.patch, b.patch)
    }
}

/// Compares two versions by precedence.
pub fn compare_semver(a: &SemVer, b: &SemVer) -> (r: Order)
    ensures
        r == ver_order(a@, b@),
{
    let c = compare_core(a, b);
    if c != Order::Equal {
        return c;
    }
    match (&a.prerelease, &b.prerelease) {
        (None, None) => Order::Equal,
        (None, Some(_)) => Order::Greater,
        (Some(_), None) => Order::Less,
        (Some(x), Some(y)) => {
            let xs = chars_of(x.as_str());
            let ys = chars_of(y.as_str());
            lex_order_chars(&xs, &ys)
        },
    }
}

/// The release version `major.minor.patch`.
pub fn ver(major: u128, minor: u128, patch: u128) -> (r: SemVer)
    ensures
        r@ == release(major as int, minor as int, patch as int),
{
    SemVer { major, minor, patch, prerelease: None }
}

/// `(M+1).0.0`.
pub fn bump_major(v: &SemVer) -> (r: SemVer)
    requires
        v.major < u128::MAX,
    ensures
        r@ == release(v.major + 1, 0, 0),
{
    ver(v.major + 1, 0, 0)
}

/// `M.(m+1).0`.
pub fn bump_minor(v: &SemVer) -> (r: SemVer)
    requires
        v.minor < u128::MAX,
    ensures
        r@ == release(v.major as int, v.minor + 1, 0),
{
    ver(v.major, v.minor + 1, 0)
}

/// Whether the interval holds exactly one version, both ends included.
pub fn is_closed_point(iv: &SemVerInterval) -> (r: bool)
    ensures
        r == is_point_spec(iv@),
{
    match &iv.hi {
        Some(hi) => iv.lo_inclusive && iv.hi_inclusive && compare_semver(&iv.lo, hi)
            == Order::Equal,
        None => false,
    }
}

proof fn lemma_parsed_bounds(v: VerV, input: Seq<char>)
    requires
        parse_exact_spec(input) == Some(v),
    ensures
        0 <= v.major <= u64::MAX,
        0 <= v.minor <= u64::MAX,
        0 <= v.patch <= u64::MAX,
{
    let raw = trim_seq(input);
    let parts = split_seq(split_prerelease(raw).0, '.');
    lemma_digits_nonneg(parts[0]);
    lemma_digits_nonneg(parts[1]);
    lemma_digits_nonneg(parts[2]);
}

fn half_open_exec(lo: SemVer, hi: SemVer) -> (r: SemVerInterval)
    ensures
        r@ == half_open(lo@, hi@),
{
    SemVerInterval { lo, hi: Some(hi), lo_inclusive: true, hi_inclusive: false }
}

fn caret_exec(rest: &Vec<char>) -> (r: Option<SemVerInterval>)
    ensures
        match r {
            Some(iv) => caret_spec(rest@) == Some(iv@),
            None => caret_spec(rest@) is None,
        },
{
    let lo = match parse_exact_chars(rest) {
        Some(v) => v,
        None => return None,
    };
    proof {
        lemma_parsed_bounds(lo@, rest@);
    }
    if lo.prerelease.is_some() {
        return None;
    }
    let hi = if lo.major == 0 {
        if lo.minor == 0 {
            ver(0, 0, lo.patch + 1)
        } else {
            bump_minor(&lo)
        }
    } else {
        bump_major(&lo)
    };
    Some(half_open_exec(lo, hi))
}

fn tilde_exec(rest: &Vec<char>) -> (r: Option<SemVerInterval>)
    ensures
        match r {
            Some(iv) => tilde_spec(rest@) == Some(iv@),
            None => tilde_spec(rest@) is None,
        },
{
    let lo = match parse_exact_chars(rest) {
        Some(v) => v,
        None => return None,
    };
    proof {
        lemma_parsed_bounds(lo@, rest@);
    }
    if lo.prerelease.is_some() {
        return None;
    }
    let hi = bump_minor(&lo);
    Some(half_open_exec(lo, hi))
}

fn bounded_exec(words: &Vec<Vec<char>>) -> (r: Option<SemVerInterval>)
    requires
        words@.len() == 2,
    ensures
        match r {
            Some(iv) => bounded_spec(seq![words@[0]@, words@[1]@]) == Some(iv@),
            None => bounded_spec(seq![words@[0]@, words@[1]@]) is None,
        },
{
    let ge = chars_of(">=");
    let lt = chars_of("<");
    let lo_text = strip_all_prefix_chars(&words[0], &ge);
    let hi_text = strip_all_prefix_chars(&words[1], &lt);
    let lo = parse_exact_chars(&lo_text);
    let hi = parse_exact_chars(&hi_text);
    match (lo, hi) {
        (Some(l), Some(h)) => {
            if l.prerelease.is_some() || h.prerelease.is_some() {
                None
            } else {
                Some(half_open_exec(l, h))
            }
        },
        _ => None,
    }
}

fn is_star_exec(p: &Vec<char>) -> (r: bool)
    ensures
        r == is_star(p@),
{
    p.len() == 1 && (p[0] == 'x' || p[0] == '*')
}

fn wildcard_exec(lower: &Vec<char>) -> (r: Option<SemVerInterval>)
    ensures
        match r {
            Some(iv) => wildcard_spec(lower@) == Some(iv@),
            None => wildcard_spec(lower@) is None,
        },
{
    let parts = split_chars(lower, '.');
    if parts.len() < 1 || parts.len() > 3 {
        return None;
    }
    let major: u64 = match parse_u64_chars(&parts[0]) {
        Some(v) => v,
        None => return None,
    };
    let major = major as u128;
    if parts.len() == 2 && is_star_exec(&parts[1]) {
        return Some(half_open_exec(ver(major, 0, 0), ver(major + 1, 0, 0)));
    }
    if parts.len() == 3 {
        if is_star_exec(&parts[1]) {
            return None;
        }
        let minor: u64 = match parse_u64_chars(&parts[1]) {
            Some(v) => v,
            None => return None,
        };
        let minor = minor as u128;
        if is_star_exec(&parts[2]) {
            return Some(half_open_exec(ver(major, minor, 0), ver(major, minor + 1, 0)));
        }
    }
    None
}

fn parse_range_chars(range: &Vec<char>) -> (r: Option<SemVerInterval>)
    ensures
        match r {
            Some(iv) => parse_range_spec(range@) == Some(iv@),
            None => parse_range_spec(range@) is None,
        },
{
    let raw = trim_chars(range);
    if raw.len() == 0 {
        return None;
    }
    match parse_exact_chars(&raw) {
        Some(exact) => {
            let lo = copy_semver(&exact);
            return Some(
                SemVerInterval { lo, hi: Some(exact), lo_inclusive: true, hi_inclusive: true },
            );
        },
        None => {},
    }
    if raw[0] == '^' {
        let rest = sub_chars(&raw, 1, raw.len());
        assert(rest@ =~= raw@.skip(1));
        return caret_exec(&rest);
    }
    if raw[0] == '~' {
        let rest = sub_chars(&raw, 1, raw.len());
        assert(rest@ =~= raw@.skip(1));
        return tilde_exec(&rest);
    }
    let ge = chars_of(">=");
    if starts_with(&raw, &ge) {
        let words = words_chars(&raw);
        let lt = chars_of("<");
        if words.len() == 2 && starts_with(&words[0], &ge) && starts_with(&words[1], &lt) {
            assert(words_seq(raw@) =~= seq![words@[0]@, words@[1]@]);
            return bounded_exec(&words);
        }
        assert(!is_bounded_form(words_seq(raw@)));
    }
    let lower = lower_chars(&raw);
    wildcard_exec(&lower)
}

/// The interval denoted by `range`, or `None` if it is not an accepted form.
pub fn parse_range_to_interval(range: &str) -> (r: Option<SemVerInterval>)
    ensures
        match r {
            Some(iv) => parse_range_spec(range@) == Some(iv@),
            None => parse_range_spec(range@) is None,
        },
{
    let cs = chars_of(range);
    parse_range_chars(&cs)
}

/// Whether `v` lies in `iv`.
pub fn in_interval(v: &SemVer, iv: &SemVerInterval) -> (r: bool)
    ensures
        r == in_interval_spec(v@, iv@),
{
    if v.prerelease.is_some() {
        return is_closed_point(iv) && compare_semver(v, &iv.lo) == Order::Equal;
    }
    let lo = compare_semver(v, &iv.lo);
    let below = if iv.lo_inclusive {
        lo == Order::Less
    } else {
        lo != Order::Greater
    };
    if below {
        return false;
    }
    match &iv.hi {
        None => true,
        Some(hi) => {
            let c = compare_semver(v, hi);
            if iv.hi_inclusive {
                c != Order::Greater
            } else {
                c == Order::Less
            }
        },
    }
}

/// Whether the exact version `version` lies in the range `range`; `false` when
/// either does not parse.
pub fn semver_satisfies(version: &str, range: &str) -> (r: bool)
    ensures
        r == satisfies_spec(version@, range@),
{
    let v = match parse_exact_version(version) {
        Some(v) => v,
        None => return false,
    };
    let iv = match parse_range_to_interval(range) {
        Some(iv) => iv,
        None => return false,
    };
    in_interval(&v, &iv)
}

/// Whether every version of `child` is a version of `parent`, by the bounds.
pub fn interval_subset(child: &SemVerInterval, parent: &SemVerInterval) -> (r: bool)
    ensures
        r == interval_subset_spec(child@, parent@),
{
    let lo = compare_semver(&child.lo, &parent.lo);
    if lo == Order::Less {
        return false;
    }
    if lo == Order::Equal && child.lo_inclusive && !parent.lo_inclusive {
        return false;
    }
    match &parent.hi {
        None => true,
        Some(p_hi) => match &child.hi {
            None => false,
            Some(c_hi) => {
                let hi = compare_semver(c_hi, p_hi);
                if hi == Order::Greater {
                    return false;
                }
                if hi == Order::Equal && child.hi_inclusive && !parent.hi_inclusive {
                    return false;
                }
                true
            },
        },
    }
}

/// Whether range `child_range` is contained in range `parent_range`; `false`
/// when either does not parse.
pub fn semver_range_subset(child_range: &str, parent_range: &str) -> (r: bool)
    ensures
        r == range_subset_spec(child_range@, parent_range@),
{
    let child = match parse_range_to_interval(child_range) {
        Some(c) => c,
        None => return false,
    };
    let parent = match parse_range_to_interval(parent_range) {
        Some(p) => p,
        None => return false,
    };
    interval_subset(&child, &parent)
}

fn lo_before_hi_exec(a: &SemVerInterval, b: &SemVerInterval) -> (r: bool)
    ensures
        r == lo_before_hi(a@, b@),
{
    match &b.hi {
        None => true,
        Some(hi) => {
            let c = compare_semver(&a.lo, hi);
            c == Order::Less || (c == Order::Equal && a.lo_inclusive && b.hi_inclusive)
        },
    }
}

/// Whether ranges `a` and `b` share a version; `false` when either does not
/// parse.
pub fn semver_ranges_overlap(a: &str, b: &str) -> (r: bool)
    ensures
        r == ranges_overlap_spec(a@, b@),
{
    let ia = match parse_range_to_interval(a) {
        Some(x) => x,
        None => return false,
    };
    let ib = match parse_range_to_interval(b) {
        Some(x) => x,
        None => return false,
    };
    if is_closed_point(&ia) {
        return in_interval(&ia.lo, &ib);
    }
    if is_closed_point(&ib) {
        return in_interval(&ib.lo, &ia);
    }
    lo_before_hi_exec(&ia, &ib) && lo_before_hi_exec(&ib, &ia)
}


// ---------------------------------------------------------------------------
// Order facts
// ---------------------------------------------------------------------------

proof fn lemma_lex_refl(a: Seq<char>)
    ensures
        lex_order(a, a) == Order::Equal,
    decreases a.len(),
{
    if a.len() > 0 {
        lemma_lex_refl(a.drop_first());
    }
}

proof fn lemma_lex_flip(a: Seq<char>, b: Seq<char>)
    ensures
        (lex_order(a, b) == Order::Less) == (lex_order(b, a) == Order::Greater),
        (lex_order(a, b) == Order::Equal) == (lex_order(b, a) == Order::Equal),
        lex_order(a, b) == Order::Equal ==> a == b,
    decreases a.len(),
{
    if a.len() > 0 && b.len() > 0 {
        lemma_lex_flip(a.drop_first(), b.drop_first());
        if lex_order(a, b) == Order::Equal {
            assert(a.drop_first() == b.drop_first());
            assert(a =~= seq![a[0]] + a.drop_first());
            assert(b =~= seq![b[0]] + b.drop_first());
        }
    } else if a.len() == 0 && b.len() == 0 {
        assert(a =~= b);
    }
}

proof fn lemma_lex_trans(a: Seq<char>, b: Seq<char>, c: Seq<char>)
    ensures
        lex_order(a, b) != Order::Greater && lex_order(b, c) != Order::Greater ==> lex_order(a, c)
            != Order::Greater,
        lex_order(a, b) == Order::Less && lex_order(b, c) != Order::Greater ==> lex_order(a, c)
            == Order::Less,
        lex_order(a, b) != Order::Greater && lex_order(b, c) == Order::Less ==> lex_order(a, c)
            == Order::Less,
    decreases a.len(),
{
    if a.len() > 0 && b.len() > 0 && c.len() > 0 {
        lemma_lex_trans(a.drop_first(), b.drop_first(), c.drop_first());
    }
}

proof fn lemma_ver_refl(a: VerV)
    ensures
        ver_order(a, a) == Order::Equal,
{
    if let Some(x) = a.pre {
        lemma_lex_refl(x);
    }
}

proof fn lemma_ver_flip(a: VerV, b: VerV)
    ensures
        (ver_order(a, b) == Order::Less) == (ver_order(b, a) == Order::Greater),
        (ver_order(a, b) == Order::Equal) == (ver_order(b, a) == Order::Equal),
        ver_order(a, b) == Order::Equal ==> a == b,
{
    match (a.pre, b.pre) {
        (Some(x), Some(y)) => lemma_lex_flip(x, y),
        _ => {},
    }
}

proof fn lemma_ver_trans(a: VerV, b: VerV, c: VerV)
    ensures
        ver_order(a, b) != Order::Greater && ver_order(b, c) != Order::Greater ==> ver_order(a, c)
            != Order::Greater,
        ver_order(a, b) == Order::Less && ver_order(b, c) != Order::Greater ==> ver_order(a, c)
            == Order::Less,
        ver_order(a, b) != Order::Greater && ver_order(b, c) == Order::Less ==> ver_order(a, c)
            == Order::Less,
{
    match (a.pre, b.pre, c.pre) {
        (Some(x), Some(y), Some(z)) => lemma_lex_trans(x, y, z),
        _ => {},
    }
}

/// Trimming twice is trimming once.
pub proof fn law_trim_is_idempotent(s: Seq<char>)
    ensures
        trim_seq(trim_seq(s)) == trim_seq(s),
{
    lemma_trim_idempotent(s);
}

proof fn lemma_trim_idempotent(s: Seq<char>)
    ensures
        trim_seq(trim_seq(s)) == trim_seq(s),
{
    let t = trim_start_seq(s);
    lemma_trim_start_shape(s);
    lemma_trim_end_shape(t);
    let u = trim_end_seq(t);
    if u.len() > 0 {
        let k = choose|k: int| 0 <= k <= t.len() && u == t.take(k);
        assert(u[0] == t[0]);
    }
    assert(trim_start_seq(u) == u);
    lemma_trim_end_shape(u);
}

// ---------------------------------------------------------------------------
// Laws
// ---------------------------------------------------------------------------

/// An exact version satisfies the range made of itself.
pub proof fn law_exact_version_satisfies_itself(v: Seq<char>)
    requires
        parse_exact_spec(v) is Some,
    ensures
        satisfies_spec(v, v),
{
    lemma_trim_idempotent(v);
    let pv = parse_exact_spec(v)->0;
    assert(parse_exact_spec(trim_seq(v)) == Some(pv));
    lemma_parsed_nonempty(v);
    lemma_ver_refl(pv);
}

proof fn lemma_parsed_nonempty(v: Seq<char>)
    requires
        parse_exact_spec(v) is Some,
    ensures
        trim_seq(v).len() > 0,
{
    let raw = trim_seq(v);
    let core = split_prerelease(raw).0;
    if raw.len() == 0 {
        lemma_first_index_of(raw, '-');
        assert(core.len() == 0);
        assert(first_index_of(core, '.') is None);
        assert(split_seq(core, '.').len() == 1);
    }
}

/// Every range that parses is contained in itself.
pub proof fn law_range_subset_reflexive(r: Seq<char>)
    requires
        parse_range_spec(r) is Some,
    ensures
        range_subset_spec(r, r),
{
    let iv = parse_range_spec(r)->0;
    lemma_ver_refl(iv.lo);
    if let Some(h) = iv.hi {
        lemma_ver_refl(h);
    }
}

/// Range containment is transitive.
pub proof fn law_range_subset_transitive(a: Seq<char>, b: Seq<char>, c: Seq<char>)
    requires
        range_subset_spec(a, b),
        range_subset_spec(b, c),
    ensures
        range_subset_spec(a, c),
{
    let x = parse_range_spec(a)->0;
    let y = parse_range_spec(b)->0;
    let z = parse_range_spec(c)->0;
    lemma_ver_trans(x.lo, y.lo, z.lo);
    lemma_ver_flip(x.lo, y.lo);
    lemma_ver_flip(y.lo, z.lo);
    lemma_ver_flip(x.lo, z.lo);
    if let (Some(xh), Some(yh), Some(zh)) = (x.hi, y.hi, z.hi) {
        lemma_ver_trans(xh, yh, zh);
        lemma_ver_flip(xh, yh);
        lemma_ver_flip(yh, zh);
        lemma_ver_flip(xh, zh);
    }
}

/// Attenuation is sound: a release version in a child range is in every range
/// that contains the child. (A prerelease is only in the single-version range
/// of itself, so it is left out.)
pub proof fn law_range_subset_sound(v: Seq<char>, child: Seq<char>, parent: Seq<char>)
    requires
        range_subset_spec(child, parent),
        satisfies_spec(v, child),
        parse_exact_spec(v)->0.pre is None,
    ensures
        satisfies_spec(v, parent),
{
    let pv = parse_exact_spec(v)->0;
    let c = parse_range_spec(child)->0;
    let p = parse_range_spec(parent)->0;
    lemma_ver_trans(pv, c.lo, p.lo);
    lemma_ver_trans(p.lo, c.lo, pv);
    lemma_ver_flip(pv, c.lo);
    lemma_ver_flip(c.lo, p.lo);
    lemma_ver_flip(pv, p.lo);
    if let (Some(ch), Some(ph)) = (c.hi, p.hi) {
        lemma_ver_trans(pv, ch, ph);
        lemma_ver_flip(pv, ch);
        lemma_ver_flip(ch, ph);
    }
}

/// Overlap of ranges is symmetric.
pub proof fn law_ranges_overlap_symmetric(a: Seq<char>, b: Seq<char>)
    ensures
        ranges_overlap_spec(a, b) == ranges_overlap_spec(b, a),
{
    if let (Some(x), Some(y)) = (parse_range_spec(a), parse_range_spec(b)) {
        lemma_ver_flip(x.lo, y.lo);
        if let Some(h) = y.hi {
            lemma_ver_flip(x.lo, h);
            lemma_ver_flip(y.lo, h);
        }
        if let Some(h) = x.hi {
            lemma_ver_flip(y.lo, h);
            lemma_ver_flip(x.lo, h);
        }
    }
}

/// A trimmed range led by `^` or `~` is not an exact version.
proof fn lemma_led_range_not_exact(raw: Seq<char>)
    requires
        raw.len() > 0,
        trim_seq(raw) == raw,
        raw[0] == '^' || raw[0] == '~',
    ensures
        parse_exact_spec(raw) is None,
{
    lemma_first_index_of(raw, '-');
    let core = split_prerelease(raw).0;
    assert(core.len() > 0 && core[0] == raw[0]) by {
        match first_index_of(raw, '-') {
            Some(i) => {
                if i == 0 {
                    assert(raw[0] == '-');
                }
                assert(core == raw.take(i));
            },
            None => {
                assert(core == raw);
            },
        }
    }
    lemma_first_index_of(core, '.');
    let parts = split_seq(core, '.');
    assert(parts[0].len() > 0 && parts[0][0] == raw[0]) by {
        match first_index_of(core, '.') {
            Some(j) => {
                if j == 0 {
                    assert(core[0] == '.');
                }
                assert(parts == seq![core.take(j)] + split_seq(core.skip(j + 1), '.'));
                assert(parts[0] == core.take(j));
            },
            None => {
                assert(parts == seq![core]);
            },
        }
    }
    assert(!all_digits(parts[0]));
}

/// The interval of a range led by `lead` (`^` or `~`) and a release `lo`.
proof fn lemma_led_range(range: Seq<char>, lo: VerV)
    requires
        trim_seq(range).len() > 0,
        trim_seq(range)[0] == '^' || trim_seq(range)[0] == '~',
        parse_exact_spec(trim_seq(range).skip(1)) == Some(lo),
        lo.pre is None,
    ensures
        trim_seq(range)[0] == '^' ==> parse_range_spec(range) == Some(half_open(lo, caret_hi(lo))),
        trim_seq(range)[0] == '~' ==> parse_range_spec(range) == Some(
            half_open(lo, release(lo.major, lo.minor + 1, 0)),
        ),
{
    lemma_trim_idempotent(range);
    lemma_led_range_not_exact(trim_seq(range));
    lemma_parsed_bounds(lo, trim_seq(range).skip(1));
}

/// A caret range `^M.m.p` with `M >= 1` holds exactly the releases of major
/// `M` from `M.m.p` on: every `M.x.y` with `x.y` at or after `m.p`, and no
/// release of another major (so `(M+1).0.0` is outside it).
pub proof fn law_caret_range_keeps_major(version: Seq<char>, range: Seq<char>, v: VerV, lo: VerV)
    requires
        trim_seq(range).len() > 0,
        trim_seq(range)[0] == '^',
        parse_exact_spec(trim_seq(range).skip(1)) == Some(lo),
        lo.pre is None,
        lo.major >= 1,
        parse_exact_spec(version) == Some(v),
        v.pre is None,
    ensures
        satisfies_spec(version, range) <==> (v.major == lo.major && (v.minor > lo.minor || (v.minor
            == lo.minor && v.patch >= lo.patch))),
{
    lemma_led_range(range, lo);
    lemma_parsed_bounds(v, version);
}

/// A caret range `^0.m.p` with `m >= 1` holds exactly the releases `0.m.y`
/// with `y >= p`; `^0.0.p` holds only `0.0.p`.
pub proof fn law_caret_range_below_one(version: Seq<char>, range: Seq<char>, v: VerV, lo: VerV)
    requires
        trim_seq(range).len() > 0,
        trim_seq(range)[0] == '^',
        parse_exact_spec(trim_seq(range).skip(1)) == Some(lo),
        lo.pre is None,
        lo.major == 0,
        parse_exact_spec(version) == Some(v),
        v.pre is None,
    ensures
        lo.minor >= 1 ==> (satisfies_spec(version, range) <==> (v.major == 0 && v.minor == lo.minor
            && v.patch >= lo.patch)),
        lo.minor == 0 ==> (satisfies_spec(version, range) <==> (v.major == 0 && v.minor == 0 && v.patch
            == lo.patch)),
{
    lemma_led_range(range, lo);
    lemma_parsed_bounds(v, version);
}

/// A tilde range `~M.m.p` holds exactly the releases `M.m.y` with `y >= p`.
pub proof fn law_tilde_range_keeps_minor(version: Seq<char>, range: Seq<char>, v: VerV, lo: VerV)
    requires
        trim_seq(range).len() > 0,
        trim_seq(range)[0] == '~',
        parse_exact_spec(trim_seq(range).skip(1)) == Some(lo),
        lo.pre is None,
        parse_exact_spec(version) == Some(v),
        v.pre is None,
    ensures
        satisfies_spec(version, range) <==> (v.major == lo.major && v.minor == lo.minor && v.patch
            >= lo.patch),
{
    lemma_led_range(range, lo);
    lemma_parsed_bounds(v, version);
}

/// Splitting `m.x` (with `m` all digits) on `.` gives `m` and `x`.
proof fn lemma_split_digits_dot(m: Seq<char>, tail: Seq<char>)
    requires
        all_digits(m),
        forall|j: int| 0 <= j < tail.len() ==> tail[j] != '.',
    ensures
        split_seq(m + "."@ + tail, '.') == seq![m, tail],
{
    reveal_strlit(".");
    let s = m + "."@ + tail;
    assert forall|j: int| 0 <= j < m.len() implies s[j] != '.' by {
        assert(is_digit(m[j]));
    }
    crate::text::lemma_first_index_of_char(s, '.', m.len() as int);
    assert(s.take(m.len() as int) =~= m);
    assert(s.skip(m.len() as int + 1) =~= tail);
    crate::text::lemma_first_index_of_none(tail, '.');
    assert(split_seq(tail, '.') == seq![tail]);
    assert(split_seq(s, '.') =~= seq![m, tail]);
}

/// The wildcard range `M.x` holds exactly the releases of major `M`.
pub proof fn law_major_wildcard(version: Seq<char>, range: Seq<char>, m: Seq<char>, v: VerV)
    requires
        trim_seq(range) == m + ".x"@,
        m.len() > 0,
        all_digits(m),
        digits_value(m) <= u64::MAX,
        parse_exact_spec(version) == Some(v),
        v.pre is None,
    ensures
        satisfies_spec(version, range) <==> v.major == digits_value(m),
{
    reveal_strlit(".x");
    reveal_strlit("x");
    reveal_strlit(".");
    reveal_strlit(">=");
    let raw = trim_seq(range);
    assert(raw =~= m + "."@ + "x"@);
    assert forall|j: int| 0 <= j < raw.len() implies raw[j] != '-' by {
        if j < m.len() {
            assert(is_digit(m[j]));
        }
    }
    crate::text::lemma_first_index_of_none(raw, '-');
    lemma_trim_idempotent(range);
    lemma_split_digits_dot(m, "x"@);
    assert(split_seq(split_prerelease(raw).0, '.').len() == 2);
    assert(parse_exact_spec(raw) is None);
    assert(is_digit(raw[0]));
    assert(!has_prefix(raw, ">="@)) by {
        if has_prefix(raw, ">="@) {
            assert(raw.subrange(0, 2)[0] == ">="@[0]);
        }
    }
    assert forall|j: int| 0 <= j < raw.len() implies #[trigger] crate::text::lower_char(raw[j]) == raw[j] by {
        if j < m.len() {
            assert(is_digit(m[j]));
        }
    }
    assert(lower_seq(raw) =~= raw);
    assert(m[0] != '+') by {
        assert(is_digit(m[0]));
    }
    lemma_digits_nonneg(m);
    lemma_parsed_bounds(v, version);
}

/// Splitting `m.t` (with `m` all digits) on `.` gives `m`, then the parts of
/// `t`.
proof fn lemma_split_digits_then(m: Seq<char>, t: Seq<char>)
    requires
        all_digits(m),
    ensures
        split_seq(m + "."@ + t, '.') == seq![m] + split_seq(t, '.'),
{
    reveal_strlit(".");
    let s = m + "."@ + t;
    assert forall|j: int| 0 <= j < m.len() implies s[j] != '.' by {
        assert(is_digit(m[j]));
    }
    crate::text::lemma_first_index_of_char(s, '.', m.len() as int);
    assert(s.take(m.len() as int) =~= m);
    assert(s.skip(m.len() as int + 1) =~= t);
}

/// The wildcard range `M.m.x` holds exactly the releases `M.m.y`.
pub proof fn law_minor_wildcard(version: Seq<char>, range: Seq<char>, m: Seq<char>, n: Seq<char>, v: VerV)
    requires
        trim_seq(range) == m + "."@ + n + ".x"@,
        m.len() > 0,
        all_digits(m),
        digits_value(m) <= u64::MAX,
        n.len() > 0,
        all_digits(n),
        digits_value(n) <= u64::MAX,
        parse_exact_spec(version) == Some(v),
        v.pre is None,
    ensures
        satisfies_spec(version, range) <==> (v.major == digits_value(m) && v.minor == digits_value(n)),
{
    reveal_strlit(".x");
    reveal_strlit("x");
    reveal_strlit(".");
    reveal_strlit(">=");
    let raw = trim_seq(range);
    assert(raw =~= m + "."@ + (n + "."@ + "x"@));
    assert forall|j: int| 0 <= j < raw.len() implies raw[j] != '-' by {
        if j < m.len() {
            assert(is_digit(m[j]));
        } else if m.len() < j < m.len() + 1 + n.len() {
            assert(is_digit(n[j - m.len() - 1]));
        }
    }
    crate::text::lemma_first_index_of_none(raw, '-');
    lemma_trim_idempotent(range);
    lemma_split_digits_then(m, n + "."@ + "x"@);
    lemma_split_digits_dot(n, "x"@);
    assert(split_seq(raw, '.') =~= seq![m, n, "x"@]);
    assert(parse_exact_spec(raw) is None);
    assert(is_digit(raw[0]));
    assert(!has_prefix(raw, ">="@)) by {
        if has_prefix(raw, ">="@) {
            assert(raw.subrange(0, 2)[0] == ">="@[0]);
        }
    }
    assert forall|j: int| 0 <= j < raw.len() implies #[trigger] crate::text::lower_char(raw[j]) == raw[j] by {
        if j < m.len() {
            assert(is_digit(m[j]));
        } else if m.len() < j < m.len() + 1 + n.len() {
            assert(is_digit(n[j - m.len() - 1]));
        }
    }
    assert(lower_seq(raw) =~= raw);
    assert(m[0] != '+') by {
        assert(is_digit(m[0]));
    }
    assert(n[0] != '+') by {
        assert(is_digit(n[0]));
    }
    assert(!is_star(n)) by {
        assert(is_digit(n[0]));
    }
    lemma_digits_nonneg(m);
    lemma_digits_nonneg(n);
    lemma_parsed_bounds(v, version);
}

} // verus!
