//! Billing base-URL normalization.

use vstd::prelude::*;
use crate::text::{
    chars_of, ends_with, has_suffix, lower_chars, lower_seq, string_of, sub_chars, trim_chars,
    trim_seq,
};

verus! {

/// `s` without its trailing `/`s.
pub open spec fn strip_slashes(s: Seq<char>) -> Seq<char>
    decreases s.len(),
{
    if s.len() > 0 && s.last() == '/' {
        strip_slashes(s.drop_last())
    } else {
        s
    }
}

/// Trim, drop trailing slashes, then drop one trailing `/api/v1` or legacy
/// `/api/billing` (matched without regard to ASCII case) and the slashes
/// before it.
pub open spec fn normalize_spec(input: Seq<char>) -> Seq<char> {
    let s = strip_slashes(trim_seq(input));
    let l = lower_seq(s);
    if has_suffix(l, "/api/v1"@) {
        strip_slashes(s.take(s.len() - "/api/v1"@.len()))
    } else if has_suffix(l, "/api/billing"@) {
        strip_slashes(s.take(s.len() - "/api/billing"@.len()))
    } else {
        s
    }
}

fn strip_slashes_chars(s: &Vec<char>) -> (r: Vec<char>)
    ensures
        r@ == strip_slashes(s@),
{
    let mut n = s.len();
    assert(s@.take(n as int) =~= s@);
    while n > 0 && s[n - 1] == '/'
        invariant
            n <= s@.len(),
            strip_slashes(s@) == strip_slashes(s@.take(n as int)),
        decreases n,
    {
        assert(s@.take(n as int).drop_last() =~= s@.take(n - 1));
        n -= 1;
    }
    let r = sub_chars(s, 0, n);
    assert(r@ =~= s@.take(n as int));
    r
}

/// Normalizes a billing API base URL: trims it, strips trailing slashes and a
/// trailing `/api/v1` or `/api/billing`.
pub fn normalize_api_base_url(input: &str) -> (r: String)
    ensures
        r@ == normalize_spec(input@),
{
    let t = trim_chars(&chars_of(input));
    let s = strip_slashes_chars(&t);
    let l = lower_chars(&s);
    let v1 = chars_of("/api/v1");
    if ends_with(&l, &v1) {
        let cut = sub_chars(&s, 0, s.len() - v1.len());
        assert(cut@ =~= s@.take(s@.len() - "/api/v1"@.len()));
        return string_of(&strip_slashes_chars(&cut));
    }
    let legacy = chars_of("/api/billing");
    if ends_with(&l, &legacy) {
        let cut = sub_chars(&s, 0, s.len() - legacy.len());
        assert(cut@ =~= s@.take(s@.len() - "/api/billing"@.len()));
        return string_of(&strip_slashes_chars(&cut));
    }
    string_of(&s)
}

proof fn lemma_strip_slashes_end(s: Seq<char>)
    ensures
        strip_slashes(s).len() > 0 ==> strip_slashes(s).last() != '/',
    decreases s.len(),
{
    if s.len() > 0 && s.last() == '/' {
        lemma_strip_slashes_end(s.drop_last());
    }
}

/// A normalized base URL never ends with `/`.
pub proof fn law_normalized_has_no_trailing_slash(input: Seq<char>)
    ensures
        normalize_spec(input).len() > 0 ==> normalize_spec(input).last() != '/',
{
    let s = strip_slashes(trim_seq(input));
    lemma_strip_slashes_end(trim_seq(input));
    lemma_strip_slashes_end(s.take(s.len() - "/api/v1"@.len()));
    lemma_strip_slashes_end(s.take(s.len() - "/api/billing"@.len()));
}

} // verus!
