//! Pieces of URLs that several plugins look at.
use vstd::prelude::*;
use crate::strutil::{
    char_pred, chars_of, find_exec, find_seq, is_prefix, slice_chars, starts_with,
    trim_end_by, trim_end_index, CharClass,
};

verus! {

/// The text before the first `sep`, or all of `u` (`split(sep).next()`).
pub open spec fn upto(u: Seq<char>, sep: char) -> Seq<char> {
    match find_seq(u, seq![sep]) {
        Some(i) => u.subrange(0, i),
        None => u,
    }
}

/// `u` without a leading `p`, when it starts with `p`.
pub open spec fn strip_prefix_or_keep(u: Seq<char>, p: Seq<char>) -> Seq<char> {
    if is_prefix(p, u) {
        u.skip(p.len() as int)
    } else {
        u
    }
}

/// `u` without a leading `https://` or, failing that, `http://`.
pub open spec fn strip_http(u: Seq<char>) -> Seq<char> {
    if is_prefix("https://"@, u) {
        u.skip(8)
    } else {
        strip_prefix_or_keep(u, "http://"@)
    }
}

/// The host part of a URL: scheme (`http`/`https`) and `www.` removed,
/// up to the first `/`.
pub open spec fn host_of(u: Seq<char>) -> Seq<char> {
    upto(strip_prefix_or_keep(strip_http(u), "www."@), '/')
}

/// The characters before the first `sep`.
pub fn upto_exec(u: &[char], sep: char) -> (r: Vec<char>)
    ensures
        r@ == upto(u@, sep),
        r@.len() <= u@.len(),
{
    let s: Vec<char> = vec![sep];
    assert(s@ =~= seq![sep]);
    match find_exec(u, &s) {
        Some(i) => {
            proof {
                crate::strutil::lemma_find_from(u@, seq![sep], 0);
            }
            slice_chars(u, 0, i)
        },
        None => slice_chars(u, 0, u.len()),
    }
}

/// `u` without a leading `p`, when it starts with `p`.
pub fn strip_prefix_exec(u: &[char], p: &str) -> (r: Vec<char>)
    ensures
        r@ == strip_prefix_or_keep(u@, p@),
{
    let pc = chars_of(p);
    if starts_with(u, &pc) {
        let r = slice_chars(u, pc.len(), u.len());
        assert(r@ =~= u@.skip(p@.len() as int));
        r
    } else {
        let r = slice_chars(u, 0, u.len());
        assert(r@ =~= u@);
        r
    }
}

/// `u` without a leading `https://` or `http://`.
pub fn strip_http_exec(u: &[char]) -> (r: Vec<char>)
    ensures
        r@ == strip_http(u@),
{
    let hs = chars_of("https://");
    proof {
        reveal_strlit("https://");
    }
    if starts_with(u, &hs) {
        let r = slice_chars(u, 8, u.len());
        assert(r@ =~= u@.skip(8));
        r
    } else {
        strip_prefix_exec(u, "http://")
    }
}

/// The host part of a URL.
pub fn host_exec(u: &[char]) -> (r: Vec<char>)
    ensures
        r@ == host_of(u@),
{
    let a = strip_http_exec(u);
    let b = strip_prefix_exec(&a, "www.");
    upto_exec(&b, '/')
}

/// `u` without trailing `c` characters (`trim_end_matches`).
pub fn trim_end_char(u: &[char], c: char) -> (r: Vec<char>)
    ensures
        r@ == trim_end_by(u@, char_pred(c)),
{
    let hi = trim_end_index(u, 0, &CharClass::Only(c));
    assert(u@.subrange(0, u.len() as int) =~= u@);
    slice_chars(u, 0, hi)
}

} // verus!
