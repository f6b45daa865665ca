//! What is shown while metadata is fetched: shortened URLs and error categories.
use vstd::prelude::*;
use vstd::utf8::{decode_utf8, encode_utf8, is_char_boundary};
use vstd::string::StringSliceAdditionalSpecFns;
use crate::strutil::{contains_seq, owned, str_contains};

verus! {

pub open spec fn cut_point(max_len: usize) -> int {
    if max_len >= 3 {
        max_len - 3
    } else {
        0
    }
}

/// The UTF-8 encoding of two texts one after the other is their encodings
/// one after the other.
pub proof fn lemma_encode_utf8_append(a: Seq<char>, b: Seq<char>)
    ensures
        encode_utf8(a + b) == encode_utf8(a) + encode_utf8(b),
    decreases a.len(),
{
    if a.len() == 0 {
        assert(a + b =~= b);
        assert(encode_utf8(a) + encode_utf8(b) =~= encode_utf8(b));
    } else {
        assert((a + b).drop_first() =~= a.drop_first() + b);
        assert((a + b)[0] == a[0]);
        lemma_encode_utf8_append(a.drop_first(), b);
        assert(encode_utf8(a + b) =~= encode_utf8(a) + encode_utf8(b));
    }
}

/// Shortens a URL longer than `max_len` bytes to its first `max_len - 3`
/// bytes followed by `...`; a shorter URL is returned whole.  The cut must
/// fall on a character boundary (slicing a string elsewhere panics).
pub fn truncate_url(url: &str, max_len: usize) -> (r: String)
    requires
        url.spec_bytes().len() <= usize::MAX,
        url.spec_bytes().len() > max_len ==> is_char_boundary(
            url.spec_bytes(),
            cut_point(max_len),
        ),
    ensures
        url.spec_bytes().len() <= max_len ==> r@ == url@,
        url.spec_bytes().len() > max_len ==> r@ == decode_utf8(
            url.spec_bytes().subrange(0, cut_point(max_len)),
        ) + "..."@,
        url.spec_bytes().len() > max_len ==> encode_utf8(r@).len() == cut_point(max_len) + 3,
        max_len >= 3 ==> encode_utf8(r@).len() <= max_len,
{
    if url.len() > max_len {
        let cut: usize = if max_len >= 3 {
            max_len - 3
        } else {
            0
        };
        let (head, _tail) = url.split_at(cut);
        proof {
            vstd::utf8::encode_utf8_decode_utf8(head@);
            assert(head.spec_bytes() == encode_utf8(head@));
            assert(head.spec_bytes() == url.spec_bytes().subrange(0, cut_point(max_len)));
            assert(decode_utf8(encode_utf8(head@)) == head@);
        }
        let s = crate::strutil::concat2(head, "...");
        assert(s@ == head@ + "..."@);
        proof {
            reveal_strlit("...");
            assert(vstd::utf8::is_ascii_chars("..."@));
            vstd::utf8::is_ascii_chars_encode_utf8("..."@);
            lemma_encode_utf8_append(head@, "..."@);
        }
        assert(head@ == decode_utf8(url.spec_bytes().subrange(0, cut_point(max_len))));
        s
    } else {
        let s = owned(url);
        proof {
            vstd::utf8::encode_utf8_decode_utf8(url@);
        }
        s
    }
}

/// A short category for a fetch error's message, tried in this order:
/// `403`, `401`, `404`, `timeout`, `dns`, `connection`.
pub fn categorize_error(error: &str) -> (r: &'static str)
    ensures
        r@ == (if contains_seq(error@, "403"@) {
            "blocked"@
        } else if contains_seq(error@, "401"@) {
            "unauthorized"@
        } else if contains_seq(error@, "404"@) {
            "not found"@
        } else if contains_seq(error@, "timeout"@) {
            "timeout"@
        } else if contains_seq(error@, "dns"@) {
            "dns error"@
        } else if contains_seq(error@, "connection"@) {
            "connection error"@
        } else {
            "fetch error"@
        }),
{
    if str_contains(error, "403") {
        "blocked"
    } else if str_contains(error, "401") {
        "unauthorized"
    } else if str_contains(error, "404") {
        "not found"
    } else if str_contains(error, "timeout") {
        "timeout"
    } else if str_contains(error, "dns") {
        "dns error"
    } else if str_contains(error, "connection") {
        "connection error"
    } else {
        "fetch error"
    }
}

} // verus!
