//! The verifier: compares a freshly computed digest against a caller-supplied
//! expected value, after trimming surrounding whitespace from the expected
//! text and folding ASCII case. The normalization is defined and proved here;
//! only the digest itself comes from the engine.
use vstd::prelude::*;

use crate::digests::{all_lower_hex, is_lower_hex_char};
use crate::hasher::{spec_digest, HashAlgorithm, Hasher};

verus! {

/// Holds iff the character has the Unicode White_Space property, the set
/// str::trim strips from both ends.
pub open spec fn is_space_char(c: char) -> bool {
    let u = c as u32;
    (9 <= u && u <= 13) || u == 32 || u == 133 || u == 160 || u == 5760 || (8192 <= u && u
        <= 8202) || u == 8232 || u == 8233 || u == 8239 || u == 8287 || u == 12288
}

/// ASCII lowercasing of one character: letters A through Z move down by one
/// case, everything else is unchanged.
pub open spec fn lower_char_spec(c: char) -> char {
    if 65 <= c as u32 && c as u32 <= 90 {
        ((c as u32 + 32) as char)
    } else {
        c
    }
}

/// ASCII uppercasing of one character: letters a through z move up by one
/// case, everything else is unchanged.
pub open spec fn upper_char_spec(c: char) -> char {
    if 97 <= c as u32 && c as u32 <= 122 {
        ((c as u32 - 32) as char)
    } else {
        c
    }
}

/// ASCII lowercasing of a whole sequence, character by character.
pub open spec fn lower_chars(s: Seq<char>) -> Seq<char> {
    Seq::new(s.len(), |i: int| lower_char_spec(s[i]))
}

/// ASCII uppercasing of a whole sequence, character by character.
pub open spec fn upper_chars(s: Seq<char>) -> Seq<char> {
    Seq::new(s.len(), |i: int| upper_char_spec(s[i]))
}

/// The sequence with its leading whitespace removed.
pub open spec fn trim_front(s: Seq<char>) -> Seq<char>
    decreases s.len(),
{
    if s.len() > 0 && is_space_char(s[0]) {
        trim_front(s.drop_first())
    } else {
        s
    }
}

/// The sequence with its trailing whitespace removed.
pub open spec fn trim_back(s: Seq<char>) -> Seq<char>
    decreases s.len(),
{
    if s.len() > 0 && is_space_char(s.last()) {
        trim_back(s.drop_last())
    } else {
        s
    }
}

/// The sequence with whitespace removed from both ends, as str::trim does.
pub open spec fn trim_chars(s: Seq<char>) -> Seq<char> {
    trim_back(trim_front(s))
}

/// Whether the character has the Unicode White_Space property.
fn is_space(c: char) -> (r: bool)
    ensures
        r == is_space_char(c),
{
    let u = c as u32;
    (9 <= u && u <= 13) || u == 32 || u == 133 || u == 160 || u == 5760 || (8192 <= u && u
        <= 8202) || u == 8232 || u == 8233 || u == 8239 || u == 8287 || u == 12288
}

/// Leading whitespace contributes nothing once the remainder starts with a
/// non-space character (or is empty).
proof fn lemma_trim_front_concat(ws: Seq<char>, rest: Seq<char>)
    requires
        forall|j: int| 0 <= j < ws.len() ==> is_space_char(#[trigger] ws[j]),
        rest.len() > 0 ==> !is_space_char(rest[0]),
    ensures
        trim_front(ws + rest) == rest,
    decreases ws.len(),
{
    if ws.len() == 0 {
        assert(ws + rest =~= rest);
    } else {
        let s = ws + rest;
        assert(s[0] == ws[0]);
        assert(s.drop_first() =~= ws.drop_first() + rest);
        lemma_trim_front_concat(ws.drop_first(), rest);
    }
}

/// Trailing whitespace contributes nothing once the core ends with a
/// non-space character (or is empty).
proof fn lemma_trim_back_concat(core: Seq<char>, ws: Seq<char>)
    requires
        forall|j: int| 0 <= j < ws.len() ==> is_space_char(#[trigger] ws[j]),
        core.len() > 0 ==> !is_space_char(core.last()),
    ensures
        trim_back(core + ws) == core,
    decreases ws.len(),
{
    if ws.len() == 0 {
        assert(core + ws =~= core);
    } else {
        let s = core + ws;
        assert(s.last() == ws.last());
        assert(s.drop_last() =~= core + ws.drop_last());
        lemma_trim_back_concat(core, ws.drop_last());
    }
}

/// Trimming keeps exactly the span between the first and last non-space
/// characters.
proof fn lemma_trim_of_bounds(s: Seq<char>, start: int, end: int)
    requires
        0 <= start <= end <= s.len(),
        forall|j: int| 0 <= j < start ==> is_space_char(#[trigger] s[j]),
        forall|j: int| end <= j < s.len() ==> is_space_char(#[trigger] s[j]),
        start < end ==> !is_space_char(s[start]) && !is_space_char(s[end - 1]),
        start == end ==> end == s.len(),
    ensures
        trim_chars(s) == s.subrange(start, end),
{
    let pre = s.subrange(0, start);
    let mid = s.subrange(start, end);
    let post = s.subrange(end, s.len() as int);
    assert(s =~= pre + (mid + post));
    assert(mid + post =~= s.subrange(start, s.len() as int));
    if mid.len() > 0 {
        assert((mid + post)[0] == s[start]);
    }
    lemma_trim_front_concat(pre, mid + post);
    if mid.len() > 0 {
        assert(mid.last() == s[end - 1]);
    }
    lemma_trim_back_concat(mid, post);
}

/// A lowercase hex digest is already normalized: trimming and lowercasing
/// leave it unchanged.
pub proof fn lemma_digest_normalized(d: Seq<char>)
    requires
        all_lower_hex(d),
    ensures
        lower_chars(trim_chars(d)) == d,
{
    if d.len() > 0 {
        assert(is_lower_hex_char(d[0]) && !is_space_char(d[0]));
        assert(is_lower_hex_char(d[d.len() - 1]) && !is_space_char(d.last()));
    }
    lemma_trim_of_bounds(d, 0, d.len() as int);
    assert(d.subrange(0, d.len() as int) =~= d);
    assert(lower_chars(d) =~= d);
}

/// Verification is case-insensitive: the uppercase spelling of a lowercase
/// hex digest normalizes back to the digest itself.
pub proof fn lemma_uppercase_matches(d: Seq<char>)
    requires
        all_lower_hex(d),
    ensures
        lower_chars(trim_chars(upper_chars(d))) == d,
{
    let u = upper_chars(d);
    if d.len() > 0 {
        assert(!is_space_char(u[0]));
        assert(!is_space_char(u.last()));
    }
    lemma_trim_of_bounds(u, 0, u.len() as int);
    assert(u.subrange(0, u.len() as int) =~= u);
    assert(lower_chars(u) =~= d);
}

/// Verification is whitespace-tolerant: whitespace on either side of a
/// nonempty lowercase hex digest is stripped by normalization.
pub proof fn lemma_whitespace_matches(pre: Seq<char>, d: Seq<char>, post: Seq<char>)
    requires
        forall|j: int| 0 <= j < pre.len() ==> is_space_char(#[trigger] pre[j]),
        forall|j: int| 0 <= j < post.len() ==> is_space_char(#[trigger] post[j]),
        all_lower_hex(d),
        d.len() > 0,
    ensures
        lower_chars(trim_chars(pre + d + post)) == d,
{
    let s = pre + d + post;
    let start = pre.len() as int;
    let end = pre.len() + d.len();
    assert forall|j: int| 0 <= j < start implies is_space_char(#[trigger] s[j]) by {
        assert(s[j] == pre[j]);
    }
    assert forall|j: int| end <= j < s.len() implies is_space_char(#[trigger] s[j]) by {
        assert(s[j] == post[j - end]);
    }
    assert(s[start] == d[0] && !is_space_char(s[start]));
    assert(s[end - 1] == d[d.len() - 1] && !is_space_char(s[end - 1]));
    lemma_trim_of_bounds(s, start, end as int);
    assert(s.subrange(start, end as int) =~= d);
    lemma_digest_normalized(d);
}

/// A normalized expected value that is itself lowercase hex but differs from
/// the digest is rejected.
pub proof fn lemma_mismatch_rejected(e: Seq<char>, d: Seq<char>)
    requires
        all_lower_hex(e),
        all_lower_hex(d),
        e != d,
    ensures
        lower_chars(trim_chars(e)) != d,
{
    lemma_digest_normalized(e);
}

/// Whether the expected text, once trimmed of surrounding whitespace and
/// folded to ASCII lowercase, spells exactly the given lowercase digest.
pub fn digest_matches(digest: &str, expected: &str) -> (r: bool)
    ensures
        r == (lower_chars(trim_chars(expected@)) == digest@),
{
    let elen = expected.unicode_len();
    let mut start: usize = 0;
    while start < elen && is_space(expected.get_char(start))
        invariant
            elen == expected@.len(),
            start <= elen,
            forall|j: int| 0 <= j < start ==> is_space_char(#[trigger] expected@[j]),
        decreases elen - start,
    {
        start += 1;
    }
    let mut end: usize = elen;
    while end > start && is_space(expected.get_char(end - 1))
        invariant
            elen == expected@.len(),
            start <= end <= elen,
            start == elen || !is_space_char(expected@[start as int]),
            start < elen ==> start < end,
            forall|j: int| end <= j < elen ==> is_space_char(#[trigger] expected@[j]),
        decreases end,
    {
        end -= 1;
    }
    proof {
        lemma_trim_of_bounds(expected@, start as int, end as int);
    }
    let ghost trimmed = expected@.subrange(start as int, end as int);
    let dlen = digest.unicode_len();
    if end - start != dlen {
        proof {
            assert(lower_chars(trimmed).len() == end - start);
        }
        return false;
    }
    let mut i: usize = 0;
    while i < dlen
        invariant
            elen == expected@.len(),
            dlen == digest@.len(),
            start <= end <= elen,
            end - start == dlen,
            trimmed == expected@.subrange(start as int, end as int),
            trim_chars(expected@) == trimmed,
            i <= dlen,
            forall|j: int| 0 <= j < i ==> lower_char_spec(#[trigger] trimmed[j]) == digest@[j],
        decreases dlen - i,
    {
        let ec = expected.get_char(start + i);
        let dc = digest.get_char(i);
        let eu = ec as u32;
        let du = dc as u32;
        let same = if 65 <= eu && eu <= 90 {
            eu + 32 == du
        } else {
            eu == du
        };
        if !same {
            proof {
                assert(trimmed[i as int] == expected@[start + i]);
                assert(lower_chars(trimmed)[i as int] != digest@[i as int]);
            }
            return false;
        }
        proof {
            assert(trimmed[i as int] == expected@[start + i]);
        }
        i += 1;
    }
    proof {
        assert(lower_chars(trimmed) =~= digest@);
    }
    true
}

/// The verifier: one digest engine, reused for every check.
pub struct Verifier {
    hasher: Hasher,
}

impl Verifier {
    /// The algorithm the underlying engine was configured with.
    pub closed spec fn alg(self) -> HashAlgorithm {
        self.hasher.alg()
    }

    /// Wraps a digest engine.
    pub fn new(hasher: Hasher) -> (v: Self)
        ensures
            v.alg() == hasher.alg(),
    {
        Self { hasher }
    }

    /// Computes the digest of the given bytes and compares it with the
    /// expected text: true iff the expected value, trimmed of surrounding
    /// whitespace and folded to ASCII lowercase, equals the digest.
    pub fn verify_bytes(&self, data: &[u8], expected: &str) -> (r: bool)
        ensures
            r == (lower_chars(trim_chars(expected@)) == spec_digest(self.alg(), data@)),
    {
        let calculated = self.hasher.hash_bytes(data);
        digest_matches(calculated.as_str(), expected)
    }
}

} // verus!
