//! Small string utilities used throughout the library.

use vstd::prelude::*;
use vstd::string::StringSliceAdditionalSpecFns;

verus! {

broadcast use vstd::utf8::encode_utf8_decode_utf8;

/// Compares two string slices character for character.
pub fn str_eq(a: &str, b: &str) -> (r: bool)
    ensures
        r == (a@ == b@),
{
    let ab = a.as_bytes();
    let bb = b.as_bytes();
    if ab.len() != bb.len() {
        return false;
    }
    let mut i: usize = 0;
    while i < ab.len()
        invariant
            ab@ == a.spec_bytes(),
            bb@ == b.spec_bytes(),
            ab@.len() == bb@.len(),
            i <= ab@.len(),
            forall|j: int| 0 <= j < i ==> ab@[j] == bb@[j],
        decreases ab@.len() - i,
    {
        if ab[i] != bb[i] {
            return false;
        }
        i = i + 1;
    }
    assert(ab@ =~= bb@);
    assert(vstd::utf8::decode_utf8(vstd::utf8::encode_utf8(a@)) == a@);
    assert(vstd::utf8::decode_utf8(vstd::utf8::encode_utf8(b@)) == b@);
    true
}

} // verus!

verus! {

/// Whether `c` is whitespace in the Unicode `White_Space` sense, the test
/// of `char::is_whitespace`.
pub open spec fn is_white_space(c: char) -> bool {
    let u = c as u32;
    ||| 0x9 <= u <= 0xd
    ||| u == 0x20
    ||| u == 0x85
    ||| u == 0xa0
    ||| u == 0x1680
    ||| 0x2000 <= u <= 0x200a
    ||| u == 0x2028
    ||| u == 0x2029
    ||| u == 0x202f
    ||| u == 0x205f
    ||| u == 0x3000
}

/// Whether every character of `s` is whitespace.
pub open spec fn all_white_space(s: Seq<char>) -> bool {
    forall|i: int| 0 <= i < s.len() ==> is_white_space(#[trigger] s[i])
}

/// `s` without its leading whitespace.
pub open spec fn trim_start_of(s: Seq<char>) -> Seq<char>
    decreases s.len(),
{
    if s.len() > 0 && is_white_space(s[0]) {
        trim_start_of(s.drop_first())
    } else {
        s
    }
}

/// `s` without its trailing whitespace.
pub open spec fn trim_end_of(s: Seq<char>) -> Seq<char>
    decreases s.len(),
{
    if s.len() > 0 && is_white_space(s.last()) {
        trim_end_of(s.drop_last())
    } else {
        s
    }
}

/// The text that is left of `s` once leading and trailing whitespace is
/// removed.
pub open spec fn trimmed(s: Seq<char>) -> Seq<char> {
    trim_end_of(trim_start_of(s))
}

/// Whether `s` neither starts nor ends with whitespace.
pub open spec fn no_surrounding_white_space(s: Seq<char>) -> bool {
    s.len() > 0 ==> !is_white_space(s[0]) && !is_white_space(s.last())
}

proof fn lemma_trim_start_clean(s: Seq<char>)
    ensures
        trim_start_of(s).len() > 0 ==> !is_white_space(trim_start_of(s)[0]),
    decreases s.len(),
{
    if s.len() > 0 && is_white_space(s[0]) {
        lemma_trim_start_clean(s.drop_first());
    }
}

proof fn lemma_trim_end_clean(s: Seq<char>)
    requires
        s.len() > 0 ==> !is_white_space(s[0]),
    ensures
        no_surrounding_white_space(trim_end_of(s)),
    decreases s.len(),
{
    if s.len() > 0 && is_white_space(s.last()) {
        let t = s.drop_last();
        if t.len() > 0 {
            assert(t[0] == s[0]);
        }
        lemma_trim_end_clean(t);
    }
}

/// A text that neither starts nor ends with whitespace is its own trimming.
pub proof fn lemma_trimmed_plain(s: Seq<char>)
    requires
        no_surrounding_white_space(s),
    ensures
        trimmed(s) == s,
{
}

/// Trimming twice is trimming once.
pub proof fn lemma_trimmed_idempotent(s: Seq<char>)
    ensures
        no_surrounding_white_space(trimmed(s)),
        trimmed(trimmed(s)) == trimmed(s),
{
    lemma_trim_start_clean(s);
    lemma_trim_end_clean(trim_start_of(s));
    lemma_trimmed_plain(trimmed(s));
}

proof fn lemma_trim_start_skips(p: Seq<char>, u: Seq<char>)
    requires
        all_white_space(p),
    ensures
        trim_start_of(p + u) == trim_start_of(u),
    decreases p.len(),
{
    if p.len() == 0 {
        assert(p + u =~= u);
    } else {
        assert((p + u)[0] == p[0]);
        assert((p + u).drop_first() =~= p.drop_first() + u);
        assert forall|i: int| 0 <= i < p.drop_first().len() implies is_white_space(#[trigger] p.drop_first()[i]) by {
            assert(p.drop_first()[i] == p[i + 1]);
        }
        lemma_trim_start_skips(p.drop_first(), u);
    }
}

proof fn lemma_trim_end_skips(v: Seq<char>, q: Seq<char>)
    requires
        all_white_space(q),
    ensures
        trim_end_of(v + q) == trim_end_of(v),
    decreases q.len(),
{
    if q.len() == 0 {
        assert(v + q =~= v);
    } else {
        assert((v + q).last() == q.last());
        assert((v + q).drop_last() =~= v + q.drop_last());
        assert forall|i: int| 0 <= i < q.drop_last().len() implies is_white_space(#[trigger] q.drop_last()[i]) by {
            assert(q.drop_last()[i] == q[i]);
        }
        lemma_trim_end_skips(v, q.drop_last());
    }
}

proof fn lemma_trim_start_append(u: Seq<char>, q: Seq<char>)
    requires
        trim_start_of(u).len() > 0,
    ensures
        trim_start_of(u + q) == trim_start_of(u) + q,
    decreases u.len(),
{
    assert((u + q)[0] == u[0]);
    if is_white_space(u[0]) {
        assert((u + q).drop_first() =~= u.drop_first() + q);
        lemma_trim_start_append(u.drop_first(), q);
    }
}

proof fn lemma_trim_start_empty_append(u: Seq<char>, q: Seq<char>)
    requires
        trim_start_of(u).len() == 0,
    ensures
        trim_start_of(u + q) == trim_start_of(q),
    decreases u.len(),
{
    if u.len() == 0 {
        assert(u + q =~= q);
    } else {
        assert((u + q)[0] == u[0]);
        assert((u + q).drop_first() =~= u.drop_first() + q);
        lemma_trim_start_empty_append(u.drop_first(), q);
    }
}

proof fn lemma_trim_start_all_white(q: Seq<char>)
    requires
        all_white_space(q),
    ensures
        trim_start_of(q).len() == 0,
    decreases q.len(),
{
    if q.len() > 0 {
        assert(is_white_space(q[0]));
        assert forall|i: int| 0 <= i < q.drop_first().len() implies is_white_space(#[trigger] q.drop_first()[i]) by {
            assert(q.drop_first()[i] == q[i + 1]);
        }
        lemma_trim_start_all_white(q.drop_first());
    }
}

/// Whitespace around a text does not change its trimming.
pub proof fn lemma_trimmed_surrounded(p: Seq<char>, s: Seq<char>, q: Seq<char>)
    requires
        all_white_space(p),
        all_white_space(q),
    ensures
        trimmed(p + s + q) == trimmed(s),
{
    assert(p + s + q =~= p + (s + q));
    lemma_trim_start_skips(p, s + q);
    if trim_start_of(s).len() > 0 {
        lemma_trim_start_append(s, q);
        lemma_trim_end_skips(trim_start_of(s), q);
    } else {
        lemma_trim_start_empty_append(s, q);
        lemma_trim_start_all_white(q);
        assert(trim_start_of(q) =~= trim_start_of(s));
    }
}

/// `str::trim`: `s` without leading and trailing whitespace in the Unicode
/// `White_Space` sense.
#[verifier::external_body]
pub(crate) fn trim(s: &str) -> (r: &str)
    ensures
        r@ == trimmed(s@),
{
    s.trim()
}

} // verus!
