//! Byte-level text utilities: UTF-8 conversion, NUL-terminated fields and
//! CRLF-separated records.

use vstd::prelude::*;
use vstd::utf8::{decode_utf8, valid_utf8};

verus! {

broadcast use vstd::group_vstd_default;

/// Relies on `String::from_utf8`: it succeeds exactly on valid UTF-8 input
/// and then returns the string whose bytes are that input.
#[verifier::external_body]
pub(crate) fn utf8_to_string(bytes: Vec<u8>) -> (r: Option<String>)
    ensures
        r is Some <==> valid_utf8(bytes@),
        r matches Some(s) ==> s@ == decode_utf8(bytes@),
{
    String::from_utf8(bytes).ok()
}

/// The index of the first zero byte of `s`, or `s.len()` where none occurs.
pub open spec fn nul_pos(s: Seq<u8>) -> int
    decreases s.len(),
{
    if s.len() == 0 {
        0
    } else if s[0] == 0 {
        0
    } else {
        1 + nul_pos(s.drop_first())
    }
}

/// `nul_pos` is pinned down by its first-occurrence characterization.
pub proof fn lemma_nul_pos_is(s: Seq<u8>, i: int)
    requires
        0 <= i <= s.len(),
        forall|j: int| 0 <= j < i ==> s[j] != 0,
        i < s.len() ==> s[i] == 0,
    ensures
        nul_pos(s) == i,
    decreases s.len(),
{
    if s.len() == 0 {
    } else if s[0] == 0 {
        assert(i == 0);
    } else {
        assert(i >= 1);
        let t = s.drop_first();
        assert(forall|j: int| 0 <= j < i - 1 ==> t[j] != 0);
        lemma_nul_pos_is(t, i - 1);
    }
}

/// Finds the first zero byte of `s`, or returns `s.len()` where none occurs.
pub(crate) fn find_nul(s: &[u8]) -> (r: usize)
    ensures
        r == nul_pos(s@),
        r <= s@.len(),
{
    let n = s.len();
    let mut i: usize = 0;
    while i < n
        invariant
            i <= n,
            n == s@.len(),
            forall|j: int| 0 <= j < i ==> s@[j] != 0,
        decreases n - i,
    {
        if *vstd::slice::slice_index_get(s, i) == 0 {
            proof {
                lemma_nul_pos_is(s@, i as int);
            }
            return i;
        }
        i = i + 1;
    }
    proof {
        lemma_nul_pos_is(s@, s@.len() as int);
    }
    i
}

/// `true` where bytes `i` and `i + 1` of `s` are the CRLF pair.
pub open spec fn crlf_at(s: Seq<u8>, i: int) -> bool {
    0 <= i && i + 2 <= s.len() && s[i] == 13 && s[i + 1] == 10
}

/// The index of the first CRLF pair of `s`, or `-1` where none occurs.
pub open spec fn crlf_pos(s: Seq<u8>) -> int
    decreases s.len(),
{
    if s.len() < 2 {
        -1
    } else if s[0] == 13 && s[1] == 10 {
        0
    } else {
        let p = crlf_pos(s.drop_first());
        if p < 0 {
            -1
        } else {
            1 + p
        }
    }
}

/// Where a CRLF pair occurs, `crlf_pos` lies on the first one; where none
/// occurs it is `-1`.
pub proof fn lemma_crlf_pos(s: Seq<u8>)
    ensures
        crlf_pos(s) >= 0 ==> crlf_at(s, crlf_pos(s)),
        crlf_pos(s) >= 0 ==> forall|j: int| 0 <= j < crlf_pos(s) ==> !crlf_at(s, j),
        crlf_pos(s) < 0 ==> crlf_pos(s) == -1 && forall|j: int| !crlf_at(s, j),
    decreases s.len(),
{
    if s.len() < 2 {
    } else if s[0] == 13 && s[1] == 10 {
    } else {
        let t = s.drop_first();
        lemma_crlf_pos(t);
        assert(forall|j: int| crlf_at(s, j) ==> j >= 1 && crlf_at(t, j - 1));
        assert(forall|j: int| 0 <= j && crlf_at(t, j) ==> crlf_at(s, j + 1));
    }
}

/// `crlf_pos` is pinned down by its first-occurrence characterization.
pub proof fn lemma_crlf_pos_is(s: Seq<u8>, i: int)
    requires
        crlf_at(s, i),
        forall|j: int| 0 <= j < i ==> !crlf_at(s, j),
    ensures
        crlf_pos(s) == i,
{
    lemma_crlf_pos(s);
    if crlf_pos(s) < 0 {
        assert(!crlf_at(s, i));
    } else {
        let p = crlf_pos(s);
        if p < i {
            assert(!crlf_at(s, p));
        }
        if i < p {
            assert(!crlf_at(s, i));
        }
    }
}

/// The pieces of `s` between its CRLF separators, in order, separators
/// dropped; a trailing separator yields a trailing empty piece.
pub open spec fn spec_split_crlf(s: Seq<u8>) -> Seq<Seq<u8>>
    decreases s.len(),
    via spec_split_crlf_decreases
{
    let p = crlf_pos(s);
    if p < 0 {
        seq![s]
    } else {
        seq![s.take(p)] + spec_split_crlf(s.skip(p + 2))
    }
}

#[via_fn]
proof fn spec_split_crlf_decreases(s: Seq<u8>) {
    lemma_crlf_pos(s);
}

/// Splitting never yields an empty piece list.
pub proof fn lemma_split_crlf_len(s: Seq<u8>)
    ensures
        spec_split_crlf(s).len() >= 1,
{
}

/// Finds the first CRLF pair of `s` at or after `from`.
pub(crate) fn find_crlf(s: &[u8], from: usize) -> (r: Option<usize>)
    requires
        from <= s@.len(),
    ensures
        r is None ==> crlf_pos(s@.skip(from as int)) == -1,
        r matches Some(p) ==> from <= p && p + 2 <= s@.len() && crlf_pos(s@.skip(from as int))
            == p - from,
{
    let ghost t = s@.skip(from as int);
    let n = s.len();
    let mut i: usize = from;
    while i < n && i + 1 < n
        invariant
            from <= i,
            i <= n == s@.len(),
            t == s@.skip(from as int),
            forall|j: int| 0 <= j < i - from ==> !crlf_at(t, j),
        decreases n - i,
    {
        let a = *vstd::slice::slice_index_get(s, i);
        let b = *vstd::slice::slice_index_get(s, i + 1);
        if a == 13 && b == 10 {
            proof {
                assert(t[i - from] == s@[i as int] && t[i - from + 1] == s@[i + 1]);
                lemma_crlf_pos_is(t, i - from);
            }
            return Some(i);
        }
        i = i + 1;
        proof {
            assert(!crlf_at(t, i - 1 - from));
        }
    }
    proof {
        lemma_crlf_pos(t);
        assert(forall|j: int| crlf_at(t, j) ==> 0 <= j < i - from || j + 2 > t.len());
        if crlf_pos(t) >= 0 {
            assert(!crlf_at(t, crlf_pos(t)));
        }
    }
    None
}

} // verus!
