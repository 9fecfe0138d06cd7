use vstd::prelude::*;
use vstd::string::StringSliceAdditionalSpecFns;
use vstd::utf8::{
    decode_utf8, encode_utf8, is_char_boundary, valid_utf8, encode_utf8_valid_utf8,
    encode_utf8_decode_utf8, valid_utf8_split, is_char_boundary_iff_not_is_continuation_byte,
    is_char_boundary_start_end_of_seq,
};

verus! {

// Byte positions within the UTF-8 encoding of a string, as std's `str::find` reports them
// and as `&s[lo..hi]` takes them.

/// `pat` occurs in `b` starting at byte `i`.
pub open spec fn bytes_match_at(b: Seq<u8>, pat: Seq<u8>, i: int) -> bool {
    0 <= i && i + pat.len() <= b.len() && b.subrange(i, i + pat.len()) == pat
}

/// The leftmost byte position at or after `from` where `pat` occurs in `b`.
pub open spec fn bytes_find_from(b: Seq<u8>, pat: Seq<u8>, from: int) -> Option<int>
    decreases b.len() + 1 - from,
{
    if from < 0 || from + pat.len() > b.len() {
        None
    } else if bytes_match_at(b, pat, from) {
        Some(from)
    } else {
        bytes_find_from(b, pat, from + 1)
    }
}

/// The byte position where `pat` first occurs in the UTF-8 encoding of `s` (std's
/// `str::find`).
pub open spec fn byte_find(s: Seq<char>, pat: Seq<char>) -> Option<int> {
    bytes_find_from(encode_utf8(s), encode_utf8(pat), 0)
}

/// The byte length of the UTF-8 encoding of `s` (std's `str::len`).
pub open spec fn byte_len(s: Seq<char>) -> int {
    encode_utf8(s).len() as int
}

/// `&s[lo..hi]` is defined: the range is in order, within the string, and on character
/// boundaries.
pub open spec fn sliceable(s: Seq<char>, lo: int, hi: int) -> bool {
    0 <= lo <= hi <= byte_len(s) && is_char_boundary(encode_utf8(s), lo) && is_char_boundary(
        encode_utf8(s),
        hi,
    )
}

/// The characters of `&s[lo..hi]`.
pub open spec fn byte_slice(s: Seq<char>, lo: int, hi: int) -> Seq<char> {
    decode_utf8(encode_utf8(s).subrange(lo, hi))
}

proof fn lemma_bytes_find_from(b: Seq<u8>, pat: Seq<u8>, from: int)
    requires
        0 <= from,
    ensures
        bytes_find_from(b, pat, from) matches Some(i) ==> from <= i && bytes_match_at(b, pat, i),
    decreases b.len() + 1 - from,
{
    if from + pat.len() <= b.len() && !bytes_match_at(b, pat, from) {
        lemma_bytes_find_from(b, pat, from + 1);
    }
}

fn bytes_match_at_exec(b: &[u8], pat: &[u8], i: usize) -> (res: bool)
    ensures
        res == bytes_match_at(b@, pat@, i as int),
{
    if i > b.len() || pat.len() > b.len() - i {
        return false;
    }
    let n = b.len();
    let mut k: usize = 0;
    while k < pat.len()
        invariant
            n == b@.len(),
            i + pat@.len() <= b@.len(),
            k <= pat@.len(),
            forall|j: int| 0 <= j < k ==> b@[i + j] == pat@[j],
        decreases pat.len() - k,
    {
        if b[i + k] != pat[k] {
            assert(b@.subrange(i as int, i + pat@.len())[k as int] != pat@[k as int]);
            return false;
        }
        k = k + 1;
    }
    assert(b@.subrange(i as int, i + pat@.len()) =~= pat@);
    true
}

/// The byte position where `pat` first occurs in `s` (std's `str::find`).
pub fn byte_find_exec(s: &str, pat: &str) -> (res: Option<usize>)
    ensures
        match res {
            Some(i) => byte_find(s@, pat@) == Some(i as int) && i + byte_len(pat@) <= byte_len(s@),
            None => byte_find(s@, pat@) is None,
        },
{
    let b = s.as_bytes();
    let p = pat.as_bytes();
    let mut i: usize = 0;
    while i <= b.len() && p.len() <= b.len() - i
        invariant
            b@ == encode_utf8(s@),
            p@ == encode_utf8(pat@),
            bytes_find_from(b@, p@, 0) == bytes_find_from(b@, p@, i as int),
        decreases b.len() + 1 - i,
    {
        if bytes_match_at_exec(b, p, i) {
            return Some(i);
        }
        assert(i < b.len()) by {
            if i == b.len() {
                assert(b@.subrange(i as int, i as int) =~= p@);
            }
        }
        i = i + 1;
    }
    None
}

/// The byte length of `s` (std's `str::len`).
pub fn byte_len_exec(s: &str) -> (res: usize)
    ensures
        res == byte_len(s@),
{
    s.as_bytes().len()
}

/// Whether `&s[lo..hi]` is defined.
pub fn sliceable_exec(s: &str, lo: usize, hi: usize) -> (res: bool)
    ensures
        res == sliceable(s@, lo as int, hi as int),
{
    lo <= hi && hi <= s.as_bytes().len() && s.is_char_boundary(lo) && s.is_char_boundary(hi)
}

/// `&s[lo..hi]`.
pub fn byte_slice_exec(s: &str, lo: usize, hi: usize) -> (res: String)
    requires
        sliceable(s@, lo as int, hi as int),
    ensures
        res@ == byte_slice(s@, lo as int, hi as int),
{
    let ghost b = encode_utf8(s@);
    proof {
        encode_utf8_valid_utf8(s@);
        valid_utf8_split(b, lo as int);
        let rest = b.subrange(lo as int, b.len() as int);
        if hi < b.len() {
            is_char_boundary_iff_not_is_continuation_byte(b, hi as int);
            is_char_boundary_iff_not_is_continuation_byte(rest, hi - lo);
            assert(rest[hi - lo] == b[hi as int]);
        } else {
            is_char_boundary_start_end_of_seq(rest);
            assert(rest.len() == hi - lo);
        }
    }
    let (_, rest) = s.split_at(lo);
    let (mid, _) = rest.split_at(hi - lo);
    proof {
        encode_utf8_decode_utf8(mid@);
        assert(mid.spec_bytes() =~= b.subrange(lo as int, hi as int));
    }
    mid.to_string()
}

} // verus!
