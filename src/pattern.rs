//! Extraction patterns and the search for a pinned version's marker.
use vstd::prelude::*;

verus! {

/// Byte value of `:`, which closes a version marker.
pub const MARKER_END: u8 = 58;

/// How a download entry is located in a lookup body.
#[derive(PartialEq, Eq, Debug)]
pub enum ExtractionPattern {
    /// The first download entry of the body.
    Default,
    /// The first download entry after the first marker of this exact version.
    VersionScoped(Vec<u8>),
}

pub open spec fn is_ascii_digit(b: u8) -> bool {
    48 <= b && b <= 57
}

/// A marker of version `v` begins at `i`: a non-digit byte before it, then
/// `v` itself, then a colon.
pub open spec fn marker_at(body: Seq<u8>, v: Seq<u8>, i: int) -> bool {
    &&& 1 <= i
    &&& i + v.len() + 1 <= body.len()
    &&& !is_ascii_digit(body[i - 1])
    &&& body.subrange(i, i + v.len()) == v
    &&& body[i + v.len()] == MARKER_END
}

/// Builds the pattern for an item: the default one, or one scoped to the
/// pinned version. Every version, whatever bytes it holds, gives a pattern.
pub fn resolve_pattern(version: Option<Vec<u8>>) -> (p: ExtractionPattern)
    ensures
        version is None ==> p is Default,
        version is Some ==> p is VersionScoped && p->0@ == version->0@,
{
    match version {
        None => ExtractionPattern::Default,
        Some(v) => ExtractionPattern::VersionScoped(v),
    }
}

/// Whether `body` holds `v` at offset `i`.
pub fn bytes_match_at(body: &[u8], v: &[u8], i: usize) -> (r: bool)
    requires
        i + v@.len() <= body@.len(),
    ensures
        r == (body@.subrange(i as int, i + v@.len()) == v@),
{
    let n = body.len();
    let mut k: usize = 0;
    while k < v.len()
        invariant
            k <= v@.len(),
            i + v@.len() <= body@.len(),
            n == body@.len(),
            forall|j: int| 0 <= j < k ==> body@[i + j] == v@[j],
        decreases v@.len() - k,
    {
        if body[i + k] != v[k] {
            assert(body@.subrange(i as int, i + v@.len())[k as int] != v@[k as int]);
            return false;
        }
        k = k + 1;
    }
    assert(body@.subrange(i as int, i + v@.len()) =~= v@);
    true
}

/// Offset of the first marker of version `v` in `body`, if there is one.
pub fn first_marker(body: &[u8], v: &[u8]) -> (r: Option<usize>)
    ensures
        r is Some ==> marker_at(body@, v@, r->0 as int) && forall|j: int|
            0 <= j < r->0 ==> !marker_at(body@, v@, j),
        r is None ==> forall|j: int| !marker_at(body@, v@, j),
{
    if body.len() < 2 || body.len() - 2 < v.len() {
        return None;
    }
    let last: usize = body.len() - v.len() - 1;
    let mut i: usize = 1;
    while i <= last
        invariant
            1 <= i <= last + 1,
            last + v@.len() + 1 == body@.len(),
            forall|j: int| 0 <= j < i ==> !marker_at(body@, v@, j),
        decreases last + 1 - i,
    {
        let prev = body[i - 1];
        if !(48 <= prev && prev <= 57) && bytes_match_at(body, v, i) && body[i + v.len()]
            == MARKER_END {
            return Some(i);
        }
        i = i + 1;
    }
    None
}

} // verus!
