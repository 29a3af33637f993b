//! The regular-expression engine, used through a few trusted calls.
use vstd::prelude::*;

verus! {

#[verifier::external_type_specification]
#[verifier::external_body]
pub struct ExRegex(regex::bytes::Regex);

/// Byte offsets `(start, end)` of a piece of a haystack.
pub type Span = (usize, usize);

/// One match of a pattern with two groups: the whole match, then each group
/// where it took part.
pub type Hit = (Span, Option<Span>, Option<Span>);

pub open spec fn span_within(s: Span, lo: int, hi: int) -> bool {
    lo <= s.0 && s.0 <= s.1 && s.1 <= hi
}

/// Every span of the hit lies within `lo..hi`.
pub open spec fn hit_within(h: Hit, lo: int, hi: int) -> bool {
    &&& span_within(h.0, lo, hi)
    &&& h.1 is Some ==> span_within(h.1->0, lo, hi)
    &&& h.2 is Some ==> span_within(h.2->0, lo, hi)
}

/// What a search for `pattern` in `hay`, starting at offset `start`, reports:
/// the leftmost-first match with its first two groups, or none.
pub uninterp spec fn captures_of(pattern: Seq<char>, hay: Seq<u8>, start: int) -> Option<Hit>;

/// A compiled pattern together with the text it was compiled from.
pub struct Matcher {
    re: regex::bytes::Regex,
    text: String,
}

impl Matcher {
    /// The text the matcher was compiled from.
    pub closed spec fn pattern(&self) -> Seq<char> {
        self.text@
    }

    /// Compiles `pattern`; `None` where the regex syntax refuses it.
    pub fn new(pattern: &str) -> (r: Option<Matcher>)
        ensures
            r is Some ==> r->0.pattern() == pattern@,
    {
        match compile(pattern) {
            Some(re) => Some(Matcher { re, text: pattern.to_owned() }),
            None => None,
        }
    }
}

/// Relies on regex::bytes::Regex::new: compiles a pattern, or fails on one
/// that the regex syntax refuses.
#[verifier::external_body]
fn compile(pattern: &str) -> (r: Option<regex::bytes::Regex>) {
    regex::bytes::Regex::new(pattern).ok()
}

/// Relies on regex::bytes::Regex::captures_at: it searches `hay[start..]`
/// (panicking only when `start > hay.len()`); what it reports depends on the
/// pattern, the haystack and the start alone; every offset lies in that
/// range, each match's start before its end.
#[verifier::external_body]
pub(crate) fn search(m: &Matcher, hay: &[u8], start: usize) -> (r: Option<Hit>)
    requires
        start <= hay@.len(),
    ensures
        r == captures_of(m.pattern(), hay@, start as int),
        r is Some ==> hit_within(r->0, start as int, hay@.len() as int),
{
    match m.re.captures_at(hay, start) {
        Some(c) => {
            let w = c.get_match();
            let g1 = c.get(1).map(|m| (m.start(), m.end()));
            Some(((w.start(), w.end()), g1, c.get(2).map(|m| (m.start(), m.end()))))
        },
        None => None,
    }
}

} // verus!
