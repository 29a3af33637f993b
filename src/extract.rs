//! The extractor: from a lookup body and a pattern to a download location.
use vstd::prelude::*;
use crate::matcher::{captures_of, hit_within, search, Hit, Matcher, Span};
use crate::pattern::{first_marker, marker_at, ExtractionPattern};

verus! {

/// Pattern of a download entry: group 1 is the payload tag, group 2 the URL.
pub const DOWNLOAD_ENTRY_PATTERN: &'static str = r"(X?APKJ)[\x00-\x20]?.?(https?://[[:graph:]]+?)[\x00-\x20]";

/// Status of a lookup response that carries a body worth scanning.
pub const STATUS_OK: u16 = 200;

/// What a download entry holds.
#[derive(PartialEq, Eq, Structural, Clone, Copy, Debug)]
pub enum PayloadKind {
    /// A multi-part archive, saved with the `.xapk` extension.
    Archive,
    /// A single package, saved with the `.apk` extension.
    Package,
}

/// Result of scanning one lookup response.
#[derive(PartialEq, Eq, Debug)]
pub enum ExtractionOutcome {
    /// A download entry: its kind, its URL, and the URL's offset in the body.
    Found { kind: PayloadKind, url: Vec<u8>, at: usize },
    NoMatch,
    ResponseError(u16),
}

/// The tag that marks a multi-part archive: `XAPKJ`.
pub open spec fn archive_tag() -> Seq<u8> {
    seq![88u8, 65u8, 80u8, 75u8, 74u8]
}

pub open spec fn kind_of(tag: Seq<u8>) -> PayloadKind {
    if tag == archive_tag() {
        PayloadKind::Archive
    } else {
        PayloadKind::Package
    }
}

pub open spec fn slice_of(body: Seq<u8>, s: Span) -> Seq<u8> {
    body.subrange(s.0 as int, s.1 as int)
}

/// The outcome that a hit of the entry pattern stands for.
pub open spec fn outcome_of_hit(body: Seq<u8>, hit: Option<Hit>, o: ExtractionOutcome) -> bool {
    match hit {
        Some(h) if h.1 is Some && h.2 is Some => {
            &&& o is Found
            &&& o->kind == kind_of(slice_of(body, h.1->0))
            &&& o->url@ == slice_of(body, h.2->0)
            &&& o->at == (h.2->0).0
        },
        _ => o is NoMatch,
    }
}

/// `url` stands in `body` at offset `at`.
pub open spec fn found_in(body: Seq<u8>, url: Seq<u8>, at: int) -> bool {
    0 <= at && at + url.len() <= body.len() && body.subrange(at, at + url.len()) == url
}

/// Kind of payload that a tag names.
pub fn payload_kind(tag: &[u8]) -> (k: PayloadKind)
    ensures
        k == kind_of(tag@),
{
    let is_archive = tag.len() == 5 && tag[0] == 88 && tag[1] == 65 && tag[2] == 80 && tag[3]
        == 75 && tag[4] == 74;
    if is_archive {
        assert(tag@ =~= archive_tag());
        PayloadKind::Archive
    } else {
        assert(tag@ != archive_tag()) by {
            if tag@.len() == 5 {
                assert(!is_archive);
            }
        }
        PayloadKind::Package
    }
}

/// Copy of `body[s.0..s.1]`.
pub fn copy_span(body: &[u8], s: Span) -> (r: Vec<u8>)
    requires
        span_within_body(s, body@.len() as int),
    ensures
        r@ == slice_of(body@, s),
{
    let mut r: Vec<u8> = Vec::new();
    let mut i: usize = s.0;
    while i < s.1
        invariant
            s.0 <= i <= s.1,
            s.1 <= body@.len(),
            r@ == body@.subrange(s.0 as int, i as int),
        decreases s.1 - i,
    {
        r.push(body[i]);
        i = i + 1;
        assert(r@ =~= body@.subrange(s.0 as int, i as int));
    }
    r
}

pub open spec fn span_within_body(s: Span, len: int) -> bool {
    s.0 <= s.1 && s.1 <= len
}

/// The outcome for one hit (or none) of the entry pattern in `body`: found
/// where both the tag and the URL took part in the match.
pub fn outcome_from_hit(body: &[u8], hit: Option<Hit>) -> (o: ExtractionOutcome)
    requires
        hit is Some ==> hit_within(hit->0, 0, body@.len() as int),
    ensures
        outcome_of_hit(body@, hit, o),
{
    match hit {
        Some((_, Some(tag), Some(url))) => {
            let kind = payload_kind(&body[tag.0..tag.1]);
            ExtractionOutcome::Found { kind, url: copy_span(body, url), at: url.0 }
        },
        _ => ExtractionOutcome::NoMatch,
    }
}

/// Compiles the download entry pattern.
pub fn entry_regex() -> (r: Option<Matcher>)
    ensures
        r is Some ==> r->0.pattern() == DOWNLOAD_ENTRY_PATTERN@,
{
    Matcher::new(DOWNLOAD_ENTRY_PATTERN)
}

/// `i` is the first marker of version `v` in `body`.
pub open spec fn is_first_marker(body: Seq<u8>, v: Seq<u8>, i: int) -> bool {
    marker_at(body, v, i) && forall|j: int| 0 <= j < i ==> !marker_at(body, v, j)
}

/// Where the scan for a download entry starts: at the beginning for the
/// default pattern; for a pinned version, one byte past the colon of its
/// first marker, if there is such a marker and that offset is in the body.
pub open spec fn scan_start(body: Seq<u8>, p: ExtractionPattern) -> Option<int> {
    match p {
        ExtractionPattern::Default => Some(0),
        ExtractionPattern::VersionScoped(v) => if exists|i: int| is_first_marker(body, v@, i) {
            let i = choose|i: int| is_first_marker(body, v@, i);
            if i + v@.len() + 2 <= body.len() {
                Some(i + v@.len() + 2)
            } else {
                None
            }
        } else {
            None
        },
    }
}

/// The outcome of scanning `body` with pattern `p`, the entry pattern being
/// compiled from `re`: no match where there is nowhere to scan from, else
/// what the first hit from the scan start stands for.
pub open spec fn extraction(body: Seq<u8>, p: ExtractionPattern, re: Seq<char>, o: ExtractionOutcome) -> bool {
    match scan_start(body, p) {
        None => o is NoMatch,
        Some(start) => outcome_of_hit(body, captures_of(re, body, start), o),
    }
}

/// Scans `body` for a download entry with `pattern`, using `entry` compiled
/// from the entry pattern. With a pinned version the scan starts past the
/// first marker of that version (and a gap of at least one byte), so an entry
/// that stands only before that marker is never returned.
pub fn extract(body: &[u8], pattern: &ExtractionPattern, entry: &Matcher) -> (o: ExtractionOutcome)
    ensures
        extraction(body@, *pattern, entry.pattern(), o),
        o is Found ==> found_in(body@, o->url@, o->at as int),
        (o is Found && pattern is VersionScoped) ==> exists|i: int|
            #![trigger marker_at(body@, pattern->0@, i)]
            is_first_marker(body@, pattern->0@, i) && o->at >= i + pattern->0@.len() + 2,
        pattern is VersionScoped && (forall|j: int| !marker_at(body@, pattern->0@, j)) ==> o is NoMatch,
{
    let start: usize = match pattern {
        ExtractionPattern::Default => 0,
        ExtractionPattern::VersionScoped(v) => {
            match first_marker(body, v.as_slice()) {
                None => {
                    proof {
                        assert(!exists|i: int| is_first_marker(body@, v@, i));
                    }
                    return ExtractionOutcome::NoMatch;
                },
                Some(i) => {
                    proof {
                        assert(is_first_marker(body@, v@, i as int));
                        let k = choose|k: int| is_first_marker(body@, v@, k);
                        if k < i {
                            assert(!marker_at(body@, v@, k));
                        } else if k > i {
                            assert(!marker_at(body@, v@, i as int));
                        }
                        assert(k == i);
                    }
                    if body.len() - i - v.len() < 2 {
                        return ExtractionOutcome::NoMatch;
                    }
                    i + v.len() + 2
                },
            }
        },
    };
    let hit = search(entry, body, start);
    let o = outcome_from_hit(body, hit);
    proof {
        if o is Found {
            let u = (hit->0).2->0;
            assert(body@.subrange(u.0 as int, u.1 as int) == o->url@);
        }
    }
    o
}

/// Classifies one lookup response: any status but OK is an error that leaves
/// the body unread; an OK body is scanned with `pattern`.
pub fn classify_lookup(status: u16, body: &[u8], pattern: &ExtractionPattern, entry: &Matcher) -> (o: ExtractionOutcome)
    ensures
        status != STATUS_OK ==> o == ExtractionOutcome::ResponseError(status),
        status == STATUS_OK ==> extraction(body@, *pattern, entry.pattern(), o),
        o is Found ==> found_in(body@, o->url@, o->at as int),
{
    if status != STATUS_OK {
        ExtractionOutcome::ResponseError(status)
    } else {
        extract(body, pattern, entry)
    }
}

} // verus!
