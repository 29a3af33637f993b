//! The version lister: every version tag in a lookup body, sorted and
//! without duplicates, and the report built from them.
use vstd::prelude::*;
use crate::extract::{copy_span, slice_of, STATUS_OK};
use crate::matcher::{captures_of, search, Matcher};
use crate::orchestrator::append;

verus! {

/// Pattern of a version tag: an item id, a colon, then the version itself,
/// forty or more hex digits (group 1).
pub const VERSION_TAG_PATTERN: &'static str = r"[[:alnum:]\.-]+:([[:xdigit:]]{40,})";

/// `a` comes before `b` in byte-wise lexicographic order, looking from `i` on.
pub open spec fn lex_lt_from(a: Seq<u8>, b: Seq<u8>, i: int) -> bool
    decreases a.len() - i,
{
    if i < 0 || i >= a.len() {
        0 <= i < b.len()
    } else if i >= b.len() {
        false
    } else if a[i] < b[i] {
        true
    } else if a[i] > b[i] {
        false
    } else {
        lex_lt_from(a, b, i + 1)
    }
}

pub open spec fn lex_lt(a: Seq<u8>, b: Seq<u8>) -> bool {
    lex_lt_from(a, b, 0)
}

/// Strictly ascending, hence free of duplicates.
pub open spec fn strictly_sorted(s: Seq<Vec<u8>>) -> bool {
    forall|i: int, j: int| 0 <= i < j < s.len() ==> lex_lt(#[trigger] s[i]@, #[trigger] s[j]@)
}

/// The byte strings that a list holds.
pub open spec fn contents(s: Seq<Vec<u8>>) -> Set<Seq<u8>> {
    Set::new(|x: Seq<u8>| exists|i: int| 0 <= i < s.len() && #[trigger] s[i]@ == x)
}

proof fn lemma_lex_trans(a: Seq<u8>, b: Seq<u8>, c: Seq<u8>, i: int)
    requires
        0 <= i,
        lex_lt_from(a, b, i),
        lex_lt_from(b, c, i),
    ensures
        lex_lt_from(a, c, i),
    decreases a.len() - i,
{
    if i < a.len() && i < b.len() && i < c.len() && a[i] == b[i] && b[i] == c[i] {
        lemma_lex_trans(a, b, c, i + 1);
    }
}

proof fn lemma_lex_total(a: Seq<u8>, b: Seq<u8>, i: int)
    requires
        0 <= i <= a.len(),
        i <= b.len(),
        !lex_lt_from(a, b, i),
        !lex_lt_from(b, a, i),
    ensures
        a.len() == b.len(),
        forall|k: int| i <= k < a.len() ==> a[k] == b[k],
    decreases a.len() - i,
{
    if i < a.len() && i < b.len() {
        lemma_lex_total(a, b, i + 1);
    }
}

proof fn lemma_lex_irrefl(a: Seq<u8>, i: int)
    requires
        0 <= i,
    ensures
        !lex_lt_from(a, a, i),
    decreases a.len() - i,
{
    if i < a.len() {
        lemma_lex_irrefl(a, i + 1);
    }
}

/// Whether `a` comes before `b`.
pub fn lex_less(a: &[u8], b: &[u8]) -> (r: bool)
    ensures
        r == lex_lt(a@, b@),
{
    let mut i: usize = 0;
    while i < a.len() && i < b.len() && a[i] == b[i]
        invariant
            lex_lt_from(a@, b@, 0) == lex_lt_from(a@, b@, i as int),
        decreases a@.len() - i,
    {
        i = i + 1;
    }
    i >= a.len() && i < b.len() || i < a.len() && i < b.len() && a[i] < b[i]
}

/// Adds `item` to a strictly sorted list, keeping it strictly sorted.
pub fn insert_sorted(set: &mut Vec<Vec<u8>>, item: Vec<u8>)
    requires
        strictly_sorted(old(set)@),
    ensures
        strictly_sorted(final(set)@),
        contents(final(set)@) == contents(old(set)@).insert(item@),
{
    let mut p: usize = 0;
    while p < set.len() && lex_less(set[p].as_slice(), item.as_slice())
        invariant
            p <= set@.len(),
            set@ == old(set)@,
            strictly_sorted(set@),
            forall|j: int| 0 <= j < p ==> lex_lt(#[trigger] set@[j]@, item@),
        decreases set@.len() - p,
    {
        p = p + 1;
    }
    if p < set.len() && !lex_less(item.as_slice(), set[p].as_slice()) {
        proof {
            lemma_lex_total(set@[p as int]@, item@, 0);
            assert(set@[p as int]@ =~= item@);
            assert(contents(set@).insert(item@) =~= contents(set@));
        }
        return;
    }
    let ghost s0 = set@;
    let ghost x = item@;
    set.insert(p, item);
    proof {
        let s1 = set@;
        assert(s1 == s0.insert(p as int, s1[p as int]));
        assert forall|i: int, j: int| 0 <= i < j < s1.len() implies lex_lt(
            #[trigger] s1[i]@,
            #[trigger] s1[j]@,
        ) by {
            if j < p {
                assert(s1[i] == s0[i] && s1[j] == s0[j]);
            } else if j == p {
                assert(s1[i] == s0[i]);
            } else if i == p {
                assert(s1[j] == s0[j - 1]);
                if j - 1 > p {
                    assert(lex_lt(s0[p as int]@, s0[j - 1]@));
                    lemma_lex_trans(x, s0[p as int]@, s0[j - 1]@, 0);
                }
            } else if i < p {
                assert(s1[i] == s0[i] && s1[j] == s0[j - 1]);
                if j - 1 >= p {
                    assert(lex_lt(s0[i]@, x));
                    if j - 1 > p {
                        assert(lex_lt(s0[p as int]@, s0[j - 1]@));
                        lemma_lex_trans(x, s0[p as int]@, s0[j - 1]@, 0);
                    }
                    lemma_lex_trans(s0[i]@, x, s0[j - 1]@, 0);
                }
            } else {
                assert(s1[i] == s0[i - 1] && s1[j] == s0[j - 1]);
            }
        }
        assert forall|y: Seq<u8>| contents(s1).contains(y) == contents(s0).insert(x).contains(y) by {
            if contents(s1).contains(y) {
                let i = choose|i: int| 0 <= i < s1.len() && #[trigger] s1[i]@ == y;
                if i < p {
                    assert(s1[i] == s0[i]);
                } else if i > p {
                    assert(s1[i] == s0[i - 1]);
                }
            }
            if contents(s0).contains(y) {
                let i = choose|i: int| 0 <= i < s0.len() && #[trigger] s0[i]@ == y;
                if i < p {
                    assert(s1[i] == s0[i]);
                } else {
                    assert(s1[i + 1] == s0[i]);
                }
            }
            if y == x {
                assert(s1[p as int]@ == x);
            }
        }
        assert(contents(s1) =~= contents(s0).insert(x));
    }
}

/// The tags that successive searches find from offset `pos` on: each search
/// resumes at the end of the previous match, one byte later after an empty
/// match, and group 1 of each match is a tag.
pub open spec fn tags_from(re: Seq<char>, body: Seq<u8>, pos: int) -> Set<Seq<u8>>
    decreases body.len() + 1 - pos,
{
    if pos < 0 || pos > body.len() {
        Set::empty()
    } else {
        match captures_of(re, body, pos) {
            None => Set::empty(),
            Some(h) => {
                let here = if h.1 is Some {
                    Set::empty().insert(slice_of(body, h.1->0))
                } else {
                    Set::empty()
                };
                let next = if h.0.1 > pos {
                    h.0.1 as int
                } else {
                    pos + 1
                };
                if next > body.len() {
                    here
                } else {
                    here.union(tags_from(re, body, next))
                }
            },
        }
    }
}

/// Compiles the version tag pattern.
pub fn version_tag_regex() -> (r: Option<Matcher>)
    ensures
        r is Some ==> r->0.pattern() == VERSION_TAG_PATTERN@,
{
    Matcher::new(VERSION_TAG_PATTERN)
}

/// Every tag that `tags` finds in `body`, match after match, each once and
/// in ascending order.
pub fn collect_versions(body: &[u8], tags: &Matcher) -> (r: Vec<Vec<u8>>)
    ensures
        strictly_sorted(r@),
        contents(r@) == tags_from(tags.pattern(), body@, 0),
{
    let ghost re = tags.pattern();
    let mut set: Vec<Vec<u8>> = Vec::new();
    let mut pos: usize = 0;
    proof {
        assert(contents(set@) =~= Set::empty());
        assert(contents(set@).union(tags_from(re, body@, 0)) =~= tags_from(re, body@, 0));
    }
    loop
        invariant
            pos <= body@.len(),
            re == tags.pattern(),
            strictly_sorted(set@),
            contents(set@).union(tags_from(re, body@, pos as int)) == tags_from(re, body@, 0),
        ensures
            strictly_sorted(set@),
            contents(set@) == tags_from(re, body@, 0),
        decreases body@.len() + 1 - pos,
    {
        let hit = search(tags, body, pos);
        let ghost before = contents(set@);
        let ghost rest = tags_from(re, body@, pos as int);
        match hit {
            None => {
                proof {
                    assert(rest == Set::<Seq<u8>>::empty());
                    assert(before.union(rest) =~= before);
                }
                break ;
            },
            Some((whole, group, _)) => {
                let ghost here = if group is Some {
                    Set::empty().insert(slice_of(body@, group->0))
                } else {
                    Set::<Seq<u8>>::empty()
                };
                match group {
                    Some(g) => {
                        let v = copy_span(body, g);
                        insert_sorted(&mut set, v);
                    },
                    None => {},
                }
                assert(contents(set@) =~= before.union(here));
                if whole.1 > pos {
                    pos = whole.1;
                    proof {
                        assert(rest == here.union(tags_from(re, body@, pos as int)));
                        assert(contents(set@).union(tags_from(re, body@, pos as int)) =~= before.union(rest));
                    }
                } else if pos < body.len() {
                    pos = pos + 1;
                    proof {
                        assert(rest == here.union(tags_from(re, body@, pos as int)));
                        assert(contents(set@).union(tags_from(re, body@, pos as int)) =~= before.union(rest));
                    }
                } else {
                    proof {
                        assert(rest == here);
                        assert(contents(set@) =~= before.union(rest));
                    }
                    break ;
                }
            },
        }
    }
    set
}

/// Versions of one item, or the mark of a lookup that failed.
#[derive(PartialEq, Eq, Debug)]
pub enum VersionEntry {
    Versions(Vec<Vec<u8>>),
    InvalidResponse,
}

/// The entry for one lookup response: any status but OK gives the error
/// mark; an OK body gives every tag found in it, sorted, each once.
pub fn lookup_versions(status: u16, body: &[u8], tags: &Matcher) -> (e: VersionEntry)
    ensures
        status != STATUS_OK <==> e is InvalidResponse,
        e is Versions ==> strictly_sorted(e->0@) && contents(e->0@) == tags_from(
            tags.pattern(),
            body@,
            0,
        ),
{
    if status != STATUS_OK {
        VersionEntry::InvalidResponse
    } else {
        VersionEntry::Versions(collect_versions(body, tags))
    }
}

pub open spec fn invalid_prefix() -> Seq<u8> {
    seq![124u8, 32u8, 73u8, 110u8, 118u8, 97u8, 108u8, 105u8, 100u8, 32u8, 97u8, 112u8, 112u8, 32u8, 114u8, 101u8, 115u8, 112u8, 111u8, 110u8, 115u8, 101u8, 32u8, 102u8, 111u8, 114u8, 32u8]
}

pub open spec fn invalid_suffix() -> Seq<u8> {
    seq![46u8, 32u8, 83u8, 107u8, 105u8, 112u8, 112u8, 105u8, 110u8, 103u8, 46u8, 46u8, 46u8]
}

/// The parts written out in order, with `sep` between each two.
pub open spec fn joined_with(s: Seq<Seq<u8>>, sep: Seq<u8>) -> Seq<u8>
    decreases s.len(),
{
    if s.len() == 0 {
        Seq::empty()
    } else if s.len() == 1 {
        s[0]
    } else {
        joined_with(s.drop_last(), sep) + sep + s.last()
    }
}

pub open spec fn views(s: Seq<Vec<u8>>) -> Seq<Seq<u8>> {
    s.map_values(|v: Vec<u8>| v@)
}

/// Appends `parts`, with `sep` between each two, to `out`.
pub fn join_into(out: &mut Vec<u8>, parts: &Vec<Vec<u8>>, sep: &[u8])
    ensures
        final(out)@ == old(out)@ + joined_with(views(parts@), sep@),
{
    let mut i: usize = 0;
    proof {
        assert(views(parts@.subrange(0, 0)) =~= Seq::<Seq<u8>>::empty());
        assert(out@ =~= old(out)@ + joined_with(views(parts@.subrange(0, 0)), sep@));
    }
    while i < parts.len()
        invariant
            i <= parts@.len(),
            out@ == old(out)@ + joined_with(views(parts@.subrange(0, i as int)), sep@),
        decreases parts@.len() - i,
    {
        if i > 0 {
            append(out, sep);
        }
        append(out, parts[i].as_slice());
        proof {
            let a = views(parts@.subrange(0, i + 1));
            assert(a.drop_last() =~= views(parts@.subrange(0, i as int)));
            assert(a.last() == parts@[i as int]@);
            if i == 0 {
                assert(views(parts@.subrange(0, 0)) =~= Seq::<Seq<u8>>::empty());
            }
            assert(out@ =~= old(out)@ + joined_with(a, sep@));
        }
        i = i + 1;
    }
    assert(parts@.subrange(0, parts@.len() as int) =~= parts@);
}

/// Text of one item's entry in plain mode: what goes to standard output,
/// then what goes to standard error. A failed lookup writes one error line
/// naming the item and nothing else; versions are written as one line
/// that lists them.
pub fn plain_report(item: &[u8], entry: &VersionEntry) -> (r: (Vec<u8>, Vec<u8>))
    ensures
        entry is InvalidResponse ==> r.0@.len() == 0 && r.1@ == invalid_prefix() + item@
            + invalid_suffix(),
        entry is Versions ==> r.1@.len() == 0 && r.0@ == seq![124u8, 32u8] + joined_with(
            views(entry->0@),
            seq![44u8, 32u8],
        ),
{
    let mut out: Vec<u8> = Vec::new();
    let mut err: Vec<u8> = Vec::new();
    match entry {
        VersionEntry::InvalidResponse => {
            let pre: Vec<u8> = vec![124u8, 32u8, 73u8, 110u8, 118u8, 97u8, 108u8, 105u8, 100u8, 32u8, 97u8, 112u8, 112u8, 32u8, 114u8, 101u8, 115u8, 112u8, 111u8, 110u8, 115u8, 101u8, 32u8, 102u8, 111u8, 114u8, 32u8];
            let suf: Vec<u8> = vec![46u8, 32u8, 83u8, 107u8, 105u8, 112u8, 112u8, 105u8, 110u8, 103u8, 46u8, 46u8, 46u8];
            append(&mut err, pre.as_slice());
            append(&mut err, item);
            append(&mut err, suf.as_slice());
            assert(pre@ =~= invalid_prefix());
            assert(suf@ =~= invalid_suffix());
        },
        VersionEntry::Versions(vs) => {
            out.push(124u8);
            out.push(32u8);
            let sep: Vec<u8> = vec![44u8, 32u8];
            join_into(&mut out, vs, sep.as_slice());
            assert(sep@ =~= seq![44u8, 32u8]);
        },
    }
    (out, err)
}

} // verus!
