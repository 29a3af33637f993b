//! The structured version report: one JSON document for every item listed.
use vstd::prelude::*;
use crate::orchestrator::append;
use crate::pattern::bytes_match_at;
use crate::versions::{join_into, joined_with, views, VersionEntry};

verus! {

/// The JSON string literal for `s`, read as UTF-8 with each invalid sequence
/// replaced by U+FFFD.
pub uninterp spec fn json_quoted(s: Seq<u8>) -> Seq<u8>;

/// Relies on serde_json::to_vec on a `str` (after std's lossy UTF-8 reading):
/// it writes the quoted, escaped string. Serializing a `str` fails only on an
/// I/O error of the writer, and writing into a `Vec` never fails.
#[verifier::external_body]
fn quote(s: &[u8]) -> (r: Vec<u8>)
    ensures
        r@ == json_quoted(s@),
{
    match serde_json::to_vec(String::from_utf8_lossy(s).as_ref()) {
        Ok(v) => v,
        Err(_) => Vec::new(),
    }
}

pub open spec fn version_open() -> Seq<u8> {
    seq![123u8, 34u8, 118u8, 101u8, 114u8, 115u8, 105u8, 111u8, 110u8, 34u8, 58u8]
}

pub open spec fn object_close() -> Seq<u8> {
    seq![125u8]
}

pub open spec fn versions_open() -> Seq<u8> {
    seq![123u8, 34u8, 97u8, 118u8, 97u8, 105u8, 108u8, 97u8, 98u8, 108u8, 101u8, 95u8, 118u8, 101u8, 114u8, 115u8, 105u8, 111u8, 110u8, 115u8, 34u8, 58u8, 91u8]
}

pub open spec fn versions_close() -> Seq<u8> {
    seq![93u8, 125u8]
}

pub open spec fn error_object() -> Seq<u8> {
    seq![123u8, 34u8, 101u8, 114u8, 114u8, 111u8, 114u8, 34u8, 58u8, 34u8, 73u8, 110u8, 118u8, 97u8, 108u8, 105u8, 100u8, 32u8, 97u8, 112u8, 112u8, 32u8, 114u8, 101u8, 115u8, 112u8, 111u8, 110u8, 115u8, 101u8, 46u8, 34u8, 125u8]
}

pub open spec fn report_open() -> Seq<u8> {
    seq![123u8, 34u8, 115u8, 111u8, 117u8, 114u8, 99u8, 101u8, 34u8, 58u8, 34u8, 65u8, 80u8, 75u8, 80u8, 117u8, 114u8, 101u8, 34u8, 44u8, 34u8, 97u8, 112u8, 112u8, 115u8, 34u8, 58u8, 123u8]
}

pub open spec fn report_close() -> Seq<u8> {
    seq![125u8, 125u8]
}

pub open spec fn comma() -> Seq<u8> {
    seq![44u8]
}

pub open spec fn version_json(v: Seq<u8>) -> Seq<u8> {
    version_open() + json_quoted(v) + object_close()
}

/// The JSON object of one item's entry.
pub open spec fn entry_json(e: VersionEntry) -> Seq<u8> {
    match e {
        VersionEntry::Versions(vs) => versions_open() + joined_with(
            views(vs@).map_values(|v: Seq<u8>| version_json(v)),
            comma(),
        ) + versions_close(),
        VersionEntry::InvalidResponse => error_object(),
    }
}

pub open spec fn member_json(item: Seq<u8>, e: VersionEntry) -> Seq<u8> {
    json_quoted(item) + seq![58u8] + entry_json(e)
}

/// The whole document: the source, then each item's entry under its id.
pub open spec fn report_json(entries: Seq<(Vec<u8>, VersionEntry)>) -> Seq<u8> {
    report_open() + joined_with(
        entries.map_values(|p: (Vec<u8>, VersionEntry)| member_json(p.0@, p.1)),
        comma(),
    ) + report_close()
}

/// The JSON object of one item's entry.
pub fn entry_to_json(e: &VersionEntry) -> (r: Vec<u8>)
    ensures
        r@ == entry_json(*e),
{
    match e {
        VersionEntry::InvalidResponse => {
            let error_object_b: Vec<u8> = vec![123u8, 34u8, 101u8, 114u8, 114u8, 111u8, 114u8, 34u8, 58u8, 34u8, 73u8, 110u8, 118u8, 97u8, 108u8, 105u8, 100u8, 32u8, 97u8, 112u8, 112u8, 32u8, 114u8, 101u8, 115u8, 112u8, 111u8, 110u8, 115u8, 101u8, 46u8, 34u8, 125u8];
        assert(error_object_b@ =~= error_object());
            error_object_b
        },
        VersionEntry::Versions(vs) => {
            let mut parts: Vec<Vec<u8>> = Vec::new();
            let mut i: usize = 0;
            while i < vs.len()
                invariant
                    i <= vs@.len(),
                    views(parts@) == views(vs@.subrange(0, i as int)).map_values(
                        |v: Seq<u8>| version_json(v),
                    ),
                decreases vs@.len() - i,
            {
                let version_open_b: Vec<u8> = vec![123u8, 34u8, 118u8, 101u8, 114u8, 115u8, 105u8, 111u8, 110u8, 34u8, 58u8];
        assert(version_open_b@ =~= version_open());
                let object_close_b: Vec<u8> = vec![125u8];
        assert(object_close_b@ =~= object_close());
                let mut part = version_open_b;
                let q = quote(vs[i].as_slice());
                append(&mut part, q.as_slice());
                append(&mut part, object_close_b.as_slice());
                let ghost prev = parts@;
                let ghost pv = part@;
                assert(pv == version_json(vs@[i as int]@));
                parts.push(part);
                proof {
                    assert(views(parts@) =~= views(prev).push(pv));
                    let f = |v: Seq<u8>| version_json(v);
                    assert(views(vs@.subrange(0, i + 1)) =~= views(vs@.subrange(0, i as int)).push(vs@[i as int]@));
                    assert(views(vs@.subrange(0, i as int)).push(vs@[i as int]@).map_values(f)
                        =~= views(vs@.subrange(0, i as int)).map_values(f).push(f(vs@[i as int]@)));
                    assert(views(parts@) =~= views(vs@.subrange(0, i + 1)).map_values(
                        |v: Seq<u8>| version_json(v),
                    ));
                }
                i = i + 1;
            }
            assert(vs@.subrange(0, vs@.len() as int) =~= vs@);
            let versions_open_b: Vec<u8> = vec![123u8, 34u8, 97u8, 118u8, 97u8, 105u8, 108u8, 97u8, 98u8, 108u8, 101u8, 95u8, 118u8, 101u8, 114u8, 115u8, 105u8, 111u8, 110u8, 115u8, 34u8, 58u8, 91u8];
        assert(versions_open_b@ =~= versions_open());
            let versions_close_b: Vec<u8> = vec![93u8, 125u8];
        assert(versions_close_b@ =~= versions_close());
            let mut r = versions_open_b;
            let sep: Vec<u8> = vec![44u8];
            join_into(&mut r, &parts, sep.as_slice());
            append(&mut r, versions_close_b.as_slice());
            assert(sep@ =~= comma());
            r
        },
    }
}

/// The structured report for `entries`, each an item id and its entry, in order.
pub fn json_report(entries: &Vec<(Vec<u8>, VersionEntry)>) -> (r: Vec<u8>)
    ensures
        r@ == report_json(entries@),
{
    let mut parts: Vec<Vec<u8>> = Vec::new();
    let mut i: usize = 0;
    while i < entries.len()
        invariant
            i <= entries@.len(),
            views(parts@) == entries@.subrange(0, i as int).map_values(
                |p: (Vec<u8>, VersionEntry)| member_json(p.0@, p.1),
            ),
        decreases entries@.len() - i,
    {
        let mut part = quote(entries[i].0.as_slice());
        part.push(58u8);
        let body = entry_to_json(&entries[i].1);
        append(&mut part, body.as_slice());
        let ghost prev = parts@;
        let ghost pv = part@;
        assert(pv == member_json(entries@[i as int].0@, entries@[i as int].1));
        parts.push(part);
        proof {
            let f = |p: (Vec<u8>, VersionEntry)| member_json(p.0@, p.1);
            assert(views(parts@) =~= views(prev).push(pv));
            assert(entries@.subrange(0, i + 1) =~= entries@.subrange(0, i as int).push(entries@[i as int]));
            assert(entries@.subrange(0, i as int).push(entries@[i as int]).map_values(f)
                =~= entries@.subrange(0, i as int).map_values(f).push(f(entries@[i as int])));
            assert(views(parts@) =~= entries@.subrange(0, i + 1).map_values(
                |p: (Vec<u8>, VersionEntry)| member_json(p.0@, p.1),
            ));
        }
        i = i + 1;
    }
    assert(entries@.subrange(0, entries@.len() as int) =~= entries@);
    let report_open_b: Vec<u8> = vec![123u8, 34u8, 115u8, 111u8, 117u8, 114u8, 99u8, 101u8, 34u8, 58u8, 34u8, 65u8, 80u8, 75u8, 80u8, 117u8, 114u8, 101u8, 34u8, 44u8, 34u8, 97u8, 112u8, 112u8, 115u8, 34u8, 58u8, 123u8];
        assert(report_open_b@ =~= report_open());
    let report_close_b: Vec<u8> = vec![125u8, 125u8];
        assert(report_close_b@ =~= report_close());
    let mut r = report_open_b;
    let sep: Vec<u8> = vec![44u8];
    join_into(&mut r, &parts, sep.as_slice());
    append(&mut r, report_close_b.as_slice());
    assert(sep@ =~= comma());
    r
}

/// No item id stands twice in the report.
pub open spec fn keys_unique(s: Seq<(Vec<u8>, VersionEntry)>) -> bool {
    forall|i: int, j: int| 0 <= i < j < s.len() ==> #[trigger] s[i].0@ != #[trigger] s[j].0@
}

/// Whether `a` and `b` hold the same bytes.
pub fn same_bytes(a: &[u8], b: &[u8]) -> (r: bool)
    ensures
        r == (a@ == b@),
{
    if a.len() != b.len() {
        return false;
    }
    let r = bytes_match_at(a, b, 0);
    assert(a@.subrange(0, b@.len() as int) =~= a@);
    r
}

/// Records `entry` under `item`: in place of the entry already held for that
/// id, else at the end.
pub fn record(report: &mut Vec<(Vec<u8>, VersionEntry)>, item: Vec<u8>, entry: VersionEntry)
    requires
        keys_unique(old(report)@),
    ensures
        keys_unique(final(report)@),
        forall|k: int| 0 <= k < old(report)@.len() && old(report)@[k].0@ == item@
            ==> final(report)@ == old(report)@.update(k, (item, entry)),
        (forall|k: int| 0 <= k < old(report)@.len() ==> old(report)@[k].0@ != item@)
            ==> final(report)@ == old(report)@.push((item, entry)),
{
    let mut k: usize = 0;
    while k < report.len()
        invariant
            k <= report@.len(),
            report@ == old(report)@,
            keys_unique(report@),
            forall|j: int| 0 <= j < k ==> report@[j].0@ != item@,
        decreases report@.len() - k,
    {
        if same_bytes(report[k].0.as_slice(), item.as_slice()) {
            let ghost before = report@;
            let ghost key = item@;
            report.set(k, (item, entry));
            proof {
                assert(before[k as int].0@ == key);
                assert forall|j: int| 0 <= j < before.len() && j != k implies before[j].0@ != key by {
                    if j > k {
                        assert(before[k as int].0@ != before[j].0@);
                    }
                }
                assert forall|i: int, j: int| 0 <= i < j < report@.len() implies #[trigger] report@[i].0@
                    != #[trigger] report@[j].0@ by {
                    if i != k && j != k {
                        assert(before[i].0@ != before[j].0@);
                    }
                }
            }
            return;
        }
        k = k + 1;
    }
    let ghost before = report@;
    report.push((item, entry));
    proof {
        assert forall|i: int, j: int| 0 <= i < j < report@.len() implies #[trigger] report@[i].0@
            != #[trigger] report@[j].0@ by {
            if j < before.len() {
                assert(before[i].0@ != before[j].0@);
            } else {
                assert(before[i].0@ != item@);
            }
        }
    }
}

} // verus!
