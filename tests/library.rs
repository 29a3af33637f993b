use apkpure_fetch::extract::{
    classify_lookup, entry_regex, extract, outcome_from_hit, payload_kind, ExtractionOutcome,
    PayloadKind,
};
use apkpure_fetch::orchestrator::{
    file_name, step, DownloadOutcome, RunAction, RunEvent, RunState, SkipReason, TransferResult,
};
use apkpure_fetch::pattern::{first_marker, resolve_pattern, ExtractionPattern};
use apkpure_fetch::report::{entry_to_json, json_report, record, same_bytes};
use apkpure_fetch::scheduler::Scheduler;
use apkpure_fetch::versions::{
    collect_versions, insert_sorted, lex_less, lookup_versions, plain_report,
    version_tag_regex, VersionEntry,
};

fn found_url(o: &ExtractionOutcome) -> Option<(PayloadKind, String)> {
    match o {
        ExtractionOutcome::Found { kind, url, .. } => {
            Some((*kind, String::from_utf8(url.clone()).unwrap()))
        }
        _ => None,
    }
}

#[test]
fn pattern_for_any_version() {
    assert_eq!(resolve_pattern(None), ExtractionPattern::Default);
    for v in ["1.0", "2.3+(beta)*", "[x]^$|\\?{}", ""] {
        let p = resolve_pattern(Some(v.as_bytes().to_vec()));
        assert_eq!(p, ExtractionPattern::VersionScoped(v.as_bytes().to_vec()));
    }
}

#[test]
fn default_pattern_takes_first_entry() {
    let re = entry_regex().unwrap();
    let body = b"junk XAPKJ https://cdn.example/a.xapk \x01 APKJ https://cdn.example/b.apk \n";
    let o = extract(body, &ExtractionPattern::Default, &re);
    assert_eq!(
        found_url(&o),
        Some((PayloadKind::Archive, "https://cdn.example/a.xapk".to_string()))
    );
}

#[test]
fn scoped_pattern_skips_entries_before_marker() {
    let re = entry_regex().unwrap();
    let body = b"APKJ https://cdn.example/old.apk x1.2+(b):meta APKJ https://cdn.example/new.apk \n";
    let o = extract(body, &resolve_pattern(Some(b"1.2+(b)".to_vec())), &re);
    assert_eq!(
        found_url(&o),
        Some((PayloadKind::Package, "https://cdn.example/new.apk".to_string()))
    );
    if let ExtractionOutcome::Found { at, url, .. } = &o {
        assert_eq!(&body[*at..*at + url.len()], url.as_slice());
    }
}

#[test]
fn scoped_pattern_without_later_entry_has_no_match() {
    let re = entry_regex().unwrap();
    let body = b"APKJ https://cdn.example/old.apk \n 3.1:tail";
    let o = extract(body, &resolve_pattern(Some(b"3.1".to_vec())), &re);
    assert_eq!(o, ExtractionOutcome::NoMatch);
    let absent = extract(body, &resolve_pattern(Some(b"9.9".to_vec())), &re);
    assert_eq!(absent, ExtractionOutcome::NoMatch);
}

#[test]
fn marker_needs_non_digit_before_and_colon_after() {
    assert_eq!(first_marker(b"11.0:x 1.0:y", b"1.0"), Some(7));
    assert_eq!(first_marker(b"1.0:x", b"1.0"), None);
    assert_eq!(first_marker(b" 1.0 x", b"1.0"), None);
}

#[test]
fn bad_status_is_response_error() {
    let re = entry_regex().unwrap();
    let body = b"XAPKJ https://cdn.example/a.xapk \n";
    assert_eq!(
        classify_lookup(404, body, &ExtractionPattern::Default, &re),
        ExtractionOutcome::ResponseError(404)
    );
    assert!(found_url(&classify_lookup(200, body, &ExtractionPattern::Default, &re)).is_some());
}

#[test]
fn hit_without_groups_is_no_match() {
    let body = b"XAPKJ url";
    assert_eq!(outcome_from_hit(body, None), ExtractionOutcome::NoMatch);
    assert_eq!(outcome_from_hit(body, Some(((0, 5), Some((0, 5)), None))), ExtractionOutcome::NoMatch);
    assert_eq!(
        outcome_from_hit(body, Some(((0, 9), Some((0, 5)), Some((6, 9))))),
        ExtractionOutcome::Found { kind: PayloadKind::Archive, url: b"url".to_vec(), at: 6 }
    );
}

#[test]
fn payload_tags() {
    assert_eq!(payload_kind(b"XAPKJ"), PayloadKind::Archive);
    assert_eq!(payload_kind(b"APKJ"), PayloadKind::Package);
    assert_eq!(payload_kind(b"XAPKJJ"), PayloadKind::Package);
}

#[test]
fn file_names() {
    assert_eq!(file_name(b"app.one", &None, PayloadKind::Package), b"app.one.apk".to_vec());
    assert_eq!(
        file_name(b"app.one", &Some(b"2.0".to_vec()), PayloadKind::Archive),
        b"app.one@2.0.xapk".to_vec()
    );
}

fn drive(events: &[RunEvent]) -> (RunState, Vec<RunAction>) {
    let mut s = RunState::Waiting;
    let mut actions = Vec::new();
    for e in events {
        let (n, a) = step(s, *e, 250);
        s = n;
        actions.push(a);
    }
    (s, actions)
}

fn transfers(actions: &[RunAction]) -> usize {
    actions.iter().filter(|a| matches!(a, RunAction::Transfer(_))).count()
}

#[test]
fn non_ok_lookup_skips_without_extract() {
    let (s, actions) = drive(&[RunEvent::Begin, RunEvent::LookupDone(500)]);
    let skipped = DownloadOutcome::Skipped(SkipReason::InvalidResponse);
    assert_eq!(s, RunState::Finished(skipped));
    assert_eq!(actions, vec![RunAction::Lookup(250), RunAction::Report(skipped)]);
}

#[test]
fn existing_file_is_skipped() {
    let (s, actions) = drive(&[
        RunEvent::Begin,
        RunEvent::LookupDone(200),
        RunEvent::Extracted(true),
        RunEvent::TransferDone(TransferResult::FileExists),
    ]);
    assert_eq!(s, RunState::Finished(DownloadOutcome::Skipped(SkipReason::AlreadyExists)));
    assert_eq!(transfers(&actions), 1);
}

#[test]
fn permission_denied_is_skipped() {
    let (s, _) = drive(&[
        RunEvent::Begin,
        RunEvent::LookupDone(200),
        RunEvent::Extracted(true),
        RunEvent::TransferDone(TransferResult::PermissionDenied),
    ]);
    assert_eq!(s, RunState::Finished(DownloadOutcome::Skipped(SkipReason::PermissionDenied)));
}

#[test]
fn no_url_is_skipped() {
    let (s, _) = drive(&[RunEvent::Begin, RunEvent::LookupDone(200), RunEvent::Extracted(false)]);
    assert_eq!(s, RunState::Finished(DownloadOutcome::Skipped(SkipReason::NoDownloadUrl)));
}

#[test]
fn three_faults_fail_after_three_attempts() {
    let fault = RunEvent::TransferDone(TransferResult::Fault);
    let (s, actions) = drive(&[
        RunEvent::Begin,
        RunEvent::LookupDone(200),
        RunEvent::Extracted(true),
        fault,
        fault,
        fault,
    ]);
    assert_eq!(s, RunState::Finished(DownloadOutcome::Failed));
    assert_eq!(transfers(&actions), 3);
    let (s2, actions2) = drive(&[
        RunEvent::Begin,
        RunEvent::LookupDone(200),
        RunEvent::Extracted(true),
        fault,
        fault,
        RunEvent::TransferDone(TransferResult::Completed),
    ]);
    assert_eq!(s2, RunState::Finished(DownloadOutcome::Success));
    assert_eq!(transfers(&actions2), 3);
}

#[test]
fn finished_run_ignores_events() {
    let done = RunState::Finished(DownloadOutcome::Success);
    assert_eq!(step(done, RunEvent::Begin, 0), (done, RunAction::Ignore));
}

#[test]
fn scheduler_respects_bound() {
    for bound in [1usize, 3, 8] {
        let mut s = Scheduler::new(20, bound);
        let mut next_expected = 0;
        let mut peak = 0;
        let mut round = 0;
        while !s.is_done() {
            while let Some(i) = s.try_launch() {
                assert_eq!(i, next_expected);
                next_expected += 1;
                assert!(s.in_flight() <= bound);
                peak = peak.max(s.in_flight());
            }
            let finishing = if round % 2 == 0 { 1 } else { s.in_flight() };
            for _ in 0..finishing {
                s.complete();
            }
            round += 1;
        }
        assert_eq!(next_expected, 20);
        assert_eq!(peak, bound);
    }
}

#[test]
fn versions_sorted_and_deduplicated() {
    let re = version_tag_regex().unwrap();
    let zeros = "0".repeat(40);
    let ones = "1".repeat(40);
    let body = format!("app.one:{ones} app.one:{zeros} app.one:{ones}");
    let got = collect_versions(body.as_bytes(), &re);
    assert_eq!(got, vec![zeros.as_bytes().to_vec(), ones.as_bytes().to_vec()]);
    let short = collect_versions(b"app.one:abc", &re);
    assert!(short.is_empty());
}

#[test]
fn lookup_versions_error_entry() {
    let re = version_tag_regex().unwrap();
    assert_eq!(lookup_versions(403, b"", &re), VersionEntry::InvalidResponse);
    assert_eq!(lookup_versions(200, b"", &re), VersionEntry::Versions(vec![]));
}

#[test]
fn plain_report_for_bad_lookup() {
    let (out, err) = plain_report(b"app.one", &VersionEntry::InvalidResponse);
    assert!(out.is_empty());
    assert_eq!(
        String::from_utf8(err).unwrap(),
        "| Invalid app response for app.one. Skipping..."
    );
}

#[test]
fn plain_report_lists_versions() {
    let entry = VersionEntry::Versions(vec![b"a".to_vec(), b"b".to_vec()]);
    let (out, err) = plain_report(b"x", &entry);
    assert!(err.is_empty());
    assert_eq!(String::from_utf8(out).unwrap(), "| a, b");
    let (empty, _) = plain_report(b"x", &VersionEntry::Versions(vec![]));
    assert_eq!(String::from_utf8(empty).unwrap(), "| ");
}

#[test]
fn lexicographic_order() {
    assert!(lex_less(b"ab", b"b"));
    assert!(lex_less(b"a", b"ab"));
    assert!(!lex_less(b"ab", b"ab"));
    assert!(!lex_less(b"b", b"ab"));
    assert!(lex_less(b"", b"a"));
}

#[test]
fn set_insert_and_sort() {
    let mut set = vec![b"b".to_vec()];
    insert_sorted(&mut set, b"a".to_vec());
    insert_sorted(&mut set, b"c".to_vec());
    insert_sorted(&mut set, b"b".to_vec());
    assert_eq!(set, vec![b"a".to_vec(), b"b".to_vec(), b"c".to_vec()]);
}

fn json_for(bodies: &[(&str, u16, String)]) -> String {
    let re = version_tag_regex().unwrap();
    let entries = bodies
        .iter()
        .map(|(id, status, body)| (id.as_bytes().to_vec(), lookup_versions(*status, body.as_bytes(), &re)))
        .collect::<Vec<_>>();
    String::from_utf8(json_report(&entries)).unwrap()
}

#[test]
fn json_report_two_versions() {
    let zeros = "0".repeat(40);
    let ones = "1".repeat(40);
    let body = format!("app.one:{zeros} app.one:{ones}");
    assert_eq!(
        json_for(&[("app.one", 200, body)]),
        format!(
            "{{\"source\":\"APKPure\",\"apps\":{{\"app.one\":{{\"available_versions\":[{{\"version\":\"{zeros}\"}},{{\"version\":\"{ones}\"}}]}}}}}}"
        )
    );
}

#[test]
fn json_report_sorted_without_duplicates() {
    let zeros = "0".repeat(40);
    let ones = "1".repeat(40);
    let body = format!("app.one:{ones} app.one:{zeros} app.one:{ones}");
    assert_eq!(
        json_for(&[("app.one", 200, body)]),
        format!(
            "{{\"source\":\"APKPure\",\"apps\":{{\"app.one\":{{\"available_versions\":[{{\"version\":\"{zeros}\"}},{{\"version\":\"{ones}\"}}]}}}}}}"
        )
    );
}

#[test]
fn json_report_error_and_escaping() {
    let doc = json_for(&[("a\"b", 500, String::new()), ("c", 200, String::new())]);
    assert_eq!(
        doc,
        "{\"source\":\"APKPure\",\"apps\":{\"a\\\"b\":{\"error\":\"Invalid app response.\"},\"c\":{\"available_versions\":[]}}}"
    );
    assert_eq!(json_for(&[]), "{\"source\":\"APKPure\",\"apps\":{}}");
}

#[test]
fn entry_object_for_versions() {
    let e = VersionEntry::Versions(vec![b"1".to_vec()]);
    assert_eq!(
        String::from_utf8(entry_to_json(&e)).unwrap(),
        "{\"available_versions\":[{\"version\":\"1\"}]}"
    );
}

#[test]
fn record_replaces_same_id() {
    let mut report = Vec::new();
    record(&mut report, b"a".to_vec(), VersionEntry::InvalidResponse);
    record(&mut report, b"b".to_vec(), VersionEntry::InvalidResponse);
    record(&mut report, b"a".to_vec(), VersionEntry::Versions(vec![b"1".to_vec()]));
    assert_eq!(
        report,
        vec![
            (b"a".to_vec(), VersionEntry::Versions(vec![b"1".to_vec()])),
            (b"b".to_vec(), VersionEntry::InvalidResponse),
        ]
    );
    assert!(same_bytes(b"ab", b"ab"));
    assert!(!same_bytes(b"ab", b"abc"));
    assert!(!same_bytes(b"ab", b"ac"));
}
