//! The per-item download run as a state machine: the caller performs each
//! action and hands back what came of it as the next event.
use vstd::prelude::*;
use crate::extract::{PayloadKind, STATUS_OK};

verus! {

/// Transfers tried for one item before it is given up: the first and two retries.
pub const MAX_ATTEMPTS: u8 = 3;

#[derive(PartialEq, Eq, Structural, Clone, Copy, Debug)]
pub enum SkipReason {
    InvalidResponse,
    NoDownloadUrl,
    AlreadyExists,
    PermissionDenied,
}

/// Terminal state of one item.
#[derive(PartialEq, Eq, Structural, Clone, Copy, Debug)]
pub enum DownloadOutcome {
    Success,
    Skipped(SkipReason),
    Failed,
}

#[derive(PartialEq, Eq, Structural, Clone, Copy, Debug)]
pub enum RunState {
    Waiting,
    LookingUp,
    Extracting,
    /// A transfer is under way; the field counts the attempts so far.
    Downloading(u8),
    Finished(DownloadOutcome),
}

/// What one streaming transfer came to.
#[derive(PartialEq, Eq, Structural, Clone, Copy, Debug)]
pub enum TransferResult {
    Completed,
    FileExists,
    PermissionDenied,
    Fault,
}

#[derive(PartialEq, Eq, Structural, Clone, Copy, Debug)]
pub enum RunEvent {
    Begin,
    LookupDone(u16),
    Extracted(bool),
    TransferDone(TransferResult),
}

#[derive(PartialEq, Eq, Structural, Clone, Copy, Debug)]
pub enum RunAction {
    /// Wait this many milliseconds (none when zero), then send the lookup.
    Lookup(u64),
    /// Scan the lookup body.
    Extract,
    /// Start the transfer from scratch; the field numbers the attempt.
    Transfer(u8),
    /// Log the terminal outcome once.
    Report(DownloadOutcome),
    /// The event does not apply to the state.
    Ignore,
}

pub open spec fn finish(o: DownloadOutcome) -> (RunState, RunAction) {
    (RunState::Finished(o), RunAction::Report(o))
}

/// The transition table of a run.
pub open spec fn next(s: RunState, e: RunEvent, delay_ms: u64) -> (RunState, RunAction) {
    match (s, e) {
        (RunState::Waiting, RunEvent::Begin) => (RunState::LookingUp, RunAction::Lookup(delay_ms)),
        (RunState::LookingUp, RunEvent::LookupDone(status)) => if status == STATUS_OK {
            (RunState::Extracting, RunAction::Extract)
        } else {
            finish(DownloadOutcome::Skipped(SkipReason::InvalidResponse))
        },
        (RunState::Extracting, RunEvent::Extracted(found)) => if found {
            (RunState::Downloading(1), RunAction::Transfer(1))
        } else {
            finish(DownloadOutcome::Skipped(SkipReason::NoDownloadUrl))
        },
        (RunState::Downloading(n), RunEvent::TransferDone(t)) => match t {
            TransferResult::Completed => finish(DownloadOutcome::Success),
            TransferResult::FileExists => finish(DownloadOutcome::Skipped(SkipReason::AlreadyExists)),
            TransferResult::PermissionDenied => finish(
                DownloadOutcome::Skipped(SkipReason::PermissionDenied),
            ),
            TransferResult::Fault => if n < MAX_ATTEMPTS {
                (RunState::Downloading((n + 1) as u8), RunAction::Transfer((n + 1) as u8))
            } else {
                finish(DownloadOutcome::Failed)
            },
        },
        _ => (s, RunAction::Ignore),
    }
}

/// A state that the run can be in: attempts are counted from one up to the limit.
pub open spec fn state_ok(s: RunState) -> bool {
    s is Downloading ==> 1 <= s->Downloading_0 <= MAX_ATTEMPTS
}

/// One step of a run.
pub fn step(s: RunState, e: RunEvent, delay_ms: u64) -> (r: (RunState, RunAction))
    requires
        state_ok(s),
    ensures
        r == next(s, e, delay_ms),
        state_ok(r.0),
{
    match (s, e) {
        (RunState::Waiting, RunEvent::Begin) => (RunState::LookingUp, RunAction::Lookup(delay_ms)),
        (RunState::LookingUp, RunEvent::LookupDone(status)) => {
            if status == STATUS_OK {
                (RunState::Extracting, RunAction::Extract)
            } else {
                let o = DownloadOutcome::Skipped(SkipReason::InvalidResponse);
                (RunState::Finished(o), RunAction::Report(o))
            }
        },
        (RunState::Extracting, RunEvent::Extracted(found)) => {
            if found {
                (RunState::Downloading(1), RunAction::Transfer(1))
            } else {
                let o = DownloadOutcome::Skipped(SkipReason::NoDownloadUrl);
                (RunState::Finished(o), RunAction::Report(o))
            }
        },
        (RunState::Downloading(n), RunEvent::TransferDone(t)) => {
            let o = match t {
                TransferResult::Completed => DownloadOutcome::Success,
                TransferResult::FileExists => DownloadOutcome::Skipped(SkipReason::AlreadyExists),
                TransferResult::PermissionDenied => DownloadOutcome::Skipped(
                    SkipReason::PermissionDenied,
                ),
                TransferResult::Fault => {
                    if n < MAX_ATTEMPTS {
                        return (RunState::Downloading(n + 1), RunAction::Transfer(n + 1));
                    }
                    DownloadOutcome::Failed
                },
            };
            (RunState::Finished(o), RunAction::Report(o))
        },
        _ => (s, RunAction::Ignore),
    }
}

/// Final state of a run fed `events` in order, and how many transfers it started.
pub open spec fn run(s: RunState, events: Seq<RunEvent>, delay_ms: u64) -> (RunState, nat)
    decreases events.len(),
{
    if events.len() == 0 {
        (s, 0)
    } else {
        let (s1, a) = next(s, events[0], delay_ms);
        let (s2, k) = run(s1, events.drop_first(), delay_ms);
        (s2, if a is Transfer { k + 1 } else { k })
    }
}

/// A lookup answered with any status but OK ends the run skipped: nothing is
/// scanned and no transfer starts.
pub proof fn lemma_bad_status_skips(status: u16, delay_ms: u64)
    requires
        status != STATUS_OK,
    ensures
        next(RunState::LookingUp, RunEvent::LookupDone(status), delay_ms) == finish(
            DownloadOutcome::Skipped(SkipReason::InvalidResponse),
        ),
        run(RunState::LookingUp, seq![RunEvent::LookupDone(status)], delay_ms) == (
        RunState::Finished(DownloadOutcome::Skipped(SkipReason::InvalidResponse)),
        0nat),
{
    let e = seq![RunEvent::LookupDone(status)];
    assert(e.drop_first() =~= Seq::<RunEvent>::empty());
    reveal_with_fuel(run, 2);
}

/// A transfer that finds its destination already there ends the run skipped,
/// on any attempt, and no further transfer starts.
pub proof fn lemma_existing_file_skips(attempt: u8, delay_ms: u64)
    requires
        1 <= attempt <= MAX_ATTEMPTS,
    ensures
        next(RunState::Downloading(attempt), RunEvent::TransferDone(TransferResult::FileExists), delay_ms)
            == finish(DownloadOutcome::Skipped(SkipReason::AlreadyExists)),
{
}

/// Once a run has finished, no event moves it or starts anything.
pub proof fn lemma_finished_is_terminal(o: DownloadOutcome, e: RunEvent, delay_ms: u64)
    ensures
        next(RunState::Finished(o), e, delay_ms) == (RunState::Finished(o), RunAction::Ignore),
{
}

/// A found entry followed by three faulty transfers fails the run after
/// exactly three transfers; after two faults the run is still on its third.
pub proof fn lemma_three_faults_fail(delay_ms: u64)
    ensures
        run(
            RunState::Extracting,
            seq![
                RunEvent::Extracted(true),
                RunEvent::TransferDone(TransferResult::Fault),
                RunEvent::TransferDone(TransferResult::Fault),
                RunEvent::TransferDone(TransferResult::Fault),
            ],
            delay_ms,
        ) == (RunState::Finished(DownloadOutcome::Failed), 3nat),
        run(
            RunState::Extracting,
            seq![
                RunEvent::Extracted(true),
                RunEvent::TransferDone(TransferResult::Fault),
                RunEvent::TransferDone(TransferResult::Fault),
            ],
            delay_ms,
        ) == (RunState::Downloading(3), 3nat),
{
    let f = RunEvent::TransferDone(TransferResult::Fault);
    let e4 = seq![RunEvent::Extracted(true), f, f, f];
    let e3 = seq![RunEvent::Extracted(true), f, f];
    assert(e4.drop_first() =~= seq![f, f, f]);
    assert(seq![f, f, f].drop_first() =~= seq![f, f]);
    assert(seq![f, f].drop_first() =~= seq![f]);
    assert(seq![f].drop_first() =~= Seq::<RunEvent>::empty());
    assert(e3.drop_first() =~= seq![f, f]);
    reveal_with_fuel(run, 5);
}

/// `.xapk` for an archive, `.apk` for a package.
pub open spec fn extension(k: PayloadKind) -> Seq<u8> {
    match k {
        PayloadKind::Archive => seq![46u8, 120u8, 97u8, 112u8, 107u8],
        PayloadKind::Package => seq![46u8, 97u8, 112u8, 107u8],
    }
}

/// The name an item is saved under: its id, `@` and the pinned version if
/// there is one, then the extension of its payload kind.
pub open spec fn file_name_of(item: Seq<u8>, version: Option<Seq<u8>>, k: PayloadKind) -> Seq<u8> {
    match version {
        None => item + extension(k),
        Some(v) => item + seq![64u8] + v + extension(k),
    }
}

/// Appends the bytes of `src` to `out`.
pub fn append(out: &mut Vec<u8>, src: &[u8])
    ensures
        final(out)@ == old(out)@ + src@,
{
    let mut i: usize = 0;
    while i < src.len()
        invariant
            i <= src@.len(),
            out@ == old(out)@ + src@.subrange(0, i as int),
        decreases src@.len() - i,
    {
        out.push(src[i]);
        i = i + 1;
        assert(out@ =~= old(out)@ + src@.subrange(0, i as int));
    }
    assert(src@.subrange(0, src@.len() as int) =~= src@);
}

/// Destination file name for an item.
pub fn file_name(item: &[u8], version: &Option<Vec<u8>>, kind: PayloadKind) -> (r: Vec<u8>)
    ensures
        r@ == file_name_of(
            item@,
            match version {
                None => None,
                Some(v) => Some(v@),
            },
            kind,
        ),
{
    let mut r: Vec<u8> = Vec::new();
    append(&mut r, item);
    assert(r@ =~= item@);
    match version {
        None => {},
        Some(v) => {
            r.push(64u8);
            append(&mut r, v.as_slice());
        },
    }
    match kind {
        PayloadKind::Archive => {
            r.push(46u8);
            r.push(120u8);
        },
        PayloadKind::Package => {
            r.push(46u8);
        },
    }
    r.push(97u8);
    r.push(112u8);
    r.push(107u8);
    match version {
        None => {
            assert(r@ =~= item@ + extension(kind));
        },
        Some(v) => {
            assert(r@ =~= item@ + seq![64u8] + v@ + extension(kind));
        },
    }
    r
}

} // verus!
