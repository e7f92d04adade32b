//! The execution poller: the decision logic of a caller that reads an
//! execution record again and again until it is done or a deadline has
//! elapsed.
//!
//! The caller reads the record once right away and then once per poll
//! interval. A done record must carry a non-empty result — an empty one
//! is a fatal inconsistency, not a success. Every status other than done
//! is waited out uniformly until the deadline passes; the reads and the
//! sleeps between them stay with the caller.

use vstd::prelude::*;

use crate::wire;

verus! {

/// The lifecycle status of an execution record. The external system
/// drives every transition; this process only reads it.
#[derive(Clone, Copy, PartialEq, Eq, Structural, Debug)]
pub enum ExecutionStatus {
    Pending,
    Running,
    Done,
    Failed,
    /// Any further domain status; the poller treats it like the other
    /// non-terminal ones.
    Other,
}

/// An execution record as the query port reports it.
pub struct ExecutionRecord {
    pub status: ExecutionStatus,
    pub result_text: Option<String>,
}

/// The mathematical content of an execution record.
#[verifier::ext_equal]
pub struct RecordView {
    pub status: ExecutionStatus,
    pub result_text: Option<Seq<char>>,
}

impl View for ExecutionRecord {
    type V = RecordView;

    open spec fn view(&self) -> RecordView {
        RecordView {
            status: self.status,
            result_text: match self.result_text {
                Some(s) => Some(s@),
                None => None,
            },
        }
    }
}

impl Clone for ExecutionRecord {
    fn clone(&self) -> (r: Self)
        ensures
            r@ == self@,
    {
        ExecutionRecord {
            status: self.status,
            result_text: match &self.result_text {
                Some(s) => Some(s.clone()),
                None => None,
            },
        }
    }
}

/// Whether a record carries a non-empty result.
pub open spec fn has_nonempty_result(r: RecordView) -> bool {
    match r.result_text {
        Some(s) => s.len() > 0,
        None => false,
    }
}

/// The result a record carries, the empty text when it carries none.
pub open spec fn record_result(r: RecordView) -> Seq<char> {
    match r.result_text {
        Some(s) => s,
        None => Seq::empty(),
    }
}

/// The status enum a wire status string stands for; the terminal success
/// status is `SUCCESS` on the wire.
pub open spec fn status_of(s: Seq<char>) -> ExecutionStatus {
    if s == "SUCCESS"@ {
        ExecutionStatus::Done
    } else if s == "PENDING"@ {
        ExecutionStatus::Pending
    } else if s == "RUNNING"@ {
        ExecutionStatus::Running
    } else if s == "FAILED"@ {
        ExecutionStatus::Failed
    } else {
        ExecutionStatus::Other
    }
}

/// What decoding the queried execution object yields: its `status` string
/// is required, its `cluster_response` is kept when it is a string.
pub open spec fn record_spec(doc: Seq<u8>) -> Option<RecordView> {
    match wire::str_field_of(doc, "status"@) {
        None => None,
        Some(st) => Some(
            RecordView { status: status_of(st), result_text: wire::str_field_of(
                doc,
                "cluster_response"@,
            ) },
        ),
    }
}

/// Decodes the queried execution object's fields into a record.
pub fn decode_record(doc: &[u8]) -> (r: Option<ExecutionRecord>)
    ensures
        match (r, record_spec(doc@)) {
            (Some(a), Some(b)) => a@ == b,
            (None, None) => true,
            _ => false,
        },
{
    let status_str = match wire::json_str_field(doc, "status") {
        Some(s) => s,
        None => {
            return None;
        },
    };
    let status = if status_str == "SUCCESS".to_owned() {
        ExecutionStatus::Done
    } else if status_str == "PENDING".to_owned() {
        ExecutionStatus::Pending
    } else if status_str == "RUNNING".to_owned() {
        ExecutionStatus::Running
    } else if status_str == "FAILED".to_owned() {
        ExecutionStatus::Failed
    } else {
        ExecutionStatus::Other
    };
    let result_text = wire::json_str_field(doc, "cluster_response");
    Some(ExecutionRecord { status, result_text })
}

/// What the poller decides on one observation.
pub enum PollStep {
    /// The record is done and carries this non-empty result.
    Complete { result_text: String },
    /// The record is done but its result is empty: a fatal inconsistency.
    IncompleteResult,
    /// The deadline has passed; the snapshot is kept for diagnostics.
    TimedOut { snapshot: ExecutionRecord },
    /// Nothing terminal yet: sleep one interval and read again.
    KeepWaiting,
}

/// Decides one observation of the execution record: done first, whatever
/// the clock says; only a record that is not done is measured against the
/// deadline.
pub fn poll_step(record: ExecutionRecord, elapsed: u64, deadline: u64) -> (r: PollStep)
    ensures
        record@.status is Done && has_nonempty_result(record@) ==> (r matches PollStep::Complete {
            result_text,
        } && result_text@ == record_result(record@)),
        record@.status is Done && !has_nonempty_result(record@) ==> r is IncompleteResult,
        !(record@.status is Done) && elapsed > deadline ==> (r matches PollStep::TimedOut {
            snapshot,
        } && snapshot@ == record@),
        !(record@.status is Done) && elapsed <= deadline ==> r is KeepWaiting,
{
    if record.status == ExecutionStatus::Done {
        match record.result_text {
            Some(result_text) => {
                if result_text.as_str().is_empty() {
                    PollStep::IncompleteResult
                } else {
                    PollStep::Complete { result_text }
                }
            },
            None => PollStep::IncompleteResult,
        }
    } else if elapsed > deadline {
        PollStep::TimedOut { snapshot: record }
    } else {
        PollStep::KeepWaiting
    }
}

/// The poller's outcome, at the specification level.
pub enum PollVerdict {
    Success(Seq<char>),
    IncompleteResult,
    Timeout(RecordView),
    ObservationsEnded,
}

/// `a + b`, held at the largest representable value.
pub open spec fn sat_add(a: u64, b: u64) -> u64 {
    if a + b > u64::MAX {
        u64::MAX
    } else {
        (a + b) as u64
    }
}

/// What the poll loop decides over a sequence of observations, the first
/// one read when `elapsed` time had passed and each further one an
/// interval later.
pub open spec fn wait_spec(obs: Seq<RecordView>, elapsed: u64, interval: u64, deadline: u64) -> PollVerdict
    decreases obs.len(),
{
    if obs.len() == 0 {
        PollVerdict::ObservationsEnded
    } else {
        let r = obs[0];
        if r.status is Done {
            if has_nonempty_result(r) {
                PollVerdict::Success(record_result(r))
            } else {
                PollVerdict::IncompleteResult
            }
        } else if elapsed > deadline {
            PollVerdict::Timeout(r)
        } else {
            wait_spec(obs.drop_first(), sat_add(elapsed, interval), interval, deadline)
        }
    }
}

/// The poller's outcome as reported to the caller.
pub enum PollOutcome {
    /// The record reached its terminal status with this result.
    Success { result_text: String },
    /// The record was done but its result was empty.
    IncompleteResult,
    /// The deadline elapsed first; the last snapshot for diagnostics.
    Timeout { snapshot: ExecutionRecord },
    /// Every observation was read and none decided; a live loop, which
    /// reads for as long as it takes, never reports this.
    ObservationsEnded,
}

impl View for PollOutcome {
    type V = PollVerdict;

    open spec fn view(&self) -> PollVerdict {
        match self {
            PollOutcome::Success { result_text } => PollVerdict::Success(result_text@),
            PollOutcome::IncompleteResult => PollVerdict::IncompleteResult,
            PollOutcome::Timeout { snapshot } => PollVerdict::Timeout(snapshot@),
            PollOutcome::ObservationsEnded => PollVerdict::ObservationsEnded,
        }
    }
}

/// The views of a sequence of execution records.
pub open spec fn records_view(records: Seq<ExecutionRecord>) -> Seq<RecordView> {
    Seq::new(records.len(), |i: int| records[i]@)
}

/// Drives the poll decision over a sequence of observations: the record
/// as read once per interval, the first read right away.
pub fn wait_until_terminal(observations: &Vec<ExecutionRecord>, poll_interval: u64, deadline: u64) -> (r: PollOutcome)
    ensures
        r@ == wait_spec(records_view(observations@), 0, poll_interval, deadline),
{
    let ghost all = records_view(observations@);
    proof {
        assert(all.skip(0) =~= all);
    }
    let mut elapsed: u64 = 0;
    let mut i: usize = 0;
    while i < observations.len()
        invariant
            0 <= i <= observations.len(),
            all == records_view(observations@),
            wait_spec(all, 0, poll_interval, deadline) == wait_spec(
                all.skip(i as int),
                elapsed,
                poll_interval,
                deadline,
            ),
        decreases observations.len() - i,
    {
        proof {
            assert(all.skip(i as int)[0] == observations@[i as int]@);
            assert(all.skip(i as int).drop_first() =~= all.skip(i as int + 1));
        }
        let record = observations[i].clone();
        match poll_step(record, elapsed, deadline) {
            PollStep::Complete { result_text } => {
                return PollOutcome::Success { result_text };
            },
            PollStep::IncompleteResult => {
                return PollOutcome::IncompleteResult;
            },
            PollStep::TimedOut { snapshot } => {
                return PollOutcome::Timeout { snapshot };
            },
            PollStep::KeepWaiting => {
                elapsed = if poll_interval > u64::MAX - elapsed {
                    u64::MAX
                } else {
                    elapsed + poll_interval
                };
                i += 1;
            },
        }
    }
    proof {
        assert(all.skip(observations@.len() as int) =~= Seq::<RecordView>::empty());
    }
    PollOutcome::ObservationsEnded
}

/// The time at which the observation `k` steps after one made at
/// `elapsed` is read.
pub open spec fn elapsed_at(elapsed: u64, interval: u64, k: int) -> u64
    decreases k,
{
    if k <= 0 {
        elapsed
    } else {
        sat_add(elapsed_at(elapsed, interval, k - 1), interval)
    }
}

proof fn lemma_elapsed_shift(elapsed: u64, interval: u64, k: int)
    requires
        k >= 0,
    ensures
        elapsed_at(sat_add(elapsed, interval), interval, k) == elapsed_at(elapsed, interval, k + 1),
    decreases k,
{
    if k == 0 {
        assert(elapsed_at(elapsed, interval, 0) == elapsed);
        assert(elapsed_at(elapsed, interval, 1) == sat_add(elapsed, interval));
    } else {
        lemma_elapsed_shift(elapsed, interval, k - 1);
    }
}

/// A record that turns done, with a non-empty result, before any earlier
/// observation has outlived the deadline, makes the poller succeed with
/// exactly that result.
pub proof fn lemma_poller_success(
    obs: Seq<RecordView>,
    elapsed: u64,
    interval: u64,
    deadline: u64,
    j: int,
)
    requires
        0 <= j < obs.len(),
        obs[j].status is Done,
        has_nonempty_result(obs[j]),
        forall|k: int| 0 <= k < j ==> !(obs[k].status is Done),
        forall|k: int| 0 <= k < j ==> elapsed_at(elapsed, interval, k) <= deadline,
    ensures
        wait_spec(obs, elapsed, interval, deadline) == PollVerdict::Success(record_result(obs[j])),
    decreases j,
{
    if j > 0 {
        assert(!(obs[0].status is Done));
        assert(elapsed_at(elapsed, interval, 0) == elapsed);
        let d = obs.drop_first();
        let e2 = sat_add(elapsed, interval);
        assert(d[j - 1] == obs[j]);
        assert forall|k: int| 0 <= k < j - 1 implies !(d[k].status is Done) && elapsed_at(
            e2,
            interval,
            k,
        ) <= deadline by {
            assert(d[k] == obs[k + 1]);
            lemma_elapsed_shift(elapsed, interval, k);
        }
        lemma_poller_success(d, e2, interval, deadline, j - 1);
    }
}

/// A record that turns done with an empty result, before any earlier
/// observation has outlived the deadline, makes the poller report the
/// incomplete result, not a success.
pub proof fn lemma_poller_incomplete(
    obs: Seq<RecordView>,
    elapsed: u64,
    interval: u64,
    deadline: u64,
    j: int,
)
    requires
        0 <= j < obs.len(),
        obs[j].status is Done,
        !has_nonempty_result(obs[j]),
        forall|k: int| 0 <= k < j ==> !(obs[k].status is Done),
        forall|k: int| 0 <= k < j ==> elapsed_at(elapsed, interval, k) <= deadline,
    ensures
        wait_spec(obs, elapsed, interval, deadline) == PollVerdict::IncompleteResult,
    decreases j,
{
    if j > 0 {
        assert(!(obs[0].status is Done));
        assert(elapsed_at(elapsed, interval, 0) == elapsed);
        let d = obs.drop_first();
        let e2 = sat_add(elapsed, interval);
        assert(d[j - 1] == obs[j]);
        assert forall|k: int| 0 <= k < j - 1 implies !(d[k].status is Done) && elapsed_at(
            e2,
            interval,
            k,
        ) <= deadline by {
            assert(d[k] == obs[k + 1]);
            lemma_elapsed_shift(elapsed, interval, k);
        }
        lemma_poller_incomplete(d, e2, interval, deadline, j - 1);
    }
}

/// A record that is never observed done makes the poller time out at the
/// first observation past the deadline, with that snapshot.
pub proof fn lemma_poller_timeout(
    obs: Seq<RecordView>,
    elapsed: u64,
    interval: u64,
    deadline: u64,
    j: int,
)
    requires
        0 <= j < obs.len(),
        forall|k: int| 0 <= k <= j ==> !(obs[k].status is Done),
        elapsed_at(elapsed, interval, j) > deadline,
        forall|k: int| 0 <= k < j ==> elapsed_at(elapsed, interval, k) <= deadline,
    ensures
        wait_spec(obs, elapsed, interval, deadline) == PollVerdict::Timeout(obs[j]),
    decreases j,
{
    if j > 0 {
        assert(!(obs[0].status is Done));
        assert(elapsed_at(elapsed, interval, 0) == elapsed);
        let d = obs.drop_first();
        let e2 = sat_add(elapsed, interval);
        assert(d[j - 1] == obs[j]);
        lemma_elapsed_shift(elapsed, interval, j - 1);
        assert forall|k: int| 0 <= k <= j - 1 implies !(d[k].status is Done) by {
            assert(d[k] == obs[k + 1]);
        }
        assert forall|k: int| 0 <= k < j - 1 implies elapsed_at(e2, interval, k) <= deadline by {
            lemma_elapsed_shift(elapsed, interval, k);
        }
        lemma_poller_timeout(d, e2, interval, deadline, j - 1);
    }
}

} // verus!
