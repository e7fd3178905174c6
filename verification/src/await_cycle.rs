//! Waiting for a replication cycle: the decisions of the waiting loop.
//!
//! The caller reads the worker's state, the watermarks and the remote status,
//! and sleeps between polls; these functions decide what each reading means.
use vstd::prelude::*;
use vstd::string::StrSliceExecFns;
use vstd::string::StringExecFns;

use crate::cargo_flow::{search_filter, spec_search_filter};
use crate::enums::{SyncDirection, WorkerState};
use crate::flat_rows::opt_text;
use crate::sync_helpers::{csv_of, join_uuid_csv};

verus! {

/// A reading of the sync worker's status.
#[derive(Debug, Clone, Copy)]
pub struct WorkerSnapshot {
    pub cycles: u64,
    pub ticks: u64,
    pub state: WorkerState,
    /// Time of the last completed sync, in nanoseconds since the Unix epoch.
    pub last_sync_at: Option<i128>,
}

/// A watermark that must reach a given audit log id.
#[derive(Debug, Clone, Copy, PartialEq, Eq, Structural)]
pub struct PendingFence {
    pub target_node_id: u128,
    pub target_audit_log_id: u128,
}

/// The fences a peripheral node waits for.
#[derive(Debug, Clone, Copy, PartialEq, Eq, Structural)]
pub struct PendingReplicationTargets {
    pub pull: Option<PendingFence>,
    pub push: Option<PendingFence>,
}

/// A stored replication watermark.
#[derive(Debug, Clone)]
pub struct SyncWatermark {
    pub target_node_id: u128,
    pub direction: SyncDirection,
    pub last_audit_log_id: u128,
    pub base_discriminant: String,
}

/// How a wait ended.
#[derive(Debug, Clone, Copy)]
pub enum AwaitCycleOutcome {
    Sleeping(WorkerSnapshot),
    SatisfiedImmediately(WorkerSnapshot),
    SatisfiedAfterFence(WorkerSnapshot),
    SatisfiedAfterCycle(WorkerSnapshot),
    SatisfiedAfterSince(WorkerSnapshot),
    SatisfiedAfterIdleProbe(WorkerSnapshot),
    TimedOut(WorkerSnapshot),
}

/// What the caller is told about a wait.
#[derive(Debug, Clone, Copy)]
pub struct AwaitCycleResponse {
    pub worker_state: WorkerState,
    /// In nanoseconds since the Unix epoch.
    pub last_sync_at: Option<i128>,
    pub completed: bool,
}

/// The next step after the first reading.
#[derive(Debug, Clone, Copy)]
pub enum AwaitCycleStart {
    /// The wait ends at once.
    Finished(AwaitCycleOutcome),
    /// Poll until the fences are reached.
    WaitForFences(PendingReplicationTargets),
    /// Poll until the worker makes progress.
    WaitForProgress,
}

pub open spec fn spec_has_pending_work(t: PendingReplicationTargets) -> bool {
    t.pull is Some || t.push is Some
}

/// Some fence is still to be reached.
pub fn has_pending_work(targets: PendingReplicationTargets) -> (res: bool)
    ensures
        res == spec_has_pending_work(targets),
{
    targets.pull.is_some() || targets.push.is_some()
}

pub open spec fn spec_since_satisfied(snapshot: WorkerSnapshot, since: Option<i128>) -> bool {
    match (since, snapshot.last_sync_at) {
        (Some(since_ts), Some(last_sync)) => last_sync >= since_ts,
        _ => false,
    }
}

/// The worker synced at or after the requested time.
pub fn since_satisfied(snapshot: WorkerSnapshot, since: Option<i128>) -> (res: bool)
    ensures
        res == spec_since_satisfied(snapshot, since),
{
    match (since, snapshot.last_sync_at) {
        (Some(since_ts), Some(last_sync)) => last_sync >= since_ts,
        _ => false,
    }
}

/// Index of the first watermark of the node and direction, if any.
pub open spec fn first_watermark(watermarks: Seq<SyncWatermark>, node: u128, direction: SyncDirection) -> Option<int>
    decreases watermarks.len(),
{
    if watermarks.len() == 0 {
        None
    } else {
        match first_watermark(watermarks.drop_last(), node, direction) {
            Some(i) => Some(i),
            None => if watermarks.last().target_node_id == node && watermarks.last().direction == direction {
                Some(watermarks.len() - 1)
            } else {
                None
            },
        }
    }
}

proof fn lemma_first_watermark(watermarks: Seq<SyncWatermark>, node: u128, direction: SyncDirection)
    ensures
        match first_watermark(watermarks, node, direction) {
            Some(i) => 0 <= i < watermarks.len() && watermarks[i].target_node_id == node
                && watermarks[i].direction == direction && forall|j: int|
                0 <= j < i ==> !((#[trigger] watermarks[j]).target_node_id == node && watermarks[j].direction
                    == direction),
            None => forall|j: int|
                0 <= j < watermarks.len() ==> !((#[trigger] watermarks[j]).target_node_id == node
                    && watermarks[j].direction == direction),
        },
    decreases watermarks.len(),
{
    if watermarks.len() > 0 {
        let rest = watermarks.drop_last();
        lemma_first_watermark(rest, node, direction);
        assert forall|j: int| 0 <= j < rest.len() implies #[trigger] rest[j] == watermarks[j] by {}
        assert(watermarks.last() == watermarks[watermarks.len() - 1]);
        match first_watermark(rest, node, direction) {
            Some(i) => {
                assert(rest[i] == watermarks[i]);
                assert forall|j: int| 0 <= j < i implies !((#[trigger] watermarks[j]).target_node_id == node
                    && watermarks[j].direction == direction) by {
                    assert(rest[j] == watermarks[j]);
                }
            },
            None => {
                assert forall|j: int| 0 <= j < watermarks.len() - 1 implies !((#[trigger] watermarks[j]).target_node_id == node
                    && watermarks[j].direction == direction) by {
                    assert(rest[j] == watermarks[j]);
                }
            },
        }
    }
}

/// The cursor and discriminant stored for a node and direction: those of the
/// first matching watermark, or the nil id and the empty text when none.
pub fn watermark_for(watermarks: &Vec<SyncWatermark>, target_node_id: u128, direction: SyncDirection) -> (res: (
    u128,
    String,
))
    ensures
        match first_watermark(watermarks@, target_node_id, direction) {
            Some(i) => res.0 == watermarks@[i].last_audit_log_id && res.1@ == watermarks@[i].base_discriminant@,
            None => res.0 == 0 && res.1@ == Seq::<char>::empty(),
        },
{
    proof {
        lemma_first_watermark(watermarks@, target_node_id, direction);
    }
    let mut i: usize = 0;
    while i < watermarks.len()
        invariant
            i <= watermarks.len(),
            forall|j: int|
                0 <= j < i ==> !((#[trigger] watermarks@[j]).target_node_id == target_node_id
                    && watermarks@[j].direction == direction),
        decreases watermarks.len() - i,
    {
        if watermarks[i].target_node_id == target_node_id && watermarks[i].direction == direction {
            proof {
                lemma_first_watermark(watermarks@, target_node_id, direction);
                match first_watermark(watermarks@, target_node_id, direction) {
                    Some(k) => {
                        if k < i {
                            assert(!(watermarks@[k].target_node_id == target_node_id
                                && watermarks@[k].direction == direction));
                        } else if k > i {
                            assert(!(watermarks@[i as int].target_node_id == target_node_id
                                && watermarks@[i as int].direction == direction));
                        }
                    },
                    None => {
                        assert(!(watermarks@[i as int].target_node_id == target_node_id
                            && watermarks@[i as int].direction == direction));
                    },
                }
            }
            return (watermarks[i].last_audit_log_id, watermarks[i].base_discriminant.clone());
        }
        i = i + 1;
    }
    proof {
        lemma_first_watermark(watermarks@, target_node_id, direction);
        if let Some(k) = first_watermark(watermarks@, target_node_id, direction) {
            assert(!(watermarks@[k].target_node_id == target_node_id && watermarks@[k].direction == direction));
        }
    }
    (0, String::new())
}

/// The watermarks after recording `last_audit_log_id` and `base_discriminant`
/// for a node and direction: the first watermark of that node and direction
/// takes the new values, or a new watermark is added when there is none.
pub open spec fn spec_upsert_watermark(
    watermarks: Seq<SyncWatermark>,
    target_node_id: u128,
    direction: SyncDirection,
    last_audit_log_id: u128,
    base_discriminant: String,
) -> Seq<SyncWatermark> {
    let row = SyncWatermark { target_node_id, direction, last_audit_log_id, base_discriminant };
    match first_watermark(watermarks, target_node_id, direction) {
        Some(i) => watermarks.update(i, row),
        None => watermarks.push(row),
    }
}

/// Records the cursor and discriminant reached for a node and direction.
pub fn upsert_watermark(
    watermarks: &mut Vec<SyncWatermark>,
    target_node_id: u128,
    direction: SyncDirection,
    last_audit_log_id: u128,
    base_discriminant: String,
)
    ensures
        final(watermarks)@ == spec_upsert_watermark(
            old(watermarks)@,
            target_node_id,
            direction,
            last_audit_log_id,
            base_discriminant,
        ),
{
    proof {
        lemma_first_watermark(watermarks@, target_node_id, direction);
    }
    let mut i: usize = 0;
    while i < watermarks.len()
        invariant
            i <= watermarks.len(),
            watermarks@ == old(watermarks)@,
            forall|j: int|
                0 <= j < i ==> !((#[trigger] watermarks@[j]).target_node_id == target_node_id
                    && watermarks@[j].direction == direction),
        decreases watermarks.len() - i,
    {
        if watermarks[i].target_node_id == target_node_id && watermarks[i].direction == direction {
            proof {
                lemma_first_watermark(watermarks@, target_node_id, direction);
                match first_watermark(watermarks@, target_node_id, direction) {
                    Some(k) => {
                        if k < i {
                            assert(!(watermarks@[k].target_node_id == target_node_id
                                && watermarks@[k].direction == direction));
                        } else if k > i {
                            assert(!(watermarks@[i as int].target_node_id == target_node_id
                                && watermarks@[i as int].direction == direction));
                        }
                    },
                    None => {
                        assert(!(watermarks@[i as int].target_node_id == target_node_id
                            && watermarks@[i as int].direction == direction));
                    },
                }
            }
            assert(first_watermark(old(watermarks)@, target_node_id, direction) == Some(i as int));
            watermarks.set(i, SyncWatermark { target_node_id, direction, last_audit_log_id, base_discriminant });
            return;
        }
        i = i + 1;
    }
    proof {
        lemma_first_watermark(watermarks@, target_node_id, direction);
        if let Some(k) = first_watermark(watermarks@, target_node_id, direction) {
            assert(!(watermarks@[k].target_node_id == target_node_id && watermarks@[k].direction == direction));
        }
    }
    assert(first_watermark(old(watermarks)@, target_node_id, direction) is None);
    watermarks.push(SyncWatermark { target_node_id, direction, last_audit_log_id, base_discriminant });
}

/// A read after a write: once a cursor and discriminant are recorded for a node
/// and direction, the watermark read for them holds exactly those values, and
/// the watermark read for any other node or direction is what it was.
pub proof fn law_watermark_read_after_upsert(
    watermarks: Seq<SyncWatermark>,
    target_node_id: u128,
    direction: SyncDirection,
    last_audit_log_id: u128,
    base_discriminant: String,
    other_node_id: u128,
    other_direction: SyncDirection,
)
    requires
        other_node_id != target_node_id || other_direction != direction,
    ensures
        ({
            let after = spec_upsert_watermark(
                watermarks,
                target_node_id,
                direction,
                last_audit_log_id,
                base_discriminant,
            );
            &&& first_watermark(after, target_node_id, direction) matches Some(k)
                && after[k].last_audit_log_id == last_audit_log_id
                && after[k].base_discriminant == base_discriminant
            &&& first_watermark(after, other_node_id, other_direction) == first_watermark(
                watermarks,
                other_node_id,
                other_direction,
            )
            &&& first_watermark(watermarks, other_node_id, other_direction) matches Some(k)
                ==> after[k] == watermarks[k]
        }),
{
    let after = spec_upsert_watermark(watermarks, target_node_id, direction, last_audit_log_id, base_discriminant);
    lemma_first_watermark(watermarks, target_node_id, direction);
    lemma_first_watermark(watermarks, other_node_id, other_direction);
    lemma_first_watermark(after, target_node_id, direction);
    lemma_first_watermark(after, other_node_id, other_direction);
    let row = SyncWatermark { target_node_id, direction, last_audit_log_id, base_discriminant };
    match first_watermark(watermarks, target_node_id, direction) {
        Some(i) => {
            assert(after == watermarks.update(i, row));
            assert(after[i] == row);
            match first_watermark(after, target_node_id, direction) {
                Some(k) => {
                    if k < i {
                        assert(after[k] == watermarks[k]);
                    } else if k > i {
                        assert(after[i].target_node_id == target_node_id && after[i].direction == direction);
                    }
                },
                None => {
                    assert(after[i].target_node_id == target_node_id && after[i].direction == direction);
                },
            }
            match first_watermark(watermarks, other_node_id, other_direction) {
                Some(m) => {
                    assert(m != i);
                    assert(after[m] == watermarks[m]);
                    match first_watermark(after, other_node_id, other_direction) {
                        Some(n) => {
                            if n < m {
                                if n == i {
                                } else {
                                    assert(after[n] == watermarks[n]);
                                }
                            } else if n > m {
                                assert(after[m].target_node_id == other_node_id && after[m].direction == other_direction);
                            }
                        },
                        None => {
                            assert(after[m].target_node_id == other_node_id && after[m].direction == other_direction);
                        },
                    }
                },
                None => {
                    match first_watermark(after, other_node_id, other_direction) {
                        Some(n) => {
                            if n != i {
                                assert(after[n] == watermarks[n]);
                            }
                        },
                        None => {},
                    }
                },
            }
        },
        None => {
            assert(after == watermarks.push(row));
            let last = watermarks.len() as int;
            assert(after[last] == row);
            match first_watermark(after, target_node_id, direction) {
                Some(k) => {
                    if k < last {
                        assert(after[k] == watermarks[k]);
                    }
                },
                None => {
                    assert(after[last].target_node_id == target_node_id);
                },
            }
            match first_watermark(watermarks, other_node_id, other_direction) {
                Some(m) => {
                    assert(after[m] == watermarks[m]);
                    match first_watermark(after, other_node_id, other_direction) {
                        Some(n) => {
                            if n < m {
                                assert(after[n] == watermarks[n]);
                            } else if n > m {
                                assert(after[m].target_node_id == other_node_id && after[m].direction == other_direction);
                            }
                        },
                        None => {
                            assert(after[m].target_node_id == other_node_id && after[m].direction == other_direction);
                        },
                    }
                },
                None => {
                    match first_watermark(after, other_node_id, other_direction) {
                        Some(n) => {
                            if n < last {
                                assert(after[n] == watermarks[n]);
                            }
                        },
                        None => {},
                    }
                },
            }
        },
    }
}

/// The cursor a pull resumes from: the stored one while the base discriminant is
/// unchanged, else the nil id (the node pulls from the start again).
pub open spec fn spec_effective_pull_cursor(stored: u128, stored_discriminant: Seq<char>, current_discriminant: Seq<char>) -> u128 {
    if stored_discriminant == current_discriminant {
        stored
    } else {
        0
    }
}

/// The fences a peripheral waits for: a push fence when its own newest audit log
/// is past the push cursor, and a pull fence when the central node's newest
/// matching log is past the effective pull cursor.
pub open spec fn spec_replication_targets(
    central_node_id: u128,
    central_highest_matching_id: u128,
    local_highest_audit_log_id: u128,
    push_cursor: u128,
    pull_cursor: u128,
) -> PendingReplicationTargets {
    PendingReplicationTargets {
        push: if local_highest_audit_log_id > push_cursor {
            Some(PendingFence { target_node_id: central_node_id, target_audit_log_id: local_highest_audit_log_id })
        } else {
            None
        },
        pull: if central_highest_matching_id > pull_cursor {
            Some(PendingFence { target_node_id: central_node_id, target_audit_log_id: central_highest_matching_id })
        } else {
            None
        },
    }
}

/// The fences of a peripheral node, from the central node's status, the local
/// newest audit log, the stored watermarks and the current base discriminant.
pub fn replication_targets(
    central_node_id: u128,
    central_highest_matching_id: u128,
    local_highest_audit_log_id: u128,
    watermarks: &Vec<SyncWatermark>,
    current_discriminant: &String,
) -> (res: PendingReplicationTargets)
    ensures
        ({
            let push = first_watermark(watermarks@, central_node_id, SyncDirection::Push);
            let pull = first_watermark(watermarks@, central_node_id, SyncDirection::Pull);
            let push_cursor = match push {
                Some(i) => watermarks@[i].last_audit_log_id,
                None => 0,
            };
            let pull_cursor = match pull {
                Some(i) => spec_effective_pull_cursor(
                    watermarks@[i].last_audit_log_id,
                    watermarks@[i].base_discriminant@,
                    current_discriminant@,
                ),
                None => spec_effective_pull_cursor(0, Seq::empty(), current_discriminant@),
            };
            res == spec_replication_targets(
                central_node_id,
                central_highest_matching_id,
                local_highest_audit_log_id,
                push_cursor,
                pull_cursor,
            )
        }),
{
    let (push_cursor, _push_discriminant) = watermark_for(watermarks, central_node_id, SyncDirection::Push);
    let push = if local_highest_audit_log_id > push_cursor {
        Some(PendingFence { target_node_id: central_node_id, target_audit_log_id: local_highest_audit_log_id })
    } else {
        None
    };
    let (stored_pull_cursor, stored_discriminant) = watermark_for(
        watermarks,
        central_node_id,
        SyncDirection::Pull,
    );
    let effective_pull_cursor = if stored_discriminant == *current_discriminant {
        stored_pull_cursor
    } else {
        0
    };
    let pull = if central_highest_matching_id > effective_pull_cursor {
        Some(
            PendingFence { target_node_id: central_node_id, target_audit_log_id: central_highest_matching_id },
        )
    } else {
        None
    };
    PendingReplicationTargets { pull, push }
}

/// Whether a watermark reached its fence. A pull fence also needs the stored
/// base discriminant to equal the current one.
pub fn fence_satisfied(
    fence: PendingFence,
    direction: SyncDirection,
    watermarks: &Vec<SyncWatermark>,
    current_discriminant: &String,
) -> (res: bool)
    ensures
        ({
            let found = first_watermark(watermarks@, fence.target_node_id, direction);
            let cursor = match found {
                Some(i) => watermarks@[i].last_audit_log_id,
                None => 0u128,
            };
            let stored = match found {
                Some(i) => watermarks@[i].base_discriminant@,
                None => Seq::<char>::empty(),
            };
            res == ((direction == SyncDirection::Pull ==> stored == current_discriminant@) && cursor
                >= fence.target_audit_log_id)
        }),
{
    let (cursor, stored_discriminant) = watermark_for(watermarks, fence.target_node_id, direction);
    if direction == SyncDirection::Pull {
        if stored_discriminant != *current_discriminant {
            return false;
        }
    }
    cursor >= fence.target_audit_log_id
}

/// The first decision of a wait: a sleeping worker ends it; a reading that is
/// already recent enough with no pending fence satisfies it; pending fences are
/// waited for; otherwise the worker's progress is.
pub fn start_await(initial: WorkerSnapshot, since: Option<i128>, targets: Option<PendingReplicationTargets>) -> (res:
    AwaitCycleStart)
    ensures
        initial.state == WorkerState::Sleeping ==> res == AwaitCycleStart::Finished(AwaitCycleOutcome::Sleeping(initial)),
        initial.state != WorkerState::Sleeping && spec_since_satisfied(initial, since) && (match targets {
            Some(t) => !spec_has_pending_work(t),
            None => true,
        }) ==> res == AwaitCycleStart::Finished(AwaitCycleOutcome::SatisfiedImmediately(initial)),
        initial.state != WorkerState::Sleeping && !(spec_since_satisfied(initial, since) && (match targets {
            Some(t) => !spec_has_pending_work(t),
            None => true,
        })) ==> (match targets {
            Some(t) => if spec_has_pending_work(t) {
                res == AwaitCycleStart::WaitForFences(t)
            } else {
                res == AwaitCycleStart::WaitForProgress
            },
            None => res == AwaitCycleStart::WaitForProgress,
        }),
{
    if initial.state == WorkerState::Sleeping {
        return AwaitCycleStart::Finished(AwaitCycleOutcome::Sleeping(initial));
    }
    let no_pending = match targets {
        Some(t) => !has_pending_work(t),
        None => true,
    };
    if since_satisfied(initial, since) && no_pending {
        return AwaitCycleStart::Finished(AwaitCycleOutcome::SatisfiedImmediately(initial));
    }
    match targets {
        Some(t) => {
            if has_pending_work(t) {
                AwaitCycleStart::WaitForFences(t)
            } else {
                AwaitCycleStart::WaitForProgress
            }
        },
        None => AwaitCycleStart::WaitForProgress,
    }
}

/// One poll while waiting for fences: done when both fences are reached,
/// timed out at the deadline, else poll again (`None`).
pub fn fence_poll(snapshot: WorkerSnapshot, pull_done: bool, push_done: bool, deadline_passed: bool) -> (res: Option<
    AwaitCycleOutcome,
>)
    ensures
        pull_done && push_done ==> res == Some(AwaitCycleOutcome::SatisfiedAfterFence(snapshot)),
        !(pull_done && push_done) && deadline_passed ==> res == Some(AwaitCycleOutcome::TimedOut(snapshot)),
        !(pull_done && push_done) && !deadline_passed ==> res is None,
{
    if pull_done && push_done {
        return Some(AwaitCycleOutcome::SatisfiedAfterFence(snapshot));
    }
    if deadline_passed {
        return Some(AwaitCycleOutcome::TimedOut(snapshot));
    }
    None
}

/// `a + b`, or the largest `u64` when that overflows.
pub open spec fn spec_saturating_add(a: u64, b: u64) -> u64 {
    if a + b > u64::MAX {
        u64::MAX
    } else {
        (a + b) as u64
    }
}

/// One poll while waiting for progress: a completed cycle, a sync at or after
/// `since`, or two more ticks while online and idle end the wait; else it times
/// out at the deadline or polls again (`None`).
pub fn progress_poll(initial: WorkerSnapshot, snapshot: WorkerSnapshot, since: Option<i128>, deadline_passed: bool) -> (res:
    Option<AwaitCycleOutcome>)
    ensures
        snapshot.cycles > initial.cycles ==> res == Some(AwaitCycleOutcome::SatisfiedAfterCycle(snapshot)),
        snapshot.cycles <= initial.cycles && spec_since_satisfied(snapshot, since) ==> res == Some(
            AwaitCycleOutcome::SatisfiedAfterSince(snapshot),
        ),
        snapshot.cycles <= initial.cycles && !spec_since_satisfied(snapshot, since) && snapshot.ticks
            >= spec_saturating_add(initial.ticks, 2) && snapshot.state == WorkerState::OnlineIdle ==> res == Some(
            AwaitCycleOutcome::SatisfiedAfterIdleProbe(snapshot),
        ),
        snapshot.cycles <= initial.cycles && !spec_since_satisfied(snapshot, since) && !(snapshot.ticks
            >= spec_saturating_add(initial.ticks, 2) && snapshot.state == WorkerState::OnlineIdle) ==> (if deadline_passed {
            res == Some(AwaitCycleOutcome::TimedOut(snapshot))
        } else {
            res is None
        }),
{
    if snapshot.cycles > initial.cycles {
        return Some(AwaitCycleOutcome::SatisfiedAfterCycle(snapshot));
    }
    if since_satisfied(snapshot, since) {
        return Some(AwaitCycleOutcome::SatisfiedAfterSince(snapshot));
    }
    let probe_ticks = initial.ticks.saturating_add(2);
    if snapshot.ticks >= probe_ticks && snapshot.state == WorkerState::OnlineIdle {
        return Some(AwaitCycleOutcome::SatisfiedAfterIdleProbe(snapshot));
    }
    if deadline_passed {
        return Some(AwaitCycleOutcome::TimedOut(snapshot));
    }
    None
}

/// The snapshot an outcome carries.
pub open spec fn outcome_snapshot(o: AwaitCycleOutcome) -> WorkerSnapshot {
    match o {
        AwaitCycleOutcome::Sleeping(s) => s,
        AwaitCycleOutcome::SatisfiedImmediately(s) => s,
        AwaitCycleOutcome::SatisfiedAfterFence(s) => s,
        AwaitCycleOutcome::SatisfiedAfterCycle(s) => s,
        AwaitCycleOutcome::SatisfiedAfterSince(s) => s,
        AwaitCycleOutcome::SatisfiedAfterIdleProbe(s) => s,
        AwaitCycleOutcome::TimedOut(s) => s,
    }
}

/// The response to a wait: the worker's state and last sync time at the end, and
/// whether the wait was satisfied (not a sleeping worker, not a time-out).
pub fn into_response(outcome: AwaitCycleOutcome) -> (res: AwaitCycleResponse)
    ensures
        res.worker_state == outcome_snapshot(outcome).state,
        res.last_sync_at == outcome_snapshot(outcome).last_sync_at,
        res.completed == !(outcome is Sleeping || outcome is TimedOut),
{
    match outcome {
        AwaitCycleOutcome::Sleeping(s) | AwaitCycleOutcome::TimedOut(s) => AwaitCycleResponse {
            worker_state: s.state,
            last_sync_at: s.last_sync_at,
            completed: false,
        },
        AwaitCycleOutcome::SatisfiedImmediately(s)
        | AwaitCycleOutcome::SatisfiedAfterFence(s)
        | AwaitCycleOutcome::SatisfiedAfterCycle(s)
        | AwaitCycleOutcome::SatisfiedAfterSince(s)
        | AwaitCycleOutcome::SatisfiedAfterIdleProbe(s) => AwaitCycleResponse {
            worker_state: s.state,
            last_sync_at: s.last_sync_at,
            completed: true,
        },
    }
}

// ---------------------------------------------------------------------------
// Node configuration
// ---------------------------------------------------------------------------

/// The character with ASCII upper-case letters mapped to lower case, by code.
pub open spec fn ascii_lower_code(c: char) -> u32 {
    let u = c as u32;
    if 65 <= u <= 90 {
        (u + 32) as u32
    } else {
        u
    }
}

/// Equality of texts ignoring ASCII case, as `str::eq_ignore_ascii_case` decides.
pub open spec fn spec_eq_ignore_ascii_case(a: Seq<char>, b: Seq<char>) -> bool {
    a.len() == b.len() && forall|i: int| 0 <= i < a.len() ==> ascii_lower_code(#[trigger] a[i]) == ascii_lower_code(b[i])
}

/// The name of a worker state, as replies show it.
pub open spec fn worker_state_label(state: WorkerState) -> Seq<char> {
    match state {
        WorkerState::Sleeping => "Sleeping"@,
        WorkerState::OnlineIdle => "OnlineIdle"@,
        WorkerState::Syncing => "Syncing"@,
        WorkerState::Offline => "Offline"@,
    }
}

/// The name of a worker state, as replies show it.
pub fn worker_state_name(state: WorkerState) -> (res: String)
    ensures
        res@ == worker_state_label(state),
{
    match state {
        WorkerState::Sleeping => String::from_str("Sleeping"),
        WorkerState::OnlineIdle => String::from_str("OnlineIdle"),
        WorkerState::Syncing => String::from_str("Syncing"),
        WorkerState::Offline => String::from_str("Offline"),
    }
}

/// Equality of texts ignoring ASCII case.
pub fn eq_ignore_ascii_case(a: &str, b: &str) -> (res: bool)
    ensures
        res == spec_eq_ignore_ascii_case(a@, b@),
{
    let n = a.unicode_len();
    if n != b.unicode_len() {
        return false;
    }
    let mut i: usize = 0;
    while i < n
        invariant
            i <= n,
            n == a@.len(),
            n == b@.len(),
            forall|j: int| 0 <= j < i ==> ascii_lower_code(#[trigger] a@[j]) == ascii_lower_code(b@[j]),
        decreases n - i,
    {
        let x = a.get_char(i) as u32;
        let y = b.get_char(i) as u32;
        let lx = if 65 <= x && x <= 90 { x + 32 } else { x };
        let ly = if 65 <= y && y <= 90 { y + 32 } else { y };
        if lx != ly {
            assert(ascii_lower_code(a@[i as int]) != ascii_lower_code(b@[i as int]));
            return false;
        }
        i = i + 1;
    }
    true
}

/// Whether a node of this type waits for replication fences: a peripheral node,
/// whatever the case of its type name.
pub fn is_peripheral_node(node_type: &str) -> (res: bool)
    ensures
        res == spec_eq_ignore_ascii_case(node_type@, "PERIPHERAL"@),
{
    eq_ignore_ascii_case(node_type, "PERIPHERAL")
}

// ---------------------------------------------------------------------------
// Asking the central node
// ---------------------------------------------------------------------------

/// The text without the slashes at its end, as `str::trim_end_matches('/')` gives it.
pub open spec fn without_trailing_slashes(s: Seq<char>) -> Seq<char>
    decreases s.len(),
{
    if s.len() > 0 && s.last() == '/' {
        without_trailing_slashes(s.drop_last())
    } else {
        s
    }
}

/// The configured address of the central node: the setting trimmed, when
/// anything is left of it.
pub fn central_api_url(setting: Option<&str>) -> (res: Option<String>)
    ensures
        opt_text(res) == spec_search_filter(
            match setting {
                Some(s) => Some(s@),
                None => None,
            },
        ),
{
    search_filter(setting)
}

/// The address of the central node's sync status for the given bases.
pub open spec fn spec_status_url(central_url: Seq<char>, base_ids: Seq<u128>) -> Seq<char> {
    without_trailing_slashes(central_url) + "/sync/status?baseIds="@ + csv_of(base_ids)
}

/// The address of the central node's sync status for the given bases.
pub fn status_url(central_url: &str, base_ids: &[u128]) -> (res: String)
    ensures
        res@ == spec_status_url(central_url@, base_ids@),
{
    let n = central_url.unicode_len();
    let mut end: usize = n;
    assert(central_url@.subrange(0, n as int) =~= central_url@);
    while end > 0 && central_url.get_char(end - 1) == '/'
        invariant
            end <= n,
            n == central_url@.len(),
            without_trailing_slashes(central_url@) == without_trailing_slashes(central_url@.subrange(0, end as int)),
        decreases end,
    {
        assert(central_url@.subrange(0, end as int).drop_last() =~= central_url@.subrange(0, end - 1));
        end = end - 1;
    }
    if end > 0 {
        assert(central_url@.subrange(0, end as int).last() == central_url@[end - 1]);
    }
    let mut out = String::from_str(central_url.substring_char(0, end));
    out.append("/sync/status?baseIds=");
    let ids = join_uuid_csv(base_ids);
    out.append(ids.as_str());
    out
}

/// How long to wait for the central node's status: the wait's own timeout,
/// kept between one and five seconds.
pub fn status_timeout_secs(timeout_secs: u64) -> (res: u64)
    ensures
        res == if timeout_secs < 1 {
            1
        } else if timeout_secs > 5 {
            5
        } else {
            timeout_secs
        },
{
    if timeout_secs < 1 {
        1
    } else if timeout_secs > 5 {
        5
    } else {
        timeout_secs
    }
}

} // verus!
