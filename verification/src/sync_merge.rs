//! Merging a batch of audit logs from another node.
//!
//! A log whose id is already stored is skipped. A log is rejected when the
//! newest stored log of the same record was written by a heavier role at the same
//! time or later. Every other log is applied, and becomes the record's newest log
//! when it is newer by (timestamp, role weight, id).
use vstd::prelude::*;

use crate::sync_helpers::{canonical_ids, sorted_unique_ids};

verus! {

broadcast use vstd::std_specs::hash::group_hash_axioms;

/// The fields of an incoming audit log that decide how it is merged.
#[derive(Debug, Clone, Copy)]
pub struct IncomingLog {
    pub id: u128,
    pub record_id: u128,
    /// Nanoseconds since the Unix epoch.
    pub timestamp: i128,
    pub user_role_weight: i32,
}

/// The newest known audit log of a record.
#[derive(Debug, Clone, Copy)]
pub struct AuditHead {
    pub id: u128,
    /// Nanoseconds since the Unix epoch.
    pub timestamp: i128,
    pub user_role_weight: i32,
}

/// How one incoming log is merged.
#[derive(Debug, Clone, Copy, PartialEq, Eq, Structural)]
pub enum LogDecision {
    /// A log with the same id is already stored.
    AlreadyPresent,
    /// A newer log of a heavier role wins over it.
    Rejected,
    /// It is restored and stored.
    Applied,
}

pub open spec fn head_of(log: IncomingLog) -> AuditHead {
    AuditHead { id: log.id, timestamp: log.timestamp, user_role_weight: log.user_role_weight }
}

/// The stored head wins: it comes from a heavier role and is not older.
pub open spec fn spec_rejects(head: AuditHead, log: IncomingLog) -> bool {
    head.user_role_weight > log.user_role_weight && head.timestamp >= log.timestamp
}

/// The incoming log is newer than the head by (timestamp, role weight, id).
pub open spec fn spec_should_replace(head: AuditHead, log: IncomingLog) -> bool {
    log.timestamp > head.timestamp || (log.timestamp == head.timestamp && (log.user_role_weight
        > head.user_role_weight || (log.user_role_weight == head.user_role_weight && log.id > head.id)))
}

/// `a` is not older than `b` by (timestamp, role weight, id).
pub open spec fn head_not_older(a: AuditHead, b: AuditHead) -> bool {
    a.timestamp > b.timestamp || (a.timestamp == b.timestamp && (a.user_role_weight > b.user_role_weight
        || (a.user_role_weight == b.user_role_weight && a.id >= b.id)))
}

impl AuditHead {
    /// The head that an incoming log becomes.
    pub fn from_incoming(incoming: &IncomingLog) -> (res: AuditHead)
        ensures
            res == head_of(*incoming),
    {
        AuditHead {
            id: incoming.id,
            timestamp: incoming.timestamp,
            user_role_weight: incoming.user_role_weight,
        }
    }

    /// Whether this head wins over the incoming log.
    pub fn rejects(self, incoming: &IncomingLog) -> (res: bool)
        ensures
            res == spec_rejects(self, *incoming),
    {
        self.user_role_weight > incoming.user_role_weight && self.timestamp >= incoming.timestamp
    }

    /// Whether the incoming log becomes the new head.
    pub fn should_replace(self, incoming: &IncomingLog) -> (res: bool)
        ensures
            res == spec_should_replace(self, *incoming),
    {
        incoming.timestamp > self.timestamp || (incoming.timestamp == self.timestamp && (
        incoming.user_role_weight > self.user_role_weight || (incoming.user_role_weight
            == self.user_role_weight && incoming.id > self.id)))
    }
}

/// The stored ids and the newest log of each record, while a batch is merged.
#[derive(Debug)]
pub struct IncomingAuditBatchState {
    pub existing_ids: std::collections::HashSet<u128>,
    pub latest_by_record: std::collections::HashMap<u128, AuditHead>,
}

/// How one incoming log is merged, given the stored ids and heads.
pub open spec fn spec_decide(ids: Set<u128>, heads: Map<u128, AuditHead>, log: IncomingLog) -> LogDecision {
    if ids.contains(log.id) {
        LogDecision::AlreadyPresent
    } else if heads.contains_key(log.record_id) && spec_rejects(heads[log.record_id], log) {
        LogDecision::Rejected
    } else {
        LogDecision::Applied
    }
}

/// The heads after storing a log: it becomes its record's head when the record
/// has none or when it is newer.
pub open spec fn spec_observe_heads(heads: Map<u128, AuditHead>, log: IncomingLog) -> Map<u128, AuditHead> {
    if heads.contains_key(log.record_id) {
        if spec_should_replace(heads[log.record_id], log) {
            heads.insert(log.record_id, head_of(log))
        } else {
            heads
        }
    } else {
        heads.insert(log.record_id, head_of(log))
    }
}

/// Merging `logs` in order: the stored ids, the heads and the decisions after it.
pub open spec fn spec_plan(ids: Set<u128>, heads: Map<u128, AuditHead>, logs: Seq<IncomingLog>) -> (Set<u128>, Map<
    u128,
    AuditHead,
>, Seq<LogDecision>)
    decreases logs.len(),
{
    if logs.len() == 0 {
        (ids, heads, Seq::empty())
    } else {
        let prev = spec_plan(ids, heads, logs.drop_last());
        let d = spec_decide(prev.0, prev.1, logs.last());
        if d == LogDecision::Applied {
            (prev.0.insert(logs.last().id), spec_observe_heads(prev.1, logs.last()), prev.2.push(d))
        } else {
            (prev.0, prev.1, prev.2.push(d))
        }
    }
}

/// How many of the decisions are `d`.
pub open spec fn count_decisions(ds: Seq<LogDecision>, d: LogDecision) -> nat
    decreases ds.len(),
{
    if ds.len() == 0 {
        0
    } else {
        count_decisions(ds.drop_last(), d) + if ds.last() == d {
            1nat
        } else {
            0nat
        }
    }
}

impl IncomingAuditBatchState {
    /// Whether a log with this id is stored.
    pub fn contains_id(&self, id: u128) -> (res: bool)
        ensures
            res == self.existing_ids@.contains(id),
    {
        self.existing_ids.contains(&id)
    }

    /// Whether the stored head of the log's record wins over it.
    pub fn rejects(&self, incoming: &IncomingLog) -> (res: bool)
        ensures
            res == (self.latest_by_record@.contains_key(incoming.record_id) && spec_rejects(
                self.latest_by_record@[incoming.record_id],
                *incoming,
            )),
    {
        match self.latest_by_record.get(&incoming.record_id) {
            Some(head) => head.rejects(incoming),
            None => false,
        }
    }

    /// Records that a log was stored.
    pub fn observe_insert(&mut self, incoming: &IncomingLog)
        ensures
            final(self).existing_ids@ == old(self).existing_ids@.insert(incoming.id),
            final(self).latest_by_record@ == spec_observe_heads(old(self).latest_by_record@, *incoming),
            final(self).latest_by_record@.contains_key(incoming.record_id),
            head_not_older(final(self).latest_by_record@[incoming.record_id], head_of(*incoming)),
            old(self).latest_by_record@.contains_key(incoming.record_id) ==> head_not_older(
                final(self).latest_by_record@[incoming.record_id],
                old(self).latest_by_record@[incoming.record_id],
            ),
    {
        self.existing_ids.insert(incoming.id);
        let replace = match self.latest_by_record.get(&incoming.record_id) {
            Some(head) => head.should_replace(incoming),
            None => true,
        };
        if replace {
            self.latest_by_record.insert(incoming.record_id, AuditHead::from_incoming(incoming));
        }
    }
}

/// The outcome of merging a batch.
#[derive(Debug)]
pub struct BatchPlan {
    /// One decision per incoming log, in order.
    pub decisions: Vec<LogDecision>,
    pub accepted: u64,
    pub rejected: u64,
}

/// Merges a batch of logs in order, updating the state as each applied log is
/// stored, and counts the applied and the rejected logs.
pub fn plan_incoming_logs(state: &mut IncomingAuditBatchState, logs: &Vec<IncomingLog>) -> (res: BatchPlan)
    ensures
        res.decisions@ == spec_plan(old(state).existing_ids@, old(state).latest_by_record@, logs@).2,
        final(state).existing_ids@ == spec_plan(old(state).existing_ids@, old(state).latest_by_record@, logs@).0,
        final(state).latest_by_record@ == spec_plan(old(state).existing_ids@, old(state).latest_by_record@, logs@).1,
        res.accepted == count_decisions(res.decisions@, LogDecision::Applied),
        res.rejected == count_decisions(res.decisions@, LogDecision::Rejected),
{
    let ghost ids0 = state.existing_ids@;
    let ghost heads0 = state.latest_by_record@;
    let mut decisions: Vec<LogDecision> = Vec::new();
    let mut accepted: u64 = 0;
    let mut rejected: u64 = 0;
    let mut i: usize = 0;
    while i < logs.len()
        invariant
            i <= logs.len(),
            (state.existing_ids@, state.latest_by_record@, decisions@) == spec_plan(ids0, heads0, logs@.take(i as int)),
            accepted == count_decisions(decisions@, LogDecision::Applied),
            rejected == count_decisions(decisions@, LogDecision::Rejected),
            accepted + rejected <= i,
            decisions@.len() == i,
        decreases logs.len() - i,
    {
        let incoming = &logs[i];
        assert(logs@.take(i + 1).drop_last() =~= logs@.take(i as int));
        assert(logs@.take(i + 1).last() == logs@[i as int]);
        let ghost before = decisions@;
        if state.contains_id(incoming.id) {
            decisions.push(LogDecision::AlreadyPresent);
        } else if state.rejects(incoming) {
            decisions.push(LogDecision::Rejected);
            rejected = rejected + 1;
        } else {
            decisions.push(LogDecision::Applied);
            accepted = accepted + 1;
            state.observe_insert(incoming);
        }
        assert(decisions@.drop_last() =~= before);
        i = i + 1;
    }
    assert(logs@.take(logs.len() as int) =~= logs@);
    BatchPlan { decisions, accepted, rejected }
}

// ---------------------------------------------------------------------------
// Laws of merging
// ---------------------------------------------------------------------------

proof fn lemma_plan_len(ids: Set<u128>, heads: Map<u128, AuditHead>, logs: Seq<IncomingLog>)
    ensures
        spec_plan(ids, heads, logs).2.len() == logs.len(),
    decreases logs.len(),
{
    if logs.len() > 0 {
        lemma_plan_len(ids, heads, logs.drop_last());
    }
}

/// The decision of the `k`-th log is taken on the state after the first `k` logs.
proof fn lemma_plan_decision(ids: Set<u128>, heads: Map<u128, AuditHead>, logs: Seq<IncomingLog>, k: int)
    requires
        0 <= k < logs.len(),
    ensures
        spec_plan(ids, heads, logs).2[k] == spec_decide(
            spec_plan(ids, heads, logs.take(k)).0,
            spec_plan(ids, heads, logs.take(k)).1,
            logs[k],
        ),
    decreases logs.len(),
{
    let rest = logs.drop_last();
    lemma_plan_len(ids, heads, rest);
    if k == logs.len() - 1 {
        assert(logs.take(k) =~= rest);
    } else {
        lemma_plan_decision(ids, heads, rest, k);
        assert(rest.take(k) =~= logs.take(k));
        assert(rest[k] == logs[k]);
    }
}

/// Stored ids only grow along the batch.
proof fn lemma_plan_ids_grow(ids: Set<u128>, heads: Map<u128, AuditHead>, logs: Seq<IncomingLog>, k1: int, k2: int)
    requires
        0 <= k1 <= k2 <= logs.len(),
    ensures
        spec_plan(ids, heads, logs.take(k1)).0.subset_of(spec_plan(ids, heads, logs.take(k2)).0),
    decreases k2 - k1,
{
    if k1 < k2 {
        lemma_plan_ids_grow(ids, heads, logs, k1, k2 - 1);
        assert(logs.take(k2).drop_last() =~= logs.take(k2 - 1));
    }
}

/// After an applied log, its id is stored.
proof fn lemma_applied_stored(ids: Set<u128>, heads: Map<u128, AuditHead>, logs: Seq<IncomingLog>, k: int)
    requires
        0 <= k < logs.len(),
        spec_plan(ids, heads, logs).2[k] != LogDecision::Rejected,
    ensures
        spec_plan(ids, heads, logs.take(k + 1)).0.contains(logs[k].id),
{
    lemma_plan_decision(ids, heads, logs, k);
    assert(logs.take(k + 1).drop_last() =~= logs.take(k));
    assert(logs.take(k + 1).last() == logs[k]);
}

/// Stored ids of the initial state stay stored.
proof fn lemma_initial_ids_kept(ids: Set<u128>, heads: Map<u128, AuditHead>, logs: Seq<IncomingLog>, k: int)
    requires
        0 <= k <= logs.len(),
    ensures
        ids.subset_of(spec_plan(ids, heads, logs.take(k)).0),
{
    lemma_plan_ids_grow(ids, heads, logs, 0, k);
    assert(logs.take(0) =~= Seq::<IncomingLog>::empty());
}

/// A log whose id is already stored is never applied again.
pub proof fn law_stored_logs_are_skipped(ids: Set<u128>, heads: Map<u128, AuditHead>, logs: Seq<IncomingLog>, k: int)
    requires
        0 <= k < logs.len(),
        ids.contains(logs[k].id),
    ensures
        spec_plan(ids, heads, logs).2[k] == LogDecision::AlreadyPresent,
{
    lemma_plan_decision(ids, heads, logs, k);
    lemma_initial_ids_kept(ids, heads, logs, k);
}

/// No id is applied twice within one batch.
pub proof fn law_each_id_applied_once(ids: Set<u128>, heads: Map<u128, AuditHead>, logs: Seq<IncomingLog>, i: int, j: int)
    requires
        0 <= i < j < logs.len(),
        spec_plan(ids, heads, logs).2[i] == LogDecision::Applied,
        spec_plan(ids, heads, logs).2[j] == LogDecision::Applied,
    ensures
        logs[i].id != logs[j].id,
{
    lemma_applied_stored(ids, heads, logs, i);
    lemma_plan_ids_grow(ids, heads, logs, i + 1, j);
    lemma_plan_decision(ids, heads, logs, j);
}

/// Sending a batch again applies nothing that the first merge applied or found
/// stored: those logs are all skipped the second time.
pub proof fn law_resend_skips_merged_logs(ids: Set<u128>, heads: Map<u128, AuditHead>, logs: Seq<IncomingLog>, k: int)
    requires
        0 <= k < logs.len(),
        spec_plan(ids, heads, logs).2[k] != LogDecision::Rejected,
    ensures
        spec_plan(spec_plan(ids, heads, logs).0, spec_plan(ids, heads, logs).1, logs).2[k]
            == LogDecision::AlreadyPresent,
{
    lemma_applied_stored(ids, heads, logs, k);
    lemma_plan_ids_grow(ids, heads, logs, k + 1, logs.len() as int);
    assert(logs.take(logs.len() as int) =~= logs);
    law_stored_logs_are_skipped(spec_plan(ids, heads, logs).0, spec_plan(ids, heads, logs).1, logs, k);
}

/// The decisions of a batch are counted exactly: applied plus rejected plus
/// skipped is the batch size.
pub proof fn law_decisions_partition_batch(ds: Seq<LogDecision>)
    ensures
        count_decisions(ds, LogDecision::Applied) + count_decisions(ds, LogDecision::Rejected) + count_decisions(
            ds,
            LogDecision::AlreadyPresent,
        ) == ds.len(),
    decreases ds.len(),
{
    if ds.len() > 0 {
        law_decisions_partition_batch(ds.drop_last());
    }
}

// ---------------------------------------------------------------------------
// Heads of stored logs
// ---------------------------------------------------------------------------

/// A stored audit log row, as far as its head matters.
#[derive(Debug, Clone, Copy)]
pub struct StoredLogRow {
    pub id: u128,
    pub record_id: u128,
    /// Nanoseconds since the Unix epoch.
    pub timestamp: i128,
    pub user_role_weight: i32,
}

pub open spec fn row_head(row: StoredLogRow) -> AuditHead {
    AuditHead { id: row.id, timestamp: row.timestamp, user_role_weight: row.user_role_weight }
}

/// The head of each record: the first of its rows in `rows`.
pub open spec fn spec_first_heads(rows: Seq<StoredLogRow>) -> Map<u128, AuditHead>
    decreases rows.len(),
{
    if rows.len() == 0 {
        Map::empty()
    } else {
        let prev = spec_first_heads(rows.drop_last());
        if prev.contains_key(rows.last().record_id) {
            prev
        } else {
            prev.insert(rows.last().record_id, row_head(rows.last()))
        }
    }
}

impl AuditHead {
    /// The head that a stored log row stands for.
    pub fn from_row(row: &StoredLogRow) -> (res: AuditHead)
        ensures
            res == row_head(*row),
    {
        AuditHead { id: row.id, timestamp: row.timestamp, user_role_weight: row.user_role_weight }
    }
}

/// The ids of an incoming batch.
pub open spec fn log_ids(logs: Seq<IncomingLog>) -> Seq<u128> {
    logs.map_values(|l: IncomingLog| l.id)
}

/// The record ids of an incoming batch.
pub open spec fn log_record_ids(logs: Seq<IncomingLog>) -> Seq<u128> {
    logs.map_values(|l: IncomingLog| l.record_id)
}

/// The distinct ids of an incoming batch, in increasing order.
pub fn unique_log_ids(logs: &Vec<IncomingLog>) -> (res: Vec<u128>)
    ensures
        res@ == canonical_ids(log_ids(logs@)),
{
    let mut ids: Vec<u128> = Vec::new();
    let mut i: usize = 0;
    while i < logs.len()
        invariant
            i <= logs.len(),
            ids@ == log_ids(logs@.take(i as int)),
        decreases logs.len() - i,
    {
        ids.push(logs[i].id);
        assert(log_ids(logs@.take(i + 1)) =~= log_ids(logs@.take(i as int)).push(logs@[i as int].id));
        i = i + 1;
    }
    assert(logs@.take(logs.len() as int) =~= logs@);
    sorted_unique_ids(ids.as_slice())
}

/// The distinct record ids of an incoming batch, in increasing order.
pub fn unique_record_ids(logs: &Vec<IncomingLog>) -> (res: Vec<u128>)
    ensures
        res@ == canonical_ids(log_record_ids(logs@)),
{
    let mut ids: Vec<u128> = Vec::new();
    let mut i: usize = 0;
    while i < logs.len()
        invariant
            i <= logs.len(),
            ids@ == log_record_ids(logs@.take(i as int)),
        decreases logs.len() - i,
    {
        ids.push(logs[i].record_id);
        assert(log_record_ids(logs@.take(i + 1)) =~= log_record_ids(logs@.take(i as int)).push(
            logs@[i as int].record_id,
        ));
        i = i + 1;
    }
    assert(logs@.take(logs.len() as int) =~= logs@);
    sorted_unique_ids(ids.as_slice())
}

/// The heads of stored logs: for each record, its first row in the order given,
/// which the store delivers newest first.
pub fn latest_heads(rows: &Vec<StoredLogRow>) -> (res: std::collections::HashMap<u128, AuditHead>)
    ensures
        res@ == spec_first_heads(rows@),
{
    let mut heads: std::collections::HashMap<u128, AuditHead> = std::collections::HashMap::new();
    let mut i: usize = 0;
    while i < rows.len()
        invariant
            i <= rows.len(),
            heads@ == spec_first_heads(rows@.take(i as int)),
        decreases rows.len() - i,
    {
        assert(rows@.take(i + 1).drop_last() =~= rows@.take(i as int));
        let row = rows[i];
        if !heads.contains_key(&row.record_id) {
            heads.insert(
                row.record_id,
                AuditHead { id: row.id, timestamp: row.timestamp, user_role_weight: row.user_role_weight },
            );
        }
        i = i + 1;
    }
    assert(rows@.take(rows.len() as int) =~= rows@);
    heads
}

/// The rows are ordered by record, and within a record newest first by
/// (timestamp, role weight, id), as the store is asked to deliver them.
pub open spec fn newest_first(rows: Seq<StoredLogRow>) -> bool {
    forall|i: int, j: int|
        0 <= i < j < rows.len() && (#[trigger] rows[i]).record_id == (#[trigger] rows[j]).record_id
            ==> head_not_older(row_head(rows[i]), row_head(rows[j]))
}

/// Taken from rows in the store's order, each record's head is its newest log.
pub proof fn law_first_head_is_newest(rows: Seq<StoredLogRow>, k: int)
    requires
        newest_first(rows),
        0 <= k < rows.len(),
    ensures
        spec_first_heads(rows).contains_key(rows[k].record_id),
        head_not_older(spec_first_heads(rows)[rows[k].record_id], row_head(rows[k])),
    decreases rows.len(),
{
    let rest = rows.drop_last();
    let prev = spec_first_heads(rest);
    assert(newest_first(rest)) by {
        assert forall|i: int, j: int|
            0 <= i < j < rest.len() && (#[trigger] rest[i]).record_id == (#[trigger] rest[j]).record_id
                implies head_not_older(row_head(rest[i]), row_head(rest[j])) by {
            assert(rest[i] == rows[i]);
            assert(rest[j] == rows[j]);
        }
    }
    if k < rows.len() - 1 {
        assert(rest[k] == rows[k]);
        law_first_head_is_newest(rest, k);
    } else {
        assert(rows.last() == rows[k]);
        if prev.contains_key(rows[k].record_id) {
            let m = lemma_head_source(rest, rows[k].record_id);
            assert(rest[m] == rows[m]);
        }
    }
}

/// Each head of `spec_first_heads` comes from a row of its record.
proof fn lemma_head_source(rows: Seq<StoredLogRow>, record_id: u128) -> (m: int)
    requires
        spec_first_heads(rows).contains_key(record_id),
    ensures
        0 <= m < rows.len(),
        rows[m].record_id == record_id,
        spec_first_heads(rows)[record_id] == row_head(rows[m]),
    decreases rows.len(),
{
    let rest = rows.drop_last();
    let prev = spec_first_heads(rest);
    if prev.contains_key(record_id) {
        let m = lemma_head_source(rest, record_id);
        assert(rest[m] == rows[m]);
        m
    } else {
        assert(rows.last() == rows[rows.len() - 1]);
        rows.len() - 1
    }
}

} // verus!
