//! Durable lifecycle record invariants shared by host controllers.
//!
//! The distributed lease serializes controllers. The persisted record makes the
//! lease's fencing token durable so a controller that wakes up after lease loss
//! cannot publish stale lifecycle or placement state.

use crate::text::same_text;
use vstd::prelude::*;

verus! {

/// Lifecycle states as they are persisted. Waking has two distinct states: thawing a
/// frozen process and restoring a checkpointed one.
#[derive(Clone, Copy, Debug, PartialEq, Eq, Structural)]
pub enum PersistedLifecycleState {
    Running,
    Quiescing,
    Freezing,
    Frozen,
    Checkpointing,
    Hibernated,
    Thawing,
    Restoring,
}

#[derive(Clone, Copy, Debug, PartialEq, Eq, Structural)]
pub enum PersistedSuspendStrategy {
    Freeze,
    Hibernate,
}

impl PersistedLifecycleState {
    /// The stable name of the state in a persisted record.
    pub open spec fn wire_text(self) -> Seq<char> {
        match self {
            PersistedLifecycleState::Running => "running"@,
            PersistedLifecycleState::Quiescing => "quiescing"@,
            PersistedLifecycleState::Freezing => "freezing"@,
            PersistedLifecycleState::Frozen => "frozen"@,
            PersistedLifecycleState::Checkpointing => "checkpointing"@,
            PersistedLifecycleState::Hibernated => "hibernated"@,
            PersistedLifecycleState::Thawing => "thawing"@,
            PersistedLifecycleState::Restoring => "restoring"@,
        }
    }

    pub fn wire_name(self) -> (name: &'static str)
        ensures
            name@ == self.wire_text(),
    {
        match self {
            PersistedLifecycleState::Running => "running",
            PersistedLifecycleState::Quiescing => "quiescing",
            PersistedLifecycleState::Freezing => "freezing",
            PersistedLifecycleState::Frozen => "frozen",
            PersistedLifecycleState::Checkpointing => "checkpointing",
            PersistedLifecycleState::Hibernated => "hibernated",
            PersistedLifecycleState::Thawing => "thawing",
            PersistedLifecycleState::Restoring => "restoring",
        }
    }

    /// The state that a persisted name stands for.
    pub fn from_wire_name(name: &str) -> (state: Option<Self>)
        ensures
            match state {
                Some(state) => state.wire_text() == name@,
                None => forall|state: PersistedLifecycleState|
                    #[trigger] state.wire_text() != name@,
            },
    {
        if same_text(name, "running") {
            Some(PersistedLifecycleState::Running)
        } else if same_text(name, "quiescing") {
            Some(PersistedLifecycleState::Quiescing)
        } else if same_text(name, "freezing") {
            Some(PersistedLifecycleState::Freezing)
        } else if same_text(name, "frozen") {
            Some(PersistedLifecycleState::Frozen)
        } else if same_text(name, "checkpointing") {
            Some(PersistedLifecycleState::Checkpointing)
        } else if same_text(name, "hibernated") {
            Some(PersistedLifecycleState::Hibernated)
        } else if same_text(name, "thawing") {
            Some(PersistedLifecycleState::Thawing)
        } else if same_text(name, "restoring") {
            Some(PersistedLifecycleState::Restoring)
        } else {
            None
        }
    }
}

impl PersistedSuspendStrategy {
    /// The stable name of the strategy in a persisted record.
    pub open spec fn wire_text(self) -> Seq<char> {
        match self {
            PersistedSuspendStrategy::Freeze => "freeze"@,
            PersistedSuspendStrategy::Hibernate => "hibernate"@,
        }
    }

    pub fn wire_name(self) -> (name: &'static str)
        ensures
            name@ == self.wire_text(),
    {
        match self {
            PersistedSuspendStrategy::Freeze => "freeze",
            PersistedSuspendStrategy::Hibernate => "hibernate",
        }
    }

    /// The strategy that a persisted name stands for.
    pub fn from_wire_name(name: &str) -> (strategy: Option<Self>)
        ensures
            match strategy {
                Some(strategy) => strategy.wire_text() == name@,
                None => forall|strategy: PersistedSuspendStrategy|
                    #[trigger] strategy.wire_text() != name@,
            },
    {
        if same_text(name, "freeze") {
            Some(PersistedSuspendStrategy::Freeze)
        } else if same_text(name, "hibernate") {
            Some(PersistedSuspendStrategy::Hibernate)
        } else {
            None
        }
    }
}

/// Checkpoint identity must be immutable and content-addressable by the product
/// store. The local path is deliberately not part of the durable record because
/// a workload may be restored by a different host.
#[derive(Debug, PartialEq, Eq)]
pub struct LifecycleCheckpoint {
    pub artifact_ref: String,
    pub digest: String,
    pub format: String,
}

impl LifecycleCheckpoint {
    /// Every part of the checkpoint's identity is there.
    pub open spec fn identified(self) -> bool {
        self.artifact_ref@.len() > 0 && self.digest@.len() > 0 && self.format@.len() > 0
    }
}

impl Clone for LifecycleCheckpoint {
    fn clone(&self) -> (copy: Self)
        ensures
            copy == *self,
    {
        LifecycleCheckpoint {
            artifact_ref: self.artifact_ref.clone(),
            digest: self.digest.clone(),
            format: self.format.clone(),
        }
    }
}

/// Durable control-plane record for one logical workload/shard.
#[derive(Debug, PartialEq, Eq)]
pub struct LifecycleRecord {
    pub workload_id: String,
    pub assigned_node: String,
    /// Monotonic scheduler placement generation. Increment on reassignment.
    pub placement_epoch: u64,
    /// Monotonic token minted by the distributed lifecycle lease authority.
    pub fencing_token: u64,
    /// Monotonic record revision inside one logical workload history.
    pub revision: u64,
    pub state: PersistedLifecycleState,
    pub strategy: PersistedSuspendStrategy,
    pub checkpoint: Option<LifecycleCheckpoint>,
}

impl Clone for LifecycleRecord {
    fn clone(&self) -> (copy: Self)
        ensures
            copy == *self,
    {
        let checkpoint = match &self.checkpoint {
            Some(checkpoint) => Some(checkpoint.clone()),
            None => None,
        };
        LifecycleRecord {
            workload_id: self.workload_id.clone(),
            assigned_node: self.assigned_node.clone(),
            placement_epoch: self.placement_epoch,
            fencing_token: self.fencing_token,
            revision: self.revision,
            state: self.state,
            strategy: self.strategy,
            checkpoint,
        }
    }
}

#[derive(Clone, Copy, Debug, PartialEq, Eq, Structural)]
pub enum LifecycleRecordError {
    EmptyWorkloadId,
    EmptyAssignedNode,
    InvalidCheckpoint,
    ZeroPlacementEpoch,
    ZeroFencingToken,
    ZeroRevision,
    WorkloadChanged,
    StaleFencingToken,
    RevisionDidNotAdvance,
    PlacementEpochRegressed,
    PlacementChangedWithoutEpochAdvance,
    CheckpointRequired,
    CheckpointNotAllowed,
}

/// The states that cannot be left again without the checkpoint they stand on.
pub open spec fn needs_checkpoint(state: PersistedLifecycleState) -> bool {
    state == PersistedLifecycleState::Hibernated || state == PersistedLifecycleState::Restoring
}

/// The states in which a checkpoint may be recorded.
pub open spec fn allows_checkpoint(state: PersistedLifecycleState) -> bool {
    needs_checkpoint(state) || state == PersistedLifecycleState::Checkpointing
}

impl LifecycleRecord {
    /// The first thing that is wrong with the record on its own.
    pub open spec fn fault(self) -> Option<LifecycleRecordError> {
        if self.workload_id@.len() == 0 {
            Some(LifecycleRecordError::EmptyWorkloadId)
        } else if self.assigned_node@.len() == 0 {
            Some(LifecycleRecordError::EmptyAssignedNode)
        } else if self.placement_epoch == 0 {
            Some(LifecycleRecordError::ZeroPlacementEpoch)
        } else if self.fencing_token == 0 {
            Some(LifecycleRecordError::ZeroFencingToken)
        } else if self.revision == 0 {
            Some(LifecycleRecordError::ZeroRevision)
        } else if self.checkpoint is Some && !self.checkpoint->0.identified() {
            Some(LifecycleRecordError::InvalidCheckpoint)
        } else if needs_checkpoint(self.state) && self.checkpoint is None {
            Some(LifecycleRecordError::CheckpointRequired)
        } else if !allows_checkpoint(self.state) && self.checkpoint is Some {
            Some(LifecycleRecordError::CheckpointNotAllowed)
        } else {
            None
        }
    }

    /// The record stands for a state that a controller may rely on.
    pub open spec fn valid(self) -> bool {
        self.fault() is None
    }

    /// The record places its workload on `node` in `placement_epoch` and was written
    /// under `fencing_token`.
    pub open spec fn authorizes(
        self,
        node: Seq<char>,
        placement_epoch: u64,
        fencing_token: u64,
    ) -> bool {
        self.assigned_node@ == node && self.placement_epoch == placement_epoch
            && self.fencing_token == fencing_token
    }

    pub fn validate(&self) -> (outcome: Result<(), LifecycleRecordError>)
        ensures
            outcome == (match self.fault() {
                Some(fault) => Err::<(), LifecycleRecordError>(fault),
                None => Ok(()),
            }),
    {
        if self.workload_id.as_str().is_empty() {
            return Err(LifecycleRecordError::EmptyWorkloadId);
        }
        if self.assigned_node.as_str().is_empty() {
            return Err(LifecycleRecordError::EmptyAssignedNode);
        }
        if self.placement_epoch == 0 {
            return Err(LifecycleRecordError::ZeroPlacementEpoch);
        }
        if self.fencing_token == 0 {
            return Err(LifecycleRecordError::ZeroFencingToken);
        }
        if self.revision == 0 {
            return Err(LifecycleRecordError::ZeroRevision);
        }
        if let Some(checkpoint) = &self.checkpoint {
            if checkpoint.artifact_ref.as_str().is_empty() || checkpoint.digest.as_str().is_empty()
                || checkpoint.format.as_str().is_empty() {
                return Err(LifecycleRecordError::InvalidCheckpoint);
            }
        }
        match self.state {
            PersistedLifecycleState::Hibernated | PersistedLifecycleState::Restoring => {
                if self.checkpoint.is_none() {
                    return Err(LifecycleRecordError::CheckpointRequired);
                }
            },
            PersistedLifecycleState::Running
            | PersistedLifecycleState::Quiescing
            | PersistedLifecycleState::Freezing
            | PersistedLifecycleState::Frozen
            | PersistedLifecycleState::Thawing => {
                if self.checkpoint.is_some() {
                    return Err(LifecycleRecordError::CheckpointNotAllowed);
                }
            },
            PersistedLifecycleState::Checkpointing => {},
        }
        Ok(())
    }

    /// A host may perform a local process effect only while it still owns the
    /// record's placement and the record was written under its current fence.
    #[must_use]
    pub fn authorizes_controller(
        &self,
        node: &str,
        placement_epoch: u64,
        fencing_token: u64,
    ) -> (authorized: bool)
        ensures
            authorized == self.authorizes(node@, placement_epoch, fencing_token),
    {
        same_text(self.assigned_node.as_str(), node) && self.placement_epoch == placement_epoch
            && self.fencing_token == fencing_token
    }
}

/// The first reason why `next` may not replace `current`.
pub open spec fn update_fault(
    current: LifecycleRecord,
    next: LifecycleRecord,
) -> Option<LifecycleRecordError> {
    if !current.valid() {
        current.fault()
    } else if !next.valid() {
        next.fault()
    } else if next.workload_id@ != current.workload_id@ {
        Some(LifecycleRecordError::WorkloadChanged)
    } else if next.fencing_token < current.fencing_token {
        Some(LifecycleRecordError::StaleFencingToken)
    } else if next.revision <= current.revision {
        Some(LifecycleRecordError::RevisionDidNotAdvance)
    } else if next.placement_epoch < current.placement_epoch {
        Some(LifecycleRecordError::PlacementEpochRegressed)
    } else if next.assigned_node@ != current.assigned_node@ && next.placement_epoch
        <= current.placement_epoch {
        Some(LifecycleRecordError::PlacementChangedWithoutEpochAdvance)
    } else {
        None
    }
}

/// `next` may replace `current`.
pub open spec fn may_replace(current: LifecycleRecord, next: LifecycleRecord) -> bool {
    update_fault(current, next) is None
}

/// Validate an atomic compare-and-set replacement of one lifecycle record.
///
/// A strictly newer fence may continue from any prior revision. Reusing the same
/// fence is allowed for a multi-step transition, but the durable revision must
/// advance. Placement can only move forward, and moving nodes requires an epoch
/// increment so the prior host is unambiguously stale.
pub fn validate_record_update(current: &LifecycleRecord, next: &LifecycleRecord) -> (outcome:
    Result<(), LifecycleRecordError>)
    ensures
        outcome == (match update_fault(*current, *next) {
            Some(fault) => Err::<(), LifecycleRecordError>(fault),
            None => Ok(()),
        }),
{
    if let Err(fault) = current.validate() {
        return Err(fault);
    }
    if let Err(fault) = next.validate() {
        return Err(fault);
    }
    if !same_text(next.workload_id.as_str(), current.workload_id.as_str()) {
        return Err(LifecycleRecordError::WorkloadChanged);
    }
    if next.fencing_token < current.fencing_token {
        return Err(LifecycleRecordError::StaleFencingToken);
    }
    if next.revision <= current.revision {
        return Err(LifecycleRecordError::RevisionDidNotAdvance);
    }
    if next.placement_epoch < current.placement_epoch {
        return Err(LifecycleRecordError::PlacementEpochRegressed);
    }
    if !same_text(next.assigned_node.as_str(), current.assigned_node.as_str())
        && next.placement_epoch <= current.placement_epoch {
        return Err(LifecycleRecordError::PlacementChangedWithoutEpochAdvance);
    }
    Ok(())
}

/// What one replacement may do, an unbroken run of replacements may do too: the
/// workload stays, fence, revision and placement only move forward, and a move to
/// another node has advanced the placement.
pub proof fn law_replacements_compose(
    first: LifecycleRecord,
    second: LifecycleRecord,
    third: LifecycleRecord,
)
    requires
        may_replace(first, second),
        may_replace(second, third),
    ensures
        may_replace(first, third),
{
}

/// A record is never replaced by itself, and of two records at most one may replace
/// the other: a history has no cycles.
pub proof fn law_replacement_is_one_way(current: LifecycleRecord, next: LifecycleRecord)
    requires
        may_replace(current, next),
    ensures
        !may_replace(next, current),
        next != current,
{
}

/// Once a record has moved to another node, no replacement of it ever again
/// authorizes a controller in the old placement.
pub proof fn law_moved_workload_retires_old_host(
    current: LifecycleRecord,
    moved: LifecycleRecord,
    later: LifecycleRecord,
    fencing_token: u64,
)
    requires
        may_replace(current, moved),
        moved.assigned_node@ != current.assigned_node@,
        later == moved || may_replace(moved, later),
    ensures
        !later.authorizes(current.assigned_node@, current.placement_epoch, fencing_token),
{
}

/// A controller with an older fence than the record's can publish nothing.
pub proof fn law_stale_fence_publishes_nothing(current: LifecycleRecord, next: LifecycleRecord)
    requires
        next.fencing_token < current.fencing_token,
    ensures
        !may_replace(current, next),
{
}

/// In a valid record a thawing workload holds no checkpoint, and a restoring or
/// hibernated one holds an identified checkpoint.
pub proof fn law_wake_states_differ_by_checkpoint(record: LifecycleRecord)
    requires
        record.valid(),
    ensures
        record.state == PersistedLifecycleState::Thawing ==> record.checkpoint is None,
        record.state == PersistedLifecycleState::Running ==> record.checkpoint is None,
        needs_checkpoint(record.state) ==> record.checkpoint is Some
            && record.checkpoint->0.identified(),
{
}

/// No two states, and no two strategies, share a persisted name: what was written is what
/// is read back.
pub proof fn law_wire_names_are_distinct(
    a: PersistedLifecycleState,
    b: PersistedLifecycleState,
    c: PersistedSuspendStrategy,
    d: PersistedSuspendStrategy,
)
    ensures
        a.wire_text() == b.wire_text() ==> a == b,
        c.wire_text() == d.wire_text() ==> c == d,
{
    reveal_strlit("running");
    reveal_strlit("quiescing");
    reveal_strlit("freezing");
    reveal_strlit("frozen");
    reveal_strlit("checkpointing");
    reveal_strlit("hibernated");
    reveal_strlit("thawing");
    reveal_strlit("restoring");
    reveal_strlit("freeze");
    reveal_strlit("hibernate");
    assert("running"@[0] == 'r' && "restoring"@[0] == 'r' && "running"@.len() == 7);
    assert("restoring"@.len() == 9 && "quiescing"@.len() == 9 && "quiescing"@[0] == 'q');
    assert("freezing"@.len() == 8 && "frozen"@.len() == 6 && "checkpointing"@.len() == 13);
    assert("freeze"@.len() == 6 && "hibernate"@.len() == 9);
    assert("hibernated"@.len() == 10 && "thawing"@.len() == 7 && "thawing"@[0] == 't');
}

/// A record is valid exactly where nothing of it is missing and it holds a checkpoint, a
/// whole one, where its state stands on one and none where its state does not know one.
pub proof fn law_valid_records(record: LifecycleRecord)
    ensures
        record.valid() <==> {
            &&& record.workload_id@.len() > 0 && record.assigned_node@.len() > 0
            &&& record.placement_epoch >= 1 && record.fencing_token >= 1 && record.revision >= 1
            &&& match record.checkpoint {
                Some(checkpoint) => {
                    &&& checkpoint.artifact_ref@.len() > 0
                    &&& checkpoint.digest@.len() > 0
                    &&& checkpoint.format@.len() > 0
                    &&& record.state == PersistedLifecycleState::Checkpointing || record.state
                        == PersistedLifecycleState::Hibernated || record.state
                        == PersistedLifecycleState::Restoring
                },
                None => record.state != PersistedLifecycleState::Hibernated && record.state
                    != PersistedLifecycleState::Restoring,
            }
        },
{
}

/// Each fault is reported only of a record that has it, and the faults of what is missing come
/// before those of the checkpoint.
pub proof fn law_record_faults_are_true(record: LifecycleRecord)
    ensures
        match record.fault() {
            None => true,
            Some(LifecycleRecordError::EmptyWorkloadId) => record.workload_id@.len() == 0,
            Some(LifecycleRecordError::EmptyAssignedNode) => record.assigned_node@.len() == 0
                && record.workload_id@.len() > 0,
            Some(LifecycleRecordError::ZeroPlacementEpoch) => record.placement_epoch == 0
                && record.workload_id@.len() > 0 && record.assigned_node@.len() > 0,
            Some(LifecycleRecordError::ZeroFencingToken) => record.fencing_token == 0
                && record.placement_epoch > 0 && record.workload_id@.len() > 0
                && record.assigned_node@.len() > 0,
            Some(LifecycleRecordError::ZeroRevision) => record.revision == 0
                && record.fencing_token > 0 && record.placement_epoch > 0
                && record.workload_id@.len() > 0 && record.assigned_node@.len() > 0,
            Some(fault) => {
                &&& record.workload_id@.len() > 0 && record.assigned_node@.len() > 0
                &&& record.placement_epoch > 0 && record.fencing_token > 0 && record.revision > 0
                &&& match fault {
                    LifecycleRecordError::InvalidCheckpoint => record.checkpoint matches Some(
                        checkpoint,
                    ) && (checkpoint.artifact_ref@.len() == 0 || checkpoint.digest@.len() == 0
                        || checkpoint.format@.len() == 0),
                    LifecycleRecordError::CheckpointRequired => record.checkpoint is None && (
                    record.state == PersistedLifecycleState::Hibernated || record.state
                        == PersistedLifecycleState::Restoring),
                    LifecycleRecordError::CheckpointNotAllowed => record.checkpoint matches Some(
                        checkpoint,
                    ) && checkpoint.artifact_ref@.len() > 0 && checkpoint.digest@.len() > 0
                        && checkpoint.format@.len() > 0 && record.state
                        != PersistedLifecycleState::Checkpointing && record.state
                        != PersistedLifecycleState::Hibernated && record.state
                        != PersistedLifecycleState::Restoring,
                    _ => false,
                }
            },
        },
{
}

/// One record may replace another exactly where both are valid and speak of one workload, the
/// fence and the placement do not go back, the revision goes forward, and a move to another
/// node has a new placement.
pub proof fn law_what_may_replace(current: LifecycleRecord, next: LifecycleRecord)
    ensures
        may_replace(current, next) <==> {
            &&& current.valid() && next.valid()
            &&& current.workload_id@ == next.workload_id@
            &&& current.fencing_token <= next.fencing_token
            &&& current.revision < next.revision
            &&& current.placement_epoch < next.placement_epoch || (current.placement_epoch
                == next.placement_epoch && current.assigned_node@ == next.assigned_node@)
        },
{
}

/// Each reason against a replacement is given only where it holds; an invalid record is
/// reported by its own fault, the current one first.
pub proof fn law_replacement_faults_are_true(current: LifecycleRecord, next: LifecycleRecord)
    ensures
        !current.valid() ==> update_fault(current, next) == current.fault(),
        current.valid() && !next.valid() ==> update_fault(current, next) == next.fault(),
        current.valid() && next.valid() ==> {
            let moved = current.assigned_node@ != next.assigned_node@;
            let other = current.workload_id@ != next.workload_id@;
            let staler = next.fencing_token < current.fencing_token;
            let stuck = next.revision <= current.revision;
            let back = next.placement_epoch < current.placement_epoch;
            match update_fault(current, next) {
                None => !other && !staler && !stuck && !back,
                Some(LifecycleRecordError::WorkloadChanged) => other,
                Some(LifecycleRecordError::StaleFencingToken) => staler && !other,
                Some(LifecycleRecordError::RevisionDidNotAdvance) => stuck && !other && !staler,
                Some(LifecycleRecordError::PlacementEpochRegressed) => back && !other && !staler
                    && !stuck,
                Some(LifecycleRecordError::PlacementChangedWithoutEpochAdvance) => moved && !other
                    && !staler && !stuck && next.placement_epoch == current.placement_epoch,
                Some(_) => false,
            }
        },
{
}

/// A record authorizes one node in one placement under one fence, and no other.
pub proof fn law_who_is_authorized(
    record: LifecycleRecord,
    node: Seq<char>,
    placement_epoch: u64,
    fencing_token: u64,
)
    ensures
        record.authorizes(record.assigned_node@, record.placement_epoch, record.fencing_token),
        record.authorizes(node, placement_epoch, fencing_token) ==> node == record.assigned_node@
            && placement_epoch == record.placement_epoch && fencing_token == record.fencing_token,
{
}

/// The names by which records are persisted.
pub proof fn law_wire_names(state: PersistedLifecycleState, strategy: PersistedSuspendStrategy)
    ensures
        state.wire_text() == "running"@ <==> state == PersistedLifecycleState::Running,
        state.wire_text() == "quiescing"@ <==> state == PersistedLifecycleState::Quiescing,
        state.wire_text() == "freezing"@ <==> state == PersistedLifecycleState::Freezing,
        state.wire_text() == "frozen"@ <==> state == PersistedLifecycleState::Frozen,
        state.wire_text() == "checkpointing"@ <==> state == PersistedLifecycleState::Checkpointing,
        state.wire_text() == "hibernated"@ <==> state == PersistedLifecycleState::Hibernated,
        state.wire_text() == "thawing"@ <==> state == PersistedLifecycleState::Thawing,
        state.wire_text() == "restoring"@ <==> state == PersistedLifecycleState::Restoring,
        strategy.wire_text() == "freeze"@ <==> strategy == PersistedSuspendStrategy::Freeze,
        strategy.wire_text() == "hibernate"@ <==> strategy == PersistedSuspendStrategy::Hibernate,
{
    let freeze = PersistedSuspendStrategy::Freeze;
    let hibernate = PersistedSuspendStrategy::Hibernate;
    law_wire_names_are_distinct(state, PersistedLifecycleState::Running, strategy, freeze);
    law_wire_names_are_distinct(state, PersistedLifecycleState::Quiescing, strategy, hibernate);
    law_wire_names_are_distinct(state, PersistedLifecycleState::Freezing, strategy, freeze);
    law_wire_names_are_distinct(state, PersistedLifecycleState::Frozen, strategy, freeze);
    law_wire_names_are_distinct(state, PersistedLifecycleState::Checkpointing, strategy, freeze);
    law_wire_names_are_distinct(state, PersistedLifecycleState::Hibernated, strategy, freeze);
    law_wire_names_are_distinct(state, PersistedLifecycleState::Thawing, strategy, freeze);
    law_wire_names_are_distinct(state, PersistedLifecycleState::Restoring, strategy, freeze);
}

} // verus!
