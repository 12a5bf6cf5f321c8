//! Workspace sync: envelope sequencing on the sending side, batch validation and
//! replay planning on the receiving side.
use vstd::prelude::*;

use crate::text::{copy_str, push_char, string_from_chars, to_chars};
use crate::timefmt::{decimal, push_decimal};

verus! {

/// A sync command stamped with its workspace sequence number.
#[derive(Debug, Clone)]
pub struct SyncEnvelope<C> {
    pub sequence: u64,
    pub workspace_id: String,
    pub timestamp: String,
    pub command: C,
}

/// One POST of envelopes (possibly empty, as a heartbeat).
#[derive(Debug, Clone)]
pub struct SyncBatchRequest<C> {
    pub commands: Vec<SyncEnvelope<C>>,
}

/// Allocates contiguous sequence numbers to outgoing sync commands.
#[derive(Debug)]
pub struct SyncSequencer {
    pub next_sequence: u64,
}

impl SyncSequencer {
    /// The allocator restored from the persisted next sequence (`None` when nothing was
    /// persisted yet); numbering never starts below 1.
    pub fn restore(persisted_next: Option<u64>) -> (r: SyncSequencer)
        ensures
            r.next_sequence == match persisted_next {
                Some(n) => if n >= 1 { n } else { 1 },
                None => 1,
            },
    {
        match persisted_next {
            Some(n) => SyncSequencer { next_sequence: if n >= 1 { n } else { 1 } },
            None => SyncSequencer { next_sequence: 1 },
        }
    }

    /// Stamps `commands` with consecutive sequences starting at the next free one.
    /// The caller persists the new `next_sequence` before sending.
    pub fn allocate_envelopes<C>(
        &mut self,
        commands: Vec<C>,
        workspace_id: &String,
        timestamp: &String,
    ) -> (r: Vec<SyncEnvelope<C>>)
        requires
            old(self).next_sequence + commands@.len() <= u64::MAX,
        ensures
            final(self).next_sequence == old(self).next_sequence + commands@.len(),
            r@.len() == commands@.len(),
            forall|i: int|
                0 <= i < r@.len() ==> (#[trigger] r@[i]).sequence == old(self).next_sequence + i
                    && r@[i].workspace_id@ == workspace_id@ && r@[i].timestamp@ == timestamp@
                    && r@[i].command == commands@[i],
    {
        let start = self.next_sequence;
        let n = commands.len();
        let ghost cmds = commands@;
        let mut out: Vec<SyncEnvelope<C>> = Vec::new();
        let mut seq: u64 = start;
        for command in it: commands
            invariant
                it.seq() == cmds,
                n == cmds.len(),
                start + n <= u64::MAX,
                out@.len() == it.index(),
                seq == start + it.index(),
                forall|i: int|
                    0 <= i < out@.len() ==> (#[trigger] out@[i]).sequence == start + i
                        && out@[i].workspace_id@ == workspace_id@ && out@[i].timestamp@
                        == timestamp@ && out@[i].command == cmds[i],
        {
            out.push(
                SyncEnvelope {
                    sequence: seq,
                    workspace_id: workspace_id.clone(),
                    timestamp: timestamp.clone(),
                    command,
                },
            );
            seq = seq + 1;
        }
        self.next_sequence = start + n as u64;
        out
    }
}


/// The workspace a sync token belongs to, with the mission it serves and how far the
/// control plane has applied its commands.
#[derive(Debug, Clone, PartialEq, Eq)]
pub struct WorkspaceSyncTarget {
    pub workspace_id: String,
    pub mission_id: Option<String>,
    pub acked_through: u64,
}

/// Why a sync batch is refused.
#[derive(Debug, Clone, PartialEq, Eq)]
pub enum SyncBatchError {
    WorkspaceMismatch { expected_workspace: String, got_workspace: String },
    NonContiguous { expected: u64, got: u64 },
    SequenceGap { expected: u64, got: u64 },
    OverlapsAcked { acked: u64, restart: u64 },
}

/// The first problem found at envelope `i`, if any: a foreign workspace, or a sequence
/// that does not follow the previous envelope's.
pub open spec fn fault_at<C>(ws: Seq<char>, envs: Seq<SyncEnvelope<C>>, i: int) -> Option<SyncBatchError> {
    if envs[i].workspace_id@ != ws {
        Some(SyncBatchError::WorkspaceMismatch { expected_workspace: arbitrary(), got_workspace: arbitrary() })
    } else if i > 0 && envs[i].sequence != envs[i - 1].sequence + 1 {
        Some(SyncBatchError::NonContiguous {
            expected: (envs[i - 1].sequence + 1) as u64,
            got: envs[i].sequence,
        })
    } else {
        None
    }
}

/// Index of the first faulty envelope among the first `n`.
pub open spec fn first_fault<C>(ws: Seq<char>, envs: Seq<SyncEnvelope<C>>, n: nat) -> Option<int>
    decreases n,
{
    if n == 0 {
        None
    } else {
        match first_fault(ws, envs, (n - 1) as nat) {
            Some(k) => Some(k),
            None => if fault_at(ws, envs, n - 1) is Some {
                Some(n - 1)
            } else {
                None
            },
        }
    }
}

/// Whether a batch is accepted by the receiving side, and if not, which kind of error
/// and with which numbers (workspace names of a mismatch are given separately).
pub open spec fn batch_verdict<C>(ws: Seq<char>, acked: u64, envs: Seq<SyncEnvelope<C>>) -> Result<(), SyncBatchError> {
    match first_fault(ws, envs, envs.len()) {
        Some(i) => Err(fault_at(ws, envs, i)->Some_0),
        None => {
            let first = if envs.len() > 0 { envs[0].sequence } else { acked };
            if first > acked + 1 {
                Err(SyncBatchError::SequenceGap { expected: (acked + 1) as u64, got: first })
            } else if first <= acked && exists|j: int| 0 <= j < envs.len() && #[trigger] envs[j].sequence > acked {
                Err(SyncBatchError::OverlapsAcked { acked, restart: (acked + 1) as u64 })
            } else {
                Ok(())
            }
        },
    }
}

/// The same verdict, with mismatch errors compared only by kind.
pub open spec fn same_verdict(a: Result<(), SyncBatchError>, b: Result<(), SyncBatchError>) -> bool {
    match (a, b) {
        (Ok(()), Ok(())) => true,
        (Err(SyncBatchError::WorkspaceMismatch { .. }), Err(SyncBatchError::WorkspaceMismatch { .. })) => true,
        (Err(x), Err(y)) => x == y && !(x is WorkspaceMismatch),
        _ => false,
    }
}

proof fn lemma_first_fault_none<C>(ws: Seq<char>, envs: Seq<SyncEnvelope<C>>, n: nat)
    requires
        n <= envs.len(),
        first_fault(ws, envs, n) is None,
    ensures
        forall|k: int| 0 <= k < n ==> fault_at(ws, envs, k) is None,
    decreases n,
{
    if n > 0 {
        lemma_first_fault_none(ws, envs, (n - 1) as nat);
    }
}

proof fn lemma_first_fault_stable<C>(ws: Seq<char>, envs: Seq<SyncEnvelope<C>>, n: nat, m: nat)
    requires
        n <= m,
        first_fault(ws, envs, n) is Some,
    ensures
        first_fault(ws, envs, m) == first_fault(ws, envs, n),
    decreases m,
{
    if n < m {
        lemma_first_fault_stable(ws, envs, n, (m - 1) as nat);
    }
}

/// Checks an incoming batch: every envelope belongs to the workspace, sequences are
/// contiguous, the batch starts no later than the next expected sequence, and a batch
/// that starts at or before the acknowledged sequence lies wholly within it.
pub fn validate_sync_batch<C>(
    target: &WorkspaceSyncTarget,
    current_acked: u64,
    envelopes: &Vec<SyncEnvelope<C>>,
) -> (r: Result<(), SyncBatchError>)
    requires
        current_acked < u64::MAX,
        forall|i: int| 0 <= i < envelopes@.len() ==> (#[trigger] envelopes@[i]).sequence < u64::MAX,
    ensures
        same_verdict(r, batch_verdict(target.workspace_id@, current_acked, envelopes@)),
        r matches Err(SyncBatchError::WorkspaceMismatch { expected_workspace, got_workspace })
            ==> expected_workspace == target.workspace_id && exists|i: int|
            0 <= i < envelopes@.len() && got_workspace == (#[trigger] envelopes@[i]).workspace_id,
{
    let ghost ws = target.workspace_id@;
    let ghost envs = envelopes@;
    let mut i: usize = 0;
    while i < envelopes.len()
        invariant
            i <= envelopes@.len(),
            envs == envelopes@,
            ws == target.workspace_id@,
            forall|k: int| 0 <= k < envelopes@.len() ==> (#[trigger] envelopes@[k]).sequence < u64::MAX,
            first_fault(ws, envs, i as nat) is None,
        decreases envelopes.len() - i,
    {
        let env = &envelopes[i];
        if !crate::text::str_eq(env.workspace_id.as_str(), target.workspace_id.as_str()) {
            proof {
                assert(fault_at(ws, envs, i as int) is Some);
                assert(first_fault(ws, envs, (i + 1) as nat) == Some(i as int));
                lemma_first_fault_stable(ws, envs, (i + 1) as nat, envs.len());
            }
            return Err(
                SyncBatchError::WorkspaceMismatch {
                    expected_workspace: target.workspace_id.clone(),
                    got_workspace: env.workspace_id.clone(),
                },
            );
        }
        if i > 0 {
            let previous = envelopes[i - 1].sequence;
            if env.sequence != previous + 1 {
                proof {
                    assert(first_fault(ws, envs, (i + 1) as nat) == Some(i as int));
                    lemma_first_fault_stable(ws, envs, (i + 1) as nat, envs.len());
                }
                return Err(SyncBatchError::NonContiguous { expected: previous + 1, got: env.sequence });
            }
        }
        proof {
            assert(fault_at(ws, envs, i as int) is None);
        }
        i = i + 1;
    }
    let first_sequence: u64 = if envelopes.len() > 0 { envelopes[0].sequence } else { current_acked };
    let expected_next = current_acked + 1;
    if first_sequence > expected_next {
        return Err(SyncBatchError::SequenceGap { expected: expected_next, got: first_sequence });
    }
    if first_sequence <= current_acked {
        let mut j: usize = 0;
        while j < envelopes.len()
            invariant
                j <= envelopes@.len(),
                envs == envelopes@,
                ws == target.workspace_id@,
                first_fault(ws, envs, envs.len()) is None,
                first_sequence <= current_acked,
                first_sequence == if envs.len() > 0 { envs[0].sequence } else { current_acked },
                expected_next == current_acked + 1,
                forall|k: int| 0 <= k < j ==> (#[trigger] envelopes@[k]).sequence <= current_acked,
            decreases envelopes.len() - j,
        {
            if envelopes[j].sequence > current_acked {
                assert(envs[j as int].sequence > current_acked);
                return Err(SyncBatchError::OverlapsAcked { acked: current_acked, restart: expected_next });
            }
            j = j + 1;
        }
    }
    Ok(())
}

impl SyncBatchError {
    /// Human readable description of the error.
    pub fn message(&self) -> (r: String)
        ensures
            match self {
                SyncBatchError::WorkspaceMismatch { expected_workspace, got_workspace } => r@
                    == "workspace mismatch: expected "@ + expected_workspace@ + ", got "@ + got_workspace@,
                SyncBatchError::NonContiguous { expected, got } => r@ == "non-contiguous sequence: expected "@
                    + decimal(*expected as nat) + ", got "@ + decimal(*got as nat),
                SyncBatchError::SequenceGap { expected, got } => r@ == "sequence gap: expected "@
                    + decimal(*expected as nat) + ", got "@ + decimal(*got as nat),
                SyncBatchError::OverlapsAcked { acked, restart } => r@
                    == "batch overlaps already-acked sequence "@ + decimal(*acked as nat)
                    + " and must restart at "@ + decimal(*restart as nat),
            },
    {
        match self {
            SyncBatchError::WorkspaceMismatch { expected_workspace, got_workspace } => {
                let mut r = copy_str("workspace mismatch: expected ");
                r.append(expected_workspace.as_str());
                r.append(", got ");
                r.append(got_workspace.as_str());
                r
            },
            SyncBatchError::NonContiguous { expected, got } => {
                let mut r = copy_str("non-contiguous sequence: expected ");
                append_decimal(&mut r, *expected);
                r.append(", got ");
                append_decimal(&mut r, *got);
                r
            },
            SyncBatchError::SequenceGap { expected, got } => {
                let mut r = copy_str("sequence gap: expected ");
                append_decimal(&mut r, *expected);
                r.append(", got ");
                append_decimal(&mut r, *got);
                r
            },
            SyncBatchError::OverlapsAcked { acked, restart } => {
                let mut r = copy_str("batch overlaps already-acked sequence ");
                append_decimal(&mut r, *acked);
                r.append(" and must restart at ");
                append_decimal(&mut r, *restart);
                r
            },
        }
    }
}

/// Appends the decimal digits of `n`.
pub fn append_decimal(s: &mut String, n: u64)
    ensures
        final(s)@ == old(s)@ + decimal(n as nat),
{
    let mut digits: Vec<char> = Vec::new();
    push_decimal(&mut digits, n);
    let mut i: usize = 0;
    while i < digits.len()
        invariant
            i <= digits@.len(),
            digits@ == decimal(n as nat),
            s@ == old(s)@ + digits@.subrange(0, i as int),
        decreases digits.len() - i,
    {
        push_char(s, digits[i]);
        assert(digits@.subrange(0, i + 1) == digits@.subrange(0, i as int).push(digits@[i as int]));
        i = i + 1;
    }
    assert(digits@.subrange(0, digits@.len() as int) == digits@);
}


/// Indices (in order) of the first `n` envelopes that are not yet acknowledged.
pub open spec fn fresh_indices<C>(envs: Seq<SyncEnvelope<C>>, acked: u64, n: nat) -> Seq<int>
    decreases n,
{
    if n == 0 {
        Seq::empty()
    } else {
        let prev = fresh_indices(envs, acked, (n - 1) as nat);
        if envs[n - 1].sequence > acked {
            prev.push(n - 1)
        } else {
            prev
        }
    }
}

/// Acknowledged sequence after replaying the fresh envelopes of a batch.
pub open spec fn replay_acked<C>(envs: Seq<SyncEnvelope<C>>, acked: u64) -> u64 {
    let fresh = fresh_indices(envs, acked, envs.len());
    if fresh.len() == 0 {
        acked
    } else {
        envs[fresh.last()].sequence
    }
}

/// Which envelopes of an accepted batch to replay, and the acknowledgement that results.
#[derive(Debug, Clone, PartialEq, Eq)]
pub struct SyncReplayPlan {
    pub apply: Vec<usize>,
    pub acked_through: u64,
}

/// Validates a batch and plans its replay: envelopes already acknowledged are skipped,
/// and the acknowledgement advances to the last replayed sequence.
pub fn plan_workspace_sync_batch<C>(
    target: &WorkspaceSyncTarget,
    current_acked: u64,
    envelopes: &Vec<SyncEnvelope<C>>,
) -> (r: Result<SyncReplayPlan, SyncBatchError>)
    requires
        current_acked < u64::MAX,
        forall|i: int| 0 <= i < envelopes@.len() ==> (#[trigger] envelopes@[i]).sequence < u64::MAX,
    ensures
        envelopes@.len() == 0 ==> (r matches Ok(p) && p.apply@.len() == 0 && p.acked_through
            == current_acked),
        match r {
            Ok(plan) => batch_verdict(target.workspace_id@, current_acked, envelopes@) is Ok
                && plan.apply@.len() == fresh_indices(envelopes@, current_acked, envelopes@.len()).len()
                && (forall|k: int|
                0 <= k < plan.apply@.len() ==> plan.apply@[k] as int == fresh_indices(
                    envelopes@,
                    current_acked,
                    envelopes@.len(),
                )[k]) && plan.acked_through == replay_acked(envelopes@, current_acked),
            Err(e) => same_verdict(Err(e), batch_verdict(target.workspace_id@, current_acked, envelopes@)),
        },
{
    if envelopes.len() == 0 {
        return Ok(SyncReplayPlan { apply: Vec::new(), acked_through: current_acked });
    }
    match validate_sync_batch(target, current_acked, envelopes) {
        Err(e) => Err(e),
        Ok(()) => {
            let mut apply: Vec<usize> = Vec::new();
            let mut acked_through: u64 = current_acked;
            let mut i: usize = 0;
            while i < envelopes.len()
                invariant
                    i <= envelopes@.len(),
                    apply@.len() == fresh_indices(envelopes@, current_acked, i as nat).len(),
                    forall|k: int|
                        0 <= k < apply@.len() ==> apply@[k] as int == fresh_indices(
                            envelopes@,
                            current_acked,
                            i as nat,
                        )[k],
                    acked_through == if apply@.len() == 0 {
                        current_acked
                    } else {
                        envelopes@[fresh_indices(envelopes@, current_acked, i as nat).last()].sequence
                    },
                decreases envelopes.len() - i,
            {
                if envelopes[i].sequence > current_acked {
                    apply.push(i);
                    acked_through = envelopes[i].sequence;
                }
                i = i + 1;
            }
            Ok(SyncReplayPlan { apply, acked_through })
        },
    }
}

/// Result of checking the control plane's acknowledgement of a posted batch.
#[derive(Debug, Clone, PartialEq, Eq)]
pub enum SyncAckCheck {
    /// The acknowledgement covers the batch (or the batch was empty).
    Covered,
    /// The server answered without an acknowledgement; accepted with a warning.
    MissingAck,
}

/// An acknowledgement that stops short of the batch's last sequence.
#[derive(Debug, Clone, PartialEq, Eq)]
pub struct SyncAckShortfall {
    pub acked_through: u64,
    pub last_sequence: u64,
}

impl SyncAckShortfall {
    /// Human readable description of the shortfall.
    pub fn message(&self) -> (r: String)
        ensures
            r@ == "sync acked through "@ + decimal(self.acked_through as nat)
                + ", but batch required at least "@ + decimal(self.last_sequence as nat),
    {
        let mut r = copy_str("sync acked through ");
        append_decimal(&mut r, self.acked_through);
        r.append(", but batch required at least ");
        append_decimal(&mut r, self.last_sequence);
        r
    }
}

/// Checks the acknowledgement returned for a batch whose last sequence is
/// `last_sequence` (`None` for an empty batch).
pub fn check_batch_ack(last_sequence: Option<u64>, acked_through: Option<u64>) -> (r: Result<
    SyncAckCheck,
    SyncAckShortfall,
>)
    ensures
        match last_sequence {
            None => r == Ok::<SyncAckCheck, SyncAckShortfall>(SyncAckCheck::Covered),
            Some(last) => match acked_through {
                Some(a) => if a >= last {
                    r == Ok::<SyncAckCheck, SyncAckShortfall>(SyncAckCheck::Covered)
                } else {
                    r == Err::<SyncAckCheck, SyncAckShortfall>(
                        SyncAckShortfall { acked_through: a, last_sequence: last },
                    )
                },
                None => r == Ok::<SyncAckCheck, SyncAckShortfall>(SyncAckCheck::MissingAck),
            },
        },
{
    match last_sequence {
        None => Ok(SyncAckCheck::Covered),
        Some(last) => match acked_through {
            Some(a) => if a >= last {
                Ok(SyncAckCheck::Covered)
            } else {
                Err(SyncAckShortfall { acked_through: a, last_sequence: last })
            },
            None => Ok(SyncAckCheck::MissingAck),
        },
    }
}

/// Envelopes as the sequencer produces them: one workspace, sequences `start, start+1, ...`.
pub open spec fn sequenced_from<C>(envs: Seq<SyncEnvelope<C>>, ws: Seq<char>, start: u64) -> bool {
    forall|i: int| 0 <= i < envs.len() ==> (#[trigger] envs[i]).workspace_id@ == ws && envs[i].sequence == start + i
}

proof fn lemma_sequenced_no_fault<C>(envs: Seq<SyncEnvelope<C>>, ws: Seq<char>, start: u64, n: nat)
    requires
        sequenced_from(envs, ws, start),
        n <= envs.len(),
    ensures
        first_fault(ws, envs, n) is None,
    decreases n,
{
    if n > 0 {
        lemma_sequenced_no_fault(envs, ws, start, (n - 1) as nat);
        let i = n - 1;
        assert(envs[i].workspace_id@ == ws);
        if i > 0 {
            assert(envs[i - 1].sequence == start + i - 1);
        }
    }
}

proof fn lemma_fresh_all<C>(envs: Seq<SyncEnvelope<C>>, acked: u64, n: nat)
    requires
        n <= envs.len(),
        forall|i: int| 0 <= i < envs.len() ==> (#[trigger] envs[i]).sequence > acked,
    ensures
        fresh_indices(envs, acked, n) == Seq::new(n, |i: int| i),
    decreases n,
{
    if n > 0 {
        lemma_fresh_all(envs, acked, (n - 1) as nat);
        assert(fresh_indices(envs, acked, n) =~= Seq::new(n, |i: int| i));
    } else {
        assert(fresh_indices(envs, acked, n) =~= Seq::new(n, |i: int| i));
    }
}

proof fn lemma_fresh_none<C>(envs: Seq<SyncEnvelope<C>>, acked: u64, n: nat)
    requires
        n <= envs.len(),
        forall|i: int| 0 <= i < envs.len() ==> (#[trigger] envs[i]).sequence <= acked,
    ensures
        fresh_indices(envs, acked, n).len() == 0,
    decreases n,
{
    if n > 0 {
        lemma_fresh_none(envs, acked, (n - 1) as nat);
    }
}

/// A batch sent right after the last acknowledged one is accepted whole: every envelope
/// is replayed and the acknowledgement moves to the batch's last sequence, which in turn
/// satisfies the sender's acknowledgement check.
pub proof fn next_batch_is_applied_whole<C>(envs: Seq<SyncEnvelope<C>>, ws: Seq<char>, acked: u64)
    requires
        envs.len() > 0,
        acked + envs.len() < u64::MAX,
        sequenced_from(envs, ws, (acked + 1) as u64),
    ensures
        batch_verdict(ws, acked, envs) is Ok,
        fresh_indices(envs, acked, envs.len()) == Seq::new(envs.len(), |i: int| i),
        replay_acked(envs, acked) == acked + envs.len(),
        replay_acked(envs, acked) >= envs.last().sequence,
{
    lemma_sequenced_no_fault(envs, ws, (acked + 1) as u64, envs.len());
    assert(envs[0].sequence == acked + 1);
    assert forall|i: int| 0 <= i < envs.len() implies (#[trigger] envs[i]).sequence > acked by {}
    lemma_fresh_all(envs, acked, envs.len());
    let fresh = fresh_indices(envs, acked, envs.len());
    assert(fresh.last() == envs.len() - 1);
    assert(envs[envs.len() - 1].sequence == acked + 1 + envs.len() - 1);
}

/// Re-sending a batch that was already acknowledged is harmless: it is accepted, nothing
/// is replayed and the acknowledgement stays where it was.
pub proof fn resent_batch_is_a_no_op<C>(envs: Seq<SyncEnvelope<C>>, ws: Seq<char>, start: u64, acked: u64)
    requires
        envs.len() > 0,
        sequenced_from(envs, ws, start),
        start + envs.len() - 1 <= acked,
        acked < u64::MAX,
    ensures
        batch_verdict(ws, acked, envs) is Ok,
        fresh_indices(envs, acked, envs.len()).len() == 0,
        replay_acked(envs, acked) == acked,
{
    lemma_sequenced_no_fault(envs, ws, start, envs.len());
    assert(envs[0].sequence == start);
    assert forall|i: int| 0 <= i < envs.len() implies (#[trigger] envs[i]).sequence <= acked by {}
    lemma_fresh_none(envs, acked, envs.len());
}

/// A batch that leaves a hole after the acknowledged sequence is refused as a gap.
pub proof fn skipping_batch_is_refused<C>(envs: Seq<SyncEnvelope<C>>, ws: Seq<char>, start: u64, acked: u64)
    requires
        envs.len() > 0,
        sequenced_from(envs, ws, start),
        start > acked + 1,
    ensures
        batch_verdict(ws, acked, envs) == Err::<(), SyncBatchError>(
            SyncBatchError::SequenceGap { expected: (acked + 1) as u64, got: start },
        ),
{
    lemma_sequenced_no_fault(envs, ws, start, envs.len());
    assert(envs[0].sequence == start);
}

/// Replaying never moves the acknowledgement backwards.
pub proof fn replay_never_lowers_ack<C>(envs: Seq<SyncEnvelope<C>>, acked: u64)
    ensures
        replay_acked(envs, acked) >= acked,
{
    lemma_fresh_members(envs, acked, envs.len());
}

proof fn lemma_fresh_members<C>(envs: Seq<SyncEnvelope<C>>, acked: u64, n: nat)
    ensures
        forall|k: int|
            0 <= k < fresh_indices(envs, acked, n).len() ==> envs[#[trigger] fresh_indices(envs, acked, n)[k]].sequence > acked,
    decreases n,
{
    if n > 0 {
        lemma_fresh_members(envs, acked, (n - 1) as nat);
        let prev = fresh_indices(envs, acked, (n - 1) as nat);
        let cur = fresh_indices(envs, acked, n);
        assert forall|k: int| 0 <= k < cur.len() implies envs[#[trigger] cur[k]].sequence > acked by {
            if k < prev.len() {
                assert(cur[k] == prev[k]);
            }
        }
    }
}

proof fn lemma_contiguous_below_last<C>(ws: Seq<char>, envs: Seq<SyncEnvelope<C>>, j: int)
    requires
        0 <= j < envs.len(),
        forall|k: int| 0 <= k < envs.len() ==> fault_at(ws, envs, k) is None,
    ensures
        envs[j].sequence <= envs[envs.len() - 1].sequence,
    decreases envs.len() - j,
{
    if j < envs.len() - 1 {
        assert(fault_at(ws, envs, j + 1) is None);
        lemma_contiguous_below_last(ws, envs, j + 1);
    }
}

/// Replaying an accepted batch leaves the acknowledgement at the larger of what was
/// acknowledged and the batch's last sequence.
pub proof fn replay_ack_is_max_of_ack_and_last<C>(envs: Seq<SyncEnvelope<C>>, ws: Seq<char>, acked: u64)
    requires
        envs.len() > 0,
        batch_verdict(ws, acked, envs) is Ok,
    ensures
        replay_acked(envs, acked) == (if envs.last().sequence > acked {
            envs.last().sequence
        } else {
            acked
        }),
{
    let n = envs.len();
    if envs[n - 1].sequence > acked {
        assert(fresh_indices(envs, acked, n) == fresh_indices(envs, acked, (n - 1) as nat).push(n - 1));
    } else {
        lemma_first_fault_none(ws, envs, n);
        assert forall|i: int| 0 <= i < envs.len() implies (#[trigger] envs[i]).sequence <= acked by {
            lemma_contiguous_below_last(ws, envs, i);
        }
        lemma_fresh_none(envs, acked, n);
    }
}


proof fn lemma_contiguous_from_first<C>(ws: Seq<char>, envs: Seq<SyncEnvelope<C>>, j: int)
    requires
        0 <= j < envs.len(),
        forall|k: int| 0 <= k < envs.len() ==> fault_at(ws, envs, k) is None,
    ensures
        envs[j].sequence == envs[0].sequence + j,
    decreases j,
{
    if j > 0 {
        assert(fault_at(ws, envs, j) is None);
        lemma_contiguous_from_first(ws, envs, j - 1);
    }
}

/// The whole replay of an accepted batch: a batch that starts right after the
/// acknowledgement is replayed envelope by envelope, in order; one acknowledged already
/// replays nothing. Only envelopes above the acknowledgement are replayed, and every one
/// of them is; the acknowledgement ends at the larger of what it was and the batch's last
/// sequence; and the same batch sent again afterwards is accepted, replays nothing and
/// leaves the acknowledgement where it is.
pub proof fn accepted_batch_replays_in_order<C>(envs: Seq<SyncEnvelope<C>>, ws: Seq<char>, acked: u64)
    requires
        envs.len() > 0,
        batch_verdict(ws, acked, envs) is Ok,
    ensures
        ({
            let fresh = fresh_indices(envs, acked, envs.len());
            &&& (envs[0].sequence == acked + 1 && fresh == Seq::new(envs.len(), |i: int| i))
                || (envs.last().sequence <= acked && fresh.len() == 0)
            &&& forall|k: int| 0 <= k < fresh.len() ==> envs[#[trigger] fresh[k]].sequence > acked
            &&& forall|i: int| 0 <= i < envs.len() && #[trigger] envs[i].sequence > acked ==> fresh.contains(i)
        }),
        replay_acked(envs, acked) == (if envs.last().sequence > acked {
            envs.last().sequence
        } else {
            acked
        }),
        batch_verdict(ws, replay_acked(envs, acked), envs) is Ok,
        fresh_indices(envs, replay_acked(envs, acked), envs.len()).len() == 0,
        replay_acked(envs, replay_acked(envs, acked)) == replay_acked(envs, acked),
{
    let n = envs.len();
    lemma_first_fault_none(ws, envs, n);
    lemma_fresh_members(envs, acked, n);
    replay_ack_is_max_of_ack_and_last(envs, ws, acked);
    let fresh = fresh_indices(envs, acked, n);
    if envs[0].sequence > acked {
        assert(envs[0].sequence == acked + 1);
        assert forall|i: int| 0 <= i < n implies (#[trigger] envs[i]).sequence > acked by {
            lemma_contiguous_from_first(ws, envs, i);
        }
        lemma_fresh_all(envs, acked, n);
        assert forall|i: int| 0 <= i < n && #[trigger] envs[i].sequence > acked implies fresh.contains(i) by {
            assert(fresh[i] == i);
        }
    } else {
        assert forall|i: int| 0 <= i < n implies (#[trigger] envs[i]).sequence <= acked by {
            if envs[i].sequence > acked {
                assert(exists|j: int| 0 <= j < n && #[trigger] envs[j].sequence > acked);
            }
        }
        lemma_fresh_none(envs, acked, n);
    }
    let a2 = replay_acked(envs, acked);
    assert forall|i: int| 0 <= i < n implies (#[trigger] envs[i]).sequence <= a2 by {
        lemma_contiguous_below_last(ws, envs, i);
    }
    lemma_fresh_none(envs, a2, n);
    assert(!(exists|j: int| 0 <= j < n && #[trigger] envs[j].sequence > a2));
}

/// The numbers a sequencer hands out over a run of `allocate_envelopes` calls: each
/// call numbers its `counts[j]` commands from where the previous call left the
/// sequencer, starting at `start`.
pub open spec fn numbers_handed_out(start: nat, counts: Seq<nat>) -> Seq<nat>
    decreases counts.len(),
{
    if counts.len() == 0 {
        Seq::empty()
    } else {
        Seq::new(counts[0], |i: int| (start + i) as nat) + numbers_handed_out(
            start + counts[0],
            counts.drop_first(),
        )
    }
}

/// Sequence numbers are never reused: over any run of allocations, the numbers handed
/// out rise strictly, none below where the sequencer started, and they end just below
/// where it stops.
pub proof fn sequence_numbers_are_never_reused(start: nat, counts: Seq<nat>)
    ensures
        forall|i: int, j: int|
            0 <= i < j < numbers_handed_out(start, counts).len() ==> #[trigger] numbers_handed_out(
                start,
                counts,
            )[i] < #[trigger] numbers_handed_out(start, counts)[j],
        forall|i: int|
            0 <= i < numbers_handed_out(start, counts).len() ==> start <= #[trigger] numbers_handed_out(
                start,
                counts,
            )[i] < start + numbers_handed_out(start, counts).len(),
    decreases counts.len(),
{
    if counts.len() > 0 {
        let rest_start = start + counts[0];
        sequence_numbers_are_never_reused(rest_start, counts.drop_first());
        let head = Seq::new(counts[0], |i: int| (start + i) as nat);
        let rest = numbers_handed_out(rest_start, counts.drop_first());
        let all = numbers_handed_out(start, counts);
        assert(all == head + rest);
        assert forall|i: int| 0 <= i < all.len() implies start <= #[trigger] all[i] < start + all.len() by {
            if i >= head.len() {
                assert(all[i] == rest[i - head.len()]);
            }
        }
        assert forall|i: int, j: int| 0 <= i < j < all.len() implies #[trigger] all[i] < #[trigger] all[j] by {
            if j < head.len() {
            } else if i < head.len() {
                assert(all[j] == rest[j - head.len()]);
            } else {
                assert(all[i] == rest[i - head.len()]);
                assert(all[j] == rest[j - head.len()]);
            }
        }
    }
}

} // verus!
