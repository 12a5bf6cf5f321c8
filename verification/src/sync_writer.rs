//! Decisions of the sync writer: batching of outgoing commands, heartbeats, and the
//! order in which spooled envelopes are re-sent.
use vstd::prelude::*;

use crate::sync::SyncSequencer;
use crate::text::{str_eq, string_from_range, to_chars};

verus! {

/// Default number of commands per sync POST.
pub const DEFAULT_BATCH_SIZE: usize = 50;

/// Default flush interval in milliseconds.
pub const DEFAULT_FLUSH_INTERVAL_MS: u64 = 100;

/// Default heartbeat interval in milliseconds.
pub const DEFAULT_HEARTBEAT_INTERVAL_MS: u64 = 10000;

/// Where and how a workspace syncs to the control plane.
#[derive(Debug, Clone)]
pub struct SyncWriterConfig {
    pub workspace_id: String,
    pub server_url: String,
    pub auth_token: String,
    pub spool_dir: String,
    pub batch_size: usize,
    pub flush_interval_ms: u64,
    pub heartbeat_interval_ms: u64,
}

/// `s` with every trailing `c` removed (`str::trim_end_matches` with a char).
pub open spec fn trim_end_char(s: Seq<char>, c: char) -> Seq<char>
    decreases s.len(),
{
    if s.len() > 0 && s.last() == c {
        trim_end_char(s.drop_last(), c)
    } else {
        s
    }
}

proof fn lemma_trim_end_char(s: Seq<char>, c: char, j: int)
    requires
        0 <= j <= s.len(),
        forall|k: int| j <= k < s.len() ==> #[trigger] s[k] == c,
    ensures
        trim_end_char(s, c) == trim_end_char(s.subrange(0, j), c),
    decreases s.len() - j,
{
    if j < s.len() {
        lemma_trim_end_char(s, c, j + 1);
        let t = s.subrange(0, j + 1);
        assert(t.drop_last() == s.subrange(0, j));
    } else {
        assert(s.subrange(0, s.len() as int) == s);
    }
}

impl SyncWriterConfig {
    /// Configuration with the default batch size and intervals; trailing slashes of the
    /// server URL are dropped. `spool_dir` is the workspace's spool directory.
    pub fn new(workspace_id: String, server_url: String, auth_token: String, spool_dir: String) -> (r:
        SyncWriterConfig)
        ensures
            r.workspace_id == workspace_id,
            r.server_url@ == trim_end_char(server_url@, '/'),
            r.auth_token == auth_token,
            r.spool_dir == spool_dir,
            r.batch_size == DEFAULT_BATCH_SIZE,
            r.flush_interval_ms == DEFAULT_FLUSH_INTERVAL_MS,
            r.heartbeat_interval_ms == DEFAULT_HEARTBEAT_INTERVAL_MS,
    {
        let chars = to_chars(server_url.as_str());
        let mut hi: usize = chars.len();
        while hi > 0 && chars[hi - 1] == '/'
            invariant
                hi <= chars@.len(),
                forall|k: int| hi <= k < chars@.len() ==> #[trigger] chars@[k] == '/',
            decreases hi,
        {
            hi = hi - 1;
        }
        proof {
            lemma_trim_end_char(chars@, '/', hi as int);
            let t = chars@.subrange(0, hi as int);
            if t.len() > 0 {
                assert(t.last() == chars@[hi - 1]);
            }
        }
        SyncWriterConfig {
            workspace_id,
            server_url: string_from_range(&chars, 0, hi),
            auth_token,
            spool_dir,
            batch_size: DEFAULT_BATCH_SIZE,
            flush_interval_ms: DEFAULT_FLUSH_INTERVAL_MS,
            heartbeat_interval_ms: DEFAULT_HEARTBEAT_INTERVAL_MS,
        }
    }
}

/// What the writer loop does after an event.
#[derive(Debug, Clone, Copy, PartialEq, Eq, Structural)]
pub enum SyncWriterAction {
    /// Nothing to send now.
    Wait,
    /// Send the pending commands.
    Flush,
    /// Send an empty batch as a liveness heartbeat.
    Heartbeat,
}

/// Pending commands and sequence state of a sync writer.
#[derive(Debug)]
pub struct SyncWriterCore<C> {
    pub pending: Vec<C>,
    pub batch_size: usize,
    pub sequencer: SyncSequencer,
}

impl<C> SyncWriterCore<C> {
    /// A writer with nothing pending.
    pub fn new(batch_size: usize, sequencer: SyncSequencer) -> (r: SyncWriterCore<C>)
        ensures
            r.pending@.len() == 0,
            r.batch_size == batch_size,
            r.sequencer == sequencer,
    {
        SyncWriterCore { pending: Vec::new(), batch_size, sequencer }
    }

    /// A command arrived: queue it; flush once a full batch is pending.
    pub fn on_command(&mut self, command: C) -> (r: SyncWriterAction)
        ensures
            final(self).pending@ == old(self).pending@.push(command),
            final(self).batch_size == old(self).batch_size,
            final(self).sequencer == old(self).sequencer,
            r == if final(self).pending@.len() >= old(self).batch_size {
                SyncWriterAction::Flush
            } else {
                SyncWriterAction::Wait
            },
    {
        self.pending.push(command);
        if self.pending.len() >= self.batch_size {
            SyncWriterAction::Flush
        } else {
            SyncWriterAction::Wait
        }
    }

    /// The flush timer fired: flush only when something is pending.
    pub fn on_flush_tick(&self) -> (r: SyncWriterAction)
        ensures
            r == if self.pending@.len() > 0 {
                SyncWriterAction::Flush
            } else {
                SyncWriterAction::Wait
            },
    {
        if self.pending.len() > 0 {
            SyncWriterAction::Flush
        } else {
            SyncWriterAction::Wait
        }
    }

    /// The heartbeat timer fired: send a heartbeat only when nothing is pending.
    pub fn on_heartbeat_tick(&self) -> (r: SyncWriterAction)
        ensures
            r == if self.pending@.len() == 0 {
                SyncWriterAction::Heartbeat
            } else {
                SyncWriterAction::Wait
            },
    {
        if self.pending.len() == 0 {
            SyncWriterAction::Heartbeat
        } else {
            SyncWriterAction::Wait
        }
    }

    /// Takes every pending command for sending, leaving none pending.
    pub fn take_pending(&mut self) -> (r: Vec<C>)
        ensures
            r@ == old(self).pending@,
            final(self).pending@.len() == 0,
            final(self).batch_size == old(self).batch_size,
            final(self).sequencer == old(self).sequencer,
    {
        let mut taken: Vec<C> = Vec::new();
        core::mem::swap(&mut taken, &mut self.pending);
        taken
    }
}

/// `order` lists every index of `keys` once, by ascending key, ties in index order.
pub open spec fn stably_sorted(keys: Seq<u64>, order: Seq<usize>) -> bool {
    &&& order.len() == keys.len()
    &&& forall|i: int| 0 <= i < order.len() ==> (#[trigger] order[i]) < keys.len()
    &&& forall|i: int, j: int|
        0 <= i < j < order.len() ==> keys[#[trigger] order[i] as int] < keys[#[trigger] order[j] as int] || (
        keys[order[i] as int] == keys[order[j] as int] && order[i] < order[j])
}

/// Indices of `keys` in ascending key order; equal keys keep their original order.
pub fn stable_order_by_key(keys: &Vec<u64>) -> (r: Vec<usize>)
    ensures
        stably_sorted(keys@, r@),
{
    let n = keys.len();
    let mut order: Vec<usize> = Vec::new();
    let mut i: usize = 0;
    while i < n
        invariant
            n == keys@.len(),
            i <= n,
            order@.len() == i,
            forall|a: int| 0 <= a < order@.len() ==> (#[trigger] order@[a]) < i,
            forall|a: int, b: int|
                0 <= a < b < order@.len() ==> keys@[#[trigger] order@[a] as int] < keys@[#[trigger] order@[b] as int]
                    || (keys@[order@[a] as int] == keys@[order@[b] as int] && order@[a] < order@[b]),
        decreases n - i,
    {
        let key = keys[i];
        let mut p: usize = 0;
        while p < order.len() && keys[order[p]] <= key
            invariant
                p <= order@.len(),
                forall|a: int| 0 <= a < order@.len() ==> (#[trigger] order@[a]) < i,
                i < n == keys@.len(),
                key == keys@[i as int],
                forall|a: int| 0 <= a < p ==> keys@[#[trigger] order@[a] as int] <= key,
            decreases order@.len() - p,
        {
            p = p + 1;
        }
        proof {
            if p < order@.len() {
                assert(keys@[order@[p as int] as int] > key);
                assert forall|a: int| p <= a < order@.len() implies keys@[#[trigger] order@[a] as int] > key by {
                    if a > p {
                        assert(keys@[order@[p as int] as int] < keys@[order@[a] as int] || keys@[order@[p as int] as int] == keys@[order@[a] as int]);
                    }
                }
            }
        }
        let ghost old_order = order@;
        order.insert(p, i);
        proof {
            assert forall|a: int| 0 <= a < order@.len() implies (#[trigger] order@[a]) < i + 1 by {
                if a < p {
                    assert(order@[a] == old_order[a]);
                } else if a > p {
                    assert(order@[a] == old_order[a - 1]);
                }
            }
            assert forall|a: int, b: int|
                0 <= a < b < order@.len() implies keys@[#[trigger] order@[a] as int] < keys@[#[trigger] order@[b] as int]
                    || (keys@[order@[a] as int] == keys@[order@[b] as int] && order@[a] < order@[b]) by {
                if b < p {
                    assert(order@[a] == old_order[a] && order@[b] == old_order[b]);
                } else if b == p {
                    assert(order@[a] == old_order[a]);
                } else if a < p {
                    assert(order@[a] == old_order[a] && order@[b] == old_order[b - 1]);
                } else if a == p {
                    assert(order@[b] == old_order[b - 1]);
                } else {
                    assert(order@[a] == old_order[a - 1] && order@[b] == old_order[b - 1]);
                }
            }
        }
        i = i + 1;
    }
    order
}

/// Concatenation of a sequence of batches.
pub open spec fn concat_batches(bs: Seq<Seq<usize>>) -> Seq<usize>
    decreases bs.len(),
{
    if bs.len() == 0 {
        Seq::empty()
    } else {
        concat_batches(bs.drop_last()) + bs.last()
    }
}

/// View of each inner vector.
pub open spec fn batch_views(bs: Seq<Vec<usize>>) -> Seq<Seq<usize>> {
    Seq::new(bs.len(), |k: int| bs[k]@)
}

/// Order in which spooled envelopes are re-sent: by ascending sequence (ties in the
/// order they were found), in batches of `batch_size`, all full except possibly the last.
pub fn plan_spool_drain(sequences: &Vec<u64>, batch_size: usize) -> (r: Vec<Vec<usize>>)
    requires
        batch_size > 0,
    ensures
        stably_sorted(sequences@, concat_batches(batch_views(r@))),
        forall|k: int| 0 <= k < r@.len() ==> 0 < (#[trigger] r@[k])@.len() <= batch_size,
        forall|k: int| 0 <= k < r@.len() - 1 ==> (#[trigger] r@[k])@.len() == batch_size,
{
    let order = stable_order_by_key(sequences);
    let mut batches: Vec<Vec<usize>> = Vec::new();
    let mut cur: Vec<usize> = Vec::new();
    let mut i: usize = 0;
    while i < order.len()
        invariant
            i <= order@.len(),
            stably_sorted(sequences@, order@),
            concat_batches(batch_views(batches@)) + cur@ == order@.subrange(0, i as int),
            cur@.len() < batch_size,
            forall|k: int| 0 <= k < batches@.len() ==> (#[trigger] batches@[k])@.len() == batch_size,
        decreases order@.len() - i,
    {
        cur.push(order[i]);
        proof {
            assert(order@.subrange(0, i + 1) == order@.subrange(0, i as int).push(order@[i as int]));
            assert(concat_batches(batch_views(batches@)) + cur@ == order@.subrange(0, i + 1));
        }
        if cur.len() == batch_size {
            let ghost before = batch_views(batches@);
            let full = cur;
            batches.push(full);
            cur = Vec::new();
            proof {
                assert(batch_views(batches@).drop_last() =~= before);
                assert(batch_views(batches@).last() == full@);
                assert(concat_batches(batch_views(batches@)) == concat_batches(before) + full@);
                assert(concat_batches(batch_views(batches@)) + cur@ =~= concat_batches(batch_views(batches@)));
            }
        }
        i = i + 1;
    }
    if cur.len() > 0 {
        let ghost before = batch_views(batches@);
        let last = cur;
        batches.push(last);
        proof {
            assert(batch_views(batches@).drop_last() =~= before);
            assert(batch_views(batches@).last() == last@);
        }
    } else {
        proof {
            assert(concat_batches(batch_views(batches@)) + cur@ =~= concat_batches(batch_views(batches@)));
        }
    }
    proof {
        assert(order@.subrange(0, order@.len() as int) =~= order@);
    }
    batches
}

/// Where a flush of the sync writer stands.
#[derive(Debug, Clone, Copy, PartialEq, Eq, Structural)]
pub enum FlushPhase {
    /// No flush under way.
    Idle,
    /// The spool is being drained before sending; `has_commands` tells whether
    /// commands were taken for this flush.
    Draining { heartbeat_only: bool, has_commands: bool },
    /// The batch (or heartbeat) is being posted.
    Posting { heartbeat: bool },
}

/// What happened since the last step of a flush.
#[derive(Debug, Clone, Copy, PartialEq, Eq, Structural)]
pub enum FlushEvent {
    /// A flush starts: a heartbeat, or a send of `pending` commands.
    Start { heartbeat_only: bool, pending: usize },
    DrainSucceeded,
    DrainFailed,
    PostSucceeded,
    PostFailed,
}

/// The outside work a flush asks for next.
#[derive(Debug, Clone, Copy, PartialEq, Eq, Structural)]
pub enum FlushAction {
    /// The flush is over.
    Done,
    /// Re-send what the spool holds first.
    DrainSpool,
    /// Number the taken commands and write them to the spool for later.
    SpoolCommands,
    /// Post an empty batch.
    PostHeartbeat,
    /// Number the taken commands and post them.
    PostEnvelopes,
    /// Write the envelopes that failed to post to the spool.
    SpoolEnvelopes,
}

/// One step of a flush: a flush of nothing ends at once; otherwise the spool is drained
/// first. If draining fails, taken commands are spooled; if it succeeds, a heartbeat
/// posts an empty batch and a send posts the commands. Envelopes whose post fails are
/// spooled. A failed heartbeat is only reported.
pub open spec fn flush_transition(phase: FlushPhase, event: FlushEvent) -> (FlushPhase, FlushAction) {
    match (phase, event) {
        (FlushPhase::Idle, FlushEvent::Start { heartbeat_only, pending }) => {
            let has_commands = !heartbeat_only && pending > 0;
            if !has_commands && !heartbeat_only {
                (FlushPhase::Idle, FlushAction::Done)
            } else {
                (FlushPhase::Draining { heartbeat_only, has_commands }, FlushAction::DrainSpool)
            }
        },
        (FlushPhase::Draining { heartbeat_only: _, has_commands }, FlushEvent::DrainFailed) => {
            if has_commands {
                (FlushPhase::Idle, FlushAction::SpoolCommands)
            } else {
                (FlushPhase::Idle, FlushAction::Done)
            }
        },
        (FlushPhase::Draining { heartbeat_only, has_commands }, FlushEvent::DrainSucceeded) => {
            if heartbeat_only || !has_commands {
                (FlushPhase::Posting { heartbeat: true }, FlushAction::PostHeartbeat)
            } else {
                (FlushPhase::Posting { heartbeat: false }, FlushAction::PostEnvelopes)
            }
        },
        (FlushPhase::Posting { heartbeat }, FlushEvent::PostFailed) => {
            if heartbeat {
                (FlushPhase::Idle, FlushAction::Done)
            } else {
                (FlushPhase::Idle, FlushAction::SpoolEnvelopes)
            }
        },
        (FlushPhase::Posting { .. }, FlushEvent::PostSucceeded) => (FlushPhase::Idle, FlushAction::Done),
        _ => (phase, FlushAction::Done),
    }
}

/// Advances a flush by one event.
pub fn flush_step(phase: FlushPhase, event: FlushEvent) -> (r: (FlushPhase, FlushAction))
    ensures
        r == flush_transition(phase, event),
{
    match (phase, event) {
        (FlushPhase::Idle, FlushEvent::Start { heartbeat_only, pending }) => {
            let has_commands = !heartbeat_only && pending > 0;
            if !has_commands && !heartbeat_only {
                (FlushPhase::Idle, FlushAction::Done)
            } else {
                (FlushPhase::Draining { heartbeat_only, has_commands }, FlushAction::DrainSpool)
            }
        },
        (FlushPhase::Draining { heartbeat_only: _, has_commands }, FlushEvent::DrainFailed) => {
            if has_commands {
                (FlushPhase::Idle, FlushAction::SpoolCommands)
            } else {
                (FlushPhase::Idle, FlushAction::Done)
            }
        },
        (FlushPhase::Draining { heartbeat_only, has_commands }, FlushEvent::DrainSucceeded) => {
            if heartbeat_only || !has_commands {
                (FlushPhase::Posting { heartbeat: true }, FlushAction::PostHeartbeat)
            } else {
                (FlushPhase::Posting { heartbeat: false }, FlushAction::PostEnvelopes)
            }
        },
        (FlushPhase::Posting { heartbeat }, FlushEvent::PostFailed) => {
            if heartbeat {
                (FlushPhase::Idle, FlushAction::Done)
            } else {
                (FlushPhase::Idle, FlushAction::SpoolEnvelopes)
            }
        },
        (FlushPhase::Posting { .. }, FlushEvent::PostSucceeded) => (FlushPhase::Idle, FlushAction::Done),
        _ => (phase, FlushAction::Done),
    }
}

/// Commands are never lost: once commands are taken for a flush, every way the flush
/// can end either posts them successfully or spools them.
pub proof fn taken_commands_are_posted_or_spooled(pending: usize)
    requires
        pending > 0,
    ensures
        ({
            let (p1, a1) = flush_transition(FlushPhase::Idle, FlushEvent::Start { heartbeat_only: false, pending });
            let (_, fail) = flush_transition(p1, FlushEvent::DrainFailed);
            let (p2, post) = flush_transition(p1, FlushEvent::DrainSucceeded);
            let (_, post_fail) = flush_transition(p2, FlushEvent::PostFailed);
            &&& a1 == FlushAction::DrainSpool
            &&& fail == FlushAction::SpoolCommands
            &&& post == FlushAction::PostEnvelopes
            &&& post_fail == FlushAction::SpoolEnvelopes
        }),
{
}

/// Nothing new is posted ahead of what was spooled: a flush asks to post new envelopes
/// only right after the spool was drained successfully in that same flush, and a flush
/// that starts with commands always asks to drain first.
pub proof fn spool_drains_before_new_posts(phase: FlushPhase, event: FlushEvent)
    ensures
        flush_transition(phase, event).1 == FlushAction::PostEnvelopes ==> (phase is Draining
            && event == FlushEvent::DrainSucceeded),
        (phase == FlushPhase::Idle ==> (event matches FlushEvent::Start { heartbeat_only, pending }
            ==> (!heartbeat_only && pending > 0 ==> flush_transition(phase, event).1
            == FlushAction::DrainSpool))),
{
}

/// Whether a file in the spool directory holds a spooled envelope: a `.json` file other
/// than the sequence state.
pub fn is_spool_envelope_file(extension: Option<&str>, stem: Option<&str>) -> (r: bool)
    ensures
        r == (match extension {
            Some(e) => e@ == "json"@,
            None => false,
        } && !(match stem {
            Some(t) => t@ == "sequence-state"@,
            None => false,
        })),
{
    let is_json = match extension {
        Some(e) => str_eq(e, "json"),
        None => false,
    };
    let is_state = match stem {
        Some(t) => str_eq(t, "sequence-state"),
        None => false,
    };
    is_json && !is_state
}

} // verus!
