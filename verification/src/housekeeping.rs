//! Housekeeping: which stale logs to delete or truncate, how far back the database
//! prunes, and which image directories have lost their messages.
use vstd::prelude::*;

use crate::sync::append_decimal;
use crate::text::{chars_ends_with, copy_str, has_suffix, str_eq, to_chars};
use crate::timefmt::decimal;

verus! {

/// Rotated log files older than this are deleted (seven days, in nanoseconds).
pub const LOG_MAX_AGE_NANOS: i128 = 7 * 24 * 60 * 60 * 1_000_000_000;

/// Root-level `.log` files untouched for this long are truncated (three days, in
/// nanoseconds).
pub const ROOT_LOG_MAX_AGE_NANOS: i128 = 3 * 24 * 60 * 60 * 1_000_000_000;

/// Root-level `.log` files larger than this are truncated (10 MiB).
pub const ROOT_LOG_MAX_BYTES: u64 = 10 * 1024 * 1024;

/// Usage events older than this many days are pruned.
pub const USAGE_EVENTS_MAX_AGE_DAYS: u32 = 30;

/// Messages of sessions that ended more than this many days ago are pruned.
pub const ENDED_SESSION_MESSAGE_MAX_AGE_DAYS: u32 = 60;

/// The one log file that is never pruned: the active server log.
pub open spec fn active_log_name() -> Seq<char> {
    "server.log"@
}

/// What a directory listing tells about one entry. Times are nanoseconds since the
/// Unix epoch.
#[derive(Debug, Clone)]
pub struct DirEntryInfo {
    /// The file name, when it is valid UTF-8.
    pub file_name: Option<String>,
    /// Whether the path is a regular file.
    pub is_file: bool,
    /// The length from the entry's metadata, when the metadata could be read.
    pub metadata_len: Option<u64>,
    /// The modification time, when the metadata and the time could be read.
    pub modified_nanos: Option<i128>,
}

/// A rotated log file in the log directory old enough to delete.
pub open spec fn prunes_log(e: DirEntryInfo, now: int) -> bool {
    &&& e.is_file
    &&& !(e.file_name matches Some(n) && n@ == active_log_name())
    &&& e.modified_nanos matches Some(m) && m < now - LOG_MAX_AGE_NANOS
}

/// A root-level `.log` file that is too old (an unreadable time counts as the epoch)
/// or too large, and is to be truncated.
pub open spec fn truncates_root_log(e: DirEntryInfo, now: int) -> bool {
    &&& e.is_file
    &&& e.file_name matches Some(n) && has_suffix(n@, ".log"@)
    &&& e.metadata_len matches Some(len) && ({
        let modified: int = match e.modified_nanos {
            Some(m) => m as int,
            None => 0,
        };
        modified < now - ROOT_LOG_MAX_AGE_NANOS || len > ROOT_LOG_MAX_BYTES
    })
}

/// Indices of the entries that `prunes_log` selects, in listing order.
pub open spec fn prunable_logs(entries: Seq<DirEntryInfo>, now: int) -> Seq<usize>
    decreases entries.len(),
{
    if entries.len() == 0 {
        Seq::empty()
    } else {
        let prev = prunable_logs(entries.drop_last(), now);
        if prunes_log(entries.last(), now) {
            prev.push((entries.len() - 1) as usize)
        } else {
            prev
        }
    }
}

/// Indices of the entries that `truncates_root_log` selects, in listing order.
pub open spec fn truncatable_root_logs(entries: Seq<DirEntryInfo>, now: int) -> Seq<usize>
    decreases entries.len(),
{
    if entries.len() == 0 {
        Seq::empty()
    } else {
        let prev = truncatable_root_logs(entries.drop_last(), now);
        if truncates_root_log(entries.last(), now) {
            prev.push((entries.len() - 1) as usize)
        } else {
            prev
        }
    }
}

/// The SQLite date modifier reaching `days` days back.
pub open spec fn days_back(days: nat) -> Seq<char> {
    "-"@ + decimal(days) + " days"@
}

/// What one housekeeping pass does.
#[derive(Debug, Clone)]
pub struct HousekeepingPlan {
    /// Indices, in the log directory listing, of the rotated logs to delete.
    pub delete_logs: Vec<usize>,
    /// Indices, in the data directory listing, of the root logs to truncate.
    pub truncate_root_logs: Vec<usize>,
    /// Date modifier before which usage events are deleted.
    pub usage_events_cutoff: String,
    /// Date modifier before which ended sessions lose their messages.
    pub session_messages_cutoff: String,
}

fn days_back_text(days: u32) -> (r: String)
    ensures
        r@ == days_back(days as nat),
{
    let mut r = copy_str("-");
    append_decimal(&mut r, days as u64);
    r.append(" days");
    r
}

fn entry_prunes_log(e: &DirEntryInfo, now_nanos: i128) -> (b: bool)
    requires
        now_nanos >= i128::MIN / 2,
    ensures
        b == prunes_log(*e, now_nanos as int),
{
    if !e.is_file {
        return false;
    }
    let is_active = match &e.file_name {
        Some(n) => str_eq(n.as_str(), "server.log"),
        None => false,
    };
    if is_active {
        return false;
    }
    match e.modified_nanos {
        Some(m) => m < now_nanos - LOG_MAX_AGE_NANOS,
        None => false,
    }
}

fn entry_truncates_root_log(e: &DirEntryInfo, now_nanos: i128) -> (b: bool)
    requires
        now_nanos >= i128::MIN / 2,
    ensures
        b == truncates_root_log(*e, now_nanos as int),
{
    if !e.is_file {
        return false;
    }
    let is_log = match &e.file_name {
        Some(n) => {
            let name = to_chars(n.as_str());
            let suffix = to_chars(".log");
            chars_ends_with(&name, &suffix)
        },
        None => false,
    };
    if !is_log {
        return false;
    }
    match e.metadata_len {
        Some(len) => {
            let modified: i128 = match e.modified_nanos {
                Some(m) => m,
                None => 0,
            };
            modified < now_nanos - ROOT_LOG_MAX_AGE_NANOS || len > ROOT_LOG_MAX_BYTES
        },
        None => false,
    }
}

/// Plans a housekeeping pass at `now_nanos`: which rotated logs in the log directory
/// to delete (never the active `server.log`), which root-level `.log` files of the data
/// directory to truncate, and how far back the database prunes usage events and the
/// messages of ended sessions.
pub fn run_housekeeping(log_dir: &Vec<DirEntryInfo>, data_dir: &Vec<DirEntryInfo>, now_nanos: i128) -> (r:
    HousekeepingPlan)
    requires
        now_nanos >= i128::MIN / 2,
    ensures
        r.delete_logs@ == prunable_logs(log_dir@, now_nanos as int),
        r.truncate_root_logs@ == truncatable_root_logs(data_dir@, now_nanos as int),
        r.usage_events_cutoff@ == days_back(USAGE_EVENTS_MAX_AGE_DAYS as nat),
        r.session_messages_cutoff@ == days_back(ENDED_SESSION_MESSAGE_MAX_AGE_DAYS as nat),
{
    let mut delete_logs: Vec<usize> = Vec::new();
    let mut i: usize = 0;
    while i < log_dir.len()
        invariant
            now_nanos >= i128::MIN / 2,
            i <= log_dir@.len(),
            delete_logs@ == prunable_logs(log_dir@.take(i as int), now_nanos as int),
        decreases log_dir.len() - i,
    {
        proof {
            assert(log_dir@.take(i + 1).drop_last() =~= log_dir@.take(i as int));
        }
        if entry_prunes_log(&log_dir[i], now_nanos) {
            delete_logs.push(i);
        }
        i = i + 1;
    }
    let mut truncate_root_logs: Vec<usize> = Vec::new();
    let mut j: usize = 0;
    while j < data_dir.len()
        invariant
            now_nanos >= i128::MIN / 2,
            j <= data_dir@.len(),
            truncate_root_logs@ == truncatable_root_logs(data_dir@.take(j as int), now_nanos as int),
        decreases data_dir.len() - j,
    {
        proof {
            assert(data_dir@.take(j + 1).drop_last() =~= data_dir@.take(j as int));
        }
        if entry_truncates_root_log(&data_dir[j], now_nanos) {
            truncate_root_logs.push(j);
        }
        j = j + 1;
    }
    proof {
        assert(log_dir@.take(i as int) =~= log_dir@);
        assert(data_dir@.take(j as int) =~= data_dir@);
    }
    HousekeepingPlan {
        delete_logs,
        truncate_root_logs,
        usage_events_cutoff: days_back_text(USAGE_EVENTS_MAX_AGE_DAYS),
        session_messages_cutoff: days_back_text(ENDED_SESSION_MESSAGE_MAX_AGE_DAYS),
    }
}

/// An image directory and whether its session still has messages (`None` when that
/// could not be read, in which case the directory is kept).
#[derive(Debug, Clone)]
pub struct ImageDirInfo {
    pub is_dir: bool,
    pub file_name: Option<String>,
    pub has_messages: Option<bool>,
}

/// An image directory whose session has no messages left.
pub open spec fn is_orphaned(e: ImageDirInfo) -> bool {
    e.is_dir && e.file_name is Some && e.has_messages == Some(false)
}

/// Indices of the orphaned image directories, in listing order.
pub open spec fn orphaned_dirs(entries: Seq<ImageDirInfo>) -> Seq<usize>
    decreases entries.len(),
{
    if entries.len() == 0 {
        Seq::empty()
    } else {
        let prev = orphaned_dirs(entries.drop_last());
        if is_orphaned(entries.last()) {
            prev.push((entries.len() - 1) as usize)
        } else {
            prev
        }
    }
}

/// The image directories to remove: those named after a session that has no messages.
pub fn orphaned_image_dirs(entries: &Vec<ImageDirInfo>) -> (r: Vec<usize>)
    ensures
        r@ == orphaned_dirs(entries@),
{
    let mut r: Vec<usize> = Vec::new();
    let mut i: usize = 0;
    while i < entries.len()
        invariant
            i <= entries@.len(),
            r@ == orphaned_dirs(entries@.take(i as int)),
        decreases entries.len() - i,
    {
        proof {
            assert(entries@.take(i + 1).drop_last() =~= entries@.take(i as int));
        }
        let e = &entries[i];
        if e.is_dir && e.file_name.is_some() && e.has_messages == Some(false) {
            r.push(i);
        }
        i = i + 1;
    }
    proof {
        assert(entries@.take(i as int) =~= entries@);
    }
    r
}

proof fn lemma_prunable_members(entries: Seq<DirEntryInfo>, now: int)
    requires
        entries.len() <= usize::MAX,
    ensures
        forall|k: int|
            0 <= k < prunable_logs(entries, now).len() ==> {
                let i = #[trigger] prunable_logs(entries, now)[k];
                i < entries.len() && prunes_log(entries[i as int], now)
            },
    decreases entries.len(),
{
    if entries.len() > 0 {
        lemma_prunable_members(entries.drop_last(), now);
        let prev = prunable_logs(entries.drop_last(), now);
        assert forall|k: int| 0 <= k < prunable_logs(entries, now).len() implies {
            let i = #[trigger] prunable_logs(entries, now)[k];
            i < entries.len() && prunes_log(entries[i as int], now)
        } by {
            if k < prev.len() {
                assert(prunable_logs(entries, now)[k] == prev[k]);
                assert(entries.drop_last()[prev[k] as int] == entries[prev[k] as int]);
            } else {
                assert(prunes_log(entries.last(), now));
                assert(prunable_logs(entries, now)[k] == (entries.len() - 1) as usize);
            }
        }
    }
}

/// The active log survives housekeeping: no entry planned for deletion is named
/// `server.log`, and each is a file older than seven days.
pub proof fn active_log_is_never_pruned(entries: Seq<DirEntryInfo>, now: int)
    requires
        entries.len() <= usize::MAX,
    ensures
        forall|k: int|
            0 <= k < prunable_logs(entries, now).len() ==> {
                let e = entries[#[trigger] prunable_logs(entries, now)[k] as int];
                &&& e.is_file
                &&& !(e.file_name matches Some(n) && n@ == active_log_name())
                &&& e.modified_nanos matches Some(m) && m < now - LOG_MAX_AGE_NANOS
            },
{
    lemma_prunable_members(entries, now);
}

} // verus!
