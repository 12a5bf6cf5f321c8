//! Token usage snapshots and their normalisation into ledger entries.
use vstd::prelude::*;

use crate::text::{
    chars_contains, chars_eq, chars_to_ascii_lower, contains_seq, eq_ignore_ascii_case, lower_seq,
    str_eq, to_chars,
};

verus! {

/// Token counters reported by a provider for one snapshot.
#[derive(Debug, Clone, Copy, PartialEq, Eq)]
pub struct TokenUsage {
    pub input_tokens: u64,
    pub output_tokens: u64,
    pub cached_tokens: u64,
    pub context_window: u64,
}

/// How a provider's usage snapshot is to be read.
#[derive(Debug, Clone, Copy, PartialEq, Eq, Structural)]
pub enum TokenUsageSnapshotKind {
    Unknown,
    ContextTurn,
    LifetimeTotals,
    MixedLegacy,
    CompactionReset,
}

/// One normalised ledger row.
#[derive(Debug, Clone, Copy, PartialEq, Eq)]
pub struct NormalizedUsageLedgerEntry {
    pub billable_input_tokens: u64,
    pub billable_output_tokens: u64,
    pub cache_read_tokens: u64,
    pub cache_write_tokens: u64,
    pub context_input_tokens: u64,
    pub context_window: u64,
}

/// `a.saturating_sub(b)`.
pub open spec fn sat_sub(a: u64, b: u64) -> u64 {
    if a >= b { (a - b) as u64 } else { 0 }
}

/// `a.saturating_add(b)`.
pub open spec fn sat_add(a: u64, b: u64) -> u64 {
    if a + b > u64::MAX { u64::MAX } else { (a + b) as u64 }
}

/// Stored name of a snapshot kind.
pub open spec fn snapshot_kind_name(kind: TokenUsageSnapshotKind) -> Seq<char> {
    match kind {
        TokenUsageSnapshotKind::Unknown => "unknown"@,
        TokenUsageSnapshotKind::ContextTurn => "context_turn"@,
        TokenUsageSnapshotKind::LifetimeTotals => "lifetime_totals"@,
        TokenUsageSnapshotKind::MixedLegacy => "mixed_legacy"@,
        TokenUsageSnapshotKind::CompactionReset => "compaction_reset"@,
    }
}

/// Snapshot kind read back from its stored name; anything unknown is `Unknown`.
pub open spec fn snapshot_kind_of_name(name: Option<Seq<char>>) -> TokenUsageSnapshotKind {
    match name {
        Some(n) => if n == "context_turn"@ {
            TokenUsageSnapshotKind::ContextTurn
        } else if n == "lifetime_totals"@ {
            TokenUsageSnapshotKind::LifetimeTotals
        } else if n == "mixed_legacy"@ {
            TokenUsageSnapshotKind::MixedLegacy
        } else if n == "compaction_reset"@ {
            TokenUsageSnapshotKind::CompactionReset
        } else {
            TokenUsageSnapshotKind::Unknown
        },
        None => TokenUsageSnapshotKind::Unknown,
    }
}

/// Ledger entry for `current`, given the previous snapshot of the session (if any).
pub open spec fn normalized_entry(
    previous: Option<TokenUsage>,
    current: TokenUsage,
    kind: TokenUsageSnapshotKind,
) -> NormalizedUsageLedgerEntry {
    let prev_input: u64 = match previous { Some(p) => p.input_tokens, None => 0 };
    let prev_output: u64 = match previous { Some(p) => p.output_tokens, None => 0 };
    let prev_cached: u64 = match previous { Some(p) => p.cached_tokens, None => 0 };
    match kind {
        TokenUsageSnapshotKind::ContextTurn => NormalizedUsageLedgerEntry {
            billable_input_tokens: sat_sub(current.input_tokens, prev_input),
            billable_output_tokens: current.output_tokens,
            cache_read_tokens: sat_sub(current.cached_tokens, prev_cached),
            cache_write_tokens: 0,
            context_input_tokens: current.input_tokens,
            context_window: current.context_window,
        },
        TokenUsageSnapshotKind::LifetimeTotals => NormalizedUsageLedgerEntry {
            billable_input_tokens: sat_sub(current.input_tokens, prev_input),
            billable_output_tokens: sat_sub(current.output_tokens, prev_output),
            cache_read_tokens: sat_sub(current.cached_tokens, prev_cached),
            cache_write_tokens: 0,
            context_input_tokens: current.input_tokens,
            context_window: current.context_window,
        },
        TokenUsageSnapshotKind::MixedLegacy => NormalizedUsageLedgerEntry {
            billable_input_tokens: current.input_tokens,
            billable_output_tokens: current.output_tokens,
            cache_read_tokens: current.cached_tokens,
            cache_write_tokens: 0,
            context_input_tokens: sat_add(current.input_tokens, current.cached_tokens),
            context_window: current.context_window,
        },
        TokenUsageSnapshotKind::CompactionReset => NormalizedUsageLedgerEntry {
            billable_input_tokens: 0,
            billable_output_tokens: sat_sub(current.output_tokens, prev_output),
            cache_read_tokens: 0,
            cache_write_tokens: 0,
            context_input_tokens: 0,
            context_window: current.context_window,
        },
        TokenUsageSnapshotKind::Unknown => NormalizedUsageLedgerEntry {
            billable_input_tokens: current.input_tokens,
            billable_output_tokens: current.output_tokens,
            cache_read_tokens: current.cached_tokens,
            cache_write_tokens: 0,
            context_input_tokens: current.input_tokens,
            context_window: current.context_window,
        },
    }
}

/// Stored name of a snapshot kind.
pub fn snapshot_kind_to_str(kind: TokenUsageSnapshotKind) -> (r: &'static str)
    ensures
        r@ == snapshot_kind_name(kind),
{
    match kind {
        TokenUsageSnapshotKind::Unknown => "unknown",
        TokenUsageSnapshotKind::ContextTurn => "context_turn",
        TokenUsageSnapshotKind::LifetimeTotals => "lifetime_totals",
        TokenUsageSnapshotKind::MixedLegacy => "mixed_legacy",
        TokenUsageSnapshotKind::CompactionReset => "compaction_reset",
    }
}

/// Snapshot kind from its stored name.
pub fn snapshot_kind_from_str(kind: Option<&str>) -> (r: TokenUsageSnapshotKind)
    ensures
        r == snapshot_kind_of_name(
            match kind {
                Some(k) => Some(k@),
                None => None,
            },
        ),
{
    match kind {
        Some(k) => if str_eq(k, "context_turn") {
            TokenUsageSnapshotKind::ContextTurn
        } else if str_eq(k, "lifetime_totals") {
            TokenUsageSnapshotKind::LifetimeTotals
        } else if str_eq(k, "mixed_legacy") {
            TokenUsageSnapshotKind::MixedLegacy
        } else if str_eq(k, "compaction_reset") {
            TokenUsageSnapshotKind::CompactionReset
        } else {
            TokenUsageSnapshotKind::Unknown
        },
        None => TokenUsageSnapshotKind::Unknown,
    }
}

/// Normalises a usage snapshot into billable deltas for the usage ledger.
pub fn normalize_usage_for_ledger(
    previous: Option<&TokenUsage>,
    current: &TokenUsage,
    snapshot_kind: TokenUsageSnapshotKind,
) -> (r: NormalizedUsageLedgerEntry)
    ensures
        r == normalized_entry(
            match previous {
                Some(p) => Some(*p),
                None => None,
            },
            *current,
            snapshot_kind,
        ),
{
    let prev_input: u64 = match previous {
        Some(p) => p.input_tokens,
        None => 0,
    };
    let prev_output: u64 = match previous {
        Some(p) => p.output_tokens,
        None => 0,
    };
    let prev_cached: u64 = match previous {
        Some(p) => p.cached_tokens,
        None => 0,
    };
    match snapshot_kind {
        TokenUsageSnapshotKind::ContextTurn => NormalizedUsageLedgerEntry {
            billable_input_tokens: current.input_tokens.saturating_sub(prev_input),
            billable_output_tokens: current.output_tokens,
            cache_read_tokens: current.cached_tokens.saturating_sub(prev_cached),
            cache_write_tokens: 0,
            context_input_tokens: current.input_tokens,
            context_window: current.context_window,
        },
        TokenUsageSnapshotKind::LifetimeTotals => NormalizedUsageLedgerEntry {
            billable_input_tokens: current.input_tokens.saturating_sub(prev_input),
            billable_output_tokens: current.output_tokens.saturating_sub(prev_output),
            cache_read_tokens: current.cached_tokens.saturating_sub(prev_cached),
            cache_write_tokens: 0,
            context_input_tokens: current.input_tokens,
            context_window: current.context_window,
        },
        TokenUsageSnapshotKind::MixedLegacy => NormalizedUsageLedgerEntry {
            billable_input_tokens: current.input_tokens,
            billable_output_tokens: current.output_tokens,
            cache_read_tokens: current.cached_tokens,
            cache_write_tokens: 0,
            context_input_tokens: current.input_tokens.saturating_add(current.cached_tokens),
            context_window: current.context_window,
        },
        TokenUsageSnapshotKind::CompactionReset => NormalizedUsageLedgerEntry {
            billable_input_tokens: 0,
            billable_output_tokens: current.output_tokens.saturating_sub(prev_output),
            cache_read_tokens: 0,
            cache_write_tokens: 0,
            context_input_tokens: 0,
            context_window: current.context_window,
        },
        TokenUsageSnapshotKind::Unknown => NormalizedUsageLedgerEntry {
            billable_input_tokens: current.input_tokens,
            billable_output_tokens: current.output_tokens,
            cache_read_tokens: current.cached_tokens,
            cache_write_tokens: 0,
            context_input_tokens: current.input_tokens,
            context_window: current.context_window,
        },
    }
}

/// Reading a kind back from the name it is stored under gives the same kind.
pub proof fn snapshot_kind_name_round_trips(kind: TokenUsageSnapshotKind)
    ensures
        snapshot_kind_of_name(Some(snapshot_kind_name(kind))) == kind,
{
    reveal_strlit("unknown");
    reveal_strlit("context_turn");
    reveal_strlit("lifetime_totals");
    reveal_strlit("mixed_legacy");
    reveal_strlit("compaction_reset");
    if kind == TokenUsageSnapshotKind::Unknown {
        assert("unknown"@[0] != "context_turn"@[0]);
        assert("unknown"@[0] != "lifetime_totals"@[0]);
        assert("unknown"@[0] != "mixed_legacy"@[0]);
        assert("unknown"@[0] != "compaction_reset"@[0]);
    }
    if kind == TokenUsageSnapshotKind::MixedLegacy {
        assert("mixed_legacy"@[0] != "context_turn"@[0]);
        assert("mixed_legacy"@[0] != "lifetime_totals"@[0]);
    }
    if kind == TokenUsageSnapshotKind::CompactionReset {
        assert("compaction_reset"@.len() != "context_turn"@.len());
        assert("compaction_reset"@[0] != "lifetime_totals"@[0]);
        assert("compaction_reset"@[0] != "mixed_legacy"@[0]);
    }
    if kind == TokenUsageSnapshotKind::LifetimeTotals {
        assert("lifetime_totals"@[0] != "context_turn"@[0]);
    }
}


/// Rolled-up per-session usage counters as stored in `usage_session_state`.
#[derive(Debug, Clone, Copy, PartialEq, Eq)]
pub struct UsageSessionTotals {
    pub lifetime_input: i64,
    pub lifetime_output: i64,
    pub lifetime_cached: i64,
    pub context_input: i64,
    pub context_cached: i64,
    pub context_window: i64,
}

/// Larger of two signed counters.
pub open spec fn max_i64(a: i64, b: i64) -> i64 {
    if a >= b { a } else { b }
}

/// Session totals after recording `usage` of the given kind on top of `existing`.
pub open spec fn next_totals(
    existing: Option<UsageSessionTotals>,
    usage: TokenUsage,
    kind: TokenUsageSnapshotKind,
) -> UsageSessionTotals {
    let ui = usage.input_tokens as i64;
    let uo = usage.output_tokens as i64;
    let uc = usage.cached_tokens as i64;
    let uw = usage.context_window as i64;
    let base = match existing {
        Some(e) => e,
        None => UsageSessionTotals {
            lifetime_input: ui,
            lifetime_output: uo,
            lifetime_cached: uc,
            context_input: ui,
            context_cached: uc,
            context_window: uw,
        },
    };
    match kind {
        TokenUsageSnapshotKind::Unknown => base,
        TokenUsageSnapshotKind::ContextTurn => UsageSessionTotals {
            context_input: ui,
            context_cached: uc,
            context_window: uw,
            ..base
        },
        TokenUsageSnapshotKind::LifetimeTotals => UsageSessionTotals {
            lifetime_input: ui,
            lifetime_output: uo,
            lifetime_cached: uc,
            context_input: ui,
            context_cached: uc,
            context_window: uw,
        },
        TokenUsageSnapshotKind::MixedLegacy => UsageSessionTotals {
            context_input: ui,
            context_cached: uc,
            context_window: uw,
            lifetime_output: max_i64(base.lifetime_output, uo),
            ..base
        },
        TokenUsageSnapshotKind::CompactionReset => UsageSessionTotals {
            context_input: 0,
            context_cached: 0,
            context_window: uw,
            lifetime_output: max_i64(base.lifetime_output, uo),
            ..base
        },
    }
}

/// The counters written to `usage_session_state` when a snapshot arrives.
pub fn next_usage_session_totals(
    existing: Option<UsageSessionTotals>,
    usage: &TokenUsage,
    snapshot_kind: TokenUsageSnapshotKind,
) -> (r: UsageSessionTotals)
    ensures
        r == next_totals(existing, *usage, snapshot_kind),
{
    let ui = usage.input_tokens as i64;
    let uo = usage.output_tokens as i64;
    let uc = usage.cached_tokens as i64;
    let uw = usage.context_window as i64;
    let base = match existing {
        Some(e) => e,
        None => UsageSessionTotals {
            lifetime_input: ui,
            lifetime_output: uo,
            lifetime_cached: uc,
            context_input: ui,
            context_cached: uc,
            context_window: uw,
        },
    };
    let raised_output: i64 = if base.lifetime_output >= uo { base.lifetime_output } else { uo };
    match snapshot_kind {
        TokenUsageSnapshotKind::Unknown => base,
        TokenUsageSnapshotKind::ContextTurn => UsageSessionTotals {
            context_input: ui,
            context_cached: uc,
            context_window: uw,
            ..base
        },
        TokenUsageSnapshotKind::LifetimeTotals => UsageSessionTotals {
            lifetime_input: ui,
            lifetime_output: uo,
            lifetime_cached: uc,
            context_input: ui,
            context_cached: uc,
            context_window: uw,
        },
        TokenUsageSnapshotKind::MixedLegacy => UsageSessionTotals {
            context_input: ui,
            context_cached: uc,
            context_window: uw,
            lifetime_output: raised_output,
            ..base
        },
        TokenUsageSnapshotKind::CompactionReset => UsageSessionTotals {
            context_input: 0,
            context_cached: 0,
            context_window: uw,
            lifetime_output: raised_output,
            ..base
        },
    }
}

/// Input-token growth of a turn over the previous turn of the session, never negative.
pub fn turn_input_delta(input_tokens: u64, previous_input: i64) -> (r: i64)
    requires
        i64::MIN <= (input_tokens as i64) - previous_input <= i64::MAX,
    ensures
        r == max_i64(((input_tokens as i64) - previous_input) as i64, 0),
{
    let current = input_tokens as i64;
    let delta = current - previous_input;
    if delta >= 0 { delta } else { 0 }
}

/// A usage snapshot read back from stored signed counters; negative counters read as zero.
pub fn usage_from_stored(
    input_tokens: i64,
    output_tokens: i64,
    cached_tokens: i64,
    context_window: i64,
) -> (r: TokenUsage)
    ensures
        r.input_tokens == max_i64(input_tokens, 0),
        r.output_tokens == max_i64(output_tokens, 0),
        r.cached_tokens == max_i64(cached_tokens, 0),
        r.context_window == max_i64(context_window, 0),
{
    TokenUsage {
        input_tokens: if input_tokens >= 0 { input_tokens as u64 } else { 0 },
        output_tokens: if output_tokens >= 0 { output_tokens as u64 } else { 0 },
        cached_tokens: if cached_tokens >= 0 { cached_tokens as u64 } else { 0 },
        context_window: if context_window >= 0 { context_window as u64 } else { 0 },
    }
}

/// Price band of a session's model, used to estimate its cost.
#[derive(Debug, Clone, Copy, PartialEq, Eq)]
pub enum PricingTier {
    Opus,
    Sonnet,
    Haiku,
    Gpt5,
    Default,
}


/// Price band chosen for a provider and (lower-cased) model name.
pub open spec fn pricing_tier_of(provider: Seq<char>, model: Seq<char>) -> PricingTier {
    let m = lower_seq(model);
    if contains_seq(m, "opus"@) {
        PricingTier::Opus
    } else if contains_seq(m, "sonnet"@) {
        PricingTier::Sonnet
    } else if contains_seq(m, "haiku"@) {
        PricingTier::Haiku
    } else if contains_seq(m, "gpt-5"@) || eq_ignore_ascii_case(provider, "codex"@) {
        PricingTier::Gpt5
    } else {
        PricingTier::Default
    }
}

/// Price band of a session: model families first, then the Codex provider, else the default band.
pub fn pricing_tier(provider: &str, model: Option<&str>) -> (r: PricingTier)
    ensures
        r == pricing_tier_of(
            provider@,
            match model {
                Some(m) => m@,
                None => Seq::<char>::empty(),
            },
        ),
{
    let raw: Vec<char> = match model {
        Some(m) => to_chars(m),
        None => Vec::new(),
    };
    let m = chars_to_ascii_lower(&raw);
    if chars_contains(&m, &to_chars("opus")) {
        return PricingTier::Opus;
    }
    if chars_contains(&m, &to_chars("sonnet")) {
        return PricingTier::Sonnet;
    }
    if chars_contains(&m, &to_chars("haiku")) {
        return PricingTier::Haiku;
    }
    let p = chars_to_ascii_lower(&to_chars(provider));
    let codex = chars_to_ascii_lower(&to_chars("codex"));
    if chars_contains(&m, &to_chars("gpt-5")) || chars_eq(&p, &codex) {
        return PricingTier::Gpt5;
    }
    PricingTier::Default
}

/// Billable input and output tokens of a session's lifetime-total snapshots, each
/// normalised against the one before it.
pub open spec fn lifetime_billed(s: Seq<TokenUsage>) -> (nat, nat)
    decreases s.len(),
{
    if s.len() == 0 {
        (0, 0)
    } else {
        let prev = if s.len() > 1 {
            Some(s[s.len() - 2])
        } else {
            None
        };
        let e = normalized_entry(prev, s.last(), TokenUsageSnapshotKind::LifetimeTotals);
        let b = lifetime_billed(s.drop_last());
        (b.0 + e.billable_input_tokens as nat, b.1 + e.billable_output_tokens as nat)
    }
}

/// Lifetime totals are billed once: when a session reports growing lifetime totals,
/// the ledger entries normalised from them add up to the last totals.
pub proof fn lifetime_ledger_sums_to_totals(s: Seq<TokenUsage>)
    requires
        s.len() > 0,
        forall|i: int, j: int|
            0 <= i <= j < s.len() ==> (#[trigger] s[i]).input_tokens <= (#[trigger] s[j]).input_tokens
                && s[i].output_tokens <= s[j].output_tokens,
    ensures
        lifetime_billed(s) == (s.last().input_tokens as nat, s.last().output_tokens as nat),
    decreases s.len(),
{
    if s.len() > 1 {
        let t = s.drop_last();
        assert forall|i: int, j: int| 0 <= i <= j < t.len() implies (#[trigger] t[i]).input_tokens
            <= (#[trigger] t[j]).input_tokens && t[i].output_tokens <= t[j].output_tokens by {
            assert(t[i] == s[i] && t[j] == s[j]);
        }
        lifetime_ledger_sums_to_totals(t);
        assert(t.last() == s[s.len() - 2]);
        assert(s[s.len() - 2].input_tokens <= s.last().input_tokens);
        assert(s[s.len() - 2].output_tokens <= s.last().output_tokens);
        let e = normalized_entry(Some(s[s.len() - 2]), s.last(), TokenUsageSnapshotKind::LifetimeTotals);
        assert(e.billable_input_tokens == s.last().input_tokens - s[s.len() - 2].input_tokens);
        assert(e.billable_output_tokens == s.last().output_tokens - s[s.len() - 2].output_tokens);
    } else {
        assert(s.drop_last().len() == 0);
        assert(lifetime_billed(s.drop_last()) == (0nat, 0nat));
        let e = normalized_entry(None, s.last(), TokenUsageSnapshotKind::LifetimeTotals);
        assert(e.billable_input_tokens == s.last().input_tokens);
        assert(e.billable_output_tokens == s.last().output_tokens);
    }
}

/// What a ledger entry says of the context: every entry carries the snapshot's context
/// window and writes no cache. Its context size is what the snapshot itself shows,
/// whatever came before it: a context turn, lifetime totals and an unknown snapshot hold
/// the snapshot's whole input, a legacy mixed snapshot its input and cached tokens
/// together (capped at the counter's maximum), and a compaction reset nothing.
pub proof fn ledger_context_is_the_snapshot_context(
    previous: Option<TokenUsage>,
    other: Option<TokenUsage>,
    current: TokenUsage,
    kind: TokenUsageSnapshotKind,
)
    ensures
        normalized_entry(previous, current, kind).context_window == current.context_window,
        normalized_entry(previous, current, kind).cache_write_tokens == 0,
        normalized_entry(previous, current, kind).context_input_tokens == normalized_entry(
            other,
            current,
            kind,
        ).context_input_tokens,
        kind == TokenUsageSnapshotKind::ContextTurn ==> normalized_entry(
            previous,
            current,
            kind,
        ).context_input_tokens == current.input_tokens,
        kind == TokenUsageSnapshotKind::LifetimeTotals ==> normalized_entry(
            previous,
            current,
            kind,
        ).context_input_tokens == current.input_tokens,
        kind == TokenUsageSnapshotKind::Unknown ==> normalized_entry(
            previous,
            current,
            kind,
        ).context_input_tokens == current.input_tokens,
        kind == TokenUsageSnapshotKind::MixedLegacy ==> normalized_entry(
            previous,
            current,
            kind,
        ).context_input_tokens as int == (if current.input_tokens + current.cached_tokens
            <= u64::MAX {
            current.input_tokens + current.cached_tokens
        } else {
            u64::MAX as int
        }),
        kind == TokenUsageSnapshotKind::CompactionReset ==> normalized_entry(
            previous,
            current,
            kind,
        ).context_input_tokens == 0,
{
}

/// What a ledger entry bills after a previous snapshot `prev`. Context turns and
/// lifetime totals bill the input and cache reads that grew since `prev`, and nothing
/// where they shrank; a context turn bills its whole output, lifetime totals and a
/// compaction reset only the output that grew; a compaction reset bills no input or
/// cache reads; legacy mixed and unknown snapshots bill the whole snapshot.
pub proof fn ledger_bills_what_grew(prev: TokenUsage, current: TokenUsage, kind: TokenUsageSnapshotKind)
    ensures
        ({
            let e = normalized_entry(Some(prev), current, kind);
            &&& (kind == TokenUsageSnapshotKind::ContextTurn || kind
                == TokenUsageSnapshotKind::LifetimeTotals) ==> {
                &&& prev.input_tokens <= current.input_tokens ==> e.billable_input_tokens
                    + prev.input_tokens == current.input_tokens
                &&& prev.input_tokens > current.input_tokens ==> e.billable_input_tokens == 0
                &&& prev.cached_tokens <= current.cached_tokens ==> e.cache_read_tokens
                    + prev.cached_tokens == current.cached_tokens
                &&& prev.cached_tokens > current.cached_tokens ==> e.cache_read_tokens == 0
            }
            &&& kind == TokenUsageSnapshotKind::ContextTurn ==> e.billable_output_tokens
                == current.output_tokens
            &&& (kind == TokenUsageSnapshotKind::LifetimeTotals || kind
                == TokenUsageSnapshotKind::CompactionReset) ==> {
                &&& prev.output_tokens <= current.output_tokens ==> e.billable_output_tokens
                    + prev.output_tokens == current.output_tokens
                &&& prev.output_tokens > current.output_tokens ==> e.billable_output_tokens == 0
            }
            &&& kind == TokenUsageSnapshotKind::CompactionReset ==> e.billable_input_tokens == 0
                && e.cache_read_tokens == 0
            &&& (kind == TokenUsageSnapshotKind::MixedLegacy || kind
                == TokenUsageSnapshotKind::Unknown) ==> e.billable_input_tokens
                == current.input_tokens && e.billable_output_tokens == current.output_tokens
                && e.cache_read_tokens == current.cached_tokens
        }),
{
}

/// The first snapshot of a session is billed whole: with nothing before it, every kind
/// but a compaction reset bills all its input, output and cache reads, and a compaction
/// reset bills all its output and nothing else.
pub proof fn first_snapshot_is_billed_whole(current: TokenUsage, kind: TokenUsageSnapshotKind)
    ensures
        kind != TokenUsageSnapshotKind::CompactionReset ==> normalized_entry(
            None,
            current,
            kind,
        ).billable_input_tokens == current.input_tokens && normalized_entry(
            None,
            current,
            kind,
        ).billable_output_tokens == current.output_tokens && normalized_entry(
            None,
            current,
            kind,
        ).cache_read_tokens == current.cached_tokens,
        kind == TokenUsageSnapshotKind::CompactionReset ==> normalized_entry(
            None,
            current,
            kind,
        ).billable_output_tokens == current.output_tokens && normalized_entry(
            None,
            current,
            kind,
        ).billable_input_tokens == 0 && normalized_entry(None, current, kind).cache_read_tokens
            == 0,
{
}

} // verus!
