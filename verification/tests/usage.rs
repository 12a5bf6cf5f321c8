use orbitdock_server::usage::{
    next_usage_session_totals, normalize_usage_for_ledger, pricing_tier, snapshot_kind_from_str,
    snapshot_kind_to_str, turn_input_delta, usage_from_stored, PricingTier, TokenUsage,
    TokenUsageSnapshotKind, UsageSessionTotals,
};

#[test]
fn context_turn_normalization_uses_deltas_for_input_and_cache() {
    let previous = TokenUsage {
        input_tokens: 100,
        output_tokens: 20,
        cached_tokens: 80,
        context_window: 200_000,
    };
    let current = TokenUsage {
        input_tokens: 160,
        output_tokens: 12,
        cached_tokens: 96,
        context_window: 200_000,
    };

    let normalized = normalize_usage_for_ledger(
        Some(&previous),
        &current,
        TokenUsageSnapshotKind::ContextTurn,
    );

    assert_eq!(normalized.billable_input_tokens, 60);
    assert_eq!(normalized.cache_read_tokens, 16);
    assert_eq!(normalized.billable_output_tokens, 12);
}

#[test]
fn lifetime_totals_normalization_uses_output_deltas() {
    let previous = TokenUsage {
        input_tokens: 1_000,
        output_tokens: 100,
        cached_tokens: 200,
        context_window: 258_400,
    };
    let current = TokenUsage {
        input_tokens: 1_250,
        output_tokens: 140,
        cached_tokens: 260,
        context_window: 258_400,
    };

    let normalized = normalize_usage_for_ledger(
        Some(&previous),
        &current,
        TokenUsageSnapshotKind::LifetimeTotals,
    );

    assert_eq!(normalized.billable_input_tokens, 250);
    assert_eq!(normalized.billable_output_tokens, 40);
    assert_eq!(normalized.cache_read_tokens, 60);
}

#[test]
fn compaction_reset_bills_only_output_growth() {
    let previous = TokenUsage { input_tokens: 500, output_tokens: 50, cached_tokens: 10, context_window: 1000 };
    let current = TokenUsage { input_tokens: 100, output_tokens: 70, cached_tokens: 5, context_window: 1000 };
    let n = normalize_usage_for_ledger(Some(&previous), &current, TokenUsageSnapshotKind::CompactionReset);
    assert_eq!(n.billable_input_tokens, 0);
    assert_eq!(n.billable_output_tokens, 20);
    assert_eq!(n.context_input_tokens, 0);
    let mixed = normalize_usage_for_ledger(None, &current, TokenUsageSnapshotKind::MixedLegacy);
    assert_eq!(mixed.context_input_tokens, 105);
    let saturated = TokenUsage { input_tokens: u64::MAX, output_tokens: 0, cached_tokens: 1, context_window: 0 };
    assert_eq!(
        normalize_usage_for_ledger(None, &saturated, TokenUsageSnapshotKind::MixedLegacy).context_input_tokens,
        u64::MAX
    );
}

#[test]
fn snapshot_kind_names_round_trip() {
    for kind in [
        TokenUsageSnapshotKind::Unknown,
        TokenUsageSnapshotKind::ContextTurn,
        TokenUsageSnapshotKind::LifetimeTotals,
        TokenUsageSnapshotKind::MixedLegacy,
        TokenUsageSnapshotKind::CompactionReset,
    ] {
        assert_eq!(snapshot_kind_from_str(Some(snapshot_kind_to_str(kind))), kind);
    }
    assert_eq!(snapshot_kind_from_str(Some("weird")), TokenUsageSnapshotKind::Unknown);
    assert_eq!(snapshot_kind_from_str(None), TokenUsageSnapshotKind::Unknown);
    assert_eq!(snapshot_kind_to_str(TokenUsageSnapshotKind::ContextTurn), "context_turn");
}

#[test]
fn session_totals_follow_snapshot_kind() {
    let usage = TokenUsage { input_tokens: 10, output_tokens: 3, cached_tokens: 2, context_window: 100 };
    let first = next_usage_session_totals(None, &usage, TokenUsageSnapshotKind::Unknown);
    assert_eq!(
        first,
        UsageSessionTotals { lifetime_input: 10, lifetime_output: 3, lifetime_cached: 2, context_input: 10, context_cached: 2, context_window: 100 }
    );
    let later = TokenUsage { input_tokens: 4, output_tokens: 1, cached_tokens: 0, context_window: 50 };
    let reset = next_usage_session_totals(Some(first), &later, TokenUsageSnapshotKind::CompactionReset);
    assert_eq!(reset.context_input, 0);
    assert_eq!(reset.lifetime_output, 3);
    assert_eq!(reset.context_window, 50);
    let turn = next_usage_session_totals(Some(first), &later, TokenUsageSnapshotKind::ContextTurn);
    assert_eq!(turn.lifetime_input, 10);
    assert_eq!(turn.context_input, 4);
}

#[test]
fn turn_delta_and_stored_usage_clamp_at_zero() {
    assert_eq!(turn_input_delta(100, 40), 60);
    assert_eq!(turn_input_delta(10, 40), 0);
    let u = usage_from_stored(-5, 7, 0, -1);
    assert_eq!((u.input_tokens, u.output_tokens, u.context_window), (0, 7, 0));
}

#[test]
fn pricing_tier_checks_model_families_first() {
    assert_eq!(pricing_tier("hooks", Some("Big-OPUS-4")), PricingTier::Opus);
    assert_eq!(pricing_tier("hooks", Some("sonnet-4")), PricingTier::Sonnet);
    assert_eq!(pricing_tier("hooks", Some("haiku")), PricingTier::Haiku);
    assert_eq!(pricing_tier("hooks", Some("gpt-5.4")), PricingTier::Gpt5);
    assert_eq!(pricing_tier("CODEX", None), PricingTier::Gpt5);
    assert_eq!(pricing_tier("hooks", None), PricingTier::Default);
}
