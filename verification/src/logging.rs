//! Log filter directives, the daily housekeeping trigger and stderr log modes.
use vstd::prelude::*;

use crate::text::{
    chars_eq, chars_index_of, chars_range, chars_starts_with, chars_trim, extend_chars, has_prefix,
    index_of, is_ws, lemma_index_of, split_chars, split_on, string_from_chars, to_chars, trim,
    trim_end, trim_start,
};

verus! {

/// How much the server logs to stderr.
#[derive(Clone, Copy, Debug, PartialEq, Eq, Structural)]
pub enum StderrLogMode {
    Compact,
    Off,
}

impl Default for StderrLogMode {
    fn default() -> (r: Self)
        ensures
            r == StderrLogMode::Compact,
    {
        StderrLogMode::Compact
    }
}

/// The `i`-th default-suppressed target and the level it is capped at.
pub open spec fn quiet_directive(i: int) -> (Seq<char>, Seq<char>) {
    if i == 0 {
        ("codex_otel.trace_safe"@, "warn"@)
    } else if i == 1 {
        ("codex_otel.log_only"@, "warn"@)
    } else if i == 2 {
        ("codex_client::custom_ca"@, "warn"@)
    } else if i == 3 {
        ("codex_api::endpoint::responses_websocket"@, "warn"@)
    } else if i == 4 {
        ("codex_core::features"@, "error"@)
    } else if i == 5 {
        ("feedback_tags"@, "warn"@)
    } else {
        ("rmcp::transport::worker"@, "off"@)
    }
}

fn quiet_directive_exec(i: usize) -> (r: (&'static str, &'static str))
    requires
        i < 7,
    ensures
        r.0@ == quiet_directive(i as int).0,
        r.1@ == quiet_directive(i as int).1,
{
    if i == 0 {
        ("codex_otel.trace_safe", "warn")
    } else if i == 1 {
        ("codex_otel.log_only", "warn")
    } else if i == 2 {
        ("codex_client::custom_ca", "warn")
    } else if i == 3 {
        ("codex_api::endpoint::responses_websocket", "warn")
    } else if i == 4 {
        ("codex_core::features", "error")
    } else if i == 5 {
        ("feedback_tags", "warn")
    } else {
        ("rmcp::transport::worker", "off")
    }
}

/// Whether one (already trimmed) `name=level` directive sets `target` or a sub-target of it.
pub open spec fn directive_overrides(d: Seq<char>, target: Seq<char>) -> bool {
    match index_of(d, '=') {
        Some(k) => {
            let name = trim(d.subrange(0, k));
            name == target || has_prefix(name, target.push('.'))
        },
        None => false,
    }
}

/// Whether a comma-separated filter already has a directive for `target` or a sub-target.
pub open spec fn has_override(filter: Seq<char>, target: Seq<char>) -> bool {
    exists|k: int|
        0 <= k < split_on(filter, ',').len() && directive_overrides(
            trim(#[trigger] split_on(filter, ',')[k]),
            target,
        )
}

/// Filter after considering the `i`-th suppressed target.
pub open spec fn quiet_step(acc: Seq<char>, i: int) -> Seq<char> {
    let (t, l) = quiet_directive(i);
    if has_override(acc, t) {
        acc
    } else {
        let sep = if acc.len() == 0 {
            acc
        } else {
            acc.push(',')
        };
        sep + t + seq!['='] + l
    }
}

/// Filter after considering the first `n` suppressed targets.
pub open spec fn quiet_prefix(base: Seq<char>, n: nat) -> Seq<char>
    decreases n,
{
    if n == 0 {
        base
    } else {
        quiet_step(quiet_prefix(base, (n - 1) as nat), n - 1)
    }
}

/// The filter with every default-suppressed target appended unless it is already set.
pub open spec fn quiet_filter(base: Seq<char>) -> Seq<char> {
    quiet_prefix(trim(base), 7)
}

/// Default filter when none is configured.
pub open spec fn default_filter() -> Seq<char> {
    "info,tower_http=warn,hyper=warn"@
}

fn directive_overrides_exec(d: &Vec<char>, target: &Vec<char>) -> (r: bool)
    ensures
        r == directive_overrides(d@, target@),
{
    match chars_index_of(d, '=') {
        Some(k) => {
            let name = chars_trim(&chars_range(d, 0, k));
            let mut dotted = target.clone();
            dotted.push('.');
            chars_eq(&name, target) || chars_starts_with(&name, &dotted)
        },
        None => false,
    }
}

fn has_override_exec(filter: &Vec<char>, target: &Vec<char>) -> (r: bool)
    ensures
        r == has_override(filter@, target@),
{
    let pieces = split_chars(filter, ',');
    let mut k: usize = 0;
    while k < pieces.len()
        invariant
            k <= pieces@.len(),
            pieces@.len() == split_on(filter@, ',').len(),
            forall|m: int| 0 <= m < pieces@.len() ==> (#[trigger] pieces@[m])@ == split_on(filter@, ',')[m],
            forall|m: int|
                0 <= m < k ==> !directive_overrides(trim(#[trigger] split_on(filter@, ',')[m]), target@),
        decreases pieces.len() - k,
    {
        let d = chars_trim(&pieces[k]);
        if directive_overrides_exec(&d, target) {
            assert(pieces@[k as int]@ == split_on(filter@, ',')[k as int]);
            return true;
        }
        assert(pieces@[k as int]@ == split_on(filter@, ',')[k as int]);
        k = k + 1;
    }
    false
}

/// Whether the filter already has a directive for `target` (or one of its sub-targets).
pub fn has_target_override(filter: &str, target: &str) -> (r: bool)
    ensures
        r == has_override(filter@, target@),
{
    has_override_exec(&to_chars(filter), &to_chars(target))
}

/// Appends `target=level` for each default-suppressed target the filter does not already set.
pub fn apply_quiet_target_directives(base_filter: &str) -> (r: String)
    ensures
        r@ == quiet_filter(base_filter@),
{
    let mut resolved = chars_trim(&to_chars(base_filter));
    let mut i: usize = 0;
    while i < 7
        invariant
            i <= 7,
            resolved@ == quiet_prefix(trim(base_filter@), i as nat),
        decreases 7 - i,
    {
        let (target, level) = quiet_directive_exec(i);
        let t = to_chars(target);
        let l = to_chars(level);
        if !has_override_exec(&resolved, &t) {
            if resolved.len() != 0 {
                resolved.push(',');
            }
            extend_chars(&mut resolved, &t);
            resolved.push('=');
            extend_chars(&mut resolved, &l);
        }
        proof {
            assert(quiet_prefix(trim(base_filter@), (i + 1) as nat) == quiet_step(
                quiet_prefix(trim(base_filter@), i as nat),
                i as int,
            ));
        }
        i = i + 1;
    }
    string_from_chars(&resolved)
}

/// The configured filter (or the default one) with noisy targets suppressed.
pub fn resolve_filter_directives(raw_filter: Option<String>) -> (r: String)
    ensures
        r@ == quiet_filter(
            match raw_filter {
                Some(f) => f@,
                None => default_filter(),
            },
        ),
{
    match raw_filter {
        Some(f) => apply_quiet_target_directives(f.as_str()),
        None => apply_quiet_target_directives("info,tower_http=warn,hyper=warn"),
    }
}

/// Day number (days since the Unix epoch, as a `u32`) of a Unix time in seconds.
pub fn utc_day_of(unix_secs: u64) -> (r: u32)
    ensures
        r == (unix_secs / 86400) as u32,
{
    (unix_secs / 86400) as u32
}

/// Remembers the last day on which housekeeping was triggered by log rotation.
#[derive(Debug)]
pub struct RotationMarker {
    pub last_housekeeping_day: u32,
}

impl RotationMarker {
    /// A marker that treats `current_day` as already handled.
    pub fn new(current_day: u32) -> (r: RotationMarker)
        ensures
            r.last_housekeeping_day == current_day,
    {
        RotationMarker { last_housekeeping_day: current_day }
    }

    /// Marks `current_day` as handled; `true` only the first time a later day is seen.
    pub fn mark_rotation_if_needed(&mut self, current_day: u32) -> (r: bool)
        ensures
            (r, final(self).last_housekeeping_day) == rotation_step(
                old(self).last_housekeeping_day,
                current_day,
            ),
    {
        if current_day <= self.last_housekeeping_day {
            return false;
        }
        self.last_housekeeping_day = current_day;
        true
    }
}

proof fn lemma_quiet_prefix_extends(base: Seq<char>, n: nat)
    ensures
        has_prefix(quiet_prefix(base, n), base),
    decreases n,
{
    if n > 0 {
        lemma_quiet_prefix_extends(base, (n - 1) as nat);
        let acc = quiet_prefix(base, (n - 1) as nat);
        let next = quiet_prefix(base, n);
        assert(next.subrange(0, base.len() as int) =~= acc.subrange(0, base.len() as int));
    } else {
        assert(base.subrange(0, base.len() as int) =~= base);
    }
}

/// Suppressing noisy targets never rewrites what was configured: the result always
/// starts with the configured filter (trimmed).
pub proof fn quiet_filter_keeps_configured_prefix(base: Seq<char>)
    ensures
        has_prefix(quiet_filter(base), trim(base)),
{
    lemma_quiet_prefix_extends(trim(base), 7);
}

/// Outcome of seeing `day` when housekeeping last ran on `last`: whether to run it now,
/// and the day to remember.
pub open spec fn rotation_step(last: u32, day: u32) -> (bool, u32) {
    if day > last {
        (true, day)
    } else {
        (false, last)
    }
}

/// Housekeeping runs at most once per day: once a day has been marked, seeing that day
/// (or any earlier one) again does not trigger it.
pub proof fn rotation_marks_once_per_day(last: u32, day: u32, again: u32)
    requires
        again <= day,
    ensures
        !rotation_step(rotation_step(last, day).1, again).0,
{
}

/// Text with no whitespace at either end (or none at all).
pub open spec fn is_trimmed(s: Seq<char>) -> bool {
    s.len() == 0 || (!is_ws(s[0]) && !is_ws(s.last()))
}

proof fn lemma_trim_start_clean(s: Seq<char>)
    ensures
        trim_start(s).len() == 0 || !is_ws(trim_start(s)[0]),
        trim_start(s).len() > 0 ==> trim_start(s).last() == s.last(),
    decreases s.len(),
{
    if s.len() > 0 && is_ws(s[0]) {
        lemma_trim_start_clean(s.drop_first());
    }
}

proof fn lemma_trim_end_clean(s: Seq<char>)
    ensures
        trim_end(s).len() == 0 || !is_ws(trim_end(s).last()),
        trim_end(s).len() > 0 ==> trim_end(s)[0] == s[0],
        trim_end(s).len() <= s.len(),
    decreases s.len(),
{
    if s.len() > 0 && is_ws(s.last()) {
        lemma_trim_end_clean(s.drop_last());
    }
}

proof fn lemma_trim_is_trimmed(s: Seq<char>)
    ensures
        is_trimmed(trim(s)),
{
    lemma_trim_start_clean(s);
    lemma_trim_end_clean(trim_start(s));
}

proof fn lemma_trimmed_is_fixed(s: Seq<char>)
    requires
        is_trimmed(s),
    ensures
        trim(s) == s,
{
}

proof fn lemma_split_append(a: Seq<char>, b: Seq<char>)
    ensures
        split_on(a.push(',') + b, ',') == split_on(a, ',') + split_on(b, ','),
    decreases b.len(),
{
    let x = a.push(',') + b;
    if b.len() == 0 {
        assert(x =~= a.push(','));
        assert(x.drop_last() =~= a);
        assert(split_on(a, ',') + split_on(b, ',') =~= split_on(a, ',').push(Seq::<char>::empty()));
    } else {
        lemma_split_append(a, b.drop_last());
        assert(x.drop_last() =~= a.push(',') + b.drop_last());
        crate::text::lemma_split_on_nonempty(b.drop_last(), ',');
        let rest = split_on(x.drop_last(), ',');
        let sb = split_on(b.drop_last(), ',');
        if b.last() == ',' {
            assert(split_on(x, ',') =~= split_on(a, ',') + split_on(b, ','));
        } else {
            assert(split_on(b, ',') == sb.update(sb.len() - 1, sb.last().push(b.last())));
            assert(split_on(x, ',') =~= split_on(a, ',') + split_on(b, ','));
        }
    }
}

proof fn lemma_split_without_sep(s: Seq<char>)
    requires
        forall|j: int| 0 <= j < s.len() ==> s[j] != ',',
    ensures
        split_on(s, ',') == seq![s],
    decreases s.len(),
{
    if s.len() > 0 {
        lemma_split_without_sep(s.drop_last());
        assert(s.drop_last().push(s.last()) =~= s);
        assert(split_on(s, ',') =~= seq![s]);
    } else {
        assert(s =~= Seq::<char>::empty());
        assert(split_on(s, ',') =~= seq![s]);
    }
}

proof fn lemma_override_survives_append(a: Seq<char>, b: Seq<char>, t: Seq<char>)
    requires
        has_override(a, t),
    ensures
        has_override(a.push(',') + b, t),
{
    lemma_split_append(a, b);
    let k = choose|k: int|
        0 <= k < split_on(a, ',').len() && directive_overrides(trim(#[trigger] split_on(a, ',')[k]), t);
    assert(split_on(a.push(',') + b, ',')[k] == split_on(a, ',')[k]);
}

/// A target and level that can stand in a filter as `target=level`.
pub open spec fn plain_directive(t: Seq<char>, l: Seq<char>) -> bool {
    &&& t.len() > 0 && l.len() > 0
    &&& !is_ws(t[0]) && !is_ws(t.last()) && !is_ws(l.last())
    &&& forall|j: int| 0 <= j < t.len() ==> t[j] != ',' && t[j] != '='
    &&& forall|j: int| 0 <= j < l.len() ==> l[j] != ','
}

proof fn lemma_directive_overrides_itself(t: Seq<char>, l: Seq<char>)
    requires
        plain_directive(t, l),
    ensures
        directive_overrides(trim(t + seq!['='] + l), t),
        has_override(t + seq!['='] + l, t),
{
    let d = t + seq!['='] + l;
    assert(is_trimmed(d));
    lemma_trimmed_is_fixed(d);
    lemma_index_of(d, '=');
    assert(d[t.len() as int] == '=');
    assert(index_of(d, '=') == Some(t.len() as int)) by {
        match index_of(d, '=') {
            Some(i) => {
                if i < t.len() {
                    assert(d[i] == t[i]);
                }
            },
            None => {},
        }
    }
    assert(d.subrange(0, t.len() as int) =~= t);
    assert(is_trimmed(t));
    lemma_trimmed_is_fixed(t);
    assert forall|j: int| 0 <= j < d.len() implies d[j] != ',' by {
        if j < t.len() {
            assert(d[j] == t[j]);
        } else if j > t.len() {
            assert(d[j] == l[j - t.len() - 1]);
        }
    }
    lemma_split_without_sep(d);
    assert(split_on(d, ',')[0] == d);
}

proof fn lemma_quiet_directives_plain(i: int)
    requires
        0 <= i < 7,
    ensures
        plain_directive(quiet_directive(i).0, quiet_directive(i).1),
{
    reveal_strlit("codex_otel.trace_safe");
    reveal_strlit("codex_otel.log_only");
    reveal_strlit("codex_client::custom_ca");
    reveal_strlit("codex_api::endpoint::responses_websocket");
    reveal_strlit("codex_core::features");
    reveal_strlit("feedback_tags");
    reveal_strlit("rmcp::transport::worker");
    reveal_strlit("warn");
    reveal_strlit("error");
    reveal_strlit("off");
}

proof fn lemma_quiet_step_facts(acc: Seq<char>, i: int)
    requires
        0 <= i < 7,
        is_trimmed(acc),
    ensures
        is_trimmed(quiet_step(acc, i)),
        has_override(quiet_step(acc, i), quiet_directive(i).0),
        forall|t: Seq<char>| has_override(acc, t) ==> #[trigger] has_override(quiet_step(acc, i), t),
{
    let (t, l) = quiet_directive(i);
    lemma_quiet_directives_plain(i);
    if !has_override(acc, t) {
        let d = t + seq!['='] + l;
        lemma_directive_overrides_itself(t, l);
        if acc.len() == 0 {
            assert(quiet_step(acc, i) =~= d);
        } else {
            assert(quiet_step(acc, i) =~= acc.push(',') + d);
            lemma_split_append(acc, d);
            lemma_split_without_sep(d);
            let k = split_on(acc, ',').len() as int;
            assert(split_on(acc.push(',') + d, ',')[k] == d);
            assert forall|u: Seq<char>| has_override(acc, u) implies #[trigger] has_override(
                quiet_step(acc, i),
                u,
            ) by {
                lemma_override_survives_append(acc, d, u);
            }
        }
    }
}

proof fn lemma_quiet_prefix_overrides(base: Seq<char>, n: nat)
    requires
        n <= 7,
        is_trimmed(base),
    ensures
        is_trimmed(quiet_prefix(base, n)),
        forall|i: int| 0 <= i < n ==> has_override(quiet_prefix(base, n), #[trigger] quiet_directive(i).0),
    decreases n,
{
    if n > 0 {
        lemma_quiet_prefix_overrides(base, (n - 1) as nat);
        let acc = quiet_prefix(base, (n - 1) as nat);
        lemma_quiet_step_facts(acc, n - 1);
        assert forall|i: int| 0 <= i < n implies has_override(
            quiet_prefix(base, n),
            #[trigger] quiet_directive(i).0,
        ) by {
            if i < n - 1 {
                assert(has_override(acc, quiet_directive(i).0));
            }
        }
    }
}

proof fn lemma_quiet_prefix_fixed(q: Seq<char>, n: nat)
    requires
        n <= 7,
        forall|i: int| 0 <= i < 7 ==> has_override(q, #[trigger] quiet_directive(i).0),
    ensures
        quiet_prefix(q, n) == q,
    decreases n,
{
    if n > 0 {
        lemma_quiet_prefix_fixed(q, (n - 1) as nat);
        assert(has_override(q, quiet_directive(n - 1).0));
    }
}

/// Suppressing noisy targets twice gives what suppressing them once gives: the result
/// already sets every suppressed target and has nothing to trim.
pub proof fn quiet_filter_is_idempotent(base: Seq<char>)
    ensures
        quiet_filter(quiet_filter(base)) == quiet_filter(base),
{
    lemma_trim_is_trimmed(base);
    let q = quiet_filter(base);
    lemma_quiet_prefix_overrides(trim(base), 7);
    lemma_trimmed_is_fixed(q);
    lemma_quiet_prefix_fixed(q, 7);
}

} // verus!
