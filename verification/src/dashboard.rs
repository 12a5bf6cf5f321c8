//! The text the dashboard shows for a conversation: preview and activity lines with
//! Markdown markers removed, what a pending tool wants to do, and a diff's summary.
use vstd::prelude::*;

use crate::conversation::SessionStatus;
use crate::pending_hooks::Provider;
use crate::text::{
    lemma_text_less_irreflexive, lemma_text_less_total, lemma_text_less_transitive, lists_index,
    str_less, text_less,
};
use crate::text::{
    chars_eq, chars_find_from, chars_occur_at, chars_range, chars_starts_with, chars_trim,
    copy_str, has_prefix, lines_of, occurs_at, string_from_chars, text_lines, to_chars, trim,
};

verus! {

/// `s` with every occurrence of `p` removed, scanning left to right as `str::replace`
/// with an empty replacement does.
pub open spec fn remove_all(s: Seq<char>, p: Seq<char>) -> Seq<char>
    decreases s.len(),
{
    if s.len() == 0 {
        Seq::empty()
    } else if p.len() > 0 && has_prefix(s, p) {
        remove_all(s.skip(p.len() as int), p)
    } else {
        seq![s[0]] + remove_all(s.drop_first(), p)
    }
}

fn remove_pattern(s: &Vec<char>, p: &Vec<char>) -> (r: Vec<char>)
    requires
        p@.len() > 0,
    ensures
        r@ == remove_all(s@, p@),
{
    let mut out: Vec<char> = Vec::new();
    let mut i: usize = 0;
    proof {
        assert(s@.skip(0) =~= s@);
    }
    while i < s.len()
        invariant
            p@.len() > 0,
            i <= s@.len(),
            out@ + remove_all(s@.skip(i as int), p@) == remove_all(s@, p@),
        decreases s.len() - i,
    {
        let ghost rest = s@.skip(i as int);
        if chars_occur_at(s, p, i) {
            proof {
                assert(rest.subrange(0, p@.len() as int) =~= p@);
                assert(has_prefix(rest, p@));
                assert(rest.skip(p@.len() as int) =~= s@.skip(i + p@.len()));
            }
            i = i + p.len();
        } else {
            proof {
                if has_prefix(rest, p@) {
                    assert(occurs_at(s@, p@, i as int)) by {
                        assert(s@.subrange(i as int, i + p@.len()) =~= rest.subrange(
                            0,
                            p@.len() as int,
                        ));
                    }
                }
                assert(rest[0] == s@[i as int]);
                assert(rest.drop_first() =~= s@.skip(i + 1));
                assert(out@.push(s@[i as int]) + remove_all(s@.skip(i + 1), p@) =~= out@ + (seq![
                    s@[i as int],
                ] + remove_all(s@.skip(i + 1), p@)));
            }
            out.push(s[i]);
            i = i + 1;
        }
    }
    proof {
        assert(s@.skip(i as int).len() == 0);
        assert(out@ + Seq::<char>::empty() =~= out@);
    }
    out
}

/// Dashboard text with Markdown emphasis, code and heading markers removed: `**`,
/// then `__`, then backticks, then `## `, then `# `.
pub open spec fn sanitized(t: Seq<char>) -> Seq<char> {
    remove_all(
        remove_all(remove_all(remove_all(remove_all(t, "**"@), "__"@), "`"@), "## "@),
        "# "@,
    )
}

/// Removes Markdown markers from dashboard text.
pub fn sanitize_dashboard_text(text: &str) -> (r: String)
    ensures
        r@ == sanitized(text@),
{
    let s0 = to_chars(text);
    let p1 = to_chars("**");
    let p2 = to_chars("__");
    let p3 = to_chars("`");
    let p4 = to_chars("## ");
    let p5 = to_chars("# ");
    proof {
        reveal_strlit("**");
        reveal_strlit("__");
        reveal_strlit("`");
        reveal_strlit("## ");
        reveal_strlit("# ");
    }
    let s1 = remove_pattern(&s0, &p1);
    let s2 = remove_pattern(&s1, &p2);
    let s3 = remove_pattern(&s2, &p3);
    let s4 = remove_pattern(&s3, &p4);
    let s5 = remove_pattern(&s4, &p5);
    string_from_chars(&s5)
}

/// The first present value, else the fallback.
pub open spec fn first_of(a: Option<&str>, b: Option<&str>, fallback: Seq<char>) -> Seq<char> {
    match a {
        Some(v) => v@,
        None => match b {
            Some(v) => v@,
            None => fallback,
        },
    }
}

fn pick<'a>(a: Option<&'a str>, b: Option<&'a str>, fallback: &'a str) -> (r: &'a str)
    ensures
        r@ == first_of(a, b, fallback@),
{
    match a {
        Some(v) => v,
        None => match b {
            Some(v) => v,
            None => fallback,
        },
    }
}

/// The preview line of a conversation: its last message, else its context line, else
/// an invitation to write, with Markdown markers removed.
pub fn dashboard_preview_text(last_message: Option<&str>, context_line: Option<&str>) -> (r: String)
    ensures
        r@ == sanitized(first_of(last_message, context_line, "Waiting for your next message."@)),
{
    sanitize_dashboard_text(pick(last_message, context_line, "Waiting for your next message."))
}

/// What a working conversation is doing: the tool it runs, else its last message or
/// context line with Markdown markers removed.
pub fn dashboard_activity_summary(
    pending_tool_name: Option<&str>,
    last_message: Option<&str>,
    context_line: Option<&str>,
) -> (r: String)
    ensures
        r@ == match pending_tool_name {
            Some(tool) => "Running "@ + tool@,
            None => sanitized(first_of(last_message, context_line, "Processing…"@)),
        },
{
    match pending_tool_name {
        Some(tool) => {
            let mut r = copy_str("Running ");
            r.append(tool);
            r
        },
        None => sanitize_dashboard_text(pick(last_message, context_line, "Processing…")),
    }
}

/// What a text field of a JSON document holds: `None` when the text is not JSON; then
/// the field's text when the document is an object whose field is a string.
pub uninterp spec fn json_text_field(input: Seq<char>, key: Seq<char>) -> Option<Option<Seq<char>>>;

/// `serde_json::from_str::<Value>` on the input, then `Value::get` of the key and
/// `Value::as_str`: `None` when the input does not parse, else the field's text if it is
/// a string field of an object.
#[verifier::external_body]
pub(crate) fn read_json_text_field(input: &str, key: &str) -> (r: Option<Option<String>>)
    ensures
        match r {
            None => json_text_field(input@, key@) is None,
            Some(None) => json_text_field(input@, key@) == Some(None::<Seq<char>>),
            Some(Some(v)) => json_text_field(input@, key@) == Some(Some(v@)),
        },
{
    match serde_json::from_str::<serde_json::Value>(input) {
        Ok(json) => Some(json.get(key).and_then(serde_json::Value::as_str).map(str::to_string)),
        Err(_) => None,
    }
}

/// The final component of a path, when it has one.
pub uninterp spec fn path_file_name(path: Seq<char>) -> Option<Seq<char>>;

/// `std::path::Path::file_name` of a path given as text: its final component, or
/// `None` when there is none (as for a path ending in `..`).
#[verifier::external_body]
fn file_name_of(path: &str) -> (r: Option<String>)
    ensures
        match r {
            Some(v) => path_file_name(path@) == Some(v@),
            None => path_file_name(path@) is None,
        },
{
    std::path::Path::new(path).file_name().and_then(|name| name.to_str()).map(str::to_string)
}

/// What a pending tool call wants to do, from the tool and its JSON input: the command
/// of `Bash`; the file name for `Edit`, `Write` and `Read`; the pattern of `Grep` and
/// `Glob`; otherwise, or when the input says nothing usable, that it wants to run the
/// tool.
pub open spec fn tool_context(tool: Seq<char>, input: Option<Seq<char>>) -> Seq<char> {
    let fallback = "Wants to run "@ + tool;
    match input {
        None => fallback,
        Some(i) => if i.len() == 0 {
            fallback
        } else if tool == "Bash"@ {
            match json_text_field(i, "command"@) {
                Some(Some(c)) => c,
                _ => fallback,
            }
        } else if tool == "Edit"@ || tool == "Write"@ || tool == "Read"@ {
            match json_text_field(i, "file_path"@) {
                Some(Some(p)) => match path_file_name(p) {
                    Some(n) => tool + " "@ + n,
                    None => fallback,
                },
                _ => fallback,
            }
        } else if tool == "Grep"@ {
            match json_text_field(i, "pattern"@) {
                Some(Some(p)) => "Search for \""@ + p + "\""@,
                _ => fallback,
            }
        } else if tool == "Glob"@ {
            match json_text_field(i, "pattern"@) {
                Some(Some(p)) => "Find files matching "@ + p,
                _ => fallback,
            }
        } else {
            fallback
        },
    }
}

/// Spec view of an optional string slice.
pub open spec fn opt_str_view(v: Option<&str>) -> Option<Seq<char>> {
    match v {
        Some(t) => Some(t@),
        None => None,
    }
}

fn wants_to_run(tool_name: &str) -> (r: String)
    ensures
        r@ == "Wants to run "@ + tool_name@,
{
    let mut r = copy_str("Wants to run ");
    r.append(tool_name);
    r
}

/// What a pending tool call wants to do.
pub fn format_tool_context(tool_name: &str, input: Option<&str>) -> (r: String)
    ensures
        r@ == tool_context(tool_name@, opt_str_view(input)),
{
    let input = match input {
        Some(i) => i,
        None => return wants_to_run(tool_name),
    };
    if input.unicode_len() == 0 {
        return wants_to_run(tool_name);
    }
    let tool = to_chars(tool_name);
    if crate::text::str_eq(tool_name, "Bash") {
        match read_json_text_field(input, "command") {
            Some(Some(c)) => c,
            _ => wants_to_run(tool_name),
        }
    } else if crate::text::str_eq(tool_name, "Edit") || crate::text::str_eq(tool_name, "Write")
        || crate::text::str_eq(tool_name, "Read") {
        match read_json_text_field(input, "file_path") {
            Some(Some(p)) => match file_name_of(p.as_str()) {
                Some(n) => {
                    let mut r = copy_str(tool_name);
                    r.append(" ");
                    r.append(n.as_str());
                    r
                },
                None => wants_to_run(tool_name),
            },
            _ => wants_to_run(tool_name),
        }
    } else if crate::text::str_eq(tool_name, "Grep") {
        match read_json_text_field(input, "pattern") {
            Some(Some(p)) => {
                let mut r = copy_str("Search for \"");
                r.append(p.as_str());
                r.append("\"");
                r
            },
            _ => wants_to_run(tool_name),
        }
    } else if crate::text::str_eq(tool_name, "Glob") {
        match read_json_text_field(input, "pattern") {
            Some(Some(p)) => {
                let mut r = copy_str("Find files matching ");
                r.append(p.as_str());
                r
            },
            _ => wants_to_run(tool_name),
        }
    } else {
        wants_to_run(tool_name)
    }
}

/// What a conversation that needs attention is waiting on: its question when there
/// is one, else what its pending tool wants to do, else its last message or context
/// line with Markdown markers removed.
pub fn dashboard_alert_context(
    pending_question: Option<&str>,
    pending_tool_name: Option<&str>,
    pending_tool_input: Option<&str>,
    last_message: Option<&str>,
    context_line: Option<&str>,
) -> (r: String)
    ensures
        r@ == if pending_question matches Some(q) && q@.len() > 0 {
            pending_question->0@
        } else if pending_tool_name is Some {
            tool_context(pending_tool_name->0@, opt_str_view(pending_tool_input))
        } else {
            sanitized(first_of(last_message, context_line, "Needs your attention."@))
        },
{
    match pending_question {
        Some(q) => {
            if q.unicode_len() > 0 {
                return copy_str(q);
            }
        },
        None => {},
    }
    match pending_tool_name {
        Some(tool) => format_tool_context(tool, pending_tool_input),
        None => sanitize_dashboard_text(pick(last_message, context_line, "Needs your attention.")),
    }
}

/// Where a conversation stands in the session list.
#[derive(Debug, Clone, Copy, PartialEq, Eq, Structural)]
pub enum SessionListStatus {
    Permission,
    Question,
    Working,
    Reply,
    Ended,
}

/// Dashboard order: permission requests first, then questions, work in progress,
/// conversations awaiting a reply, and ended ones.
pub fn dashboard_priority(status: SessionListStatus) -> (r: u8)
    ensures
        r == match status {
            SessionListStatus::Permission => 0u8,
            SessionListStatus::Question => 1u8,
            SessionListStatus::Working => 2u8,
            SessionListStatus::Reply => 3u8,
            SessionListStatus::Ended => 4u8,
        },
{
    match status {
        SessionListStatus::Permission => 0,
        SessionListStatus::Question => 1,
        SessionListStatus::Working => 2,
        SessionListStatus::Reply => 3,
        SessionListStatus::Ended => 4,
    }
}

/// The first occurrence of `p` in `s` is at `i`.
pub open spec fn first_at(s: Seq<char>, p: Seq<char>, i: int) -> bool {
    occurs_at(s, p, i) && forall|j: int| 0 <= j < i ==> !occurs_at(s, p, j)
}

/// The second piece of `s` split at `sep` (`str::split(sep).nth(1)`): the text after
/// the first `sep` up to the next one, if `s` holds `sep` at all.
pub open spec fn second_piece(s: Seq<char>, sep: Seq<char>) -> Option<Seq<char>> {
    if exists|i: int| first_at(s, sep, i) {
        let i = choose|i: int| first_at(s, sep, i);
        let tail = s.skip(i + sep.len());
        if exists|j: int| first_at(tail, sep, j) {
            Some(tail.take(choose|j: int| first_at(tail, sep, j)))
        } else {
            Some(tail)
        }
    } else {
        None
    }
}

proof fn lemma_first_at_unique(s: Seq<char>, p: Seq<char>, i: int, k: int)
    requires
        first_at(s, p, i),
        first_at(s, p, k),
    ensures
        i == k,
{
    if i < k {
        assert(!occurs_at(s, p, i));
    } else if k < i {
        assert(!occurs_at(s, p, k));
    }
}

/// `x + 1`, saturating at the largest `u32`.
pub open spec fn sat_inc(x: u32) -> u32 {
    if x == u32::MAX {
        x
    } else {
        (x + 1) as u32
    }
}

/// The paths with `p` added, unless it is blank or already there.
pub open spec fn add_path(paths: Seq<Seq<char>>, p: Seq<char>) -> Seq<Seq<char>> {
    if p.len() > 0 && !paths.contains(p) {
        paths.push(p)
    } else {
        paths
    }
}

/// What one diff line adds to the tally of changed paths, added and removed lines:
/// `+++ b/<path>` and `diff --git a/<x> b/<path>` name a path; other lines starting
/// with `+` or `-` (but not `+++` or `---`) count as added or removed.
pub open spec fn diff_step(acc: (Seq<Seq<char>>, u32, u32), line: Seq<char>) -> (
    Seq<Seq<char>>,
    u32,
    u32,
) {
    if has_prefix(line, "+++ b/"@) {
        (add_path(acc.0, trim(line.skip(6))), acc.1, acc.2)
    } else if has_prefix(line, "diff --git "@) {
        match second_piece(line.skip(11), " b/"@) {
            Some(p) => (add_path(acc.0, trim(p)), acc.1, acc.2),
            None => acc,
        }
    } else if has_prefix(line, "+"@) && !has_prefix(line, "+++"@) {
        (acc.0, sat_inc(acc.1), acc.2)
    } else if has_prefix(line, "-"@) && !has_prefix(line, "---"@) {
        (acc.0, acc.1, sat_inc(acc.2))
    } else {
        acc
    }
}

/// The tally of a sequence of diff lines.
pub open spec fn diff_tally(lines: Seq<Seq<char>>) -> (Seq<Seq<char>>, u32, u32)
    decreases lines.len(),
{
    if lines.len() == 0 {
        (Seq::empty(), 0, 0)
    } else {
        diff_step(diff_tally(lines.drop_last()), lines.last())
    }
}

/// A diff summarized for the dashboard.
#[derive(Debug, Clone, PartialEq, Eq)]
pub struct DashboardDiffPreview {
    pub file_count: u32,
    pub additions: u32,
    pub deletions: u32,
    pub file_paths: Vec<String>,
}

/// Views of a list of strings.
pub open spec fn views_of(v: Seq<String>) -> Seq<Seq<char>> {
    v.map_values(|s: String| s@)
}

/// Views of a list of character vectors.
pub open spec fn char_views(v: Seq<Vec<char>>) -> Seq<Seq<char>> {
    v.map_values(|s: Vec<char>| s@)
}

fn contains_chars(paths: &Vec<Vec<char>>, p: &Vec<char>) -> (r: bool)
    ensures
        r == char_views(paths@).contains(p@),
{
    let mut i: usize = 0;
    while i < paths.len()
        invariant
            i <= paths@.len(),
            forall|j: int| 0 <= j < i ==> char_views(paths@)[j] != p@,
        decreases paths.len() - i,
    {
        if chars_eq(&paths[i], p) {
            proof {
                assert(char_views(paths@)[i as int] == p@);
            }
            return true;
        }
        i = i + 1;
    }
    false
}

fn push_path(paths: &mut Vec<Vec<char>>, p: Vec<char>)
    ensures
        char_views(final(paths)@) == add_path(char_views(old(paths)@), p@),
{
    if p.len() > 0 && !contains_chars(paths, &p) {
        let ghost before = paths@;
        let ghost pv = p@;
        paths.push(p);
        proof {
            assert(char_views(paths@) =~= char_views(before).push(pv));
        }
    }
}

fn second_piece_of(s: &Vec<char>, sep: &Vec<char>) -> (r: Option<Vec<char>>)
    requires
        sep@.len() > 0,
    ensures
        match second_piece(s@, sep@) {
            Some(p) => r matches Some(v) && v@ == p,
            None => r is None,
        },
{
    match chars_find_from(s, sep, 0) {
        None => {
            proof {
                assert(!exists|i: int| first_at(s@, sep@, i));
            }
            None
        },
        Some(i) => {
            proof {
                assert(first_at(s@, sep@, i as int));
                let c = choose|k: int| first_at(s@, sep@, k);
                lemma_first_at_unique(s@, sep@, i as int, c);
                assert(i + sep@.len() <= s@.len());
            }
            let n = s.len();
            let sl = sep.len();
            assert(i + sl <= n);
            let tail = chars_range(s, i + sl, n);
            proof {
                assert(tail@ =~= s@.skip(i + sep@.len()));
            }
            match chars_find_from(&tail, sep, 0) {
                None => {
                    proof {
                        assert(!exists|j: int| first_at(tail@, sep@, j));
                    }
                    Some(tail)
                },
                Some(j) => {
                    proof {
                        assert(first_at(tail@, sep@, j as int));
                        let c = choose|k: int| first_at(tail@, sep@, k);
                        lemma_first_at_unique(tail@, sep@, j as int, c);
                    }
                    let piece = chars_range(&tail, 0, j);
                    proof {
                        assert(piece@ =~= tail@.take(j as int));
                    }
                    Some(piece)
                },
            }
        },
    }
}

/// The dashboard's summary of a diff: how many distinct paths it changes, how many
/// lines it adds and removes (each count saturating), and the first three paths.
/// Nothing for a missing or blank diff.
pub fn dashboard_diff_preview(diff: Option<&str>) -> (r: Option<DashboardDiffPreview>)
    ensures
        match diff {
            None => r is None,
            Some(d) => if trim(d@).len() == 0 {
                r is None
            } else {
                r matches Some(p) && {
                    let t = diff_tally(text_lines(trim(d@)));
                    &&& p.file_count == t.0.len() as u32
                    &&& p.additions == t.1
                    &&& p.deletions == t.2
                    &&& views_of(p.file_paths@) == if t.0.len() <= 3 {
                        t.0
                    } else {
                        t.0.take(3)
                    }
                }
            },
        },
{
    let d = match diff {
        None => return None,
        Some(d) => d,
    };
    let chars = to_chars(d);
    let trimmed = chars_trim(&chars);
    if trimmed.len() == 0 {
        return None;
    }
    let lines = lines_of(&trimmed);
    let ghost ls = text_lines(trimmed@);
    let plus_path = to_chars("+++ b/");
    let git = to_chars("diff --git ");
    let plus = to_chars("+");
    let plus3 = to_chars("+++");
    let minus = to_chars("-");
    let minus3 = to_chars("---");
    let sep = to_chars(" b/");
    proof {
        reveal_strlit("+++ b/");
        reveal_strlit("diff --git ");
        reveal_strlit(" b/");
    }
    let mut paths: Vec<Vec<char>> = Vec::new();
    let mut additions: u32 = 0;
    let mut deletions: u32 = 0;
    let mut k: usize = 0;
    while k < lines.len()
        invariant
            k <= lines@.len() == ls.len(),
            forall|j: int| 0 <= j < lines@.len() ==> (#[trigger] lines@[j])@ == ls[j],
            plus_path@ == "+++ b/"@,
            plus_path@.len() == 6,
            git@ == "diff --git "@,
            git@.len() == 11,
            plus@ == "+"@,
            plus3@ == "+++"@,
            minus@ == "-"@,
            minus3@ == "---"@,
            sep@ == " b/"@,
            sep@.len() == 3,
            (char_views(paths@), additions, deletions) == diff_tally(ls.take(k as int)),
        decreases lines.len() - k,
    {
        proof {
            assert(ls.take(k + 1).drop_last() =~= ls.take(k as int));
            assert(ls.take(k + 1).last() == ls[k as int]);
        }
        let line = &lines[k];
        if chars_starts_with(line, &plus_path) {
            let rest = chars_range(line, 6, line.len());
            let p = chars_trim(&rest);
            proof {
                assert(rest@ =~= line@.skip(6));
            }
            push_path(&mut paths, p);
        } else if chars_starts_with(line, &git) {
            let rest = chars_range(line, 11, line.len());
            proof {
                assert(rest@ =~= line@.skip(11));
            }
            match second_piece_of(&rest, &sep) {
                Some(piece) => {
                    let p = chars_trim(&piece);
                    push_path(&mut paths, p);
                },
                None => {},
            }
        } else if chars_starts_with(line, &plus) && !chars_starts_with(line, &plus3) {
            if additions < u32::MAX {
                additions = additions + 1;
            }
        } else if chars_starts_with(line, &minus) && !chars_starts_with(line, &minus3) {
            if deletions < u32::MAX {
                deletions = deletions + 1;
            }
        }
        k = k + 1;
    }
    proof {
        assert(ls.take(k as int) =~= ls);
    }
    let count = paths.len() as u32;
    let mut shown: Vec<String> = Vec::new();
    let mut m: usize = 0;
    while m < paths.len() && m < 3
        invariant
            m <= paths@.len(),
            m <= 3,
            views_of(shown@) == char_views(paths@).take(m as int),
        decreases paths.len() - m,
    {
        let s = string_from_chars(&paths[m]);
        let ghost before = shown@;
        shown.push(s);
        proof {
            assert(views_of(shown@) =~= views_of(before).push(paths@[m as int]@));
            assert(char_views(paths@).take(m + 1) =~= char_views(paths@).take(m as int).push(
                paths@[m as int]@,
            ));
        }
        m = m + 1;
    }
    proof {
        if paths@.len() <= 3 {
            assert(char_views(paths@).take(m as int) =~= char_views(paths@));
        }
    }
    Some(DashboardDiffPreview { file_count: count, additions, deletions, file_paths: shown })
}

/// What the dashboard orders conversations by.
#[derive(Debug, Clone)]
pub struct DashboardSortKey {
    pub list_status: SessionListStatus,
    pub last_activity_at: Option<String>,
    pub display_title: String,
}

/// Rank of a list status in dashboard order.
pub open spec fn priority_of(s: SessionListStatus) -> int {
    match s {
        SessionListStatus::Permission => 0,
        SessionListStatus::Question => 1,
        SessionListStatus::Working => 2,
        SessionListStatus::Reply => 3,
        SessionListStatus::Ended => 4,
    }
}

/// Order on optional text: nothing first, then by text.
pub open spec fn opt_text_less(a: Option<String>, b: Option<String>) -> bool {
    match (a, b) {
        (None, Some(_)) => true,
        (Some(x), Some(y)) => text_less(x@, y@),
        _ => false,
    }
}

/// The sort key as plain values.
pub open spec fn key_view(k: DashboardSortKey) -> (int, Option<Seq<char>>, Seq<char>) {
    (
        priority_of(k.list_status),
        match k.last_activity_at {
            Some(t) => Some(t@),
            None => None,
        },
        k.display_title@,
    )
}

/// Dashboard order: by status rank, then most recent activity first, then by title.
pub open spec fn dashboard_before(a: DashboardSortKey, b: DashboardSortKey) -> bool {
    let pa = priority_of(a.list_status);
    let pb = priority_of(b.list_status);
    if pa != pb {
        pa < pb
    } else if opt_text_less(b.last_activity_at, a.last_activity_at) {
        true
    } else if opt_text_less(a.last_activity_at, b.last_activity_at) {
        false
    } else {
        text_less(a.display_title@, b.display_title@)
    }
}

proof fn lemma_opt_text_total(a: Option<String>, b: Option<String>)
    ensures
        !opt_text_less(a, b) && !opt_text_less(b, a) ==> (match (a, b) {
            (None, None) => true,
            (Some(x), Some(y)) => x@ == y@,
            _ => false,
        }),
        !(opt_text_less(a, b) && opt_text_less(b, a)),
{
    match (a, b) {
        (Some(x), Some(y)) => lemma_text_less_total(x@, y@),
        _ => {},
    }
}

proof fn lemma_opt_text_transitive(a: Option<String>, b: Option<String>, c: Option<String>)
    requires
        opt_text_less(a, b),
        opt_text_less(b, c),
    ensures
        opt_text_less(a, c),
{
    match (a, b, c) {
        (Some(x), Some(y), Some(z)) => lemma_text_less_transitive(x@, y@, z@),
        _ => {},
    }
}

proof fn lemma_opt_text_same(a: Option<String>, b: Option<String>, c: Option<String>)
    requires
        !opt_text_less(a, b) && !opt_text_less(b, a),
    ensures
        opt_text_less(a, c) == opt_text_less(b, c),
        opt_text_less(c, a) == opt_text_less(c, b),
{
    lemma_opt_text_total(a, b);
}

/// Two keys the order does not separate are the same key.
proof fn lemma_dashboard_total(a: DashboardSortKey, b: DashboardSortKey)
    ensures
        !dashboard_before(a, b) && !dashboard_before(b, a) ==> key_view(a) == key_view(b),
        !(dashboard_before(a, b) && dashboard_before(b, a)),
{
    lemma_opt_text_total(a.last_activity_at, b.last_activity_at);
    lemma_text_less_total(a.display_title@, b.display_title@);
}

proof fn lemma_dashboard_transitive(a: DashboardSortKey, b: DashboardSortKey, c: DashboardSortKey)
    requires
        dashboard_before(a, b),
        dashboard_before(b, c),
    ensures
        dashboard_before(a, c),
{
    let (la, lb, lc) = (a.last_activity_at, b.last_activity_at, c.last_activity_at);
    lemma_opt_text_total(la, lb);
    lemma_opt_text_total(lb, lc);
    lemma_opt_text_total(la, lc);
    if priority_of(a.list_status) == priority_of(b.list_status) && priority_of(b.list_status)
        == priority_of(c.list_status) {
        if opt_text_less(lb, la) && opt_text_less(lc, lb) {
            lemma_opt_text_transitive(lc, lb, la);
        } else if opt_text_less(lb, la) {
            lemma_opt_text_same(lb, lc, la);
        } else if opt_text_less(lc, lb) {
            lemma_opt_text_same(la, lb, lc);
            lemma_opt_text_same(la, lb, la);
        } else {
            lemma_opt_text_same(la, lb, lc);
            lemma_opt_text_same(lb, lc, la);
            lemma_text_less_transitive(a.display_title@, b.display_title@, c.display_title@);
        }
    }
}

/// `order` lists the conversations in dashboard order; conversations the order does
/// not separate keep their original order.
pub open spec fn dashboard_sorted(keys: Seq<DashboardSortKey>, order: Seq<usize>) -> bool {
    &&& order.len() == keys.len()
    &&& forall|i: int| 0 <= i < order.len() ==> (#[trigger] order[i]) < keys.len()
    &&& forall|i: int, j: int|
        0 <= i < j < order.len() ==> dashboard_before(keys[#[trigger] order[i] as int], keys[#[trigger] order[j] as int])
            || (key_view(keys[order[i] as int]) == key_view(keys[order[j] as int]) && order[i] < order[j])
}

/// `order` lists every index of `n` items.
pub open spec fn covers(order: Seq<usize>, n: int) -> bool {
    forall|k: int| 0 <= k < n ==> #[trigger] lists_index(order, k)
}

fn opt_less(a: &Option<String>, b: &Option<String>) -> (r: bool)
    ensures
        r == opt_text_less(*a, *b),
{
    match (a, b) {
        (None, Some(_)) => true,
        (Some(x), Some(y)) => str_less(x.as_str(), y.as_str()),
        _ => false,
    }
}

fn key_before(a: &DashboardSortKey, b: &DashboardSortKey) -> (r: bool)
    ensures
        r == dashboard_before(*a, *b),
{
    let pa = dashboard_priority(a.list_status);
    let pb = dashboard_priority(b.list_status);
    if pa != pb {
        pa < pb
    } else if opt_less(&b.last_activity_at, &a.last_activity_at) {
        true
    } else if opt_less(&a.last_activity_at, &b.last_activity_at) {
        false
    } else {
        str_less(a.display_title.as_str(), b.display_title.as_str())
    }
}

/// The dashboard's order of its conversations, as indices: by status (permission
/// requests, questions, work in progress, awaiting reply, ended), then most recent
/// activity first, then by title; ties keep their order.
pub fn dashboard_order(keys: &Vec<DashboardSortKey>) -> (r: Vec<usize>)
    ensures
        dashboard_sorted(keys@, r@),
        covers(r@, keys@.len() as int),
{
    let n = keys.len();
    let mut order: Vec<usize> = Vec::new();
    let mut i: usize = 0;
    while i < n
        invariant
            n == keys@.len(),
            i <= n,
            order@.len() == i,
            forall|a: int| 0 <= a < order@.len() ==> (#[trigger] order@[a]) < i,
            forall|a: int, b: int|
                0 <= a < b < order@.len() ==> dashboard_before(keys@[#[trigger] order@[a] as int], keys@[#[trigger] order@[b] as int])
                    || (key_view(keys@[order@[a] as int]) == key_view(keys@[order@[b] as int]) && order@[a] < order@[b]),
            covers(order@, i as int),
        decreases n - i,
    {
        let key = &keys[i];
        let mut p: usize = 0;
        while p < order.len() && !key_before(key, &keys[order[p]])
            invariant
                p <= order@.len(),
                forall|a: int| 0 <= a < order@.len() ==> (#[trigger] order@[a]) < i,
                i < n == keys@.len(),
                *key == keys@[i as int],
                forall|a: int| 0 <= a < p ==> !dashboard_before(*key, keys@[#[trigger] order@[a] as int]),
            decreases order@.len() - p,
        {
            p = p + 1;
        }
        let ghost old_order = order@;
        order.insert(p, i);
        proof {
            let k = keys@[i as int];
            assert forall|a: int| 0 <= a < order@.len() implies (#[trigger] order@[a]) < i + 1 by {
                if a < p {
                    assert(order@[a] == old_order[a]);
                } else if a > p {
                    assert(order@[a] == old_order[a - 1]);
                }
            }
            assert forall|a: int, b: int|
                0 <= a < b < order@.len() implies dashboard_before(keys@[#[trigger] order@[a] as int], keys@[#[trigger] order@[b] as int])
                    || (key_view(keys@[order@[a] as int]) == key_view(keys@[order@[b] as int]) && order@[a] < order@[b]) by {
                if b < p {
                    assert(order@[a] == old_order[a] && order@[b] == old_order[b]);
                } else if b == p {
                    assert(order@[a] == old_order[a]);
                    lemma_dashboard_total(k, keys@[old_order[a] as int]);
                } else if a < p {
                    assert(order@[a] == old_order[a] && order@[b] == old_order[b - 1]);
                } else if a == p {
                    assert(order@[b] == old_order[b - 1]);
                    let kp = keys@[old_order[p as int] as int];
                    let kb = keys@[old_order[b - 1] as int];
                    assert(dashboard_before(k, kp));
                    if b - 1 > p {
                        if dashboard_before(kp, kb) {
                            lemma_dashboard_transitive(k, kp, kb);
                        } else {
                            lemma_dashboard_total(kp, kb);
                            lemma_dashboard_total(k, kp);
                            lemma_dashboard_total(k, kb);
                            assert(key_view(kp) == key_view(kb));
                            assert(dashboard_before(k, kb) == dashboard_before(k, kp)) by {
                                lemma_opt_text_same(kp.last_activity_at, kb.last_activity_at, k.last_activity_at);
                            }
                        }
                    }
                } else {
                    assert(order@[a] == old_order[a - 1] && order@[b] == old_order[b - 1]);
                }
            }
            assert forall|x: int| 0 <= x < i + 1 implies #[trigger] lists_index(order@, x) by {
                if x == i {
                    assert(order@[p as int] == i);
                } else {
                    assert(lists_index(old_order, x));
                    let a = choose|a: int| 0 <= a < old_order.len() && old_order[a] == x;
                    if a < p {
                        assert(order@[a] == x);
                    } else {
                        assert(order@[a + 1] == x);
                    }
                }
            }
        }
        i = i + 1;
    }
    order
}

/// How a session is driven by its provider.
#[derive(Debug, Clone, Copy, PartialEq, Eq, Structural)]
pub enum IntegrationMode {
    Direct,
    Passive,
}

/// What the dashboard counts of a conversation.
#[derive(Debug, Clone, Copy)]
pub struct DashboardCountItem {
    pub list_status: SessionListStatus,
    pub provider: Provider,
    pub codex_integration_mode: Option<IntegrationMode>,
    pub claude_integration_mode: Option<IntegrationMode>,
}

/// Tallies shown on the dashboard.
#[derive(Debug, Clone, Copy, PartialEq, Eq, Structural)]
pub struct DashboardCounts {
    pub attention: u32,
    pub running: u32,
    pub ready: u32,
    pub direct: u32,
}

/// Needs attention: a permission request or a question.
pub open spec fn needs_attention(c: DashboardCountItem) -> bool {
    c.list_status == SessionListStatus::Permission || c.list_status == SessionListStatus::Question
}

/// Driven directly by OrbitDock through its provider's connector.
pub open spec fn is_direct(c: DashboardCountItem) -> bool {
    ||| c.provider == Provider::Codex && c.codex_integration_mode == Some(IntegrationMode::Direct)
    ||| c.provider == Provider::Claude && c.claude_integration_mode == Some(IntegrationMode::Direct)
}

/// How many items from the front of `items` are attention, running, ready and direct.
pub open spec fn tally(items: Seq<DashboardCountItem>) -> (nat, nat, nat, nat)
    decreases items.len(),
{
    if items.len() == 0 {
        (0, 0, 0, 0)
    } else {
        let t = tally(items.drop_last());
        let c = items.last();
        (
            t.0 + if needs_attention(c) { 1nat } else { 0nat },
            t.1 + if c.list_status == SessionListStatus::Working { 1nat } else { 0nat },
            t.2 + if c.list_status == SessionListStatus::Reply { 1nat } else { 0nat },
            t.3 + if is_direct(c) { 1nat } else { 0nat },
        )
    }
}

/// The dashboard's tallies: conversations needing attention, running, ready for a
/// reply, and driven directly. Each count wraps to 32 bits as `as u32` does.
pub fn dashboard_counts(items: &Vec<DashboardCountItem>) -> (r: DashboardCounts)
    ensures
        r.attention == tally(items@).0 as u32,
        r.running == tally(items@).1 as u32,
        r.ready == tally(items@).2 as u32,
        r.direct == tally(items@).3 as u32,
{
    let mut attention: usize = 0;
    let mut running: usize = 0;
    let mut ready: usize = 0;
    let mut direct: usize = 0;
    let mut i: usize = 0;
    while i < items.len()
        invariant
            i <= items@.len(),
            (attention as nat, running as nat, ready as nat, direct as nat) == tally(items@.take(i as int)),
            attention <= i && running <= i && ready <= i && direct <= i,
        decreases items.len() - i,
    {
        proof {
            assert(items@.take(i + 1).drop_last() =~= items@.take(i as int));
            assert(items@.take(i + 1).last() == items@[i as int]);
        }
        let c = items[i];
        if c.list_status == SessionListStatus::Permission || c.list_status == SessionListStatus::Question {
            attention = attention + 1;
        }
        if c.list_status == SessionListStatus::Working {
            running = running + 1;
        }
        if c.list_status == SessionListStatus::Reply {
            ready = ready + 1;
        }
        let codex_direct = match c.provider {
            Provider::Codex => c.codex_integration_mode == Some(IntegrationMode::Direct),
            Provider::Claude => false,
        };
        let claude_direct = match c.provider {
            Provider::Claude => c.claude_integration_mode == Some(IntegrationMode::Direct),
            Provider::Codex => false,
        };
        if codex_direct || claude_direct {
            direct = direct + 1;
        }
        i = i + 1;
    }
    proof {
        assert(items@.take(i as int) =~= items@);
    }
    DashboardCounts {
        attention: attention as u32,
        running: running as u32,
        ready: ready as u32,
        direct: direct as u32,
    }
}

/// The indices of the active sessions among `statuses`, in their order.
pub open spec fn active_indices(statuses: Seq<SessionStatus>) -> Seq<usize>
    decreases statuses.len(),
{
    if statuses.len() == 0 {
        Seq::empty()
    } else {
        let prev = active_indices(statuses.drop_last());
        if statuses.last() == SessionStatus::Active {
            prev.push((statuses.len() - 1) as usize)
        } else {
            prev
        }
    }
}

/// Which sessions the dashboard shows as conversations: the active ones, by index, in
/// the order the registry gives them; ended sessions are left out.
pub fn dashboard_conversation_indices(statuses: &Vec<SessionStatus>) -> (r: Vec<usize>)
    ensures
        r@ == active_indices(statuses@),
{
    let mut r: Vec<usize> = Vec::new();
    let mut i: usize = 0;
    while i < statuses.len()
        invariant
            i <= statuses@.len(),
            r@ == active_indices(statuses@.take(i as int)),
        decreases statuses.len() - i,
    {
        assert(statuses@.take(i + 1).drop_last() =~= statuses@.take(i as int));
        if statuses[i] == SessionStatus::Active {
            r.push(i);
        }
        i = i + 1;
    }
    assert(statuses@.take(i as int) =~= statuses@);
    r
}

/// Where a status puts a conversation: permission requests before questions, questions
/// before work in progress, work in progress before conversations awaiting a reply, and
/// those before ended ones, whatever their activity and titles.
pub open spec fn status_listed_before(a: SessionListStatus, b: SessionListStatus) -> bool {
    ||| a == SessionListStatus::Permission && b != SessionListStatus::Permission
    ||| a == SessionListStatus::Question && (b == SessionListStatus::Working || b
        == SessionListStatus::Reply || b == SessionListStatus::Ended)
    ||| a == SessionListStatus::Working && (b == SessionListStatus::Reply || b
        == SessionListStatus::Ended)
    ||| a == SessionListStatus::Reply && b == SessionListStatus::Ended
}

/// The dashboard lists conversations by status first: a conversation whose status comes
/// earlier (permission, question, work in progress, awaiting reply, ended) is always
/// listed before one whose status comes later; and of two conversations with the same
/// status, the one active more recently comes first, and with the same activity the
/// one whose title comes first.
pub proof fn status_decides_dashboard_order(a: DashboardSortKey, b: DashboardSortKey)
    ensures
        a.list_status == b.list_status && a.last_activity_at == b.last_activity_at && text_less(
            a.display_title@,
            b.display_title@,
        ) ==> dashboard_before(a, b),
        status_listed_before(a.list_status, b.list_status) ==> dashboard_before(a, b)
            && !dashboard_before(b, a),
        a.list_status == b.list_status && opt_text_less(b.last_activity_at, a.last_activity_at)
            ==> dashboard_before(a, b) && !dashboard_before(b, a),
        dashboard_before(a, b) ==> !status_listed_before(b.list_status, a.list_status),
{
    lemma_opt_text_total(a.last_activity_at, b.last_activity_at);
    if let Some(t) = a.last_activity_at {
        lemma_text_less_irreflexive(t@);
    }
}

/// In the dashboard's order, a conversation of an earlier status is listed before every
/// conversation of a later one: a question waiting for an answer is never listed after
/// work in progress.
pub proof fn dashboard_lists_earlier_statuses_first(
    keys: Seq<DashboardSortKey>,
    order: Seq<usize>,
    i: int,
    j: int,
)
    requires
        dashboard_sorted(keys, order),
        0 <= i < order.len(),
        0 <= j < order.len(),
        status_listed_before(
            keys[order[i] as int].list_status,
            keys[order[j] as int].list_status,
        ),
    ensures
        i < j,
{
    if j < i {
        status_decides_dashboard_order(keys[order[i] as int], keys[order[j] as int]);
        assert(dashboard_before(keys[order[j] as int], keys[order[i] as int]) || (key_view(
            keys[order[j] as int],
        ) == key_view(keys[order[i] as int]) && order[j] < order[i]));
    } else if i == j {
    }
}

} // verus!
