//! How the message store takes a conversation row: a row is known by its id alone, a
//! new row is numbered after the last one of its session unless it comes with its
//! number, and a row written again keeps the number it was first given.
use vstd::prelude::*;

use crate::text::{copy_str, str_eq};

verus! {

/// A row as the store holds it: its id, its session, its number within the session and
/// its payload.
#[derive(Debug, Clone)]
pub struct StoredRow {
    pub id: String,
    pub session_id: String,
    pub sequence: i64,
    pub row_data: String,
}

/// No two stored rows share an id.
pub open spec fn ids_distinct(rows: Seq<StoredRow>) -> bool {
    forall|i: int, j: int|
        0 <= i < j < rows.len() ==> (#[trigger] rows[i]).id@ != (#[trigger] rows[j]).id@
}

/// The store holds a row with this id.
pub open spec fn holds_row(rows: Seq<StoredRow>, id: Seq<char>) -> bool {
    exists|k: int| 0 <= k < rows.len() && (#[trigger] rows[k]).id@ == id
}

/// The highest number of a session's rows, none where it has none.
pub open spec fn session_max(rows: Seq<StoredRow>, session_id: Seq<char>) -> Option<i64>
    decreases rows.len(),
{
    if rows.len() == 0 {
        None
    } else {
        let prev = session_max(rows.drop_last(), session_id);
        let last = rows.last();
        if last.session_id@ == session_id {
            match prev {
                Some(m) => Some(if last.sequence > m { last.sequence } else { m }),
                None => Some(last.sequence),
            }
        } else {
            prev
        }
    }
}

/// The number a new row takes: the one it comes with (as the store's signed integer),
/// else one past the highest of its session, else 0.
pub open spec fn new_row_sequence(assigned: Option<u64>, max: Option<i64>) -> i64 {
    match assigned {
        Some(a) => #[verifier::truncate] (a as i64),
        None => match max {
            Some(m) => (m + 1) as i64,
            None => 0,
        },
    }
}

/// The highest of a session's numbers is the number of one of its rows and no row of
/// the session has a higher one; a session without rows has none.
pub proof fn session_max_is_the_highest(rows: Seq<StoredRow>, session_id: Seq<char>)
    ensures
        session_max(rows, session_id) is None <==> forall|k: int|
            0 <= k < rows.len() ==> (#[trigger] rows[k]).session_id@ != session_id,
        session_max(rows, session_id) matches Some(m) ==> forall|k: int|
            0 <= k < rows.len() && (#[trigger] rows[k]).session_id@ == session_id ==> rows[k].sequence
                <= m,
        session_max(rows, session_id) matches Some(m) ==> exists|k: int|
            0 <= k < rows.len() && (#[trigger] rows[k]).session_id@ == session_id
                && rows[k].sequence == m,
    decreases rows.len(),
{
    if rows.len() > 0 {
        let prev = rows.drop_last();
        session_max_is_the_highest(prev, session_id);
        assert forall|k: int| 0 <= k < prev.len() implies #[trigger] prev[k] == rows[k] by {}
        let n = rows.len() - 1;
        assert(rows[n] == rows.last());
        if session_max(rows, session_id) is None {
            assert forall|k: int| 0 <= k < rows.len() implies (#[trigger] rows[k]).session_id@
                != session_id by {
                if k < n {
                    assert(prev[k] == rows[k]);
                }
            }
        }
        if let Some(m) = session_max(rows, session_id) {
            assert forall|k: int|
                0 <= k < rows.len() && (#[trigger] rows[k]).session_id@ == session_id implies rows[k].sequence
                <= m by {
                if k < n {
                    assert(prev[k] == rows[k]);
                }
            }
            if rows.last().session_id@ == session_id && (session_max(prev, session_id) is None
                || rows.last().sequence > session_max(prev, session_id)->Some_0) {
                assert(rows[n].sequence == m);
            } else {
                let pm = session_max(prev, session_id)->Some_0;
                let k0 = choose|k: int|
                    0 <= k < prev.len() && (#[trigger] prev[k]).session_id@ == session_id
                        && prev[k].sequence == pm;
                assert(rows[k0] == prev[k0]);
            }
        }
    }
}

/// What writing a row does to the store. A row whose id the store already holds keeps
/// its place and number: appending it again changes nothing, and upserting it replaces
/// its payload. A new row is added last, in its session, with `new_row_sequence`.
pub open spec fn stored_after_write(
    before: Seq<StoredRow>,
    after: Seq<StoredRow>,
    session_id: Seq<char>,
    id: Seq<char>,
    assigned: Option<u64>,
    row_data: Seq<char>,
    upsert: bool,
) -> bool {
    if holds_row(before, id) {
        &&& after.len() == before.len()
        &&& forall|k: int|
            0 <= k < before.len() ==> {
                let (b, a) = (#[trigger] before[k], after[k]);
                if b.id@ == id && upsert {
                    &&& a.id == b.id
                    &&& a.session_id == b.session_id
                    &&& a.sequence == b.sequence
                    &&& a.row_data@ == row_data
                } else {
                    a == b
                }
            }
    } else {
        &&& after.len() == before.len() + 1
        &&& after.take(before.len() as int) == before
        &&& after.last().id@ == id
        &&& after.last().session_id@ == session_id
        &&& after.last().sequence == new_row_sequence(assigned, session_max(before, session_id))
        &&& after.last().row_data@ == row_data
    }
}

/// The highest number of the session `session_id` in `rows`, found by walking them.
fn highest_sequence(rows: &Vec<StoredRow>, session_id: &str) -> (r: Option<i64>)
    ensures
        r == session_max(rows@, session_id@),
{
    let mut best: Option<i64> = None;
    let mut i: usize = 0;
    while i < rows.len()
        invariant
            i <= rows.len(),
            best == session_max(rows@.take(i as int), session_id@),
        decreases rows.len() - i,
    {
        assert(rows@.take(i + 1).drop_last() =~= rows@.take(i as int));
        let row = &rows[i];
        if str_eq(row.session_id.as_str(), session_id) {
            best = match best {
                Some(m) => Some(if row.sequence > m { row.sequence } else { m }),
                None => Some(row.sequence),
            };
        }
        i = i + 1;
    }
    assert(rows@.take(rows.len() as int) =~= rows@);
    best
}

/// Where the store holds a row with this id, if it does.
fn position_of_row(rows: &Vec<StoredRow>, id: &str) -> (r: Option<usize>)
    ensures
        r matches Some(k) ==> k < rows.len() && rows@[k as int].id@ == id@,
        r is None ==> !holds_row(rows@, id@),
{
    let mut i: usize = 0;
    while i < rows.len()
        invariant
            i <= rows.len(),
            forall|k: int| 0 <= k < i ==> (#[trigger] rows@[k]).id@ != id@,
        decreases rows.len() - i,
    {
        if str_eq(rows[i].id.as_str(), id) {
            return Some(i);
        }
        i = i + 1;
    }
    None
}

/// Writes a conversation row to the store and answers the number it is stored under.
/// A row the store already holds (by id alone, whatever its session) keeps its number:
/// appending it again is dropped, upserting it replaces its payload. A new row takes
/// the number it comes with, else one past the highest of its session, else 0.
pub fn write_row(
    rows: &mut Vec<StoredRow>,
    session_id: &str,
    id: &str,
    assigned: Option<u64>,
    row_data: &str,
    upsert: bool,
) -> (r: i64)
    requires
        ids_distinct(old(rows)@),
        session_max(old(rows)@, session_id@) matches Some(m) ==> m < i64::MAX,
    ensures
        ids_distinct(final(rows)@),
        stored_after_write(old(rows)@, final(rows)@, session_id@, id@, assigned, row_data@, upsert),
        holds_row(old(rows)@, id@) ==> forall|k: int|
            0 <= k < old(rows)@.len() && (#[trigger] old(rows)@[k]).id@ == id@ ==> r
                == old(rows)@[k].sequence,
        !holds_row(old(rows)@, id@) ==> r == new_row_sequence(
            assigned,
            session_max(old(rows)@, session_id@),
        ),
{
    let ghost before = rows@;
    match position_of_row(rows, id) {
        Some(k) => {
            let sequence = rows[k].sequence;
            if upsert {
                let updated = StoredRow {
                    id: rows[k].id.clone(),
                    session_id: rows[k].session_id.clone(),
                    sequence,
                    row_data: copy_str(row_data),
                };
                rows.set(k, updated);
                assert(rows@ == before.update(k as int, updated));
            }
            proof {
                assert(holds_row(before, id@));
                assert forall|j: int| 0 <= j < before.len() && (#[trigger] before[j]).id@ == id@
                    implies sequence == before[j].sequence by {
                    if j != k {
                        if j < k {
                            assert(before[j].id@ != before[k as int].id@);
                        } else {
                            assert(before[k as int].id@ != before[j].id@);
                        }
                    }
                }
                assert forall|i: int, j: int| 0 <= i < j < rows@.len() implies (
                #[trigger] rows@[i]).id@ != (#[trigger] rows@[j]).id@ by {
                    assert(before[i].id@ != before[j].id@);
                }
                assert forall|j: int| 0 <= j < before.len() implies {
                    let (b, a) = (#[trigger] before[j], rows@[j]);
                    if b.id@ == id@ && upsert {
                        &&& a.id == b.id
                        &&& a.session_id == b.session_id
                        &&& a.sequence == b.sequence
                        &&& a.row_data@ == row_data@
                    } else {
                        a == b
                    }
                } by {
                    if j != k && before[j].id@ == id@ {
                        if j < k {
                            assert(before[j].id@ != before[k as int].id@);
                        } else {
                            assert(before[k as int].id@ != before[j].id@);
                        }
                    }
                }
            }
            sequence
        },
        None => {
            let max = highest_sequence(rows, session_id);
            let sequence: i64 = match assigned {
                Some(a) => #[verifier::truncate] (a as i64),
                None => match max {
                    Some(m) => m + 1,
                    None => 0,
                },
            };
            rows.push(
                StoredRow {
                    id: copy_str(id),
                    session_id: copy_str(session_id),
                    sequence,
                    row_data: copy_str(row_data),
                },
            );
            proof {
                assert(rows@.take(before.len() as int) =~= before);
                assert forall|i: int, j: int| 0 <= i < j < rows@.len() implies (
                #[trigger] rows@[i]).id@ != (#[trigger] rows@[j]).id@ by {
                    if j == before.len() {
                        assert(rows@[i] == before[i]);
                    } else {
                        assert(rows@[i] == before[i] && rows@[j] == before[j]);
                    }
                }
            }
            sequence
        },
    }
}

/// Rows numbered by the store stay apart: where the rows of a session have distinct
/// numbers, writing a new row of that session without a number of its own keeps them
/// distinct, and the new row is numbered above all the others.
pub proof fn store_numbers_new_rows_apart(
    before: Seq<StoredRow>,
    after: Seq<StoredRow>,
    session_id: Seq<char>,
    id: Seq<char>,
    row_data: Seq<char>,
    upsert: bool,
)
    requires
        stored_after_write(before, after, session_id, id, None, row_data, upsert),
        !holds_row(before, id),
        session_max(before, session_id) matches Some(m) ==> m < i64::MAX,
        forall|i: int, j: int|
            0 <= i < j < before.len() && (#[trigger] before[i]).session_id@ == session_id
                && (#[trigger] before[j]).session_id@ == session_id ==> before[i].sequence
                != before[j].sequence,
    ensures
        forall|k: int|
            0 <= k < before.len() && (#[trigger] before[k]).session_id@ == session_id
                ==> before[k].sequence < after.last().sequence,
        forall|i: int, j: int|
            0 <= i < j < after.len() && (#[trigger] after[i]).session_id@ == session_id
                && (#[trigger] after[j]).session_id@ == session_id ==> after[i].sequence
                != after[j].sequence,
{
    session_max_is_the_highest(before, session_id);
    let n = before.len() as int;
    assert forall|k: int| 0 <= k < n implies #[trigger] after[k] == before[k] by {
        assert(after.take(n)[k] == after[k]);
    }
    assert(after[n] == after.last());
    if session_max(before, session_id) is None {
        assert(after.last().sequence == 0);
    }
}

} // verus!
