//! Carrying an install's migration history over from the legacy `schema_versions`
//! table to the migration runner's history table, once.
use vstd::prelude::*;

verus! {

/// A migration the runner knows: its version, name and checksum text.
#[derive(Debug, Clone)]
pub struct MigrationInfo {
    pub version: i32,
    pub name: String,
    pub checksum: String,
}

/// A history row to write for a migration the legacy table records as applied.
#[derive(Debug, Clone)]
pub struct LegacyImport {
    pub version: i32,
    pub name: String,
    pub applied_on: String,
    pub checksum: String,
}

/// When the legacy table records `version` as applied: the last row for it, as a
/// map built from the rows in order keeps the last.
pub open spec fn legacy_applied_on(legacy: Seq<(i64, String)>, version: int) -> Option<String>
    decreases legacy.len(),
{
    if legacy.len() == 0 {
        None
    } else if legacy.last().0 == version {
        Some(legacy.last().1)
    } else {
        legacy_applied_on(legacy.drop_last(), version)
    }
}

/// The rows to import for the migrations from the front of the list: each migration
/// the legacy table records, in the runner's order, with the legacy time of applying.
pub open spec fn imports_for(migrations: Seq<MigrationInfo>, legacy: Seq<(i64, String)>) -> Seq<
    (int, Seq<char>, Seq<char>, Seq<char>),
>
    decreases migrations.len(),
{
    if migrations.len() == 0 {
        Seq::empty()
    } else {
        let prev = imports_for(migrations.drop_last(), legacy);
        let m = migrations.last();
        match legacy_applied_on(legacy, m.version as int) {
            Some(at) => prev.push((m.version as int, m.name@, at@, m.checksum@)),
            None => prev,
        }
    }
}

/// Plain values of a list of imports.
pub open spec fn import_views(v: Seq<LegacyImport>) -> Seq<(int, Seq<char>, Seq<char>, Seq<char>)> {
    v.map_values(|i: LegacyImport| (i.version as int, i.name@, i.applied_on@, i.checksum@))
}

fn applied_on_of(legacy: &Vec<(i64, String)>, version: i32) -> (r: Option<String>)
    ensures
        match legacy_applied_on(legacy@, version as int) {
            Some(at) => r matches Some(v) && v@ == at@,
            None => r is None,
        },
{
    let mut i: usize = legacy.len();
    proof {
        assert(legacy@.take(legacy@.len() as int) =~= legacy@);
    }
    while i > 0
        invariant
            i <= legacy@.len(),
            legacy_applied_on(legacy@, version as int) == legacy_applied_on(legacy@.take(i as int), version as int),
        decreases i,
    {
        proof {
            assert(legacy@.take(i as int).drop_last() =~= legacy@.take(i - 1));
            assert(legacy@.take(i as int).last() == legacy@[i - 1]);
        }
        if legacy[i - 1].0 == version as i64 {
            return Some(legacy[i - 1].1.clone());
        }
        i = i - 1;
    }
    None
}

/// The history rows to import: none when the runner's history already has rows or
/// the legacy table is missing or empty; otherwise one per known migration that the
/// legacy table records, in the runner's order.
pub fn plan_legacy_import(
    history_rows: i64,
    legacy_table_exists: bool,
    legacy: &Vec<(i64, String)>,
    migrations: &Vec<MigrationInfo>,
) -> (r: Vec<LegacyImport>)
    ensures
        if history_rows > 0 || !legacy_table_exists || legacy@.len() == 0 {
            r@.len() == 0
        } else {
            import_views(r@) == imports_for(migrations@, legacy@)
        },
{
    let mut out: Vec<LegacyImport> = Vec::new();
    if history_rows > 0 || !legacy_table_exists || legacy.len() == 0 {
        return out;
    }
    proof {
        assert(legacy@.take(legacy@.len() as int) =~= legacy@);
    }
    let mut k: usize = 0;
    while k < migrations.len()
        invariant
            k <= migrations@.len(),
            import_views(out@) == imports_for(migrations@.take(k as int), legacy@),
        decreases migrations.len() - k,
    {
        proof {
            assert(migrations@.take(k + 1).drop_last() =~= migrations@.take(k as int));
            assert(migrations@.take(k + 1).last() == migrations@[k as int]);
        }
        let m = &migrations[k];
        match applied_on_of(legacy, m.version) {
            Some(at) => {
                let ghost before = out@;
                let row = LegacyImport {
                    version: m.version,
                    name: m.name.clone(),
                    applied_on: at,
                    checksum: m.checksum.clone(),
                };
                out.push(row);
                proof {
                    assert(import_views(out@) =~= import_views(before).push(
                        (m.version as int, m.name@, out@.last().applied_on@, m.checksum@),
                    ));
                }
            },
            None => {},
        }
        k = k + 1;
    }
    proof {
        assert(migrations@.take(k as int) =~= migrations@);
    }
    out
}

} // verus!
