//! Repair of the migration-history records.
//!
//! The migration runner reads back, for every applied migration, the time it
//! was applied and a checksum. Its parsers are strict: a timestamp must be RFC
//! 3339 and a checksum must read as a `u64`. Records that would trip them are
//! rewritten before the runner starts: timestamps are normalized (or replaced
//! by the current time), and checksums are recomputed from the embedded
//! migration with the same version (or from the record's own name and an
//! empty script when no migration has that version).

use vstd::prelude::*;
use vstd::utf8::*;
use crate::rfc3339::{
    lemma_normalized_passes_validation, is_valid_rfc3339, normalize_to_rfc3339,
    spec_is_valid_rfc3339, spec_normalize_to_rfc3339,
};
use crate::text::{
    decimal_chars, digits_value, is_digit_char, is_u64_text, lemma_decimal_digits,
    lemma_decimal_reads_back, parses_as_u64, u64_to_decimal, unsigned_digits,
};

verus! {

/// The checksum that the migration runner stores for a migration: SipHash-1-3
/// with zero keys over the name, the version and the script, each hashed as
/// `std::hash::Hash` hashes it.
pub uninterp spec fn migration_checksum(name: Seq<char>, version: i32, sql: Seq<char>) -> u64;

/// `siphasher::sip::SipHasher13`: a hasher made with `new()` (zero keys), fed
/// `name`, `version` and `sql` through `std::hash::Hash`, then `finish()`ed.
/// The result depends on the three arguments alone; it is named
/// `migration_checksum` and nothing more is claimed of it.
#[verifier::external_body]
fn sip13_checksum(name: &str, version: i32, sql: &str) -> (r: u64)
    ensures
        r == migration_checksum(name@, version, sql@),
{
    let mut hasher = siphasher::sip::SipHasher13::new();
    std::hash::Hash::hash(name, &mut hasher);
    std::hash::Hash::hash(&version, &mut hasher);
    std::hash::Hash::hash(sql, &mut hasher);
    std::hash::Hasher::finish(&hasher)
}

/// The checksum of a migration, computed as the migration runner computes it.
/// `name` is the migration name without its version prefix.
pub fn compute_checksum(name: &str, version: i32, sql: &str) -> (r: u64)
    ensures
        r == migration_checksum(name@, version, sql@),
{
    sip13_checksum(name, version, sql)
}

/// A record of the migration-history table.
#[derive(Debug)]
pub struct HistoryRow {
    pub version: i32,
    pub name: String,
    pub applied_on: String,
    pub checksum: String,
}

/// A migration compiled into the program: its version, its name without the
/// version prefix, and its script, if it has one.
#[derive(Debug)]
pub struct EmbeddedMigration {
    pub version: i32,
    pub name: String,
    pub sql: Option<String>,
}

/// The values to write back into the record with the given version.
#[derive(Debug)]
pub struct HistoryFix {
    pub version: i32,
    pub applied_on: String,
    pub checksum: String,
}

/// The script of an embedded migration, empty when it has none.
pub open spec fn embedded_sql(m: EmbeddedMigration) -> Seq<char> {
    match m.sql {
        Some(q) => q@,
        None => Seq::empty(),
    }
}

/// The first embedded migration with version `v`.
pub open spec fn find_embedded(ms: Seq<EmbeddedMigration>, v: i32) -> Option<EmbeddedMigration>
    decreases ms.len(),
{
    if ms.len() == 0 {
        None
    } else if ms[0].version == v {
        Some(ms[0])
    } else {
        find_embedded(ms.drop_first(), v)
    }
}

/// The checksum that a record should carry: that of the embedded migration
/// with its version, else one made from its own name and an empty script.
pub open spec fn recomputed_checksum(row: HistoryRow, ms: Seq<EmbeddedMigration>) -> u64 {
    match find_embedded(ms, row.version) {
        Some(m) => migration_checksum(m.name@, row.version, embedded_sql(m)),
        None => migration_checksum(row.name@, row.version, Seq::empty()),
    }
}

/// The bytes of the record's timestamp after repair: kept when valid, else
/// normalized, else those of `now`.
pub open spec fn repaired_applied_on(applied_on: Seq<char>, now: Seq<char>) -> Seq<u8> {
    if spec_is_valid_rfc3339(applied_on) {
        encode_utf8(applied_on)
    } else {
        match spec_normalize_to_rfc3339(applied_on) {
            Some(b) => b,
            None => encode_utf8(now),
        }
    }
}

/// The record's checksum after repair: kept when it reads as a `u64`, else
/// the decimal notation of the recomputed checksum.
pub open spec fn repaired_checksum(row: HistoryRow, ms: Seq<EmbeddedMigration>) -> Seq<char> {
    if parses_as_u64(row.checksum@) {
        row.checksum@
    } else {
        decimal_chars(recomputed_checksum(row, ms) as nat)
    }
}

/// A record needs rewriting when its timestamp or its checksum would be refused.
pub open spec fn row_needs_repair(row: HistoryRow) -> bool {
    !spec_is_valid_rfc3339(row.applied_on@) || !parses_as_u64(row.checksum@)
}

/// `fix` holds the repaired values of `row`.
pub open spec fn is_repair_of(
    fix: HistoryFix,
    row: HistoryRow,
    ms: Seq<EmbeddedMigration>,
    now: Seq<char>,
) -> bool {
    &&& fix.version == row.version
    &&& encode_utf8(fix.applied_on@) == repaired_applied_on(row.applied_on@, now)
    &&& fix.checksum@ == repaired_checksum(row, ms)
}

/// The first embedded migration with the given version, by index.
fn find_embedded_index(ms: &Vec<EmbeddedMigration>, v: i32) -> (r: Option<usize>)
    ensures
        match r {
            Some(i) => i < ms@.len() && find_embedded(ms@, v) == Some(ms@[i as int]),
            None => find_embedded(ms@, v) is None,
        },
{
    let mut i: usize = 0;
    assert(ms@.subrange(0, ms@.len() as int) =~= ms@);
    while i < ms.len()
        invariant
            i <= ms@.len(),
            find_embedded(ms@, v) == find_embedded(ms@.subrange(i as int, ms@.len() as int), v),
        decreases ms@.len() - i,
    {
        let ghost rest = ms@.subrange(i as int, ms@.len() as int);
        assert(rest.drop_first() =~= ms@.subrange(i + 1, ms@.len() as int));
        assert(rest[0] == ms@[i as int]);
        if ms[i].version == v {
            return Some(i);
        }
        i = i + 1;
    }
    None
}

/// The checksum to write for a record whose stored checksum is unreadable.
fn recompute_checksum(row: &HistoryRow, ms: &Vec<EmbeddedMigration>) -> (r: u64)
    ensures
        r == recomputed_checksum(*row, ms@),
{
    match find_embedded_index(ms, row.version) {
        Some(i) => {
            let m = &ms[i];
            match &m.sql {
                Some(q) => compute_checksum(m.name.as_str(), row.version, q.as_str()),
                None => {
                    proof {
                        reveal_strlit("");
                        assert(""@ =~= Seq::<char>::empty());
                    }
                    compute_checksum(m.name.as_str(), row.version, "")
                },
            }
        },
        None => {
            proof {
                reveal_strlit("");
                assert(""@ =~= Seq::<char>::empty());
            }
            compute_checksum(row.name.as_str(), row.version, "")
        },
    }
}

/// What to write back into one record: `None` when both its timestamp and
/// its checksum would be accepted, else the repaired values. `now` is the
/// current time, used when the timestamp cannot be normalized.
pub fn plan_history_row_fix(row: &HistoryRow, ms: &Vec<EmbeddedMigration>, now: &str) -> (r:
    Option<HistoryFix>)
    ensures
        r is None <==> !row_needs_repair(*row),
        r matches Some(fix) ==> is_repair_of(fix, *row, ms@, now@),
{
    let valid_time = is_valid_rfc3339(row.applied_on.as_str());
    let applied_on = if valid_time {
        row.applied_on.clone()
    } else {
        match normalize_to_rfc3339(row.applied_on.as_str()) {
            Some(f) => f,
            None => now.to_string(),
        }
    };
    let valid_sum = is_u64_text(row.checksum.as_str());
    let checksum = if valid_sum {
        row.checksum.clone()
    } else {
        u64_to_decimal(recompute_checksum(row, ms))
    };
    if valid_time && valid_sum {
        None
    } else {
        Some(HistoryFix { version: row.version, applied_on, checksum })
    }
}

/// The records that need a repair, in their order.
pub open spec fn repaired_rows(rows: Seq<HistoryRow>) -> Seq<HistoryRow>
    decreases rows.len(),
{
    if rows.len() == 0 {
        Seq::empty()
    } else if row_needs_repair(rows.last()) {
        repaired_rows(rows.drop_last()).push(rows.last())
    } else {
        repaired_rows(rows.drop_last())
    }
}

/// The repairs for all records of the table, in the order of the records:
/// one for each record that needs one, none for the others.
pub fn plan_history_fixes(rows: &Vec<HistoryRow>, ms: &Vec<EmbeddedMigration>, now: &str) -> (r:
    Vec<HistoryFix>)
    ensures
        r@.len() == repaired_rows(rows@).len(),
        forall|k: int|
            0 <= k < r@.len() ==> is_repair_of(#[trigger] r@[k], repaired_rows(rows@)[k], ms@, now@),
{
    let mut out: Vec<HistoryFix> = Vec::new();
    let mut i: usize = 0;
    while i < rows.len()
        invariant
            i <= rows@.len(),
            out@.len() == repaired_rows(rows@.subrange(0, i as int)).len(),
            forall|k: int|
                0 <= k < out@.len() ==> is_repair_of(
                    #[trigger] out@[k],
                    repaired_rows(rows@.subrange(0, i as int))[k],
                    ms@,
                    now@,
                ),
        decreases rows@.len() - i,
    {
        let ghost prev = rows@.subrange(0, i as int);
        let ghost next = rows@.subrange(0, i + 1);
        assert(next.drop_last() =~= prev);
        assert(next.last() == rows@[i as int]);
        match plan_history_row_fix(&rows[i], ms, now) {
            Some(fix) => {
                out.push(fix);
            },
            None => {},
        }
        i = i + 1;
    }
    assert(rows@.subrange(0, rows@.len() as int) =~= rows@);
    out
}

/// A repaired record is accepted by the migration runner's strict parsers:
/// its timestamp is RFC 3339 and its checksum reads as a `u64`, provided the
/// current time handed in is itself RFC 3339.
pub proof fn lemma_repair_is_accepted(
    fix: HistoryFix,
    row: HistoryRow,
    ms: Seq<EmbeddedMigration>,
    now: Seq<char>,
)
    requires
        is_repair_of(fix, row, ms, now),
        spec_is_valid_rfc3339(now),
    ensures
        spec_is_valid_rfc3339(fix.applied_on@),
        parses_as_u64(fix.checksum@),
        digits_value(unsigned_digits(fix.checksum@)) == if parses_as_u64(row.checksum@) {
            digits_value(unsigned_digits(row.checksum@))
        } else {
            recomputed_checksum(row, ms) as nat
        },
{
    let a = row.applied_on@;
    encode_utf8_decode_utf8(fix.applied_on@);
    if spec_is_valid_rfc3339(a) {
        encode_utf8_decode_utf8(a);
    } else {
        match spec_normalize_to_rfc3339(a) {
            Some(b) => {
                lemma_normalized_passes_validation(a, fix.applied_on@);
            },
            None => {
                encode_utf8_decode_utf8(now);
            },
        }
    }
    if !parses_as_u64(row.checksum@) {
        let x = recomputed_checksum(row, ms);
        lemma_decimal_reads_back(x);
        lemma_decimal_digits(x as nat);
        let d = decimal_chars(x as nat);
        assert(is_digit_char(d[0]));
        assert(unsigned_digits(d) == d);
    }
}

} // verus!
