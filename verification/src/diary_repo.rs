//! The rows of the entries table, as the coordinator reads and writes them.

use vstd::prelude::*;
use vstd::string::StringExecFns;

verus! {

/// The kind of entry that this library writes.
pub const ENTRY_TYPE_DAILY: &'static str = "daily";

/// The row of one diary date.
#[derive(Debug, Clone, PartialEq, Eq)]
pub struct DiaryMeta {
    pub date: String,
    pub year: i32,
    pub month: i32,
    pub day: i32,
    pub entry_type: String,
    pub filename: String,
    pub word_count: i64,
    pub created_at: String,
    pub modified_at: String,
}

/// What a history listing reads of a row.
#[derive(Debug, Clone, PartialEq, Eq)]
pub struct HistoricalMeta {
    pub date: String,
    pub year: i32,
    pub word_count: i64,
}

/// What an upsert of one diary date writes.
#[derive(Debug, Clone, Copy, PartialEq, Eq)]
pub struct UpsertDailyInput<'a> {
    pub date: &'a str,
    pub year: i32,
    pub month: i32,
    pub day: i32,
    pub filename: &'a str,
    pub word_count: i64,
    pub now_ts: &'a str,
}

/// Whether `row` is what the table holds for a date after an upsert of
/// `input`, where `existing` is what it held for that date before. There is
/// one row per date; the upsert replaces every field but `created_at`, which
/// a new row takes from the timestamp and an old row keeps.
pub open spec fn is_upserted(
    row: DiaryMeta,
    existing: Option<DiaryMeta>,
    input: UpsertDailyInput<'_>,
) -> bool {
    &&& row.date@ == input.date@
    &&& row.year == input.year
    &&& row.month == input.month
    &&& row.day == input.day
    &&& row.entry_type@ == ENTRY_TYPE_DAILY@
    &&& row.filename@ == input.filename@
    &&& row.word_count == input.word_count
    &&& row.modified_at@ == input.now_ts@
    &&& row.created_at@ == match existing {
        Some(old) => old.created_at@,
        None => input.now_ts@,
    }
}

/// The row of a date after an upsert. `existing` is the row that the table
/// holds for the date of `input`, if it holds one.
pub fn upsert_row(existing: Option<DiaryMeta>, input: &UpsertDailyInput<'_>) -> (r: DiaryMeta)
    ensures
        is_upserted(r, existing, *input),
{
    let created_at = match existing {
        Some(old) => old.created_at,
        None => String::from_str(input.now_ts),
    };
    DiaryMeta {
        date: String::from_str(input.date),
        year: input.year,
        month: input.month,
        day: input.day,
        entry_type: String::from_str(ENTRY_TYPE_DAILY),
        filename: String::from_str(input.filename),
        word_count: input.word_count,
        created_at,
        modified_at: String::from_str(input.now_ts),
    }
}

} // verus!
