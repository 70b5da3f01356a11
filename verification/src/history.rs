//! Entries of the same day in earlier years, each with a short preview.

use vstd::prelude::*;
use vstd::string::StringExecFns;
use crate::diary::{DateError, DiaryError};
use crate::diary_repo::HistoricalMeta;
use crate::encryption::{decrypt_text, opened_envelope};
use crate::text::{chars_of, string_of, trim_range, trimmed};

verus! {

/// First year that a history listing reaches back to.
pub const MIN_HISTORY_YEAR: i32 = 2022;

/// How many lines a preview in a history listing holds.
pub const PREVIEW_LINES: usize = 3;

/// One entry of a history listing.
#[derive(Debug, Clone, PartialEq, Eq)]
pub struct HistoricalDiary {
    pub date: String,
    pub year: i32,
    pub preview: String,
    pub word_count: i64,
}

/// The rows that a history listing asks for: the entries of one month and
/// day in the years from `min_year` up to, but without,
/// `max_year_exclusive`, the latest year first.
#[derive(Debug, Clone, Copy, PartialEq, Eq, Structural)]
pub struct HistoryQuery {
    pub month: i32,
    pub day: i32,
    pub min_year: i32,
    pub max_year_exclusive: i32,
}

/// The first position at or after `from` that holds a line feed, or the
/// text's length if there is none.
pub open spec fn line_end(s: Seq<char>, from: int) -> int
    decreases s.len() - from,
{
    if 0 <= from < s.len() && s[from] != '\n' {
        line_end(s, from + 1)
    } else {
        from
    }
}

/// A line ends at or behind its start, within the text.
pub proof fn lemma_line_end_bounds(s: Seq<char>, from: int)
    requires
        0 <= from <= s.len(),
    ensures
        from <= line_end(s, from) <= s.len(),
    decreases s.len() - from,
{
    if from < s.len() && s[from] != '\n' {
        lemma_line_end_bounds(s, from + 1);
    }
}

/// The lines of the text from `from` on, each without the white space at
/// its ends, and without the lines that are empty then.
pub open spec fn kept_lines(s: Seq<char>, from: int) -> Seq<Seq<char>>
    decreases s.len() - from,
{
    if from < 0 || from > s.len() {
        Seq::empty()
    } else {
        let end = line_end(s, from);
        let line = trimmed(s.subrange(from, end));
        let rest = if end >= s.len() {
            Seq::empty()
        } else {
            proof {
                lemma_line_end_bounds(s, from);
            }
            kept_lines(s, end + 1)
        };
        if line.len() == 0 {
            rest
        } else {
            seq![line] + rest
        }
    }
}

/// Lines put together again, with one line feed between two of them.
pub open spec fn joined_lines(lines: Seq<Seq<char>>) -> Seq<char>
    decreases lines.len(),
{
    if lines.len() == 0 {
        Seq::empty()
    } else if lines.len() == 1 {
        lines[0]
    } else {
        joined_lines(lines.drop_last()) + seq!['\n'] + lines.last()
    }
}

/// How many lines a preview of at most `max_lines` holds at most: the
/// first line that is kept is always taken.
pub open spec fn preview_limit(max_lines: nat) -> nat {
    if max_lines == 0 {
        1
    } else {
        max_lines
    }
}

/// The preview of a text: its first kept lines, up to the limit.
pub open spec fn preview_of(content: Seq<char>, max_lines: nat) -> Seq<char> {
    let lines = kept_lines(content, 0);
    let limit = preview_limit(max_lines);
    if lines.len() <= limit {
        joined_lines(lines)
    } else {
        joined_lines(lines.take(limit as int))
    }
}

/// Finds the next line feed at or after `from`.
fn line_end_in(chars: &Vec<char>, from: usize) -> (r: usize)
    requires
        from <= chars@.len(),
    ensures
        r == line_end(chars@, from as int),
        from <= r <= chars@.len(),
{
    let mut i: usize = from;
    while i < chars.len() && chars[i] != '\n'
        invariant
            from <= i <= chars@.len(),
            line_end(chars@, from as int) == line_end(chars@, i as int),
        decreases chars@.len() - i,
    {
        i += 1;
    }
    i
}

/// The first non-empty lines of a text, trimmed, at most `max_lines` of
/// them, joined by line feeds.
pub fn preview_first_non_empty_lines(content: &str, max_lines: usize) -> (r: String)
    ensures
        r@ == preview_of(content@, max_lines as nat),
{
    let chars = chars_of(content);
    let mut out = String::new();
    let mut count: usize = 0;
    let mut pos: usize = 0;
    let ghost mut done: Seq<Seq<char>> = Seq::empty();
    loop
        invariant
            chars@ == content@,
            pos <= chars@.len(),
            kept_lines(chars@, 0) == done + kept_lines(chars@, pos as int),
            out@ == joined_lines(done),
            count == done.len(),
            count <= pos,
            count == 0 || count < max_lines,
        decreases chars@.len() - pos,
    {
        let end = line_end_in(&chars, pos);
        let (from, to) = trim_range(&chars, pos, end);
        let ghost line = chars@.subrange(from as int, to as int);
        let ghost rest = if end >= chars@.len() {
            Seq::<Seq<char>>::empty()
        } else {
            kept_lines(chars@, end + 1)
        };
        if from < to {
            if count > 0 {
                out.push('\n');
            }
            out.append(string_of(&chars, from, to).as_str());
            proof {
                let longer = done.push(line);
                assert(longer.drop_last() == done);
                assert(done + (seq![line] + rest) == longer + rest);
                done = longer;
            }
            count += 1;
            if count >= max_lines {
                proof {
                    let all = kept_lines(chars@, 0);
                    if all.len() <= preview_limit(max_lines as nat) {
                        assert(rest.len() == 0);
                        assert(all == done);
                    } else {
                        assert(all.take(done.len() as int) == done);
                    }
                }
                return out;
            }
        }
        if end >= chars.len() {
            proof {
                assert(kept_lines(chars@, 0) == done);
            }
            return out;
        }
        pos = end + 1;
    }
}

/// What a history listing for a month and day does before any row is
/// read: in a year before [`MIN_HISTORY_YEAR`] there is nothing to list,
/// whatever month and day say; else month and day are checked, and the
/// query spans the years up to the current one.
pub open spec fn history_plan(month: int, day: int, current_year: int) -> Result<
    Option<HistoryQuery>,
    DiaryError,
> {
    if current_year < MIN_HISTORY_YEAR {
        Ok(None)
    } else if !(1 <= month <= 12) {
        Err(DiaryError::InvalidDate(DateError::MonthOutOfRange))
    } else if !(1 <= day <= 31) {
        Err(DiaryError::InvalidDate(DateError::DayOutOfRange))
    } else {
        Ok(
            Some(
                HistoryQuery {
                    month: month as i32,
                    day: day as i32,
                    min_year: MIN_HISTORY_YEAR,
                    max_year_exclusive: current_year as i32,
                },
            ),
        )
    }
}

/// Plans a history listing: `Ok(None)` where the list is empty without a
/// look at any store, else the query for the rows.
pub fn list_historical_diaries(month: i32, day: i32, current_year: i32) -> (r: Result<
    Option<HistoryQuery>,
    DiaryError,
>)
    ensures
        r == history_plan(month as int, day as int, current_year as int),
{
    if current_year < MIN_HISTORY_YEAR {
        return Ok(None);
    }
    if month < 1 || month > 12 {
        return Err(DiaryError::InvalidDate(DateError::MonthOutOfRange));
    }
    if day < 1 || day > 31 {
        return Err(DiaryError::InvalidDate(DateError::DayOutOfRange));
    }
    Ok(Some(HistoryQuery { month, day, min_year: MIN_HISTORY_YEAR, max_year_exclusive: current_year }))
}

/// One entry of a history listing, from its row and its blob. `blob` is the
/// content of the row's blob file, or `None` where there is no such file:
/// then the preview is empty. A blob that does not open fails the listing.
pub fn historical_diary(master_key: &[u8], meta: HistoricalMeta, blob: Option<&str>) -> (r: Result<
    HistoricalDiary,
    DiaryError,
>)
    ensures
        match blob {
            None => r matches Ok(item) && item.date == meta.date && item.year == meta.year
                && item.word_count == meta.word_count && item.preview@ == Seq::<char>::empty(),
            Some(text) => match opened_envelope(master_key@, text@) {
                Ok(content) => r matches Ok(item) && item.date == meta.date && item.year
                    == meta.year && item.word_count == meta.word_count && item.preview@
                    == preview_of(content, PREVIEW_LINES as nat),
                Err(e) => r matches Err(cause) && cause == DiaryError::Crypto(e),
            },
        },
{
    let preview = match blob {
        None => String::new(),
        Some(text) => match decrypt_text(master_key, text) {
            Ok(content) => preview_first_non_empty_lines(content.as_str(), PREVIEW_LINES),
            Err(e) => {
                return Err(DiaryError::Crypto(e));
            },
        },
    };
    Ok(HistoricalDiary { date: meta.date, year: meta.year, preview, word_count: meta.word_count })
}

/// Whether `item` is the entry of a history listing for a row and its
/// blob: date, year and word count are the row's, and the preview is empty
/// without a blob and else the first lines of what the blob opens to.
pub open spec fn is_history_item(
    item: HistoricalDiary,
    master_key: Seq<u8>,
    meta: HistoricalMeta,
    blob: Option<String>,
) -> bool {
    &&& item.date == meta.date
    &&& item.year == meta.year
    &&& item.word_count == meta.word_count
    &&& match blob {
        None => item.preview@ == Seq::<char>::empty(),
        Some(text) => opened_envelope(master_key, text@) matches Ok(content) && item.preview@
            == preview_of(content, PREVIEW_LINES as nat),
    }
}

/// Why the blob of a row does not open under the key, if it does not. A row
/// without a blob never fails.
pub open spec fn row_failure(master_key: Seq<u8>, blob: Option<String>) -> Option<DiaryError> {
    match blob {
        None => None,
        Some(text) => match opened_envelope(master_key, text@) {
            Ok(_) => None,
            Err(e) => Some(DiaryError::Crypto(e)),
        },
    }
}

/// Whether the row at `at` is the first whose blob does not open, and `e`
/// is why.
pub open spec fn is_first_failure(
    master_key: Seq<u8>,
    rows: Seq<(HistoricalMeta, Option<String>)>,
    at: int,
    e: DiaryError,
) -> bool {
    &&& 0 <= at < rows.len()
    &&& row_failure(master_key, rows[at].1) == Some(e)
    &&& forall|j: int| 0 <= j < at ==> row_failure(master_key, (#[trigger] rows[j]).1) is None
}

/// Puts a history listing together from the rows, in their order, each with
/// the content of its blob file or `None` where there is no such file.
///
/// Every row gives one entry, in the order of the rows. The first blob that
/// does not open fails the whole listing with its error.
pub fn historical_diaries(master_key: &[u8], rows: &Vec<(HistoricalMeta, Option<String>)>) -> (r:
    Result<Vec<HistoricalDiary>, DiaryError>)
    ensures
        match r {
            Ok(items) => {
                &&& items@.len() == rows@.len()
                &&& forall|i: int|
                    0 <= i < rows@.len() ==> is_history_item(
                        #[trigger] items@[i],
                        master_key@,
                        rows@[i].0,
                        rows@[i].1,
                    )
                &&& forall|i: int|
                    0 <= i < rows@.len() ==> row_failure(master_key@, (#[trigger] rows@[i]).1)
                        is None
            },
            Err(e) => exists|at: int| #[trigger] is_first_failure(master_key@, rows@, at, e),
        },
{
    let mut items: Vec<HistoricalDiary> = Vec::new();
    let mut i: usize = 0;
    while i < rows.len()
        invariant
            i <= rows@.len(),
            items@.len() == i,
            forall|k: int|
                0 <= k < i ==> is_history_item(
                    #[trigger] items@[k],
                    master_key@,
                    rows@[k].0,
                    rows@[k].1,
                ),
            forall|k: int| 0 <= k < i ==> row_failure(master_key@, (#[trigger] rows@[k]).1) is None,
        decreases rows@.len() - i,
    {
        let row = &rows[i];
        let meta = HistoricalMeta {
            date: row.0.date.clone(),
            year: row.0.year,
            word_count: row.0.word_count,
        };
        let blob: Option<&str> = match &row.1 {
            Some(text) => Some(text.as_str()),
            None => None,
        };
        match historical_diary(master_key, meta, blob) {
            Ok(item) => {
                items.push(item);
            },
            Err(e) => {
                proof {
                    assert(is_first_failure(master_key@, rows@, i as int, e));
                }
                return Err(e);
            },
        }
        i += 1;
    }
    Ok(items)
}

} // verus!
