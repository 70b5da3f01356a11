//! Diary dates, word counts and the read and write path of an entry.

use vstd::prelude::*;
use vstd::string::StringExecFns;
use vstd::utf8::encode_utf8;
use crate::cipher::{plaintext_fits, KEY_LEN};
use crate::clock::now_unix_seconds;
use crate::diary_repo::{DiaryMeta, UpsertDailyInput};
use crate::encryption::{decrypt_text, encrypt_text, opened_envelope, CryptoError};
use crate::keyring_store::{load_master_key, loaded_key, SecretError, SecretLookup};
use crate::password::bytes_result;
use crate::text::{
    bounded_decimal, byte_len, chars_of, decimal_digits, decimal_string, is_white_space,
    read_bounded_decimal,
};

verus! {

/// First year for which entries are kept.
pub const MIN_YEAR: i32 = 2022;

/// Why a date was turned down.
#[derive(Debug, Clone, Copy, PartialEq, Eq, Structural)]
pub enum DateError {
    /// The text is not ten bytes long or does not have three parts
    /// separated by `-`.
    BadFormat,
    /// The first part is no number.
    BadYear,
    /// The second part is no number.
    BadMonth,
    /// The third part is no number.
    BadDay,
    /// The year lies before [`MIN_YEAR`].
    YearTooEarly,
    /// The month is not within 1 to 12.
    MonthOutOfRange,
    /// The day is not within 1 to 31.
    DayOutOfRange,
}

/// The first position at or after `from` that holds a `-`, or the text's
/// length if there is none.
pub open spec fn next_dash(s: Seq<char>, from: int) -> int
    decreases s.len() - from,
{
    if 0 <= from < s.len() && s[from] != '-' {
        next_dash(s, from + 1)
    } else {
        from
    }
}

/// The 32-bit integer that a text writes: an optional sign, then decimal
/// digits.
pub open spec fn signed_decimal(s: Seq<char>) -> Option<int> {
    if s.len() > 0 && s[0] == '-' {
        match bounded_decimal(s.skip(1), 0x8000_0000) {
            Some(n) => Some(-(n as int)),
            None => None,
        }
    } else if s.len() > 0 && s[0] == '+' {
        match bounded_decimal(s.skip(1), 0x7fff_ffff) {
            Some(n) => Some(n as int),
            None => None,
        }
    } else {
        match bounded_decimal(s, 0x7fff_ffff) {
            Some(n) => Some(n as int),
            None => None,
        }
    }
}

/// Year, month and day of a date text, or why it is turned down. The
/// checks come in this order: the shape, the three numbers, the year, the
/// month, the day. No calendar is consulted: a day up to 31 passes in any
/// month.
pub open spec fn parsed_ymd(date: Seq<char>) -> Result<(int, int, int), DateError> {
    let first = next_dash(date, 0);
    let second = next_dash(date, first + 1);
    let third = next_dash(date, second + 1);
    if encode_utf8(date).len() != 10 || first >= date.len() || second >= date.len() || third
        < date.len() {
        Err(DateError::BadFormat)
    } else {
        match signed_decimal(date.subrange(0, first)) {
            None => Err(DateError::BadYear),
            Some(year) => match signed_decimal(date.subrange(first + 1, second)) {
                None => Err(DateError::BadMonth),
                Some(month) => match signed_decimal(date.subrange(second + 1, date.len() as int)) {
                    None => Err(DateError::BadDay),
                    Some(day) => if year < MIN_YEAR {
                        Err(DateError::YearTooEarly)
                    } else if !(1 <= month <= 12) {
                        Err(DateError::MonthOutOfRange)
                    } else if !(1 <= day <= 31) {
                        Err(DateError::DayOutOfRange)
                    } else {
                        Ok((year, month, day))
                    },
                },
            },
        }
    }
}

/// A date as three machine integers, with the integers as they are.
pub open spec fn ymd_result(r: Result<(i32, i32, i32), DateError>) -> Result<
    (int, int, int),
    DateError,
> {
    match r {
        Ok((year, month, day)) => Ok((year as int, month as int, day as int)),
        Err(e) => Err(e),
    }
}

/// Finds the next `-` at or after `from`.
fn next_dash_in(chars: &Vec<char>, from: usize) -> (r: usize)
    requires
        from <= chars@.len(),
    ensures
        r == next_dash(chars@, from as int),
        from <= r <= chars@.len(),
{
    let mut i: usize = from;
    while i < chars.len() && chars[i] != '-'
        invariant
            from <= i <= chars@.len(),
            next_dash(chars@, from as int) == next_dash(chars@, i as int),
        decreases chars@.len() - i,
    {
        i += 1;
    }
    i
}

/// Reads `chars[from..to]` as a 32-bit integer with an optional sign.
fn read_signed_decimal(chars: &Vec<char>, from: usize, to: usize) -> (r: Option<i32>)
    requires
        from <= to <= chars@.len(),
    ensures
        match r {
            Some(n) => signed_decimal(chars@.subrange(from as int, to as int)) == Some(n as int),
            None => signed_decimal(chars@.subrange(from as int, to as int)) is None,
        },
{
    let ghost part = chars@.subrange(from as int, to as int);
    if from < to && chars[from] == '-' {
        proof {
            assert(part[0] == chars@[from as int]);
            assert(part.skip(1) == chars@.subrange(from + 1, to as int));
        }
        match read_bounded_decimal(chars, from + 1, to, 0x8000_0000) {
            Some(n) => Some((0 - n as i64) as i32),
            None => None,
        }
    } else if from < to && chars[from] == '+' {
        proof {
            assert(part[0] == chars@[from as int]);
            assert(part.skip(1) == chars@.subrange(from + 1, to as int));
        }
        match read_bounded_decimal(chars, from + 1, to, 0x7fff_ffff) {
            Some(n) => Some(n as i32),
            None => None,
        }
    } else {
        proof {
            if from < to {
                assert(part[0] == chars@[from as int]);
            }
        }
        match read_bounded_decimal(chars, from, to, 0x7fff_ffff) {
            Some(n) => Some(n as i32),
            None => None,
        }
    }
}

/// Reads a date of the form `YYYY-MM-DD` and checks its ranges.
pub fn parse_ymd(date: &str) -> (r: Result<(i32, i32, i32), DateError>)
    ensures
        ymd_result(r) == parsed_ymd(date@),
{
    if byte_len(date) != 10 {
        return Err(DateError::BadFormat);
    }
    let chars = chars_of(date);
    let first = next_dash_in(&chars, 0);
    if first >= chars.len() {
        return Err(DateError::BadFormat);
    }
    let second = next_dash_in(&chars, first + 1);
    if second >= chars.len() {
        return Err(DateError::BadFormat);
    }
    let third = next_dash_in(&chars, second + 1);
    if third < chars.len() {
        return Err(DateError::BadFormat);
    }
    let year = match read_signed_decimal(&chars, 0, first) {
        Some(year) => year,
        None => {
            return Err(DateError::BadYear);
        },
    };
    let month = match read_signed_decimal(&chars, first + 1, second) {
        Some(month) => month,
        None => {
            return Err(DateError::BadMonth);
        },
    };
    let day = match read_signed_decimal(&chars, second + 1, chars.len()) {
        Some(day) => day,
        None => {
            return Err(DateError::BadDay);
        },
    };
    if year < MIN_YEAR {
        return Err(DateError::YearTooEarly);
    }
    if month < 1 || month > 12 {
        return Err(DateError::MonthOutOfRange);
    }
    if day < 1 || day > 31 {
        return Err(DateError::DayOutOfRange);
    }
    Ok((year, month, day))
}

/// The characters of a text that are no white space.
pub open spec fn non_whitespace(content: Seq<char>) -> Seq<char> {
    content.filter(|c: char| !is_white_space(c))
}

/// The word count of a text: how many of its characters are no white
/// space, capped at the largest `i64`.
pub open spec fn word_count_of(content: Seq<char>) -> int {
    if non_whitespace(content).len() <= i64::MAX {
        non_whitespace(content).len() as int
    } else {
        i64::MAX as int
    }
}

/// Counts the characters that are no white space.
pub fn count_non_whitespace_chars(content: &str) -> (r: i64)
    ensures
        r == word_count_of(content@),
{
    let chars = chars_of(content);
    let mut count: usize = 0;
    let mut i: usize = 0;
    while i < chars.len()
        invariant
            i <= chars@.len(),
            count == non_whitespace(chars@.take(i as int)).len(),
            count <= i,
        decreases chars@.len() - i,
    {
        proof {
            let before = chars@.take(i as int);
            assert(chars@.take(i as int + 1) == before.push(chars@[i as int]));
            before.lemma_filter_len_push(|c: char| !is_white_space(c), chars@[i as int]);
        }
        if !chars[i].is_whitespace() {
            count += 1;
        }
        i += 1;
    }
    proof {
        assert(chars@.take(chars@.len() as int) == chars@);
    }
    let wide: u64 = count as u64;
    if wide > 0x7fff_ffff_ffff_ffff {
        i64::MAX
    } else {
        wide as i64
    }
}

/// A diary entry as it is handed to the reader.
#[derive(Debug, Clone, PartialEq, Eq)]
pub struct DiaryEntry {
    pub date: String,
    pub content: String,
    pub word_count: i64,
    pub modified_at: String,
}

/// What a writer hands in.
#[derive(Debug, Clone, PartialEq, Eq)]
pub struct SaveDiaryInput {
    pub date: String,
    pub content: String,
}

/// Why an entry was not read or written.
#[derive(Debug, Clone, Copy, PartialEq, Eq, Structural)]
pub enum DiaryError {
    /// The date was turned down.
    InvalidDate(DateError),
    /// No master key is cached: the password has to be verified first.
    Locked,
    /// The secret cache gave no answer.
    Secret(SecretError),
    /// The envelope could not be made or opened.
    Crypto(CryptoError),
    /// The clock could not be read.
    ClockUnavailable,
}

/// Where the blob of a date lies, relative to the data directory.
pub open spec fn diary_filename(date: Seq<char>) -> Seq<char> {
    "diaries/"@ + date + ".md"@
}

/// Where the blob of a date lies, relative to the data directory. The date
/// is taken as it stands in a row.
pub fn blob_filename(date: &str) -> (r: String)
    ensures
        r@ == diary_filename(date@),
{
    let mut name = String::from_str("diaries/");
    name.append(date);
    name.append(".md");
    name
}

/// A date that has passed [`parse_ymd`]. A value of this type exists only
/// for such a date.
#[derive(Debug, PartialEq, Eq)]
pub struct DiaryDate {
    text: String,
    year: i32,
    month: i32,
    day: i32,
}

impl DiaryDate {
    #[verifier::type_invariant]
    /// The text reads as the three numbers, within their ranges.
    spec fn valid(self) -> bool {
        parsed_ymd(self.text@) == Ok::<(int, int, int), DateError>(
            (self.year as int, self.month as int, self.day as int),
        )
    }

    /// The date as it was given.
    pub closed spec fn text(&self) -> Seq<char> {
        self.text@
    }

    /// Year, month and day.
    pub closed spec fn ymd(&self) -> (int, int, int) {
        (self.year as int, self.month as int, self.day as int)
    }

    /// Validates a date. Nothing else is looked at: a date that is turned
    /// down is turned down before any key, cipher or store comes into play.
    pub fn parse(date: &str) -> (r: Result<DiaryDate, DateError>)
        ensures
            match r {
                Ok(valid) => valid.text() == date@ && parsed_ymd(date@) == Ok::<
                    (int, int, int),
                    DateError,
                >(valid.ymd()),
                Err(e) => parsed_ymd(date@) == Err::<(int, int, int), DateError>(e),
            },
    {
        match parse_ymd(date) {
            Ok((year, month, day)) => Ok(
                DiaryDate { text: String::from_str(date), year, month, day },
            ),
            Err(e) => Err(e),
        }
    }

    /// The date as text. It reads as the date's year, month and day.
    pub fn as_str(&self) -> (r: &str)
        ensures
            r@ == self.text(),
            parsed_ymd(r@) == Ok::<(int, int, int), DateError>(self.ymd()),
    {
        proof {
            use_type_invariant(self);
        }
        self.text.as_str()
    }

    /// The year.
    pub fn year(&self) -> (r: i32)
        ensures
            r == self.ymd().0,
    {
        self.year
    }

    /// The month.
    pub fn month(&self) -> (r: i32)
        ensures
            r == self.ymd().1,
    {
        self.month
    }

    /// The day.
    pub fn day(&self) -> (r: i32)
        ensures
            r == self.ymd().2,
    {
        self.day
    }

    /// Where the blob of this date lies, relative to the data directory.
    pub fn filename(&self) -> (r: String)
        ensures
            r@ == diary_filename(self.text()),
    {
        blob_filename(self.text.as_str())
    }
}

/// The master key that a lookup in the secret cache gives, with the locked
/// state as an error of its own.
pub open spec fn unlocked_key(lookup: SecretLookup) -> Result<Seq<u8>, DiaryError> {
    match loaded_key(lookup) {
        Err(e) => Err(DiaryError::Secret(e)),
        Ok(None) => Err(DiaryError::Locked),
        Ok(Some(key)) => Ok(key),
    }
}

/// Requires the unlocked state: turns a lookup in the secret cache into the
/// master key, or into `Locked` where there is no entry.
pub fn unlock(lookup: SecretLookup) -> (r: Result<Vec<u8>, DiaryError>)
    ensures
        bytes_result(r) == unlocked_key(lookup),
        r matches Ok(key) ==> key@.len() == KEY_LEN,
{
    match load_master_key(lookup) {
        Err(e) => Err(DiaryError::Secret(e)),
        Ok(None) => Err(DiaryError::Locked),
        Ok(Some(key)) => Ok(key),
    }
}

/// Without an entry in the secret cache every read and write is locked, and
/// a read error of the store is never taken for the locked state.
pub proof fn lemma_missing_key_locks()
    ensures
        unlocked_key(SecretLookup::NotFound) == Err::<Seq<u8>, DiaryError>(DiaryError::Locked),
        unlocked_key(SecretLookup::Failed) == Err::<Seq<u8>, DiaryError>(
            DiaryError::Secret(SecretError::StoreFailed),
        ),
{
}

/// Validates the date of a read. The first step of reading an entry.
pub fn begin_read(date: &str) -> (r: Result<DiaryDate, DiaryError>)
    ensures
        match r {
            Ok(valid) => valid.text() == date@ && parsed_ymd(date@) == Ok::<
                (int, int, int),
                DateError,
            >(valid.ymd()),
            Err(e) => parsed_ymd(date@) matches Err(cause) && e == DiaryError::InvalidDate(cause),
        },
{
    match DiaryDate::parse(date) {
        Ok(valid) => Ok(valid),
        Err(e) => Err(DiaryError::InvalidDate(e)),
    }
}

/// The entry of a date with the given content, before any stored metadata
/// is known: the word count is counted afresh and the timestamp is empty.
pub open spec fn is_fresh_entry(entry: DiaryEntry, date: Seq<char>, content: Seq<char>) -> bool {
    &&& entry.date@ == date
    &&& entry.content@ == content
    &&& entry.word_count == word_count_of(content)
    &&& entry.modified_at@ == Seq::<char>::empty()
}

/// Reads the entry of a validated date with the master key. `blob` is the
/// content of the date's blob file, or `None` where there is no such file.
///
/// No file gives no entry. A file is opened as an envelope; the entry that
/// comes back carries the word count counted from the plaintext and an
/// empty timestamp, to be replaced by [`attach_meta`] where a row exists.
pub fn get_diary(date: &DiaryDate, master_key: &[u8], blob: Option<&str>) -> (r: Result<
    Option<DiaryEntry>,
    DiaryError,
>)
    ensures
        match blob {
            None => r matches Ok(None),
            Some(text) => match opened_envelope(master_key@, text@) {
                Ok(content) => r matches Ok(Some(entry)) && is_fresh_entry(
                    entry,
                    date.text(),
                    content,
                ),
                Err(e) => r matches Err(cause) && cause == DiaryError::Crypto(e),
            },
        },
{
    let text = match blob {
        None => {
            return Ok(None);
        },
        Some(text) => text,
    };
    let content = match decrypt_text(master_key, text) {
        Ok(content) => content,
        Err(e) => {
            return Err(DiaryError::Crypto(e));
        },
    };
    let word_count = count_non_whitespace_chars(content.as_str());
    Ok(
        Some(
            DiaryEntry {
                date: String::from_str(date.as_str()),
                content,
                word_count,
                modified_at: String::new(),
            },
        ),
    )
}

/// Pairs an entry with its stored row: where there is one, its word count
/// and timestamp replace the entry's own; where there is none, the entry
/// stays as it is.
pub fn attach_meta(entry: DiaryEntry, meta: Option<&DiaryMeta>) -> (r: DiaryEntry)
    ensures
        r.date == entry.date,
        r.content == entry.content,
        match meta {
            None => r == entry,
            Some(row) => r.word_count == row.word_count && r.modified_at@ == row.modified_at@,
        },
{
    match meta {
        None => entry,
        Some(row) => DiaryEntry {
            date: entry.date,
            content: entry.content,
            word_count: row.word_count,
            modified_at: row.modified_at.clone(),
        },
    }
}

/// A write whose date has been validated.
#[derive(Debug, PartialEq, Eq)]
pub struct SaveRequest {
    date: DiaryDate,
    content: String,
}

impl SaveRequest {
    /// The date of the write.
    pub closed spec fn date_text(&self) -> Seq<char> {
        self.date.text()
    }

    /// Year, month and day of the write.
    pub closed spec fn ymd(&self) -> (int, int, int) {
        self.date.ymd()
    }

    /// The plaintext to write.
    pub closed spec fn content(&self) -> Seq<char> {
        self.content@
    }

    /// The validated date.
    pub fn date(&self) -> (r: &DiaryDate)
        ensures
            r.text() == self.date_text(),
            r.ymd() == self.ymd(),
    {
        &self.date
    }
}

/// Validates the date of a write. The first step of writing an entry: an
/// invalid date ends the write here.
pub fn begin_save(input: SaveDiaryInput) -> (r: Result<SaveRequest, DiaryError>)
    ensures
        match r {
            Ok(request) => {
                &&& request.date_text() == input.date@
                &&& request.content() == input.content@
                &&& parsed_ymd(input.date@) == Ok::<(int, int, int), DateError>(request.ymd())
            },
            Err(e) => parsed_ymd(input.date@) matches Err(cause) && e == DiaryError::InvalidDate(
                cause,
            ),
        },
{
    match DiaryDate::parse(input.date.as_str()) {
        Ok(date) => Ok(SaveRequest { date, content: input.content }),
        Err(e) => Err(DiaryError::InvalidDate(e)),
    }
}

/// What a write produces: the blob to put into the date's file, the row to
/// upsert, and the entry to hand back.
#[derive(Debug, Clone, PartialEq, Eq)]
pub struct SavedDiary {
    /// The envelope, the whole content of the blob file.
    pub blob: String,
    /// The blob file, relative to the data directory.
    pub filename: String,
    pub year: i32,
    pub month: i32,
    pub day: i32,
    /// The entry as the reader will see it.
    pub entry: DiaryEntry,
}

impl SavedDiary {
    /// The row to upsert for this write: the timestamp goes to both
    /// `created_at` and `modified_at` of a new row, and to `modified_at`
    /// alone of an old one.
    pub fn upsert_input(&self) -> (r: UpsertDailyInput<'_>)
        ensures
            r.date@ == self.entry.date@,
            r.year == self.year,
            r.month == self.month,
            r.day == self.day,
            r.filename@ == self.filename@,
            r.word_count == self.entry.word_count,
            r.now_ts@ == self.entry.modified_at@,
    {
        UpsertDailyInput {
            date: self.entry.date.as_str(),
            year: self.year,
            month: self.month,
            day: self.day,
            filename: self.filename.as_str(),
            word_count: self.entry.word_count,
            now_ts: self.entry.modified_at.as_str(),
        }
    }
}

/// Whether `saved` is what writing `request` under `master_key` at `now`
/// produces: a blob that opens, under the same key, to the plaintext; the
/// blob's place; and an entry and a row whose word count and timestamp
/// describe that plaintext.
pub open spec fn is_saved_at(
    saved: SavedDiary,
    request: SaveRequest,
    master_key: Seq<u8>,
    now: nat,
) -> bool {
    &&& opened_envelope(master_key, saved.blob@) == Ok::<Seq<char>, CryptoError>(request.content())
    &&& saved.filename@ == diary_filename(request.date_text())
    &&& (saved.year as int, saved.month as int, saved.day as int) == request.ymd()
    &&& saved.entry.date@ == request.date_text()
    &&& saved.entry.content@ == request.content()
    &&& saved.entry.word_count == word_count_of(request.content())
    &&& saved.entry.modified_at@ == decimal_digits(now)
}

/// Whether an error is one that sealing `content` under `master_key` can
/// end in: the key has not its length, and only then; the random source
/// gave no nonce; or the content is longer than an envelope takes, and only
/// then.
pub open spec fn is_sealing_failure(e: DiaryError, master_key: Seq<u8>, content: Seq<char>) -> bool {
    ||| e == DiaryError::Crypto(CryptoError::InvalidKeyLength) && master_key.len() != KEY_LEN
    ||| e == DiaryError::Crypto(CryptoError::RandomSource) && master_key.len() == KEY_LEN
    ||| e == DiaryError::Crypto(CryptoError::EncryptionFailed) && master_key.len() == KEY_LEN
        && !plaintext_fits(encode_utf8(content).len())
}

/// Writes the entry of a validated date with the master key, at the time
/// `now` in Unix seconds.
///
/// The word count and the timestamp describe the plaintext that was
/// encrypted, never the ciphertext; the blob opens again, under the same
/// key, to that plaintext. Where encryption fails nothing is produced.
pub fn save_diary_at(request: &SaveRequest, master_key: &[u8], now: u64) -> (r: Result<
    SavedDiary,
    DiaryError,
>)
    ensures
        r matches Err(e) ==> is_sealing_failure(e, master_key@, request.content()),
        r == Err::<SavedDiary, DiaryError>(DiaryError::Crypto(CryptoError::InvalidKeyLength))
            <==> master_key@.len() != KEY_LEN,
        r is Ok ==> plaintext_fits(encode_utf8(request.content()).len()),
        r matches Ok(saved) ==> is_saved_at(saved, *request, master_key@, now as nat),
{
    let word_count = count_non_whitespace_chars(request.content.as_str());
    let blob = match encrypt_text(master_key, request.content.as_str()) {
        Ok(blob) => blob,
        Err(e) => {
            return Err(DiaryError::Crypto(e));
        },
    };
    Ok(
        SavedDiary {
            blob,
            filename: request.date.filename(),
            year: request.date.year(),
            month: request.date.month(),
            day: request.date.day(),
            entry: DiaryEntry {
                date: String::from_str(request.date.as_str()),
                content: request.content.clone(),
                word_count,
                modified_at: decimal_string(now),
            },
        },
    )
}

/// Writes the entry of a validated date with the master key now: as
/// [`save_diary_at`], at the time that the clock shows before anything is
/// encrypted. A clock that cannot be read is an error, and nothing is
/// produced.
pub fn save_diary(request: &SaveRequest, master_key: &[u8]) -> (r: Result<SavedDiary, DiaryError>)
    ensures
        r matches Err(e) ==> e == DiaryError::ClockUnavailable || is_sealing_failure(
            e,
            master_key@,
            request.content(),
        ),
        r is Ok ==> master_key@.len() == KEY_LEN && plaintext_fits(
            encode_utf8(request.content()).len(),
        ),
        r matches Ok(saved) ==> exists|now: nat| #[trigger]
            is_saved_at(saved, *request, master_key@, now),
{
    let now = match now_unix_seconds() {
        Some(now) => now,
        None => {
            return Err(DiaryError::ClockUnavailable);
        },
    };
    let r = save_diary_at(request, master_key, now);
    proof {
        if r is Ok {
            assert(is_saved_at(r->Ok_0, *request, master_key@, now as nat));
        }
    }
    r
}

} // verus!
