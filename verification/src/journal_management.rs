//! The journal: a date-partitioned, append-only log of relocations. A batch
//! of destination paths becomes one line per file, `- **HH:MM** [[stem]]`, in
//! the file `journals/YYYY_MM_DD.md` for the day the batch is recorded.
//! Planning a batch — naming the file, forming the lines — is verified here;
//! the application creates the directory and appends the rendered payload
//! (see [`crate::lines`]).

use chrono::{Datelike, Timelike};

use vstd::prelude::*;

use crate::config::{Config, ConfigError};
use crate::lines::line_free;
use crate::paths::{display_stem_spec, file_name_spec};
use crate::text::{dec_digits, digit_char, padded2, padded4};

verus! {

/// Errors of journal handling.
#[derive(Debug)]
pub enum JournalError {
    IoError(String),
    ConfigError(ConfigError),
    DirectoryCreationFailed(String),
    EntryFormattingError(String),
    WriteOperationFailed(String),
}

/// A calendar date of the proleptic Gregorian calendar.
#[derive(Clone, Copy, Debug, PartialEq, Eq, Structural)]
pub struct Date {
    pub year: i32,
    pub month: u8,
    pub day: u8,
}

/// The Gregorian leap-year rule.
pub open spec fn is_leap_year(y: int) -> bool {
    y % 4 == 0 && (y % 100 != 0 || y % 400 == 0)
}

/// How many days the month has in the given year.
pub open spec fn days_in_month(y: int, m: int) -> int {
    if m == 2 {
        if is_leap_year(y) {
            29
        } else {
            28
        }
    } else if m == 4 || m == 6 || m == 9 || m == 11 {
        30
    } else {
        31
    }
}

/// Whether year, month and day name a real calendar date.
pub open spec fn valid_date(y: int, m: int, d: int) -> bool {
    1 <= m && m <= 12 && 1 <= d && d <= days_in_month(y, m)
}

impl Date {
    /// The date is a real calendar date.
    pub open spec fn wf(&self) -> bool {
        valid_date(self.year as int, self.month as int, self.day as int)
    }
}

/// The year as journal files render it: zero-padded to four digits, with a
/// leading minus for years before year zero.
pub open spec fn year_text_spec(y: int) -> Seq<char> {
    if y >= 0 {
        padded4(y as nat)
    } else {
        seq!['-'] + padded4((-y) as nat)
    }
}

/// The file name of the journal for a date: `YYYY_MM_DD.md`.
pub open spec fn date_name_spec(y: int, m: nat, d: nat) -> Seq<char> {
    year_text_spec(y) + seq!['_'] + padded2(m) + seq!['_'] + padded2(d) + ".md"@
}

/// A time of day as journal entries render it: `HH:MM`, zero-padded.
pub open spec fn time_text_spec(h: nat, m: nat) -> Seq<char> {
    padded2(h) + seq![':'] + padded2(m)
}

/// One journal line: `- **HH:MM** [[stem]]`.
pub open spec fn entry_line_spec(ts: Seq<char>, name: Seq<char>) -> Seq<char> {
    "- **"@ + ts + "** [["@ + name + "]]"@
}

/// Relies on chrono::Local::now and the Datelike accessors of the resulting
/// date: chrono documents the month as 1 to 12 and the day as 1 to 31.
#[verifier::external_body]
fn today_date() -> (d: Date)
    ensures
        1 <= d.month <= 12,
        1 <= d.day <= 31,
{
    let t = chrono::Local::now().date_naive();
    Date { year: t.year(), month: t.month() as u8, day: t.day() as u8 }
}

/// Relies on chrono::Local::now and the Timelike accessors: chrono documents
/// the hour as 0 to 23 and the minute as 0 to 59.
#[verifier::external_body]
fn now_hour_minute() -> (t: (u8, u8))
    ensures
        t.0 < 24,
        t.1 < 60,
{
    let now = chrono::Local::now();
    (now.hour() as u8, now.minute() as u8)
}

/// Renders a date as its journal file name.
pub fn journal_file_name(date: &Date) -> (r: String)
    ensures
        r@ == date_name_spec(date.year as int, date.month as nat, date.day as nat),
{
    let mut r = if date.year >= 0 {
        crate::text::u64_to_padded4(date.year as u64)
    } else {
        let mut s = "-".to_owned();
        proof {
            reveal_strlit("-");
        }
        let magnitude = -(date.year as i64);
        let y4 = crate::text::u64_to_padded4(magnitude as u64);
        s.append(y4.as_str());
        s
    };
    r.append("_");
    let m2 = crate::text::u64_to_padded2(date.month as u64);
    r.append(m2.as_str());
    r.append("_");
    let d2 = crate::text::u64_to_padded2(date.day as u64);
    r.append(d2.as_str());
    r.append(".md");
    proof {
        reveal_strlit("_");
        reveal_strlit("-");
        assert(r@ =~= date_name_spec(date.year as int, date.month as nat, date.day as nat));
    }
    r
}

/// A journal entry: a wall-clock time of day and the stem of the recorded
/// file's name.
#[derive(Debug, Clone, PartialEq)]
pub struct JournalEntry {
    pub timestamp: String,
    pub filename: String,
}

impl JournalEntry {
    /// Makes an entry for a destination path: the path's file-name stem,
    /// stamped with the current time of day. Fails exactly when the path has
    /// no file name.
    pub fn new(file_path: &str) -> (r: Result<JournalEntry, JournalError>)
        ensures
            r is Ok <==> file_name_spec(file_path@).len() >= 1,
            r is Ok ==> r->Ok_0.filename@ == display_stem_spec(file_name_spec(file_path@)),
            r is Ok ==> exists|h: nat, mi: nat|
                h < 24 && mi < 60 && r->Ok_0.timestamp@ == time_text_spec(h, mi),
            r is Err ==> r->Err_0 is EntryFormattingError,
    {
        let name = crate::paths::file_name_of(file_path);
        let name_len = name.as_str().unicode_len();
        if name_len == 0 {
            let mut m = "Invalid filename: ".to_owned();
            m.append(file_path);
            return Err(JournalError::EntryFormattingError(m));
        }
        let (stem, ext) = crate::paths::split_name(name.as_str());
        let display = if ext.as_str().unicode_len() == name_len {
            name
        } else {
            stem
        };
        let (h, mi) = now_hour_minute();
        let mut ts = crate::text::u64_to_padded2(h as u64);
        ts.append(":");
        let m2 = crate::text::u64_to_padded2(mi as u64);
        ts.append(m2.as_str());
        proof {
            reveal_strlit(":");
            assert(ts@ =~= time_text_spec(h as nat, mi as nat));
        }
        Ok(JournalEntry { timestamp: ts, filename: display })
    }

    /// The entry as one markdown line.
    pub fn format(&self) -> (r: String)
        ensures
            r@ == entry_line_spec(self.timestamp@, self.filename@),
    {
        let mut r = "- **".to_owned();
        r.append(self.timestamp.as_str());
        r.append("** [[");
        r.append(self.filename.as_str());
        r.append("]]");
        proof {
            reveal_strlit("- **");
            reveal_strlit("** [[");
            reveal_strlit("]]");
            assert(r@ =~= entry_line_spec(self.timestamp@, self.filename@));
        }
        r
    }
}

/// The planned lines are the batch's files, in order: for each file one line
/// `- **HH:MM** [[stem]]` with some valid time of day and the file's stem.
pub open spec fn entry_lines_match(lines: Seq<String>, files: Seq<String>) -> bool {
    lines.len() == files.len() && forall|i: int|
        0 <= i < files.len() ==> exists|h: nat, mi: nat|
            h < 24 && mi < 60 && #[trigger] lines[i]@ == entry_line_spec(
                time_text_spec(h, mi),
                display_stem_spec(file_name_spec(files[i]@)),
            )
}

proof fn lemma_padded2_no_newline(v: nat)
    ensures
        forall|i: int| 0 <= i < padded2(v).len() ==> padded2(v)[i] != '\n',
{
    crate::text::lemma_dec_digits_no_newline(v);
    if v < 10 {
        assert forall|i: int| 0 <= i < padded2(v).len() implies padded2(v)[i] != '\n' by {
            if i == 0 {
                assert(padded2(v)[0] == '0');
            } else {
                assert(padded2(v)[i] == dec_digits(v)[i - 1]);
            }
        }
    }
}

/// A rendered time of day holds no newline.
pub proof fn lemma_time_text_line_free(h: nat, m: nat)
    ensures
        line_free(time_text_spec(h, m)),
{
    lemma_padded2_no_newline(h);
    lemma_padded2_no_newline(m);
    let s = time_text_spec(h, m);
    assert forall|i: int| 0 <= i < s.len() implies s[i] != '\n' by {
        if i < padded2(h).len() {
            assert(s[i] == padded2(h)[i]);
        } else if i == padded2(h).len() {
            assert(s[i] == ':');
        } else {
            assert(s[i] == padded2(m)[i - padded2(h).len() - 1]);
        }
    }
}

/// A journal line holds no newline and is never blank, as long as its time
/// text and the stem it names hold none.
pub proof fn lemma_entry_line_well_formed(ts: Seq<char>, name: Seq<char>)
    requires
        line_free(ts),
        line_free(name),
    ensures
        line_free(entry_line_spec(ts, name)),
        entry_line_spec(ts, name).len() >= 1,
{
    reveal_strlit("- **");
    reveal_strlit("** [[");
    reveal_strlit("]]");
    let a = "- **"@;
    let b = "** [["@;
    let c = "]]"@;
    let s = entry_line_spec(ts, name);
    assert forall|i: int| 0 <= i < s.len() implies s[i] != '\n' by {
        if i < 4 {
            assert(s[i] == a[i]);
        } else if i < 4 + ts.len() {
            assert(s[i] == ts[i - 4]);
        } else if i < 9 + ts.len() {
            assert(s[i] == b[i - 4 - ts.len()]);
        } else if i < 9 + ts.len() + name.len() {
            assert(s[i] == name[i - 9 - ts.len()]);
        } else {
            assert(s[i] == c[i - 9 - ts.len() - name.len()]);
        }
    }
}

/// The lines a batch plans are fit for appending: when the recorded paths
/// hold no newline of their own, every planned line holds none and none is
/// blank, so the append facts of [`crate::lines`] apply to the batch.
pub proof fn lemma_batch_lines_well_formed(lines: Seq<String>, files: Seq<String>)
    requires
        entry_lines_match(lines, files),
        forall|i: int| 0 <= i < files.len() ==> line_free(#[trigger] files[i]@),
    ensures
        forall|i: int|
            0 <= i < lines.len() ==> line_free(#[trigger] lines[i]@) && lines[i]@.len() >= 1,
{
    assert forall|i: int| 0 <= i < lines.len() implies line_free(#[trigger] lines[i]@)
        && lines[i]@.len() >= 1 by {
        assert(0 <= i < files.len());
        let (h, mi) = choose|h: nat, mi: nat|
            h < 24 && mi < 60 && lines[i]@ == entry_line_spec(
                time_text_spec(h, mi),
                display_stem_spec(file_name_spec(files[i]@)),
            );
        lemma_time_text_line_free(h, mi);
        let p = files[i]@;
        let n = file_name_spec(p);
        crate::paths::lemma_file_name_chars(p);
        assert forall|j: int| 0 <= j < n.len() implies n[j] != '\n' by {
            assert(p.contains(n[j]));
            let k = choose|k: int| 0 <= k < p.len() && p[k] == n[j];
            assert(p[k] != '\n');
        }
        let ds = display_stem_spec(n);
        crate::paths::lemma_ext_len(n);
        assert forall|j: int| 0 <= j < ds.len() implies ds[j] != '\n' by {
            assert(ds[j] == n[j]);
        }
        lemma_entry_line_well_formed(time_text_spec(h, mi), ds);
    }
}

/// One planned journal update: the journals directory to ensure, the journal
/// file to append to, and the lines to append.
#[derive(Debug)]
pub struct JournalBatch {
    pub journals_dir: String,
    pub journal_path: String,
    pub lines: Vec<String>,
}

/// Public interface for journal management operations.
pub struct JournalManager;

impl JournalManager {
    /// The `journals` directory under the configured knowledge-base root.
    pub fn get_journals_directory(config: &Config) -> (r: Result<String, JournalError>)
        ensures
            r is Ok,
            exists|root: Seq<char>|
                r->Ok_0@ == root + "/journals"@ && (root == config.knowledge_base_path@
                    || exists|home: Seq<char>| root == crate::config::expand_with_spec(
                    config.knowledge_base_path@,
                    home,
                )),
    {
        let kb = config.get_knowledge_base_path();
        let mut p = kb;
        let ghost root = p@;
        p.append("/journals");
        proof {
            assert(p@ == root + "/journals"@);
        }
        Ok(p)
    }

    /// The journal file for today: `journals/YYYY_MM_DD.md` under the root,
    /// with the date read from the clock at the moment of the call.
    pub fn get_today_journal_path(config: &Config) -> (r: Result<String, JournalError>)
        ensures
            r is Ok,
            exists|root: Seq<char>, y: int, m: nat, d: nat|
                1 <= m <= 12 && 1 <= d <= 31 && r->Ok_0@ == (root + "/journals"@) + seq!['/']
                    + date_name_spec(y, m, d) && (root == config.knowledge_base_path@
                    || exists|home: Seq<char>| root == crate::config::expand_with_spec(
                    config.knowledge_base_path@,
                    home,
                )),
    {
        let dir = Self::get_journals_directory(config).unwrap();
        let today = today_date();
        let name = journal_file_name(&today);
        let path = crate::paths::join_path(dir.as_str(), name.as_str());
        Ok(path)
    }

    /// Plans the journal update for a batch of just-relocated files: one line
    /// per file, in the batch's order, destined for today's journal file.
    /// Rejects an empty batch, and a path without a file name, as a
    /// formatting error; no file is touched either way, since appending is
    /// the caller's move.
    pub fn add_entries(moved_files: &Vec<String>, config: &Config) -> (r: Result<
        JournalBatch,
        JournalError,
    >)
        ensures
            moved_files@.len() == 0 ==> r is Err,
            moved_files@.len() >= 1 && (forall|i: int|
                0 <= i < moved_files@.len() ==> file_name_spec(
                    #[trigger] moved_files@[i]@,
                ).len() >= 1) ==> r is Ok,
            r is Err ==> r->Err_0 is EntryFormattingError && (moved_files@.len() == 0
                || exists|i: int|
                0 <= i < moved_files@.len() && file_name_spec(
                    #[trigger] moved_files@[i]@,
                ).len() == 0),
            r is Ok ==> entry_lines_match(r->Ok_0.lines@, moved_files@),
            r is Ok ==> exists|y: int, m: nat, d: nat|
                1 <= m <= 12 && 1 <= d <= 31 && r->Ok_0.journal_path@
                    == r->Ok_0.journals_dir@ + seq!['/'] + date_name_spec(y, m, d),
            r is Ok ==> exists|root: Seq<char>|
                r->Ok_0.journals_dir@ == root + "/journals"@ && (root
                    == config.knowledge_base_path@ || exists|home: Seq<char>| root
                    == crate::config::expand_with_spec(config.knowledge_base_path@, home)),
    {
        if moved_files.len() == 0 {
            return Err(
                JournalError::EntryFormattingError(
                    "No files provided for journal entries".to_owned(),
                ),
            );
        }
        let journals_dir = Self::get_journals_directory(config).unwrap();
        let today = today_date();
        let name = journal_file_name(&today);
        let journal_path = crate::paths::join_path(journals_dir.as_str(), name.as_str());
        let mut lines: Vec<String> = Vec::new();
        let mut i: usize = 0;
        while i < moved_files.len()
            invariant
                i <= moved_files@.len(),
                lines@.len() == i,
                entry_lines_match(lines@, moved_files@.take(i as int)),
            decreases moved_files@.len() - i,
        {
            match JournalEntry::new(moved_files[i].as_str()) {
                Ok(entry) => {
                    let line = entry.format();
                    let ghost old_lines = lines@;
                    lines.push(line);
                    proof {
                        let (h, mi) = choose|h: nat, mi: nat|
                            h < 24 && mi < 60 && entry.timestamp@ == time_text_spec(h, mi);
                        assert(lines@[i as int]@ == entry_line_spec(
                            time_text_spec(h, mi),
                            display_stem_spec(file_name_spec(moved_files@[i as int]@)),
                        ));
                        let pre = moved_files@.take(i as int);
                        let post = moved_files@.take(i as int + 1);
                        assert forall|j: int| 0 <= j < post.len() implies exists|
                            h2: nat,
                            mi2: nat,
                        |
                            h2 < 24 && mi2 < 60 && #[trigger] lines@[j]@ == entry_line_spec(
                                time_text_spec(h2, mi2),
                                display_stem_spec(file_name_spec(post[j]@)),
                            ) by {
                            if j < i as int {
                                assert(lines@[j]@ == old_lines[j]@);
                                assert(post[j] == pre[j]);
                            } else {
                                assert(post[j] == moved_files@[i as int]);
                            }
                        }
                    }
                },
                Err(e) => {
                    proof {
                        assert(file_name_spec(moved_files@[i as int]@).len() == 0);
                    }
                    return Err(e);
                },
            }
            i = i + 1;
        }
        proof {
            assert(moved_files@.take(moved_files@.len() as int) =~= moved_files@);
        }
        Ok(JournalBatch { journals_dir, journal_path, lines })
    }
}

/// Whether the character is a decimal digit.
pub open spec fn is_digit(c: char) -> bool {
    48 <= c as u32 && c as u32 <= 57
}

/// The value of a decimal digit character.
pub open spec fn digit_val(c: char) -> int {
    c as u32 - 48
}

/// Whether a file name has the exact shape of a journal file name: four
/// digits, `_`, two digits, `_`, two digits, `.md`.
pub open spec fn journal_name_shape(s: Seq<char>) -> bool {
    s.len() == 13 && is_digit(s[0]) && is_digit(s[1]) && is_digit(s[2]) && is_digit(s[3]) && s[4]
        == '_' && is_digit(s[5]) && is_digit(s[6]) && s[7] == '_' && is_digit(s[8]) && is_digit(
        s[9],
    ) && s[10] == '.' && s[11] == 'm' && s[12] == 'd'
}

/// The year a journal file name spells out.
pub open spec fn name_year(s: Seq<char>) -> int {
    1000 * digit_val(s[0]) + 100 * digit_val(s[1]) + 10 * digit_val(s[2]) + digit_val(s[3])
}

/// The month a journal file name spells out.
pub open spec fn name_month(s: Seq<char>) -> int {
    10 * digit_val(s[5]) + digit_val(s[6])
}

/// The day a journal file name spells out.
pub open spec fn name_day(s: Seq<char>) -> int {
    10 * digit_val(s[8]) + digit_val(s[9])
}

proof fn lemma_date_name_chars(y: int, m: nat, d: nat)
    requires
        0 <= y <= 9999,
        m < 100,
        d < 100,
    ensures
        date_name_spec(y, m, d) == seq![
            digit_char((y as nat) / 1000),
            digit_char((y as nat) / 100 % 10),
            digit_char((y as nat) / 10 % 10),
            digit_char((y as nat) % 10),
            '_',
            digit_char(m / 10),
            digit_char(m % 10),
            '_',
            digit_char(d / 10),
            digit_char(d % 10),
            '.',
            'm',
            'd',
        ],
{
    reveal_strlit(".md");
    crate::text::lemma_padded4_digits(y as nat);
    crate::text::lemma_padded2_digits(m);
    crate::text::lemma_padded2_digits(d);
    assert(date_name_spec(y, m, d) =~= seq![
        digit_char((y as nat) / 1000),
        digit_char((y as nat) / 100 % 10),
        digit_char((y as nat) / 10 % 10),
        digit_char((y as nat) % 10),
        '_',
        digit_char(m / 10),
        digit_char(m % 10),
        '_',
        digit_char(d / 10),
        digit_char(d % 10),
        '.',
        'm',
        'd',
    ]);
}

proof fn lemma_four_digit_recompose(v: nat)
    requires
        v < 10000,
    ensures
        1000 * (v / 1000) + 100 * (v / 100 % 10) + 10 * (v / 10 % 10) + v % 10 == v,
{
    let q1 = v / 10;
    let q2 = q1 / 10;
    vstd::arithmetic::div_mod::lemma_div_denominator(v as int, 10, 10);
    vstd::arithmetic::div_mod::lemma_div_denominator(v as int, 100, 10);
    assert(v / 10 / 10 == v / 100);
    assert(v / 100 / 10 == v / 1000);
    vstd::arithmetic::div_mod::lemma_fundamental_div_mod(v as int, 10);
    vstd::arithmetic::div_mod::lemma_fundamental_div_mod(q1 as int, 10);
    vstd::arithmetic::div_mod::lemma_fundamental_div_mod(q2 as int, 10);
}

proof fn lemma_digit_char_value(v: nat)
    requires
        v < 10,
    ensures
        is_digit(digit_char(v)),
        digit_val(digit_char(v)) == v,
{
}

fn digit_at(s: &str, i: usize) -> (r: Option<u8>)
    requires
        i < s@.len(),
    ensures
        r is Some <==> is_digit(s@[i as int]),
        r is Some ==> r->0 == digit_val(s@[i as int]),
{
    let c = s.get_char(i);
    let v = c as u32;
    if 48 <= v && v <= 57 {
        Some((v - 48) as u8)
    } else {
        None
    }
}

fn days_in_month_of(y: i32, m: u8) -> (r: u8)
    requires
        0 <= y,
        1 <= m <= 12,
    ensures
        r == days_in_month(y as int, m as int),
{
    if m == 2 {
        if y % 4 == 0 && (y % 100 != 0 || y % 400 == 0) {
            29
        } else {
            28
        }
    } else if m == 4 || m == 6 || m == 9 || m == 11 {
        30
    } else {
        31
    }
}

impl JournalManager {
    /// Reads a journal file name back into its date. Succeeds exactly on
    /// names of the shape `YYYY_MM_DD.md` whose values make a real calendar
    /// date; everything else is a formatting error.
    pub fn parse_journal_date(filename: &str) -> (r: Result<Date, JournalError>)
        ensures
            r is Ok <==> journal_name_shape(filename@) && valid_date(
                name_year(filename@),
                name_month(filename@),
                name_day(filename@),
            ),
            r is Ok ==> r->Ok_0.year == name_year(filename@) && r->Ok_0.month == name_month(
                filename@,
            ) && r->Ok_0.day == name_day(filename@) && r->Ok_0.wf(),
            r is Err ==> r->Err_0 is EntryFormattingError,
    {
        let len = filename.unicode_len();
        if len != 13 {
            return Err(Self::bad_name_error(filename));
        }
        if !(filename.get_char(10) == '.' && filename.get_char(11) == 'm' && filename.get_char(12)
            == 'd') {
            return Err(Self::bad_name_error(filename));
        }
        if !(filename.get_char(4) == '_' && filename.get_char(7) == '_') {
            return Err(Self::bad_name_error(filename));
        }
        let y0 = digit_at(filename, 0);
        let y1 = digit_at(filename, 1);
        let y2 = digit_at(filename, 2);
        let y3 = digit_at(filename, 3);
        let m0 = digit_at(filename, 5);
        let m1 = digit_at(filename, 6);
        let d0 = digit_at(filename, 8);
        let d1 = digit_at(filename, 9);
        match (y0, y1, y2, y3, m0, m1, d0, d1) {
            (
                Some(y0),
                Some(y1),
                Some(y2),
                Some(y3),
                Some(m0),
                Some(m1),
                Some(d0),
                Some(d1),
            ) => {
                let y: u32 = 1000 * (y0 as u32) + 100 * (y1 as u32) + 10 * (y2 as u32) + (
                y3 as u32);
                let m: u8 = 10 * m0 + m1;
                let d: u8 = 10 * d0 + d1;
                if !(1 <= m && m <= 12) {
                    return Err(Self::bad_name_error(filename));
                }
                let last = days_in_month_of(y as i32, m);
                if !(1 <= d && d <= last) {
                    return Err(Self::bad_name_error(filename));
                }
                Ok(Date { year: y as i32, month: m, day: d })
            },
            _ => Err(Self::bad_name_error(filename)),
        }
    }

    /// What a rendered journal file name spells out is the date it was
    /// rendered from: for any real calendar date with a four-digit year, the
    /// name has the journal shape and parses back to the same year, month and
    /// day.
    pub proof fn lemma_journal_name_round_trip(y: int, m: nat, d: nat)
        requires
            0 <= y <= 9999,
            valid_date(y, m as int, d as int),
        ensures
            journal_name_shape(date_name_spec(y, m, d)),
            name_year(date_name_spec(y, m, d)) == y,
            name_month(date_name_spec(y, m, d)) == m,
            name_day(date_name_spec(y, m, d)) == d,
    {
        let s = date_name_spec(y, m, d);
        lemma_date_name_chars(y, m, d);
        lemma_digit_char_value((y as nat) / 1000);
        lemma_digit_char_value((y as nat) / 100 % 10);
        lemma_digit_char_value((y as nat) / 10 % 10);
        lemma_digit_char_value((y as nat) % 10);
        lemma_digit_char_value(m / 10);
        lemma_digit_char_value(m % 10);
        lemma_digit_char_value(d / 10);
        lemma_digit_char_value(d % 10);
        lemma_four_digit_recompose(y as nat);
        assert(10 * (m / 10) + m % 10 == m);
        assert(10 * (d / 10) + d % 10 == d);
    }

    fn bad_name_error(filename: &str) -> (r: JournalError)
        ensures
            r is EntryFormattingError,
    {
        let mut m = "Invalid journal file name: ".to_owned();
        m.append(filename);
        JournalError::EntryFormattingError(m)
    }
}

} // verus!
