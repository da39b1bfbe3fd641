//! Rows of a readings file: `series,time,value`, one reading per line.
//!
//! The value column holds a floating-point number. Reading it is left to the
//! caller, who hands in what came of it.

use chrono::NaiveDateTime;
use vstd::prelude::*;
use vstd::std_specs::iter::IteratorSpec;
use vstd::string::{StrSliceExecFns, StringExecFns};

verus! {

/// The columns of a line: the texts between its commas, in order. A line
/// without a comma is a single column, and two commas in a row hold an empty
/// column between them.
pub open spec fn columns(text: Seq<char>) -> Seq<Seq<char>>
    decreases text.len(),
{
    if text.len() == 0 {
        seq![Seq::empty()]
    } else {
        let before = columns(text.drop_last());
        if text.last() == ',' {
            before.push(Seq::empty())
        } else {
            before.update(before.len() - 1, before.last().push(text.last()))
        }
    }
}

/// Some texts written one after another with a comma between neighbours.
pub open spec fn joined(texts: Seq<Seq<char>>) -> Seq<char>
    decreases texts.len(),
{
    if texts.len() == 0 {
        Seq::empty()
    } else if texts.len() == 1 {
        texts[0]
    } else {
        joined(texts.drop_last()).push(',') + texts.last()
    }
}

/// A line has at least one column. Its columns hold no comma, and joined by
/// commas they give the line back.
pub proof fn lemma_columns_split_the_line(text: Seq<char>)
    ensures
        columns(text).len() >= 1,
        joined(columns(text)) == text,
        forall|i: int, j: int|
            0 <= i < columns(text).len() && 0 <= j < columns(text)[i].len()
                ==> #[trigger] columns(text)[i][j] != ',',
    decreases text.len(),
{
    if text.len() > 0 {
        let shorter = text.drop_last();
        let before = columns(shorter);
        lemma_columns_split_the_line(shorter);
        if text.last() == ',' {
            let all = before.push(Seq::empty());
            assert(all.drop_last() == before);
        } else {
            let all = before.update(before.len() - 1, before.last().push(text.last()));
            assert(text == shorter.push(text.last()));
            if before.len() > 1 {
                assert(all.drop_last() == before.drop_last());
            }
        }
    }
}

/// Splits a line into its columns.
pub fn split_columns(line: &str) -> (texts: Vec<String>)
    ensures
        texts.deep_view() == columns(line@),
{
    let total = line.unicode_len();
    let mut texts: Vec<String> = Vec::new();
    let mut start: usize = 0;
    let mut i: usize = 0;
    let mut chars = line.chars();
    assert(texts.deep_view().push(line@.subrange(0, 0)) =~~= columns(line@.take(0)));
    loop
        invariant
            start <= i <= total,
            total == line@.len(),
            chars.remaining() == line@.skip(i as int),
            chars.obeys_prophetic_iter_laws(),
            texts.deep_view().push(line@.subrange(start as int, i as int)) == columns(
                line@.take(i as int),
            ),
        decreases total - i,
    {
        match chars.next() {
            Some(c) => {
                assert(line@.take(i + 1).drop_last() == line@.take(i as int));
                if c == ',' {
                    texts.push(line.substring_char(start, i).to_string());
                    start = i + 1;
                    assert(texts.deep_view().push(line@.subrange(i + 1, i + 1)) =~~= columns(
                        line@.take(i + 1),
                    ));
                } else {
                    assert(line@.subrange(start as int, i + 1) == line@.subrange(
                        start as int,
                        i as int,
                    ).push(c));
                }
                i = i + 1;
            },
            None => {
                assert(line@.take(i as int) == line@);
                texts.push(line.substring_char(start, i).to_string());
                return texts;
            },
        }
    }
}

/// The number of columns a row must have.
pub const COLUMNS: usize = 3;

/// How the time column is written, as in `2024-06-13 15:30:00`.
pub const TIME_FORMAT: &'static str = "%Y-%m-%d %H:%M:%S";

/// Whether a line has exactly `COLUMNS` columns.
fn has_all_columns(line: &str) -> (yes: bool)
    ensures
        yes == (columns(line@).len() == COLUMNS),
{
    let mut seen: usize = 1;
    let mut chars = line.chars();
    let ghost mut i: int = 0;
    loop
        invariant
            0 <= i <= line@.len(),
            chars.remaining() == line@.skip(i),
            chars.obeys_prophetic_iter_laws(),
            chars.decrease() is Some,
            seen <= COLUMNS + 1,
            columns(line@.take(i)).len() <= COLUMNS ==> seen == columns(line@.take(i)).len(),
            columns(line@.take(i)).len() > COLUMNS ==> seen == COLUMNS + 1,
        decreases chars.decrease()->0,
    {
        match chars.next() {
            Some(c) => {
                proof {
                    assert(line@.take(i + 1).drop_last() == line@.take(i));
                    lemma_columns_split_the_line(line@.take(i));
                    i = i + 1;
                }
                if c == ',' && seen <= COLUMNS {
                    seen = seen + 1;
                }
            },
            None => {
                assert(line@.take(i) == line@);
                return seen == COLUMNS;
            },
        }
    }
}

/// The seconds from the Unix epoch to the date and time that `text` gives in
/// the layout `format`, or `None` where `text` gives none in that layout.
pub uninterp spec fn parsed_time(text: Seq<char>, format: Seq<char>) -> Option<i64>;

/// Reads a date and time with `chrono::NaiveDateTime::parse_from_str` and
/// hands it back as the seconds since the Unix epoch, which
/// `NaiveDateTime::and_utc` and `DateTime::timestamp` give.
///
/// Trusted: the answer depends on the two texts alone. Nothing is claimed of
/// which texts are read as which time.
#[verifier::external_body]
fn parse_time(text: &str, format: &str) -> (seconds: Option<i64>)
    ensures
        seconds == parsed_time(text@, format@),
{
    match NaiveDateTime::parse_from_str(text, format) {
        Ok(time) => Some(time.and_utc().timestamp()),
        Err(_) => None,
    }
}

/// One reading of a readings file.
///
/// `time` counts the seconds since the Unix epoch, and `value` is the bit
/// pattern of the single-precision number that was read.
#[derive(Debug)]
pub struct Reading {
    pub series: String,
    pub time: i64,
    pub value: u32,
}

/// The mathematical value of a reading.
pub struct ReadingView {
    pub series: Seq<char>,
    pub time: i64,
    pub value: u32,
}

impl View for Reading {
    type V = ReadingView;

    open spec fn view(&self) -> ReadingView {
        ReadingView { series: self.series@, time: self.time, value: self.value }
    }
}

/// Why a row was refused.
#[derive(Debug, Clone, Copy, PartialEq, Eq, Structural)]
pub enum RowError {
    /// The row does not have three columns.
    Columns,
    /// The second column is no time in the layout `TIME_FORMAT`.
    Time,
    /// The third column is no number.
    Value,
}

/// What reading a row yields, given its columns, what reading its time
/// column gave and what reading its value column gave. The columns are
/// counted first, then the time is looked at, then the value.
pub open spec fn row_verdict(
    texts: Seq<Seq<char>>,
    time: Option<i64>,
    value: Option<u32>,
) -> Result<ReadingView, RowError> {
    if texts.len() != COLUMNS {
        Err(RowError::Columns)
    } else if time is None {
        Err(RowError::Time)
    } else if value is None {
        Err(RowError::Value)
    } else {
        Ok(ReadingView { series: texts[0], time: time->0, value: value->0 })
    }
}

/// The mathematical value of what reading a row returns.
pub open spec fn row_outcome(result: Result<Reading, RowError>) -> Result<ReadingView, RowError> {
    match result {
        Ok(reading) => Ok(reading@),
        Err(error) => Err(error),
    }
}

/// The columns of a row, if there are three of them.
pub fn row_columns(line: &str) -> (result: Result<Vec<String>, RowError>)
    ensures
        match result {
            Ok(texts) => columns(line@).len() == COLUMNS && texts.deep_view() == columns(line@),
            Err(error) => columns(line@).len() != COLUMNS && error == RowError::Columns,
        },
{
    if has_all_columns(line) {
        Ok(split_columns(line))
    } else {
        Err(RowError::Columns)
    }
}

/// Accepts or refuses a row, given its columns, what reading its time column
/// gave and what reading its value column gave.
pub fn judge_row(texts: &Vec<String>, time: Option<i64>, value: Option<u32>) -> (result: Result<
    Reading,
    RowError,
>)
    ensures
        row_outcome(result) == row_verdict(texts.deep_view(), time, value),
{
    if texts.len() != COLUMNS {
        return Err(RowError::Columns);
    }
    match (time, value) {
        (None, _) => Err(RowError::Time),
        (Some(_), None) => Err(RowError::Value),
        (Some(seconds), Some(bits)) => Ok(
            Reading { series: texts[0].clone(), time: seconds, value: bits },
        ),
    }
}

/// Reads one row from its columns: the first names the series, and the
/// second gives the time in the layout `TIME_FORMAT`. The third holds a
/// number; `value` is what reading it gave, `None` where it is no number.
pub fn read_row(texts: &Vec<String>, value: Option<u32>) -> (result: Result<Reading, RowError>)
    ensures
        row_outcome(result) == row_verdict(
            texts.deep_view(),
            parsed_time(texts.deep_view()[1], TIME_FORMAT@),
            value,
        ),
{
    if texts.len() != COLUMNS {
        return judge_row(texts, None, value);
    }
    let time = parse_time(texts[1].as_str(), TIME_FORMAT);
    judge_row(texts, time, value)
}

/// The decimal digit that stands for a number below ten.
pub open spec fn digit(d: nat) -> char {
    if d == 0 {
        '0'
    } else if d == 1 {
        '1'
    } else if d == 2 {
        '2'
    } else if d == 3 {
        '3'
    } else if d == 4 {
        '4'
    } else if d == 5 {
        '5'
    } else if d == 6 {
        '6'
    } else if d == 7 {
        '7'
    } else if d == 8 {
        '8'
    } else {
        '9'
    }
}

/// A number written in decimal digits, without leading zeros.
pub open spec fn decimal(n: nat) -> Seq<char>
    decreases n,
{
    if n < 10 {
        seq![digit(n)]
    } else {
        decimal(n / 10).push(digit(n % 10))
    }
}

fn digit_text(d: usize) -> (text: &'static str)
    requires
        d < 10,
    ensures
        text@ == seq![digit(d as nat)],
{
    proof {
        reveal_strlit("0");
        reveal_strlit("1");
        reveal_strlit("2");
        reveal_strlit("3");
        reveal_strlit("4");
        reveal_strlit("5");
        reveal_strlit("6");
        reveal_strlit("7");
        reveal_strlit("8");
        reveal_strlit("9");
    }
    if d == 0 {
        "0"
    } else if d == 1 {
        "1"
    } else if d == 2 {
        "2"
    } else if d == 3 {
        "3"
    } else if d == 4 {
        "4"
    } else if d == 5 {
        "5"
    } else if d == 6 {
        "6"
    } else if d == 7 {
        "7"
    } else if d == 8 {
        "8"
    } else {
        "9"
    }
}

/// Writes a number in decimal digits.
pub fn to_decimal(n: usize) -> (text: String)
    ensures
        text@ == decimal(n as nat),
    decreases n,
{
    if n < 10 {
        digit_text(n).to_string()
    } else {
        let mut text = to_decimal(n / 10);
        text.append(digit_text(n % 10));
        text
    }
}

impl RowError {
    /// What is wrong with a row, without the place of the row.
    pub open spec fn complaint(self) -> Seq<char> {
        match self {
            RowError::Columns => ". Invalid format. Each row of the CSV file should contain 3 columns: series, time and point."@,
            RowError::Time => ". Invalid format. The time column must be formatted as: 2024-06-13 15:30:00"@,
            RowError::Value => ". Invalid format. The value column must parse as an f32"@,
        }
    }

    /// The message for a row that was refused: the number of its line, then
    /// what is wrong with it.
    pub open spec fn message_text(self, line: nat) -> Seq<char> {
        "At line "@ + decimal(line) + self.complaint()
    }

    /// Says which line was refused and why. Lines are counted as the caller
    /// counts them.
    pub fn message(&self, line: usize) -> (text: String)
        ensures
            text@ == self.message_text(line as nat),
    {
        let mut text = "At line ".to_string();
        let number = to_decimal(line);
        text.append(number.as_str());
        match self {
            RowError::Columns => text.append(
                ". Invalid format. Each row of the CSV file should contain 3 columns: series, time and point.",
            ),
            RowError::Time => text.append(
                ". Invalid format. The time column must be formatted as: 2024-06-13 15:30:00",
            ),
            RowError::Value => text.append(
                ". Invalid format. The value column must parse as an f32",
            ),
        }
        text
    }
}

} // verus!
