//! The tail of the measurement log: the latest measurements, read back from
//! the end of the file.
//!
//! Reading the file is the caller's part. What it found is handed over as a
//! [`LogTail`]; everything that is decided about it is decided here.

use crate::average::ResultCsv;
use crate::date::{date_time_from_str, log_date_seconds};
use crate::decimal::{parse_hundredths, parsed_hundredths};
use crate::table::{csv_header, csv_records, read_header, read_records};
use vstd::prelude::*;
use vstd::string::StringExecFns;

verus! {

/// What was read of a log file that exists.
#[derive(Debug)]
pub struct LogTail {
    /// The first line of the file, which names the columns; empty where the
    /// file has no line at all.
    pub header: String,
    /// How many lines follow the first.
    pub data_lines: usize,
    /// The last lines of the file as they are met when it is read backwards:
    /// the newest first.
    pub last_lines: Vec<String>,
}

/// Where each of the three columns that matter stands in a row.
#[derive(Debug, Clone, Copy, PartialEq, Eq)]
pub struct Columns {
    pub date: usize,
    pub download: usize,
    pub upload: usize,
}

/// Whether the log holds the `count` measurements that an average is taken
/// of.
pub open spec fn has_enough(data_lines: usize, count: u8) -> bool {
    data_lines >= count
}

/// The text of a window: the header line, then the lines of `newest_first` from
/// the oldest to the newest, every line closed by a line feed.
pub open spec fn window_text(header: Seq<char>, newest_first: Seq<Seq<char>>) -> Seq<char>
    decreases newest_first.len(),
{
    if newest_first.len() == 0 {
        header + seq!['\n']
    } else {
        window_text(header, newest_first.drop_first()) + newest_first.first() + seq!['\n']
    }
}

/// Whether `name` is the title of column `i` of `header` and of no other
/// column.
pub open spec fn is_column(header: Seq<Seq<char>>, name: Seq<char>, i: int) -> bool {
    &&& 0 <= i < header.len()
    &&& header[i] == name
    &&& forall|j: int| 0 <= j < header.len() && j != i ==> header[j] != name
}

/// The column of `header` titled `name`, where exactly one column is.
pub open spec fn column_of(header: Seq<Seq<char>>, name: Seq<char>) -> Option<int> {
    if exists|i: int| is_column(header, name, i) {
        Some(choose|i: int| is_column(header, name, i))
    } else {
        None
    }
}

/// The columns titled `date`, `speeds_download` and `speeds_upload`, where
/// the header could be read and has exactly one of each.
pub open spec fn columns_of(header: Option<Seq<Seq<char>>>) -> Option<Columns> {
    match header {
        Some(titles) => match (
            column_of(titles, "date"@),
            column_of(titles, "speeds_download"@),
            column_of(titles, "speeds_upload"@),
        ) {
            (Some(date), Some(download), Some(upload)) => Some(
                Columns { date: date as usize, download: download as usize, upload: upload as usize },
            ),
            _ => None,
        },
        None => None,
    }
}

/// The measurement made of a date and two rates, where all three could be
/// read.
pub open spec fn measurement_of(date: Option<i64>, download: Option<u64>, upload: Option<u64>)
    -> Option<ResultCsv> {
    match (date, download, upload) {
        (Some(date), Some(speeds_download), Some(speeds_upload)) => Some(
            ResultCsv { date, speeds_download, speeds_upload },
        ),
        _ => None,
    }
}

/// The measurement that a row holds: its date read as a date of the log, its
/// two rates read as figures. There is none where the row or the columns
/// could not be read, the row is too short, or one of the three fields does
/// not read.
pub open spec fn row_of(columns: Option<Columns>, record: Option<Seq<Seq<char>>>) -> Option<
    ResultCsv,
> {
    match (columns, record) {
        (Some(columns), Some(fields)) => if columns.date < fields.len() && columns.download
            < fields.len() && columns.upload < fields.len() {
            measurement_of(
                log_date_seconds(fields[columns.date as int]),
                parsed_hundredths(fields[columns.download as int]),
                parsed_hundredths(fields[columns.upload as int]),
            )
        } else {
            None
        },
        _ => None,
    }
}

/// The measurements of the rows that hold one, in the order of the rows.
pub open spec fn rows_of(columns: Option<Columns>, records: Seq<Option<Seq<Seq<char>>>>) -> Seq<
    ResultCsv,
>
    decreases records.len(),
{
    if records.len() == 0 {
        Seq::empty()
    } else {
        match row_of(columns, records.last()) {
            Some(row) => rows_of(columns, records.drop_last()).push(row),
            None => rows_of(columns, records.drop_last()),
        }
    }
}

/// The measurements that the comma-separated `text` holds under its header.
pub open spec fn measurements_of(text: Seq<char>) -> Seq<ResultCsv> {
    rows_of(columns_of(csv_header(text)), csv_records(text))
}

/// Tells whether a log with `data_lines` lines after its header holds the
/// `count` measurements asked for.
pub fn enough_results(data_lines: usize, count: u8) -> (enough: bool)
    ensures
        enough == has_enough(data_lines, count),
{
    data_lines >= count as usize
}

/// Puts a window back together as text: the header, then the lines in the
/// order in which they were written, the oldest first.
pub fn build_window_text(header: &str, last_lines: &Vec<String>) -> (text: String)
    ensures
        text@ == window_text(header@, last_lines.deep_view()),
{
    proof {
        reveal_strlit("\n");
    }
    let ghost lines = last_lines.deep_view();
    let mut text = String::from_str(header);
    text.append("\n");
    assert("\n"@ =~= seq!['\n']);
    let mut i: usize = last_lines.len();
    assert(lines.skip(i as int) =~= Seq::empty());
    while i > 0
        invariant
            0 <= i <= last_lines.len(),
            lines == last_lines.deep_view(),
            "\n"@ == seq!['\n'],
            text@ == window_text(header@, lines.skip(i as int)),
        decreases i,
    {
        i = i - 1;
        proof {
            let shown = lines.skip(i as int);
            assert(shown.drop_first() =~= lines.skip(i + 1));
            assert(shown.first() == last_lines[i as int]@);
        }
        text.append(last_lines[i].as_str());
        text.append("\n");
    }
    assert(lines.skip(0) =~= lines);
    text
}

/// Finds the column of `header` titled `name`. A title that stands over two
/// columns names neither.
pub fn find_column(header: &Vec<String>, name: &str) -> (column: Option<usize>)
    ensures
        match column {
            Some(i) => column_of(header.deep_view(), name@) == Some(i as int),
            None => column_of(header.deep_view(), name@) is None,
        },
{
    let ghost titles = header.deep_view();
    let wanted = String::from_str(name);
    let mut found: Option<usize> = None;
    let mut i: usize = 0;
    while i < header.len()
        invariant
            0 <= i <= header.len(),
            titles == header.deep_view(),
            wanted@ == name@,
            match found {
                Some(k) => k < i && titles[k as int] == name@ && forall|j: int|
                    0 <= j < i && j != k ==> titles[j] != name@,
                None => forall|j: int| 0 <= j < i ==> titles[j] != name@,
            },
        decreases header.len() - i,
    {
        assert(titles[i as int] == header[i as int]@);
        if header[i] == wanted {
            match found {
                Some(k) => {
                    assert forall|c: int| !is_column(titles, name@, c) by {
                        if c == k {
                            assert(titles[i as int] == name@);
                        } else {
                            assert(titles[k as int] == name@);
                        }
                    }
                    return None;
                },
                None => {
                    found = Some(i);
                },
            }
        }
        i = i + 1;
    }
    proof {
        match found {
            Some(k) => {
                assert(is_column(titles, name@, k as int));
                let chosen = choose|c: int| is_column(titles, name@, c);
                assert(is_column(titles, name@, chosen));
                assert(chosen == k);
            },
            None => {
                assert forall|c: int| !is_column(titles, name@, c) by {}
            },
        }
    }
    found
}

/// Finds the three columns that matter in the header of the log. There are
/// none where the header could not be read, or lacks or repeats one of the
/// titles `date`, `speeds_download` and `speeds_upload`.
pub fn find_columns(header: &Option<Vec<String>>) -> (columns: Option<Columns>)
    ensures
        columns == columns_of(header.deep_view()),
{
    match header {
        Some(titles) => {
            let date = find_column(titles, "date");
            let download = find_column(titles, "speeds_download");
            let upload = find_column(titles, "speeds_upload");
            match (date, download, upload) {
                (Some(date), Some(download), Some(upload)) => Some(
                    Columns { date, download, upload },
                ),
                _ => None,
            }
        },
        None => None,
    }
}

/// Makes a measurement of what was read of its three fields; there is none
/// where one of them did not read.
pub fn make_measurement(date: Option<i64>, download: Option<u64>, upload: Option<u64>) -> (row:
    Option<ResultCsv>)
    ensures
        row == measurement_of(date, download, upload),
{
    match (date, download, upload) {
        (Some(date), Some(speeds_download), Some(speeds_upload)) => Some(
            ResultCsv { date, speeds_download, speeds_upload },
        ),
        _ => None,
    }
}

/// Reads the measurement of one row: the date and the two rates, each from
/// its column.
pub fn read_row(columns: Option<Columns>, record: &Option<Vec<String>>) -> (row: Option<ResultCsv>)
    ensures
        row == row_of(columns, record.deep_view()),
{
    match (columns, record) {
        (Some(columns), Some(fields)) => {
            if columns.date < fields.len() && columns.download < fields.len() && columns.upload
                < fields.len() {
                let ghost shown = fields.deep_view();
                assert(shown[columns.date as int] == fields[columns.date as int]@);
                assert(shown[columns.download as int] == fields[columns.download as int]@);
                assert(shown[columns.upload as int] == fields[columns.upload as int]@);
                make_measurement(
                    date_time_from_str(fields[columns.date].as_str()),
                    parse_hundredths(fields[columns.download].as_str()),
                    parse_hundredths(fields[columns.upload].as_str()),
                )
            } else {
                None
            }
        },
        _ => None,
    }
}

/// Reads the measurements of the rows under `header`, leaving out every row
/// that holds none.
pub fn read_rows(header: &Option<Vec<String>>, records: &Vec<Option<Vec<String>>>) -> (results:
    Vec<ResultCsv>)
    ensures
        results@ == rows_of(columns_of(header.deep_view()), records.deep_view()),
{
    let columns = find_columns(header);
    let ghost rows = records.deep_view();
    let mut results: Vec<ResultCsv> = Vec::new();
    let mut i: usize = 0;
    assert(rows.take(0) =~= Seq::empty());
    while i < records.len()
        invariant
            0 <= i <= records.len(),
            rows == records.deep_view(),
            results@ == rows_of(columns, rows.take(i as int)),
        decreases records.len() - i,
    {
        proof {
            let next = rows.take(i + 1);
            assert(next.drop_last() =~= rows.take(i as int));
            assert(next.last() == records[i as int].deep_view());
        }
        match read_row(columns, &records[i]) {
            Some(row) => {
                results.push(row);
            },
            None => {},
        }
        i = i + 1;
    }
    assert(rows.take(records.len() as int) =~= rows);
    results
}

/// What the latest results are, given what the rows of the window read as: the
/// rows themselves where there are exactly `count` of them, and no result at
/// all otherwise.
pub open spec fn checked_window(rows: Seq<ResultCsv>, count: u8) -> Option<Seq<ResultCsv>> {
    if rows.len() == count {
        Some(rows)
    } else {
        None
    }
}

/// Accepts the rows read from a window only where there are exactly `count`
/// of them: a row that did not read leaves the window short, and a short
/// window is an error, not a smaller window.
pub fn check_window(results: Vec<ResultCsv>, count: u8) -> (checked: Result<Vec<ResultCsv>, String>)
    ensures
        match checked {
            Ok(window) => checked_window(results@, count) == Some(window@),
            Err(message) => checked_window(results@, count) is None && message@
                == "Error deserializing csv."@,
        },
{
    if results.len() != count as usize {
        Err(String::from_str("Error deserializing csv."))
    } else {
        Ok(results)
    }
}

/// Whether a log, as far as it was read, has a window of `count` measurements
/// to offer: the file exists and holds at least `count` lines after its
/// header.
pub open spec fn has_window(log: Option<LogTail>, count: u8) -> bool {
    match log {
        Some(tail) => has_enough(tail.data_lines, count),
        None => false,
    }
}

/// The rows that the window of a log reads as.
pub open spec fn window_rows(tail: LogTail) -> Seq<ResultCsv> {
    measurements_of(window_text(tail.header@, tail.last_lines.deep_view()))
}

/// Gets the latest `count` measurements from what was read of the log, the
/// oldest first.
///
/// There is no data yet, `Ok(None)`, where the file is missing (`log` is
/// `None`) or holds fewer than `count` lines after its header. Otherwise the
/// window is put together from the header and the last lines and read as
/// comma-separated text; it is the result where exactly `count` rows read,
/// and an error where any did not.
pub fn get_latest_results(log: Option<LogTail>, count: u8) -> (latest: Result<
    Option<Vec<ResultCsv>>,
    String,
>)
    ensures
        !has_window(log, count) ==> latest == Ok::<Option<Vec<ResultCsv>>, String>(None),
        latest matches Ok(Some(window)) ==> window.len() == count,
        has_window(log, count) ==> match latest {
            Ok(Some(window)) => checked_window(window_rows(log->0), count) == Some(window@),
            Ok(None) => false,
            Err(message) => checked_window(window_rows(log->0), count) is None && message@
                == "Error deserializing csv."@,
        },
{
    let tail = match log {
        Some(tail) => tail,
        None => {
            return Ok(None);
        },
    };
    if !enough_results(tail.data_lines, count) {
        return Ok(None);
    }
    let text = build_window_text(tail.header.as_str(), &tail.last_lines);
    let header = read_header(text.as_str());
    let records = read_records(text.as_str());
    let results = read_rows(&header, &records);
    match check_window(results, count) {
        Ok(window) => Ok(Some(window)),
        Err(message) => Err(message),
    }
}

} // verus!
