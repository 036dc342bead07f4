//! Comma-separated text as rows of fields.

use vstd::prelude::*;

verus! {

/// The fields of the first record of the comma-separated `text`, as the `csv`
/// crate reads them; `None` where it cannot read a first record.
pub uninterp spec fn csv_header(text: Seq<char>) -> Option<Seq<Seq<char>>>;

/// The records of the comma-separated `text` after its first, in order, each
/// with its fields, as the `csv` crate reads them. A record that the crate
/// refuses, such as one with another number of fields than the first, stands
/// as `None` in its place.
pub uninterp spec fn csv_records(text: Seq<char>) -> Seq<Option<Seq<Seq<char>>>>;

/// Makes a `csv::Reader` over `text` with `csv::Reader::from_reader` and asks
/// it for its `headers`. The contract only gives the result its name.
#[verifier::external_body]
pub(crate) fn read_header(text: &str) -> (header: Option<Vec<String>>)
    ensures
        header.deep_view() == csv_header(text@),
{
    let mut reader = csv::Reader::from_reader(text.as_bytes());
    reader.headers().ok().map(|record| record.iter().map(|field| field.to_owned()).collect())
}

/// Makes a `csv::Reader` over `text` with `csv::Reader::from_reader` and walks
/// its `records`, which leave out the first record. The contract only gives
/// the result its name.
#[verifier::external_body]
pub(crate) fn read_records(text: &str) -> (records: Vec<Option<Vec<String>>>)
    ensures
        records.deep_view() == csv_records(text@),
{
    let mut reader = csv::Reader::from_reader(text.as_bytes());
    reader.records().map(
        |row| row.ok().map(|record| record.iter().map(|field| field.to_owned()).collect()),
    ).collect()
}

} // verus!
