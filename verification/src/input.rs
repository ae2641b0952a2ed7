//! The input text: one epicycle per row, three fields per row.
//!
//! The text is comma-separated and has no header row. Its fields are, in
//! order, the angular speed in radians per second, the radius, and the
//! initial angle in radians. Splitting the text into records is the `csv`
//! crate's work; that every record has exactly three fields is checked here.
//! The fields stay text: turning them into numbers is left to the caller.

use vstd::prelude::*;

verus! {

/// The number of fields of a row.
pub const FIELDS_PER_ROW: usize = 3;

/// The three fields of one row, as they stand in the text.
#[derive(Debug)]
pub struct Row {
    pub angular_speed_rad_s: String,
    pub radius: String,
    pub initial_angle: String,
}

/// Why an input text was turned down.
#[derive(Clone, Copy, Debug, PartialEq, Eq, Structural)]
pub enum InputError {
    /// The text could not be split into records: a record differs from the
    /// first in its number of fields, or is not valid UTF-8.
    Malformed,
    /// The record `row`, counted from 0, has `found` fields and not three.
    /// Every record before it has three.
    FieldCount { row: usize, found: usize },
}

/// `csv::Error`, the error of the `csv` crate's reader. It is carried from
/// the reader to the place where it becomes [`InputError::Malformed`];
/// nothing is read out of it and nothing is claimed of it.
#[verifier::external_type_specification]
#[verifier::external_body]
pub struct ExCsvError(csv::Error);

/// The records that the `csv` crate reads from a text without a header row,
/// each as the sequence of its fields, or `None` where it reports an error
/// on some record.
pub uninterp spec fn csv_records(data: Seq<u8>) -> Option<Seq<Seq<Seq<char>>>>;

impl Row {
    /// The fields in their order in the text.
    pub open spec fn fields(&self) -> Seq<Seq<char>> {
        seq![self.angular_speed_rad_s@, self.radius@, self.initial_angle@]
    }
}

/// The fields of each of `rows`.
pub open spec fn fields_of(rows: Seq<Row>) -> Seq<Seq<Seq<char>>> {
    Seq::new(rows.len(), |i: int| rows[i].fields())
}

/// `row` is the first record that does not have three fields.
pub open spec fn is_first_misshapen(records: Seq<Seq<Seq<char>>>, row: int) -> bool {
    &&& 0 <= row < records.len()
    &&& records[row].len() != FIELDS_PER_ROW
    &&& forall|j: int| 0 <= j < row ==> (#[trigger] records[j]).len() == FIELDS_PER_ROW
}

/// `outcome` is what `records` come to: the rows that hold their fields where
/// every record has three, and else the first record that does not, with
/// the number of its fields.
pub open spec fn is_outcome_of(
    records: Seq<Seq<Seq<char>>>,
    outcome: Result<Vec<Row>, InputError>,
) -> bool {
    match outcome {
        Ok(rows) => {
            &&& fields_of(rows@) == records
            &&& forall|i: int| 0 <= i < records.len() ==> (#[trigger] records[i]).len() == FIELDS_PER_ROW
        },
        Err(InputError::FieldCount { row, found }) => {
            &&& is_first_misshapen(records, row as int)
            &&& records[row as int].len() == found
        },
        Err(InputError::Malformed) => false,
    }
}

/// `csv::Reader::records`, on a reader that `csv::ReaderBuilder` makes over
/// the text with `has_headers(false)`: the records of the text in order,
/// each as its fields, or the first error that the reader reports. What the
/// reader makes of a text is a matter of the `csv` crate's grammar and is
/// known here only by the name `csv_records`.
#[verifier::external_body]
fn read_records(data: &[u8]) -> (records: Result<Vec<Vec<String>>, csv::Error>)
    ensures
        match records {
            Ok(found) => csv_records(data@) == Some(found.deep_view()),
            Err(_) => csv_records(data@) is None,
        },
{
    let mut reader = csv::ReaderBuilder::new().has_headers(false).from_reader(data);
    let mut found = Vec::new();
    for record in reader.records() {
        found.push(record?.iter().map(String::from).collect());
    }
    Ok(found)
}

/// Checks that every record has three fields and names them. Fails on the
/// first record that has fewer or more.
pub fn rows_of(records: Vec<Vec<String>>) -> (outcome: Result<Vec<Row>, InputError>)
    ensures
        is_outcome_of(records.deep_view(), outcome),
{
    let mut rows: Vec<Row> = Vec::new();
    let mut i: usize = 0;
    while i < records.len()
        invariant
            i <= records.len(),
            rows.len() == i,
            forall|j: int| 0 <= j < i ==> (#[trigger] records.deep_view()[j]).len() == FIELDS_PER_ROW,
            forall|j: int| 0 <= j < i ==> (#[trigger] rows[j]).fields() == records.deep_view()[j],
        decreases records.len() - i,
    {
        let record = &records[i];
        assert(records.deep_view()[i as int] == record.deep_view());
        if record.len() != FIELDS_PER_ROW {
            return Err(InputError::FieldCount { row: i, found: record.len() });
        }
        let row = Row {
            angular_speed_rad_s: record[0].clone(),
            radius: record[1].clone(),
            initial_angle: record[2].clone(),
        };
        assert(row.fields() =~= record.deep_view());
        rows.push(row);
        i += 1;
    }
    assert(fields_of(rows@) =~= records.deep_view());
    Ok(rows)
}

/// Reads the rows of an input text. Fails where the text cannot be split
/// into records, and where a record does not have three fields.
pub fn parse_input(data: &[u8]) -> (outcome: Result<Vec<Row>, InputError>)
    ensures
        match csv_records(data@) {
            Some(records) => is_outcome_of(records, outcome),
            None => outcome == Err::<Vec<Row>, InputError>(InputError::Malformed),
        },
{
    match read_records(data) {
        Ok(records) => rows_of(records),
        Err(_) => Err(InputError::Malformed),
    }
}

} // verus!
