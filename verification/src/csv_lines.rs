//! Comma-separated lines, as the `csv` crate writes and reads them.
//!
//! Nothing here is proved: these are the contracts under which the rest of
//! the library uses the crate's writer and reader.

use vstd::prelude::*;
use vstd::utf8::{encode_utf8, valid_utf8};

verus! {

/// The error type of the `csv` crate, carried through unread.
#[verifier::external_type_specification]
#[verifier::external_body]
pub struct ExCsvError(csv::Error);

/// A byte that forces the field holding it into quotes: comma, double quote,
/// carriage return, line feed.
pub open spec fn is_special_byte(b: u8) -> bool {
    b == 0x2c || b == 0x22 || b == 0x0d || b == 0x0a
}

/// The field cannot be written bare.
pub open spec fn needs_quotes(field: Seq<u8>) -> bool {
    exists|i: int| 0 <= i < field.len() && is_special_byte(#[trigger] field[i])
}

/// The field with every double quote written twice.
pub open spec fn with_doubled_quotes(field: Seq<u8>) -> Seq<u8>
    decreases field.len(),
{
    if field.len() == 0 {
        Seq::empty()
    } else if field.last() == 0x22 {
        with_doubled_quotes(field.drop_last()) + seq![0x22u8, 0x22u8]
    } else {
        with_doubled_quotes(field.drop_last()).push(field.last())
    }
}

/// One field as it stands in a line: bare, or in double quotes with the
/// quotes inside it doubled.
pub open spec fn field_bytes(field: Seq<u8>) -> Seq<u8> {
    if needs_quotes(field) {
        seq![0x22u8] + with_doubled_quotes(field) + seq![0x22u8]
    } else {
        field
    }
}

/// A line of five fields: the fields with commas between them, and a line
/// feed at the end.
pub open spec fn line_bytes(
    a: Seq<u8>,
    b: Seq<u8>,
    c: Seq<u8>,
    d: Seq<u8>,
    e: Seq<u8>,
) -> Seq<u8> {
    field_bytes(a) + seq![0x2cu8] + field_bytes(b) + seq![0x2cu8] + field_bytes(c) + seq![0x2cu8]
        + field_bytes(d) + seq![0x2cu8] + field_bytes(e) + seq![0x0au8]
}

/// The rows that the `csv` crate's reader finds in `text` after the first
/// record, each row as its fields; nothing where the reader reports an error.
/// The reader has its default settings but for `flexible`, which is on, so
/// rows may differ in length.
pub uninterp spec fn parsed_rows(text: Seq<u8>) -> Option<Seq<Seq<Seq<char>>>>;

/// Writes one record of five fields with `csv::Writer::write_record`, on a
/// fresh writer with default settings over an empty `Vec<u8>`, and hands back
/// what `csv::Writer::into_inner` returns.
///
/// Trusted: the call succeeds, since the first record of a writer fixes the
/// record length and a `Vec<u8>` takes every write; and the bytes are the
/// five fields in order, each quoted where it holds a comma, a double quote,
/// a carriage return or a line feed, with commas between and one line feed
/// at the end.
#[verifier::external_body]
pub(crate) fn write_line(
    product: &str,
    category: &str,
    price: &str,
    url: &str,
    timestamp: &str,
) -> (line: Result<Vec<u8>, csv::Error>)
    ensures
        match line {
            Ok(bytes) => bytes@ == line_bytes(
                encode_utf8(product@),
                encode_utf8(category@),
                encode_utf8(price@),
                encode_utf8(url@),
                encode_utf8(timestamp@),
            ),
            Err(_) => false,
        },
{
    let mut writer = csv::Writer::from_writer(Vec::new());
    writer.write_record([product, category, price, url, timestamp])?;
    writer.into_inner().map_err(|e| e.into_error().into())
}

/// Reads `text` with `csv::Reader::into_records`, the reader built by
/// `csv::ReaderBuilder` with `flexible(true)` and otherwise default settings,
/// and collects the records up to the first error.
///
/// Trusted: the outcome is a function of the bytes alone, named
/// `parsed_rows`; and on an in-memory text that is valid UTF-8 the reader
/// reports no error.
#[verifier::external_body]
pub(crate) fn read_rows(text: &[u8]) -> (rows: Result<Vec<Vec<String>>, csv::Error>)
    ensures
        match rows {
            Ok(found) => parsed_rows(text@) == Some(found.deep_view()),
            Err(_) => parsed_rows(text@) is None,
        },
        valid_utf8(text@) ==> rows is Ok,
{
    csv::ReaderBuilder::new()
        .flexible(true)
        .from_reader(text)
        .into_records()
        .map(|record| record.map(|fields| fields.iter().map(String::from).collect()))
        .collect()
}

} // verus!
