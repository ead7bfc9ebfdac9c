//! The text of a store: a header line, then one line per record.
//!
//! Lines are written and split by the `csv` crate; which field means what is
//! decided here. A row of five or more fields is product, category, price,
//! url, timestamp. A shorter row is of the older layout without a category:
//! product, price, url, timestamp. Missing fields read as empty, and a price
//! cell that denotes no price reads as zero.

use crate::csv_lines::{line_bytes, needs_quotes, parsed_rows, read_rows, write_line};
use crate::error::LedgerError;
use crate::price::{lenient_price, lenient_price_spec, lemma_price_round_trip, price_chars, price_text};
use crate::record::{views, Record, RecordView};
use vstd::pervasive::unreached;
use vstd::prelude::*;
use vstd::utf8::{encode_utf8, is_ascii_chars_encode_utf8, valid_utf8};

verus! {

/// The header line: the five column names.
pub open spec fn header_line() -> Seq<u8> {
    line_bytes(
        encode_utf8("product"@),
        encode_utf8("category"@),
        encode_utf8("price"@),
        encode_utf8("url"@),
        encode_utf8("timestamp"@),
    )
}

/// The five fields of a record, in column order, the price as its text.
pub open spec fn record_fields(r: RecordView) -> Seq<Seq<char>> {
    seq![r.product, r.category, price_chars(r.price_cents), r.url, r.timestamp]
}

/// The line of a record.
pub open spec fn record_line(r: RecordView) -> Seq<u8> {
    line_bytes(
        encode_utf8(r.product),
        encode_utf8(r.category),
        encode_utf8(price_chars(r.price_cents)),
        encode_utf8(r.url),
        encode_utf8(r.timestamp),
    )
}

/// The lines of the records, one after the other.
pub open spec fn record_lines(records: Seq<RecordView>) -> Seq<u8>
    decreases records.len(),
{
    if records.len() == 0 {
        Seq::empty()
    } else {
        record_lines(records.drop_last()) + record_line(records.last())
    }
}

/// The text of a store that holds `records`.
pub open spec fn encode_spec(records: Seq<RecordView>) -> Seq<u8> {
    header_line() + record_lines(records)
}

/// The field at `i`, or the empty string where the row is too short.
pub open spec fn field_or_empty(row: Seq<Seq<char>>, i: int) -> Seq<char> {
    if 0 <= i < row.len() {
        row[i]
    } else {
        Seq::empty()
    }
}

/// The price in the cell at `i`: zero where the row is too short or the cell
/// denotes no price.
pub open spec fn price_at(row: Seq<Seq<char>>, i: int) -> u64 {
    if 0 <= i < row.len() {
        lenient_price_spec(row[i])
    } else {
        0
    }
}

/// The record that a row of fields stands for.
pub open spec fn record_from_fields(row: Seq<Seq<char>>) -> RecordView {
    if row.len() >= 5 {
        RecordView {
            product: row[0],
            category: row[1],
            price_cents: lenient_price_spec(row[2]),
            url: row[3],
            timestamp: row[4],
        }
    } else {
        RecordView {
            product: field_or_empty(row, 0),
            category: Seq::empty(),
            price_cents: price_at(row, 1),
            url: field_or_empty(row, 2),
            timestamp: field_or_empty(row, 3),
        }
    }
}

/// The records that rows of fields stand for.
pub open spec fn records_from_fields(rows: Seq<Seq<Seq<char>>>) -> Seq<RecordView> {
    rows.map_values(|row: Seq<Seq<char>>| record_from_fields(row))
}

/// The records that `text` holds, or nothing where it cannot be split into
/// rows.
pub open spec fn decode_spec(text: Seq<u8>) -> Option<Seq<RecordView>> {
    match parsed_rows(text) {
        Some(rows) => Some(records_from_fields(rows)),
        None => None,
    }
}

/// The rows that the text of a store was written from are the rows that the
/// `csv` reader finds in it.
pub open spec fn reads_back(records: Seq<RecordView>) -> bool {
    parsed_rows(encode_spec(records)) == Some(records.map_values(|r: RecordView| record_fields(r)))
}

/// The header line is the five column names with commas between them.
pub proof fn lemma_header_line()
    ensures
        header_line() == encode_utf8("product,category,price,url,timestamp\n"@),
{
    reveal_strlit("product");
    reveal_strlit("category");
    reveal_strlit("price");
    reveal_strlit("url");
    reveal_strlit("timestamp");
    reveal_strlit("product,category,price,url,timestamp\n");
    let whole = "product,category,price,url,timestamp\n"@;
    is_ascii_chars_encode_utf8("product"@);
    is_ascii_chars_encode_utf8("category"@);
    is_ascii_chars_encode_utf8("price"@);
    is_ascii_chars_encode_utf8("url"@);
    is_ascii_chars_encode_utf8("timestamp"@);
    is_ascii_chars_encode_utf8(whole);
    assert(!needs_quotes(encode_utf8("product"@)));
    assert(!needs_quotes(encode_utf8("category"@)));
    assert(!needs_quotes(encode_utf8("price"@)));
    assert(!needs_quotes(encode_utf8("url"@)));
    assert(!needs_quotes(encode_utf8("timestamp"@)));
    assert(header_line() =~= encode_utf8(whole));
}

/// A record is read back from its own five fields.
pub proof fn lemma_fields_round_trip(r: RecordView)
    ensures
        record_from_fields(record_fields(r)) == r,
{
    lemma_price_round_trip(r.price_cents);
}

/// Records are read back, in order, from their own rows of fields.
pub proof fn lemma_rows_round_trip(records: Seq<RecordView>)
    ensures
        records_from_fields(records.map_values(|r: RecordView| record_fields(r))) == records,
{
    let rows = records.map_values(|r: RecordView| record_fields(r));
    assert forall|i: int| 0 <= i < records.len() implies #[trigger] records_from_fields(rows)[i]
        == records[i] by {
        lemma_fields_round_trip(records[i]);
    }
    assert(records_from_fields(rows) =~= records);
}

/// Decoding inverts encoding, as far as this library decides it: where the
/// `csv` reader finds in the text of `records` the rows that were written,
/// the records decoded from that text are `records`.
pub proof fn lemma_decode_inverts_encode(records: Seq<RecordView>)
    ensures
        reads_back(records) ==> decode_spec(encode_spec(records)) == Some(records),
{
    lemma_rows_round_trip(records);
}

/// A row of the older layout, four fields without a category, reads as
/// product, price, url, timestamp, with an empty category.
pub proof fn lemma_legacy_row(row: Seq<Seq<char>>)
    requires
        row.len() == 4,
    ensures
        record_from_fields(row) == (RecordView {
            product: row[0],
            category: Seq::empty(),
            price_cents: lenient_price_spec(row[1]),
            url: row[2],
            timestamp: row[3],
        }),
{
}

/// The text of a store as its records: the header line, then the line of
/// each record in order.
pub fn encode(records: &Vec<Record>) -> (text: Vec<u8>)
    ensures
        text@ == encode_spec(views(records@)),
{
    let mut text = match write_line("product", "category", "price", "url", "timestamp") {
        Ok(line) => line,
        Err(_) => unreached(),
    };
    let mut i: usize = 0;
    while i < records.len()
        invariant
            i <= records.len(),
            text@ == header_line() + record_lines(views(records@).take(i as int)),
        decreases records.len() - i,
    {
        let record = &records[i];
        let price = price_text(record.price_cents);
        let mut line = match write_line(
            record.product.as_str(),
            record.category.as_str(),
            price.as_str(),
            record.url.as_str(),
            record.timestamp.as_str(),
        ) {
            Ok(line) => line,
            Err(_) => unreached(),
        };
        proof {
            let done = views(records@).take(i as int);
            let next = views(records@).take(i + 1);
            assert(next.drop_last() =~= done);
            assert(next.last() == record@);
        }
        text.append(&mut line);
        i += 1;
    }
    assert(views(records@).take(records.len() as int) =~= views(records@));
    text
}

/// The field at `i` of a row, or the empty string where the row is too short.
fn field_at(row: &Vec<String>, i: usize) -> (field: String)
    ensures
        field@ == field_or_empty(row.deep_view(), i as int),
{
    if i < row.len() {
        row[i].clone()
    } else {
        String::new()
    }
}

/// The record that a row of fields stands for.
pub fn record_from_row(row: &Vec<String>) -> (record: Record)
    ensures
        record@ == record_from_fields(row.deep_view()),
{
    if row.len() >= 5 {
        Record {
            product: row[0].clone(),
            category: row[1].clone(),
            price_cents: lenient_price(row[2].as_str()),
            url: row[3].clone(),
            timestamp: row[4].clone(),
        }
    } else {
        let price_cents = if row.len() > 1 {
            lenient_price(row[1].as_str())
        } else {
            0
        };
        Record {
            product: field_at(row, 0),
            category: String::new(),
            price_cents,
            url: field_at(row, 2),
            timestamp: field_at(row, 3),
        }
    }
}

/// The records that rows of fields stand for, in the order of the rows.
pub fn records_from_rows(rows: &Vec<Vec<String>>) -> (records: Vec<Record>)
    ensures
        views(records@) == records_from_fields(rows.deep_view()),
{
    let mut records: Vec<Record> = Vec::new();
    let mut i: usize = 0;
    while i < rows.len()
        invariant
            i <= rows.len(),
            records.len() == i,
            forall|j: int| 0 <= j < i ==> (#[trigger] records@[j])@ == record_from_fields(rows.deep_view()[j]),
        decreases rows.len() - i,
    {
        let record = record_from_row(&rows[i]);
        assert(rows@[i as int].deep_view() == rows.deep_view()[i as int]);
        records.push(record);
        i += 1;
    }
    assert(views(records@) =~= records_from_fields(rows.deep_view()));
    records
}

/// The records that the text of a store holds.
///
/// The first line is taken for the header and dropped unread. Rows may be of
/// either layout, line by line. The text is refused only where the reader
/// cannot split it into rows, which it always can where the text is valid
/// UTF-8.
pub fn decode(text: &[u8]) -> (outcome: Result<Vec<Record>, LedgerError>)
    ensures
        match decode_spec(text@) {
            Some(records) => outcome matches Ok(found) && views(found@) == records,
            None => outcome == Err::<Vec<Record>, LedgerError>(LedgerError::Unreadable),
        },
        valid_utf8(text@) ==> outcome is Ok,
{
    match read_rows(text) {
        Ok(rows) => Ok(records_from_rows(&rows)),
        Err(_) => Err(LedgerError::Unreadable),
    }
}

} // verus!
