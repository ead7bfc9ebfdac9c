//! The store: every record of the ledger, kept as the text of one file.
//!
//! A `Store` holds what the file holds, or nothing while the file does not
//! exist yet. Each operation first brings the file into being, with the
//! header line alone; it then reads the whole text, and a change writes the
//! whole text anew, in the five-column layout. Reading the file before an
//! operation and writing it back afterwards is the caller's part.

use crate::clock::now_rfc3339;
use crate::codec::{
    decode, decode_spec, encode, encode_spec, header_line, lemma_decode_inverts_encode, reads_back,
};
use crate::error::LedgerError;
use crate::price::{parse_price_spec, parse_user_price, with_dot_separator};
use crate::query::{cheapest, cheapest_spec, filter_by_category, filter_spec};
use crate::record::{new_record, views, Record, RecordView};
use vstd::prelude::*;

verus! {

/// The ledger's file as a value.
#[derive(Debug)]
pub struct Store {
    /// The text of the file; `None` while there is no file.
    pub contents: Option<Vec<u8>>,
}

impl View for Store {
    type V = Option<Seq<u8>>;

    open spec fn view(&self) -> Option<Seq<u8>> {
        match self.contents {
            Some(text) => Some(text@),
            None => None,
        }
    }
}

/// The text of the file once it is sure to exist: what it held, or the header
/// line alone where there was no file.
pub open spec fn ensured(contents: Option<Seq<u8>>) -> Seq<u8> {
    match contents {
        Some(text) => text,
        None => header_line(),
    }
}

/// The records of a store, or nothing where its text cannot be read.
pub open spec fn stored_records(contents: Option<Seq<u8>>) -> Option<Seq<RecordView>> {
    decode_spec(ensured(contents))
}

/// The text of the file after `record` was added: the records it held and
/// then `record`, written anew; the text as it was, once sure to exist,
/// where it cannot be read.
pub open spec fn after_append(contents: Option<Seq<u8>>, record: RecordView) -> Seq<u8> {
    match stored_records(contents) {
        Some(records) => encode_spec(records.push(record)),
        None => ensured(contents),
    }
}

/// The text of the file after the record at `index` was asked to leave: the
/// other records, written anew; the text as it was, once sure to exist, where
/// it cannot be read or holds no record at `index`.
pub open spec fn after_delete(contents: Option<Seq<u8>>, index: int) -> Seq<u8> {
    match stored_records(contents) {
        Some(records) => if 0 <= index < records.len() {
            encode_spec(records.remove(index))
        } else {
            ensured(contents)
        },
        None => ensured(contents),
    }
}

/// A store that was never written holds no records, where the `csv` reader
/// finds no row in the header line alone.
pub proof fn lemma_fresh_store_is_empty()
    ensures
        reads_back(Seq::empty()) ==> stored_records(None) == Some(Seq::<RecordView>::empty()),
{
    lemma_decode_inverts_encode(Seq::empty());
    assert(encode_spec(Seq::empty()) =~= header_line());
}

/// Two records added one after the other stand at the end of the store in
/// that order, after the records it held, where the `csv` reader finds in
/// each text written the rows it was written from.
pub proof fn lemma_append_keeps_order(
    contents: Option<Seq<u8>>,
    records: Seq<RecordView>,
    first: RecordView,
    second: RecordView,
)
    ensures
        stored_records(contents) == Some(records) && reads_back(records.push(first))
            && reads_back(records.push(first).push(second)) ==> stored_records(
            Some(after_append(Some(after_append(contents, first)), second)),
        ) == Some(records.push(first).push(second)),
{
    lemma_decode_inverts_encode(records.push(first));
    lemma_decode_inverts_encode(records.push(first).push(second));
}

/// Deleting by position takes out the record at that position and no other,
/// where the `csv` reader finds in the text written the rows it was written
/// from; a position past the last record leaves the text as it was.
pub proof fn lemma_delete_by_position(
    contents: Option<Seq<u8>>,
    records: Seq<RecordView>,
    index: int,
)
    ensures
        stored_records(contents) == Some(records) && 0 <= index < records.len() && reads_back(
            records.remove(index),
        ) ==> stored_records(Some(after_delete(contents, index))) == Some(records.remove(index)),
        stored_records(contents) == Some(records) && index >= records.len() ==> after_delete(
            contents,
            index,
        ) == ensured(contents),
{
    if 0 <= index < records.len() {
        lemma_decode_inverts_encode(records.remove(index));
    }
}

/// Bringing the file into being twice is the same as once.
pub proof fn lemma_ensure_exists_idempotent(contents: Option<Seq<u8>>)
    ensures
        ensured(Some(ensured(contents))) == ensured(contents),
{
}

/// The index, counted from zero, of the record that a list numbered from
/// one shows at `number`; a number that is zero or past the end of a list of
/// `len` records is refused.
pub fn index_of_position(number: usize, len: usize) -> (outcome: Result<usize, LedgerError>)
    ensures
        outcome == if 1 <= number <= len {
            Ok::<usize, LedgerError>((number - 1) as usize)
        } else {
            Err(LedgerError::OutOfRange)
        },
{
    if number == 0 || number > len {
        Err(LedgerError::OutOfRange)
    } else {
        Ok(number - 1)
    }
}

impl Store {
    /// A store whose file does not exist yet.
    pub fn new() -> (store: Store)
        ensures
            store@ is None,
    {
        Store { contents: None }
    }

    /// A store whose file holds `text`.
    pub fn with_contents(text: Vec<u8>) -> (store: Store)
        ensures
            store@ == Some(text@),
    {
        Store { contents: Some(text) }
    }

    /// Brings the file into being if there is none, with the header line
    /// alone. A file that exists is left as it is.
    pub fn ensure_exists(&mut self)
        ensures
            final(self)@ == Some(ensured(old(self)@)),
    {
        if self.contents.is_none() {
            self.contents = Some(encode(&Vec::new()));
            assert(views(Seq::<Record>::empty()) =~= Seq::<RecordView>::empty());
            assert(encode_spec(Seq::empty()) =~= header_line());
        }
    }

    /// Every record of the store, in file order.
    pub fn load_all(&mut self) -> (outcome: Result<Vec<Record>, LedgerError>)
        ensures
            final(self)@ == Some(ensured(old(self)@)),
            match stored_records(old(self)@) {
                Some(records) => outcome matches Ok(found) && views(found@) == records,
                None => outcome == Err::<Vec<Record>, LedgerError>(LedgerError::Unreadable),
            },
    {
        self.ensure_exists();
        match &self.contents {
            Some(text) => decode(text.as_slice()),
            None => Err(LedgerError::Unreadable),
        }
    }

    /// Puts `records` in place of whatever the store held.
    pub fn replace_all(&mut self, records: &Vec<Record>)
        ensures
            final(self)@ == Some(encode_spec(views(records@))),
    {
        self.contents = Some(encode(records));
    }

    /// Adds `record` after the records that the store holds. A store that
    /// cannot be read is refused, and its text stays as it is.
    pub fn append(&mut self, record: Record) -> (outcome: Result<(), LedgerError>)
        ensures
            final(self)@ == Some(after_append(old(self)@, record@)),
            outcome == match stored_records(old(self)@) {
                Some(_) => Ok::<(), LedgerError>(()),
                None => Err(LedgerError::Unreadable),
            },
    {
        match self.load_all() {
            Ok(mut records) => {
                let ghost before = views(records@);
                records.push(record);
                assert(views(records@) =~= before.push(record@));
                self.replace_all(&records);
                Ok(())
            },
            Err(_) => Err(LedgerError::Unreadable),
        }
    }

    /// Removes the record at `index`, counted from zero. A position past the
    /// last record is refused, and so is a store that cannot be read; either
    /// way the records of the store stay as they are.
    pub fn delete_at(&mut self, index: usize) -> (outcome: Result<(), LedgerError>)
        ensures
            final(self)@ == Some(after_delete(old(self)@, index as int)),
            outcome == match stored_records(old(self)@) {
                Some(records) => if index < records.len() {
                    Ok::<(), LedgerError>(())
                } else {
                    Err(LedgerError::OutOfRange)
                },
                None => Err(LedgerError::Unreadable),
            },
    {
        match self.load_all() {
            Ok(mut records) => {
                if index >= records.len() {
                    return Err(LedgerError::OutOfRange);
                }
                let ghost before = views(records@);
                records.remove(index);
                assert(views(records@) =~= before.remove(index as int));
                self.replace_all(&records);
                Ok(())
            },
            Err(_) => Err(LedgerError::Unreadable),
        }
    }

    /// The text of a store that holds the records of the given category and
    /// no others; the empty category stands for all of them. This store keeps
    /// its records.
    pub fn export_filtered(&mut self, category: &str) -> (outcome: Result<Vec<u8>, LedgerError>)
        ensures
            final(self)@ == Some(ensured(old(self)@)),
            match stored_records(old(self)@) {
                Some(records) => outcome matches Ok(text) && text@ == encode_spec(
                    filter_spec(records, category@),
                ),
                None => outcome == Err::<Vec<u8>, LedgerError>(LedgerError::Unreadable),
            },
    {
        match self.load_all() {
            Ok(records) => {
                let kept = filter_by_category(records, category);
                Ok(encode(&kept))
            },
            Err(_) => Err(LedgerError::Unreadable),
        }
    }

    /// The cheapest record of the given category, the first of them where
    /// several cost the same; the empty category stands for all records.
    /// Where no record is of the category there is none, which is no error.
    pub fn cheapest_in_category(&mut self, category: &str) -> (outcome: Result<
        Option<Record>,
        LedgerError,
    >)
        ensures
            final(self)@ == Some(ensured(old(self)@)),
            match stored_records(old(self)@) {
                Some(records) => outcome matches Ok(found) && match found {
                    Some(record) => cheapest_spec(filter_spec(records, category@)) == Some(record@),
                    None => cheapest_spec(filter_spec(records, category@)) is None,
                },
                None => outcome == Err::<Option<Record>, LedgerError>(LedgerError::Unreadable),
            },
    {
        match self.load_all() {
            Ok(records) => {
                let kept = filter_by_category(records, category);
                Ok(cheapest(&kept))
            },
            Err(_) => Err(LedgerError::Unreadable),
        }
    }

    /// Makes a record of typed input, stamps it with the present instant, and
    /// adds it to the store. A price text that denotes no price is refused
    /// before the store is touched.
    pub fn add_record(
        &mut self,
        product: &str,
        category: &str,
        price_text: &str,
        url: &str,
    ) -> (outcome: Result<Record, LedgerError>)
        ensures
            match parse_price_spec(with_dot_separator(price_text@)) {
                None => {
                    &&& outcome == Err::<Record, LedgerError>(LedgerError::InvalidPrice)
                    &&& final(self)@ == old(self)@
                },
                Some(price_cents) => match stored_records(old(self)@) {
                    None => {
                        &&& outcome == Err::<Record, LedgerError>(LedgerError::Unreadable)
                        &&& final(self)@ == Some(ensured(old(self)@))
                    },
                    Some(records) => {
                        &&& outcome matches Ok(made)
                        &&& made.product@ == product@
                        &&& made.category@ == category@
                        &&& made.price_cents == price_cents
                        &&& made.url@ == url@
                        &&& final(self)@ == Some(after_append(old(self)@, made@))
                    },
                },
            },
    {
        if parse_user_price(price_text).is_err() {
            return Err(LedgerError::InvalidPrice);
        }
        let stamp = now_rfc3339();
        match new_record(product, category, price_text, url, stamp.as_str()) {
            Ok(record) => {
                let made = record.clone();
                match self.append(record) {
                    Ok(()) => Ok(made),
                    Err(_) => Err(LedgerError::Unreadable),
                }
            },
            Err(_) => Err(LedgerError::InvalidPrice),
        }
    }
}

} // verus!
