//! One price observation.

use crate::error::LedgerError;
use crate::price::{parse_price_spec, parse_user_price, price_chars, price_text, with_dot_separator};
use vstd::prelude::*;

verus! {

/// One price observation: what was seen, where, for how much, and when.
#[derive(Debug, PartialEq, Eq)]
pub struct Record {
    /// Display name of the product.
    pub product: String,
    /// Category; empty for none.
    pub category: String,
    /// Price in hundredths.
    pub price_cents: u64,
    /// Where the price was seen.
    pub url: String,
    /// When the record was made, as an RFC 3339 instant; never read back.
    pub timestamp: String,
}

/// A record as plain values.
pub struct RecordView {
    pub product: Seq<char>,
    pub category: Seq<char>,
    pub price_cents: u64,
    pub url: Seq<char>,
    pub timestamp: Seq<char>,
}

impl View for Record {
    type V = RecordView;

    open spec fn view(&self) -> RecordView {
        RecordView {
            product: self.product@,
            category: self.category@,
            price_cents: self.price_cents,
            url: self.url@,
            timestamp: self.timestamp@,
        }
    }
}

impl Clone for Record {
    fn clone(&self) -> (copy: Record)
        ensures
            copy@ == self@,
    {
        Record {
            product: self.product.clone(),
            category: self.category.clone(),
            price_cents: self.price_cents,
            url: self.url.clone(),
            timestamp: self.timestamp.clone(),
        }
    }
}

/// The records of `records` as plain values.
pub open spec fn views(records: Seq<Record>) -> Seq<RecordView> {
    records.map_values(|r: Record| r@)
}

/// What separates the parts of a record on one display line.
pub open spec fn display_separator() -> Seq<char> {
    seq![' ', '|', ' ']
}

/// A record on one display line: product, category, price with two fraction
/// digits, url and timestamp, with ` | ` between them.
pub open spec fn display_chars(r: RecordView) -> Seq<char> {
    r.product + display_separator() + r.category + display_separator() + price_chars(
        r.price_cents,
    ) + display_separator() + r.url + display_separator() + r.timestamp
}

/// The record that typed input stands for, or nothing where the price text
/// denotes no price. In the price text a comma may stand for the decimal dot.
pub open spec fn record_from_input(
    product: Seq<char>,
    category: Seq<char>,
    price_text: Seq<char>,
    url: Seq<char>,
    timestamp: Seq<char>,
) -> Option<RecordView> {
    match parse_price_spec(with_dot_separator(price_text)) {
        Some(price_cents) => Some(RecordView { product, category, price_cents, url, timestamp }),
        None => None,
    }
}

impl Record {
    /// The record on one display line.
    pub fn display_line(&self) -> (line: String)
        ensures
            line@ == display_chars(self@),
    {
        proof {
            reveal_strlit(" | ");
            assert(" | "@ =~= display_separator());
        }
        let price = price_text(self.price_cents);
        let mut line = self.product.clone();
        line.append(" | ");
        line.append(self.category.as_str());
        line.append(" | ");
        line.append(price.as_str());
        line.append(" | ");
        line.append(self.url.as_str());
        line.append(" | ");
        line.append(self.timestamp.as_str());
        line
    }
}

/// The record that typed input stands for, made at the instant that
/// `timestamp` names. The price text is held to the strict reading: a text
/// that denotes no price is refused, never taken for zero.
pub fn new_record(
    product: &str,
    category: &str,
    price_text: &str,
    url: &str,
    timestamp: &str,
) -> (outcome: Result<Record, LedgerError>)
    ensures
        match record_from_input(product@, category@, price_text@, url@, timestamp@) {
            Some(record) => outcome matches Ok(made) && made@ == record,
            None => outcome == Err::<Record, LedgerError>(LedgerError::InvalidPrice),
        },
{
    match parse_user_price(price_text) {
        Ok(price_cents) => Ok(
            Record {
                product: product.to_owned(),
                category: category.to_owned(),
                price_cents,
                url: url.to_owned(),
                timestamp: timestamp.to_owned(),
            },
        ),
        Err(_) => Err(LedgerError::InvalidPrice),
    }
}

} // verus!
