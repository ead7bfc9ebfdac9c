//! Queries over records already loaded: by category, and the cheapest.

use crate::record::{views, Record, RecordView};
use crate::text::chars_of;
use vstd::prelude::*;

verus! {

/// `c` with an upper-case ASCII letter turned into its lower-case one.
pub open spec fn ascii_lower(c: char) -> char {
    if 'A' <= c && c <= 'Z' {
        (c as int + 32) as char
    } else {
        c
    }
}

/// `c` with a lower-case ASCII letter turned into its upper-case one.
pub open spec fn ascii_upper(c: char) -> char {
    if 'a' <= c && c <= 'z' {
        (c as int - 32) as char
    } else {
        c
    }
}

/// The two strings are the same but for the case of their ASCII letters.
pub open spec fn same_ignoring_ascii_case(a: Seq<char>, b: Seq<char>) -> bool {
    &&& a.len() == b.len()
    &&& forall|i: int| 0 <= i < a.len() ==> ascii_lower(#[trigger] a[i]) == ascii_lower(b[i])
}

/// The record passes the category filter: every record passes the empty
/// filter, and any other filter passes the records whose category is the
/// same but for ASCII case.
pub open spec fn in_category(r: RecordView, category: Seq<char>) -> bool {
    category.len() == 0 || same_ignoring_ascii_case(r.category, category)
}

/// The records that pass the category filter, in their order.
pub open spec fn filter_spec(records: Seq<RecordView>, category: Seq<char>) -> Seq<RecordView> {
    records.filter(|r: RecordView| in_category(r, category))
}

/// `i` is where the cheapest record stands: no record is cheaper, and every
/// record before it is dearer.
pub open spec fn is_cheapest_at(records: Seq<RecordView>, i: int) -> bool {
    &&& 0 <= i < records.len()
    &&& forall|j: int|
        0 <= j < records.len() ==> records[i].price_cents <= (#[trigger] records[j]).price_cents
    &&& forall|j: int| 0 <= j < i ==> (#[trigger] records[j]).price_cents > records[i].price_cents
}

/// The cheapest record, the first of them where several cost the same;
/// nothing where there are no records.
pub open spec fn cheapest_spec(records: Seq<RecordView>) -> Option<RecordView> {
    if records.len() == 0 {
        None
    } else {
        Some(records[choose|i: int| is_cheapest_at(records, i)])
    }
}

/// Of records with the lowest price, the first is the cheapest: whatever
/// index meets `is_cheapest_at` is the one that `cheapest_spec` takes.
pub proof fn lemma_cheapest_is_first_minimum(records: Seq<RecordView>, i: int)
    requires
        is_cheapest_at(records, i),
    ensures
        cheapest_spec(records) == Some(records[i]),
{
    let k = choose|k: int| is_cheapest_at(records, k);
    assert(is_cheapest_at(records, k));
    if k < i {
        assert(records[k].price_cents > records[i].price_cents);
        assert(records[k].price_cents <= records[i].price_cents);
    }
    if i < k {
        assert(records[i].price_cents > records[k].price_cents);
        assert(records[i].price_cents <= records[k].price_cents);
    }
}

/// Case does not matter to the category filter: a record passes the filter
/// where its category is the filter text itself, or that text with its ASCII
/// letters in lower case, or in upper case.
pub proof fn lemma_filter_ignores_case(r: RecordView, category: Seq<char>)
    requires
        r.category == category || r.category == category.map_values(|c: char| ascii_lower(c))
            || r.category == category.map_values(|c: char| ascii_upper(c)),
    ensures
        in_category(r, category),
{
}

/// The empty filter passes everything.
pub proof fn lemma_empty_filter(records: Seq<RecordView>)
    ensures
        filter_spec(records, Seq::empty()) == records,
    decreases records.len(),
{
    reveal(Seq::filter);
    if records.len() > 0 {
        lemma_empty_filter(records.drop_last());
        assert(records.drop_last().push(records.last()) =~= records);
    }
}

fn lower(c: char) -> (folded: char)
    ensures
        folded == ascii_lower(c),
{
    if c >= 'A' && c <= 'Z' {
        (c as u8 + 32) as char
    } else {
        c
    }
}

/// Whether two strings, given as their characters, are the same but for the
/// case of their ASCII letters.
fn same_folded(a: &Vec<char>, b: &Vec<char>) -> (same: bool)
    ensures
        same == same_ignoring_ascii_case(a@, b@),
{
    if a.len() != b.len() {
        return false;
    }
    let mut i: usize = 0;
    while i < a.len()
        invariant
            i <= a.len(),
            a.len() == b.len(),
            forall|j: int| 0 <= j < i ==> ascii_lower(#[trigger] a@[j]) == ascii_lower(b@[j]),
        decreases a.len() - i,
    {
        if lower(a[i]) != lower(b[i]) {
            return false;
        }
        i += 1;
    }
    true
}

/// Whether two strings are the same but for the case of their ASCII letters.
pub fn eq_ignore_ascii_case(a: &str, b: &str) -> (same: bool)
    ensures
        same == same_ignoring_ascii_case(a@, b@),
{
    let a_chars = chars_of(a);
    let b_chars = chars_of(b);
    same_folded(&a_chars, &b_chars)
}

/// The records of the given category, in their order. The empty category
/// stands for all of them; any other is matched without regard to ASCII case.
pub fn filter_by_category(records: Vec<Record>, category: &str) -> (kept: Vec<Record>)
    ensures
        views(kept@) == filter_spec(views(records@), category@),
        category@.len() == 0 ==> views(kept@) == views(records@),
{
    let wanted = chars_of(category);
    if wanted.len() == 0 {
        proof {
            assert(category@ =~= Seq::<char>::empty());
            lemma_empty_filter(views(records@));
        }
        return records;
    }
    let ghost pass = |r: RecordView| in_category(r, category@);
    let mut kept: Vec<Record> = Vec::new();
    let mut i: usize = 0;
    while i < records.len()
        invariant
            i <= records.len(),
            wanted@ == category@,
            wanted.len() > 0,
            pass == |r: RecordView| in_category(r, category@),
            views(kept@) == views(records@).take(i as int).filter(pass),
        decreases records.len() - i,
    {
        let record = &records[i];
        let found = chars_of(record.category.as_str());
        let keep = same_folded(&found, &wanted);
        proof {
            let done = views(records@).take(i as int);
            let next = views(records@).take(i + 1);
            reveal(Seq::filter);
            assert(next.drop_last() =~= done);
            assert(next.last() == record@);
            assert(keep == pass(record@));
        }
        if keep {
            let ghost before = views(kept@);
            kept.push(record.clone());
            assert(views(kept@) =~= before.push(record@));
        }
        i += 1;
    }
    assert(views(records@).take(records.len() as int) =~= views(records@));
    kept
}

/// The cheapest record, the first of them where several cost the same;
/// nothing where there are no records.
pub fn cheapest(records: &Vec<Record>) -> (found: Option<Record>)
    ensures
        match found {
            Some(record) => cheapest_spec(views(records@)) == Some(record@),
            None => records.len() == 0,
        },
        records.len() == 0 ==> found is None,
{
    if records.len() == 0 {
        return None;
    }
    let mut best: usize = 0;
    let mut i: usize = 1;
    while i < records.len()
        invariant
            1 <= i <= records.len(),
            best < i,
            forall|j: int| 0 <= j < i ==> records@[best as int].price_cents <= (#[trigger] records@[j]).price_cents,
            forall|j: int| 0 <= j < best ==> (#[trigger] records@[j]).price_cents > records@[best as int].price_cents,
        decreases records.len() - i,
    {
        if records[i].price_cents < records[best].price_cents {
            best = i;
        }
        i += 1;
    }
    proof {
        assert(is_cheapest_at(views(records@), best as int));
        lemma_cheapest_is_first_minimum(views(records@), best as int);
    }
    Some(records[best].clone())
}

} // verus!
