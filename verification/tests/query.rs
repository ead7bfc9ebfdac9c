use price_tracker::query::{cheapest, eq_ignore_ascii_case, filter_by_category};
use price_tracker::record::Record;

fn item(product: &str, category: &str, price_cents: u64) -> Record {
    Record {
        product: product.to_string(),
        category: category.to_string(),
        price_cents,
        url: String::new(),
        timestamp: String::new(),
    }
}

#[test]
fn cheapest_of_equal_prices_is_the_first() {
    let records = vec![item("A", "cat", 500), item("B", "cat", 500)];
    assert_eq!(cheapest(&records), Some(item("A", "cat", 500)));
}

#[test]
fn cheapest_of_nothing_is_nothing() {
    assert_eq!(cheapest(&Vec::new()), None);
}

#[test]
fn cheapest_finds_the_lowest_price() {
    let records = vec![
        item("A", "x", 700),
        item("B", "x", 300),
        item("C", "x", 900),
        item("D", "x", 300),
        item("E", "x", 301),
    ];
    assert_eq!(cheapest(&records), Some(item("B", "x", 300)));
    assert_eq!(cheapest(&vec![item("Z", "", 0)]), Some(item("Z", "", 0)));
    assert_eq!(
        cheapest(&vec![item("A", "", 3), item("B", "", 2), item("C", "", 1)]),
        Some(item("C", "", 1))
    );
}

#[test]
fn filter_matches_whatever_the_case() {
    let records = vec![item("A", "snacks", 1), item("B", "SNACKS", 2), item("C", "Snacks", 3), item("D", "drinks", 4)];
    let kept = filter_by_category(records, "Snacks");
    assert_eq!(kept, vec![item("A", "snacks", 1), item("B", "SNACKS", 2), item("C", "Snacks", 3)]);
}

#[test]
fn filter_with_empty_category_keeps_everything() {
    let records = vec![item("A", "snacks", 1), item("B", "", 2), item("C", "drinks", 3)];
    assert_eq!(filter_by_category(records.clone(), ""), records);
    assert_eq!(filter_by_category(Vec::new(), ""), Vec::new());
}

#[test]
fn filter_keeps_order_and_duplicates() {
    let records = vec![
        item("C", "x", 3),
        item("A", "y", 1),
        item("C", "x", 3),
        item("B", "X", 2),
    ];
    assert_eq!(
        filter_by_category(records, "x"),
        vec![item("C", "x", 3), item("C", "x", 3), item("B", "X", 2)]
    );
}

#[test]
fn filter_that_matches_nothing_is_empty() {
    let records = vec![item("A", "snacks", 1), item("B", "", 2)];
    assert_eq!(filter_by_category(records, "tools"), Vec::new());
}

#[test]
fn filter_folds_ascii_letters_only() {
    let records = vec![item("A", "KÄSE", 1), item("B", "käse", 2), item("C", "kÄse", 3), item("D", "Käse", 4)];
    assert_eq!(filter_by_category(records, "käse"), vec![item("B", "käse", 2), item("D", "Käse", 4)]);
}

#[test]
fn filter_does_not_match_a_prefix_or_padded_text() {
    let records = vec![item("A", "snack", 1), item("B", "snacks ", 2), item("C", "snacks", 3)];
    assert_eq!(filter_by_category(records, "snacks"), vec![item("C", "snacks", 3)]);
}

#[test]
fn eq_ignore_ascii_case_agrees_with_std() {
    let samples = ["", "a", "A", "Snacks", "SNACKS", "snack", "käse", "KÄSE", "Käse", "[", "{", "@", "`", "Z", "z"];
    for a in samples {
        for b in samples {
            assert_eq!(eq_ignore_ascii_case(a, b), a.eq_ignore_ascii_case(b));
        }
    }
}
