use price_tracker::codec::{decode, encode, record_from_row, records_from_rows};
use price_tracker::error::LedgerError;
use price_tracker::record::Record;

fn rec(product: &str, category: &str, price_cents: u64, url: &str, timestamp: &str) -> Record {
    Record {
        product: product.to_string(),
        category: category.to_string(),
        price_cents,
        url: url.to_string(),
        timestamp: timestamp.to_string(),
    }
}

fn row(fields: &[&str]) -> Vec<String> {
    fields.iter().map(|f| f.to_string()).collect()
}

#[test]
fn encode_of_nothing_is_the_header_line() {
    assert_eq!(encode(&Vec::new()), b"product,category,price,url,timestamp\n".to_vec());
}

#[test]
fn encode_writes_one_line_per_record_in_order() {
    let records = vec![
        rec("Milk", "dairy", 150, "http://a", "2024-05-01T12:00:00Z"),
        rec("Bread", "", 5, "http://b", "2024-05-02T12:00:00Z"),
    ];
    let expected = "product,category,price,url,timestamp\n\
                    Milk,dairy,1.50,http://a,2024-05-01T12:00:00Z\n\
                    Bread,,0.05,http://b,2024-05-02T12:00:00Z\n";
    assert_eq!(String::from_utf8(encode(&records)).unwrap(), expected);
}

#[test]
fn encode_quotes_fields_that_need_it() {
    let records = vec![
        rec("Milk, whole", "say \"dairy\"", 100, "line\nbreak", "cr\rhere"),
        rec("plain", " spaced ", 200, "semi;colon", "tab\there"),
    ];
    let expected = "product,category,price,url,timestamp\n\
                    \"Milk, whole\",\"say \"\"dairy\"\"\",1.00,\"line\nbreak\",\"cr\rhere\"\n\
                    plain, spaced ,2.00,semi;colon,tab\there\n";
    assert_eq!(String::from_utf8(encode(&records)).unwrap(), expected);
}

#[test]
fn encode_of_all_empty_fields_keeps_the_commas() {
    let records = vec![rec("", "", 0, "", "")];
    let expected = "product,category,price,url,timestamp\n,,0.00,,\n";
    assert_eq!(String::from_utf8(encode(&records)).unwrap(), expected);
}

#[test]
fn decode_reads_current_layout() {
    let text = "product,category,price,url,timestamp\n\
                Milk,dairy,1.50,http://a,2024-05-01T12:00:00Z\n\
                Bread,,0.05,http://b,2024-05-02T12:00:00Z\n";
    let expected = vec![
        rec("Milk", "dairy", 150, "http://a", "2024-05-01T12:00:00Z"),
        rec("Bread", "", 5, "http://b", "2024-05-02T12:00:00Z"),
    ];
    assert_eq!(decode(text.as_bytes()), Ok(expected));
}

#[test]
fn decode_reads_legacy_line_with_empty_category() {
    let text = "product,price,url,timestamp\nMilk,1.50,http://a,2024-05-01T12:00:00Z\n";
    let expected = vec![rec("Milk", "", 150, "http://a", "2024-05-01T12:00:00Z")];
    assert_eq!(decode(text.as_bytes()), Ok(expected));
}

#[test]
fn decode_reads_legacy_line_under_current_header() {
    let text = "product,category,price,url,timestamp\n\
                Milk,1.50,http://a,2024-05-01T12:00:00Z\n\
                Tea,drinks,3.00,http://t,2024-05-03T12:00:00Z\n";
    let expected = vec![
        rec("Milk", "", 150, "http://a", "2024-05-01T12:00:00Z"),
        rec("Tea", "drinks", 300, "http://t", "2024-05-03T12:00:00Z"),
    ];
    assert_eq!(decode(text.as_bytes()), Ok(expected));
}

#[test]
fn decode_takes_bad_price_cell_for_zero() {
    let text = "product,category,price,url,timestamp\nMilk,dairy,abc,http://a,t\n";
    assert_eq!(decode(text.as_bytes()), Ok(vec![rec("Milk", "dairy", 0, "http://a", "t")]));
    let legacy = "product,price,url,timestamp\nMilk,abc,http://a,t\n";
    assert_eq!(decode(legacy.as_bytes()), Ok(vec![rec("Milk", "", 0, "http://a", "t")]));
}

#[test]
fn decode_fills_missing_columns_with_empty_text() {
    let text = "h\nMilk\nBread,2.50\nTea,3,http://t\n";
    let expected = vec![
        rec("Milk", "", 0, "", ""),
        rec("Bread", "", 250, "", ""),
        rec("Tea", "", 300, "http://t", ""),
    ];
    assert_eq!(decode(text.as_bytes()), Ok(expected));
}

#[test]
fn decode_ignores_columns_past_the_fifth() {
    let text = "product,category,price,url,timestamp\nMilk,dairy,1.50,http://a,t,extra,more\n";
    assert_eq!(decode(text.as_bytes()), Ok(vec![rec("Milk", "dairy", 150, "http://a", "t")]));
}

#[test]
fn decode_drops_the_first_line_unread() {
    let text = "anything at all\nMilk,dairy,1.50,http://a,t\n";
    assert_eq!(decode(text.as_bytes()), Ok(vec![rec("Milk", "dairy", 150, "http://a", "t")]));
}

#[test]
fn decode_of_header_alone_or_of_nothing_is_empty() {
    assert_eq!(decode(b"product,category,price,url,timestamp\n"), Ok(Vec::new()));
    assert_eq!(decode(b""), Ok(Vec::new()));
}

#[test]
fn decode_reads_quoted_fields() {
    let text = "product,category,price,url,timestamp\n\
                \"Milk, whole\",\"say \"\"dairy\"\"\",1.00,\"line\nbreak\",t\n";
    let expected = vec![rec("Milk, whole", "say \"dairy\"", 100, "line\nbreak", "t")];
    assert_eq!(decode(text.as_bytes()), Ok(expected));
}

#[test]
fn decode_refuses_text_that_is_not_utf8() {
    let mut text = b"product,category,price,url,timestamp\n".to_vec();
    text.extend_from_slice(&[b'M', 0xff, 0xfe, b',', b'd', b',', b'1', b',', b'u', b',', b't', b'\n']);
    assert_eq!(decode(&text), Err(LedgerError::Unreadable));
}

#[test]
fn decode_inverts_encode() {
    let records = vec![
        rec("Milk", "dairy", 150, "http://a", "2024-05-01T12:00:00Z"),
        rec("Milk, whole", "say \"dairy\"", 0, "line\nbreak", "cr\rhere"),
        rec("", "", u64::MAX, "", ""),
        rec("Käse", "Молочные", 12_345, "https://例え.jp/?q=1,2", " padded "),
        rec("\"", ",", 1, "\n", "\"\""),
        rec("Milk", "dairy", 150, "http://a", "2024-05-01T12:00:00Z"),
        rec("#hash", "'single'", 99, "a\r\nb", "\t"),
    ];
    assert_eq!(decode(&encode(&records)), Ok(records));
}

#[test]
fn encode_after_decode_gives_canonical_layout() {
    let legacy = "product,price,url,timestamp\nMilk,1.5,http://a,t\nTea,abc,http://t,u\n";
    let records = decode(legacy.as_bytes()).unwrap();
    let expected = "product,category,price,url,timestamp\nMilk,,1.50,http://a,t\nTea,,0.00,http://t,u\n";
    assert_eq!(String::from_utf8(encode(&records)).unwrap(), expected);
}

#[test]
fn record_from_row_follows_the_two_layouts() {
    assert_eq!(
        record_from_row(&row(&["Milk", "dairy", "1.50", "http://a", "t"])),
        rec("Milk", "dairy", 150, "http://a", "t")
    );
    assert_eq!(
        record_from_row(&row(&["Milk", "1.50", "http://a", "t"])),
        rec("Milk", "", 150, "http://a", "t")
    );
    assert_eq!(record_from_row(&row(&[])), rec("", "", 0, "", ""));
    assert_eq!(
        record_from_row(&row(&["Milk", "dairy", "abc", "http://a", "t"])),
        rec("Milk", "dairy", 0, "http://a", "t")
    );
}

#[test]
fn records_from_rows_keeps_row_order() {
    let rows = vec![row(&["B", "c", "2", "u", "t"]), row(&["A", "1", "u", "t"])];
    assert_eq!(
        records_from_rows(&rows),
        vec![rec("B", "c", 200, "u", "t"), rec("A", "", 100, "u", "t")]
    );
}
