//! Numeric parsing, the versions-row builder, and the CSV scan.

use std::collections::HashMap;

use meteoroid::api::{parse_yanked_bool, VersionsEntryBuilder};
use meteoroid::consumer::CrateConsumer;
use meteoroid::csv_parse::{consume_crates_data, parse_id_name_mapping};
use meteoroid::strutil::{parse_u64, split_lines, str_contains, str_trim, u64_to_string};

#[test]
fn parse_u64_reads_decimals() {
    assert_eq!(parse_u64("0"), Some(0));
    assert_eq!(parse_u64("42"), Some(42));
    assert_eq!(parse_u64("+42"), Some(42));
    assert_eq!(parse_u64("18446744073709551615"), Some(u64::MAX));
    assert_eq!(parse_u64("18446744073709551616"), None);
    assert_eq!(parse_u64(""), None);
    assert_eq!(parse_u64("+"), None);
    assert_eq!(parse_u64("4x2"), None);
    assert_eq!(parse_u64("-1"), None);
}

#[test]
fn u64_to_string_renders_decimals() {
    assert_eq!(u64_to_string(0), "0");
    assert_eq!(u64_to_string(7), "7");
    assert_eq!(u64_to_string(1234), "1234");
    assert_eq!(u64_to_string(u64::MAX), "18446744073709551615");
}

#[test]
fn yanked_flag_is_t_or_f() {
    assert_eq!(parse_yanked_bool("t").unwrap(), true);
    assert_eq!(parse_yanked_bool("f").unwrap(), false);
    assert!(parse_yanked_bool("true").is_err());
    assert!(parse_yanked_bool("").is_err());
}

fn row_fields(id: &str, size: &str, downloads: &str, repository: &str) -> Vec<String> {
    // The versions table's 24 columns, in order.
    let mut fields = vec![String::new(); 24];
    fields[3] = id.to_string();
    fields[4] = size.to_string();
    fields[8] = downloads.to_string();
    fields[20] = repository.to_string();
    fields[23] = "f".to_string();
    fields
}

#[test]
fn builder_assembles_a_full_row() {
    let mut b = VersionsEntryBuilder::new();
    let fields = row_fields("7", "5000", "123", "https://github.com/o/r");
    for (i, f) in fields.iter().enumerate() {
        let done = b.enter_next(f).unwrap();
        assert_eq!(done, i == 23);
    }
    let e = b.consume().unwrap();
    assert_eq!(e.crate_id, 7);
    assert_eq!(e.crate_size, 5000);
    assert_eq!(e.downloads, 123);
    assert_eq!(e.repository, "https://github.com/o/r");
    assert!(!e.yanked);
}

#[test]
fn builder_rejects_bad_numbers_and_short_rows() {
    let mut b = VersionsEntryBuilder::new();
    b.enter_next("x").unwrap();
    b.enter_next("x").unwrap();
    b.enter_next("x").unwrap();
    assert!(b.enter_next("not-a-number").is_err());

    let mut b2 = VersionsEntryBuilder::new();
    b2.enter_next("x").unwrap();
    assert!(b2.consume().is_err());

    let mut b3 = VersionsEntryBuilder::new();
    for f in row_fields("1", "2", "3", "r") {
        b3.enter_next(&f).unwrap();
    }
    assert!(b3.enter_next("extra").is_err());
}

#[test]
fn id_name_mapping_reads_columns_four_and_seven() {
    let good = vec![
        "a".to_string(),
        "b".to_string(),
        "c".to_string(),
        "d".to_string(),
        "11".to_string(),
        "e".to_string(),
        "f".to_string(),
        "serde".to_string(),
    ];
    // A short record, an unparsable id, and an undecodable record are all
    // skipped without losing the rest.
    let records = vec![
        Some(vec!["a".to_string(); 5]),
        Some(good.clone()),
        None,
        Some(vec!["x".to_string(); 8]),
    ];
    let m: HashMap<u64, String> = parse_id_name_mapping(&records);
    assert_eq!(m.len(), 1);
    assert_eq!(m.get(&11).map(String::as_str), Some("serde"));
}

struct CountingConsumer {
    names: Vec<String>,
    downloads: Vec<u64>,
}

impl CrateConsumer for CountingConsumer {
    fn consume(
        &mut self,
        crate_name: &str,
        versions_entry: meteoroid::api::VersionsEntry,
    ) -> Result<bool, String> {
        self.names.push(crate_name.to_string());
        self.downloads.push(versions_entry.downloads);
        Ok(true)
    }
}

#[test]
fn consume_crates_data_joins_the_two_tables() {
    // crates.csv: header, then a row whose column 4 is the id and column 7
    // the name.
    let crates_csv = b"h0,h1,h2,h3,h4,h5,h6,h7\nx,\"quo,ted\",x,x,11,x,x,serde\n";
    // versions.csv: header, then one 24-column row for crate id 11.
    let mut versions = String::from(
        "c0,c1,c2,c3,c4,c5,c6,c7,c8,c9,c10,c11,c12,c13,c14,c15,c16,c17,c18,c19,c20,c21,c22,c23\n",
    );
    let mut row = vec![String::new(); 24];
    row[3] = "11".to_string();
    row[4] = "5000".to_string();
    row[8] = "123".to_string();
    row[20] = "https://github.com/o/r".to_string();
    row[23] = "f".to_string();
    versions.push_str(&row.join(","));
    versions.push('\n');
    let mut consumer = CountingConsumer { names: vec![], downloads: vec![] };
    consume_crates_data(crates_csv, versions.as_bytes(), &mut consumer).unwrap();
    assert_eq!(consumer.names, vec!["serde".to_string()]);
    assert_eq!(consumer.downloads, vec![123]);
}

#[test]
fn malformed_versions_rows_are_skipped_not_fatal() {
    let crates_csv = b"h0,h1,h2,h3,h4,h5,h6,h7\nx,x,x,x,11,x,x,serde\n";
    let mut versions = String::from(
        "c0,c1,c2,c3,c4,c5,c6,c7,c8,c9,c10,c11,c12,c13,c14,c15,c16,c17,c18,c19,c20,c21,c22,c23\n",
    );
    // A row whose download count does not parse: skipped.
    let mut bad = vec![String::new(); 24];
    bad[3] = "11".to_string();
    bad[4] = "5000".to_string();
    bad[8] = "not-a-number".to_string();
    bad[23] = "f".to_string();
    versions.push_str(&bad.join(","));
    versions.push('\n');
    // A row with too few columns: skipped.
    versions.push_str("only,three,columns\n");
    // A row whose crate id is not in the mapping: skipped.
    let mut unmapped = vec![String::new(); 24];
    unmapped[3] = "99".to_string();
    unmapped[4] = "1".to_string();
    unmapped[8] = "1".to_string();
    unmapped[23] = "f".to_string();
    versions.push_str(&unmapped.join(","));
    versions.push('\n');
    // A well-formed row: processed.
    let mut good = vec![String::new(); 24];
    good[3] = "11".to_string();
    good[4] = "5000".to_string();
    good[8] = "77".to_string();
    good[20] = "https://github.com/o/r".to_string();
    good[23] = "f".to_string();
    versions.push_str(&good.join(","));
    versions.push('\n');
    let mut consumer = CountingConsumer { names: vec![], downloads: vec![] };
    consume_crates_data(crates_csv, versions.as_bytes(), &mut consumer).unwrap();
    assert_eq!(consumer.names, vec!["serde".to_string()]);
    assert_eq!(consumer.downloads, vec![77]);
}

#[test]
fn string_helpers_behave() {
    assert!(str_contains("hello world", "lo wo"));
    assert!(!str_contains("hello", "world"));
    assert!(str_contains("abc", ""));
    assert_eq!(str_trim("  a b \t\r\n"), "a b");
    assert_eq!(str_trim(""), "");
    assert_eq!(split_lines("a\nb\n"), vec!["a".to_string(), "b".to_string()]);
    assert_eq!(split_lines("a\n\nb"), vec!["a".to_string(), "".to_string(), "b".to_string()]);
    assert_eq!(split_lines(""), Vec::<String>::new());
}
