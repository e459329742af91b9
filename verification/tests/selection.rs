//! The bounded top-K selection, driven end to end through the consumer.

use meteoroid::api::VersionsEntry;
use meteoroid::consumer::CrateConsumer;
use meteoroid::selector::{
    best_attempt_validate_path, normalized_single, Consumer, ConsumerOpts, CrateName, GitRepo,
    NormalPath, RepoName,
};

fn opts(max: usize, min_size: u64) -> ConsumerOpts {
    ConsumerOpts {
        max_crates: max,
        min_size,
        exclude_crate_name_contains: vec![],
        exclude_repository_contains: vec![],
    }
}

fn name(s: &str) -> CrateName {
    CrateName(NormalPath(s.to_string()))
}

fn repo(s: &str) -> GitRepo {
    GitRepo(s.to_string())
}

fn dir(s: &str) -> RepoName {
    RepoName(NormalPath(s.to_string()))
}

fn offer(c: &mut Consumer, downloads: u64, id: u64) {
    let r = c
        .consume_validated(downloads, id, name("a"), repo("r"), dir("d"))
        .unwrap();
    assert!(r);
}

fn kept_downloads(c: Consumer) -> Vec<u64> {
    // The ranking key is not on the pruned crate; recount via the entries.
    let mut out: Vec<u64> = c.crates.iter().map(|e| e.downloads).collect();
    out.sort_unstable();
    out
}

#[test]
fn selection_keeps_two_highest_of_three() {
    let mut c = Consumer::new(opts(2, 0));
    offer(&mut c, 10, 1);
    offer(&mut c, 50, 2);
    offer(&mut c, 30, 3);
    assert_eq!(kept_downloads(c), vec![30, 50]);
}

#[test]
fn selection_is_order_independent_in_content() {
    let mut c1 = Consumer::new(opts(2, 0));
    offer(&mut c1, 10, 1);
    offer(&mut c1, 50, 2);
    offer(&mut c1, 30, 3);
    let mut c2 = Consumer::new(opts(2, 0));
    offer(&mut c2, 30, 3);
    offer(&mut c2, 10, 1);
    offer(&mut c2, 50, 2);
    assert_eq!(kept_downloads(c1), kept_downloads(c2));
}

#[test]
fn selection_size_is_min_of_k_and_count() {
    let mut c = Consumer::new(opts(5, 0));
    offer(&mut c, 10, 1);
    offer(&mut c, 20, 2);
    assert_eq!(c.get_crates().len(), 2);
}

#[test]
fn duplicate_ids_never_both_survive() {
    let mut c = Consumer::new(opts(5, 0));
    offer(&mut c, 10, 7);
    offer(&mut c, 99, 7);
    let downloads = kept_downloads(c);
    assert_eq!(downloads, vec![10]);
}

#[test]
fn duplicate_id_offer_changes_nothing() {
    let mut c = Consumer::new(opts(5, 0));
    offer(&mut c, 10, 7);
    offer(&mut c, 20, 8);
    // A duplicate identifier is rejected outright, whatever its rank.
    offer(&mut c, 99, 7);
    assert_eq!(kept_downloads(c), vec![10, 20]);
}

#[test]
fn selection_size_counts_distinct_ids() {
    // With duplicates among the offered records, the size is min(K, d)
    // for d distinct identifiers.
    let mut c = Consumer::new(opts(3, 0));
    offer(&mut c, 10, 1);
    offer(&mut c, 20, 1);
    offer(&mut c, 30, 2);
    assert_eq!(c.get_crates().len(), 2);
}

#[test]
fn equal_downloads_do_not_evict() {
    let mut c = Consumer::new(opts(1, 0));
    offer(&mut c, 10, 1);
    offer(&mut c, 10, 2);
    let mut c2 = Consumer::new(opts(1, 0));
    offer(&mut c2, 10, 1);
    offer(&mut c2, 11, 2);
    assert_eq!(kept_downloads(c), vec![10]);
    assert_eq!(kept_downloads(c2), vec![11]);
}

#[test]
fn zero_capacity_fails() {
    let mut c = Consumer::new(opts(0, 0));
    let r = c.consume_validated(10, 1, name("a"), repo("r"), dir("d"));
    assert!(r.is_err());
}

fn entry(id: u64, size: u64, downloads: u64, repository: &str) -> VersionsEntry {
    let mut e = VersionsEntry::new_empty();
    e.crate_id = id;
    e.crate_size = size;
    e.downloads = downloads;
    e.repository = repository.to_string();
    e
}

#[test]
fn consume_filters_small_and_excluded_records() {
    let o = ConsumerOpts {
        max_crates: 10,
        min_size: 1000,
        exclude_crate_name_contains: vec!["bad".to_string()],
        exclude_repository_contains: vec!["forbidden".to_string()],
    };
    let mut c = Consumer::new(o);
    // Too small.
    assert!(c
        .consume("fine", entry(1, 10, 5, "https://github.com/o/r"))
        .unwrap());
    // Excluded name.
    assert!(c
        .consume("badger", entry(2, 5000, 5, "https://github.com/o/r"))
        .unwrap());
    // Excluded repository.
    assert!(c
        .consume("fine", entry(3, 5000, 5, "https://forbidden.example/o/r"))
        .unwrap());
    // Invalid repository URL.
    assert!(c.consume("fine", entry(4, 5000, 5, "not a url")).unwrap());
    // Accepted.
    assert!(c
        .consume("fine", entry(5, 5000, 5, "https://github.com/o/r"))
        .unwrap());
    assert_eq!(c.get_crates().len(), 1);
}

#[test]
fn consume_rejects_names_unsafe_as_paths() {
    let mut c = Consumer::new(opts(10, 0));
    assert!(c
        .consume("..", entry(1, 10, 5, "https://github.com/o/r"))
        .unwrap());
    assert!(c
        .consume("a/b", entry(2, 10, 5, "https://github.com/o/r"))
        .unwrap());
    assert_eq!(c.get_crates().len(), 0);
}

#[test]
fn path_validation_accepts_single_components_only() {
    assert!(best_attempt_validate_path("serde").is_some());
    assert!(best_attempt_validate_path("").is_none());
    assert!(best_attempt_validate_path(".").is_none());
    assert!(best_attempt_validate_path("..").is_none());
    assert!(best_attempt_validate_path("a/b").is_none());
    assert!(best_attempt_validate_path("a\\b").is_none());
    assert!(normalized_single("ok-name".to_string()).is_some());
}

#[test]
fn output_file_names_derive_from_the_crate_name() {
    let n = name("serde");
    let d = n.try_convert_to_diff_file_name("upstream").unwrap();
    assert_eq!(d.0, "serde-upstream.diff");
    let e = n.try_convert_to_rustfmt_error_file_name("local").unwrap();
    assert_eq!(e.0, "serde-local-error.txt");
}

#[test]
fn opts_builders_accumulate() {
    let o = ConsumerOpts::default()
        .add_excluded_crate_name_contains("x".to_string())
        .add_excluded_repository_contains("y".to_string());
    assert_eq!(o.max_crates, 100);
    assert_eq!(o.min_size, 20_000);
    assert_eq!(o.exclude_crate_name_contains, vec!["x".to_string()]);
    assert_eq!(o.exclude_repository_contains, vec!["y".to_string()]);
}

#[test]
fn get_crates_hands_back_retained_fields() {
    let mut c = Consumer::new(opts(2, 0));
    c.consume_validated(10, 1, name("n"), repo("https://github.com/o/r"), dir("r"))
        .unwrap();
    let pruned = c.get_crates();
    assert_eq!(pruned.len(), 1);
    assert_eq!(pruned[0].crate_name, name("n"));
    assert_eq!(pruned[0].repository.as_url().as_str(), "https://github.com/o/r");
    assert_eq!(pruned[0].repo_dir_name.as_path().as_str(), "r");
}
