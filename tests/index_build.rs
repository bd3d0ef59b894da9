use crates_index::collector::WordCollector;
use crates_index::index::generate_javascript_crates_index;
use crates_index::package::{load_versions, IndexError, PackageRecord, VersionRecord};
use crates_index::pipeline::prepare_packages;
use crates_index::rank::rank_packages;
use crates_index::resolve::resolve_versions;
use crates_index::version::{default_version, is_newer, is_valid_version};

fn pkg(id: u64, name: &str, downloads: u64, description: Option<&str>) -> PackageRecord {
    PackageRecord::new(id, name.to_string(), downloads, description.map(|d| d.to_string()))
}

fn ver(id: u64, num: &str) -> VersionRecord {
    VersionRecord::new(id, num.to_string()).unwrap()
}

#[test]
fn resolves_highest_version() {
    let mut ps = vec![pkg(1, "serde", 10, None)];
    let table = vec![ver(1, "1.0.0"), ver(1, "2.0.0"), ver(1, "1.5.0")];
    resolve_versions(&mut ps, &table);
    assert_eq!(ps[0].version, "2.0.0");
}

#[test]
fn prerelease_is_older_than_release() {
    let mut ps = vec![pkg(7, "tokio", 10, None)];
    let table = vec![ver(7, "1.0.0-rc.1"), ver(7, "1.0.0"), ver(7, "1.0.0-beta.2")];
    resolve_versions(&mut ps, &table);
    assert_eq!(ps[0].version, "1.0.0");
}

#[test]
fn no_version_keeps_sentinel() {
    let mut ps = vec![pkg(1, "serde", 10, None), pkg(2, "rand", 5, None)];
    let table = vec![ver(1, "1.0.0"), ver(3, "9.9.9")];
    resolve_versions(&mut ps, &table);
    assert_eq!(ps[0].version, "1.0.0");
    assert_eq!(ps[1].version, "0.0.0");
    assert_eq!(default_version(), "0.0.0");
}

#[test]
fn versions_of_other_packages_do_not_leak() {
    let mut ps = vec![pkg(1, "a", 1, None), pkg(2, "b", 1, None)];
    let table = vec![ver(2, "3.0.0"), ver(1, "0.1.0"), ver(2, "0.2.0")];
    resolve_versions(&mut ps, &table);
    assert_eq!(ps[0].version, "0.1.0");
    assert_eq!(ps[1].version, "3.0.0");
}

#[test]
fn malformed_version_is_rejected() {
    assert_eq!(VersionRecord::new(1, "one.two".to_string()).unwrap_err(), IndexError::MalformedRecord);
    assert!(!is_valid_version("1.0"));
    assert!(is_valid_version("1.0.0-alpha+build.5"));
}

#[test]
fn newer_compares_by_semver() {
    assert!(is_newer("1.9.0", "1.10.0"));
    assert!(!is_newer("1.10.0", "1.9.0"));
    assert!(!is_newer("2.0.0", "2.0.0"));
}

#[test]
fn token_extraction_splits_and_folds() {
    let mut c = WordCollector::new();
    c.collect_crate_id("serde_json");
    assert_eq!(c.words, vec!["serde".to_string(), "json".to_string()]);
}

#[test]
fn short_pieces_give_no_tokens() {
    let mut c = WordCollector::new();
    c.collect_crate_id("a-b");
    assert!(c.words.is_empty());
}

#[test]
fn hyphen_and_case_are_normalised() {
    let mut c = WordCollector::new();
    c.collect_crate_id("Tokio-Stream_IO");
    assert_eq!(c.words, vec!["tokio".to_string(), "stream".to_string()]);
}

#[test]
fn piece_length_counts_characters() {
    let mut c = WordCollector::new();
    c.collect_crate_id("\u{e9}t_ab");
    assert!(c.words.is_empty());
}

#[test]
fn two_wide_characters_are_too_short() {
    let mut c = WordCollector::new();
    c.collect_crate_id("\u{e9}\u{e9}_abc");
    assert_eq!(c.words, vec!["abc".to_string()]);
}

#[test]
fn three_wide_characters_are_kept() {
    let mut c = WordCollector::new();
    c.collect_crate_id("\u{e9}\u{e9}\u{e9}-x");
    assert_eq!(c.words, vec!["\u{e9}\u{e9}\u{e9}".to_string()]);
}

#[test]
fn folded_id_is_split_without_folding() {
    let mut c = WordCollector::new();
    c.collect_folded_id("Serde_js_json__tokio");
    assert_eq!(c.words, vec!["Serde".to_string(), "json".to_string(), "tokio".to_string()]);
}

#[test]
fn trimmed_description_is_cut_not_trimmed() {
    let mut c = WordCollector::new();
    c.collect_trimmed_description(" a ");
    c.collect_trimmed_description(&"b".repeat(101));
    assert_eq!(c.words, vec![" a ".to_string(), "b".repeat(100)]);
}

#[test]
fn description_cut_by_characters_after_wide_ones() {
    let mut c = WordCollector::new();
    let text = "a".repeat(99) + &"\u{e9}".repeat(50);
    c.collect_crate_description(&text);
    assert_eq!(c.words.len(), 1);
    assert_eq!(c.words[0], "a".repeat(99) + "\u{e9}");
}

#[test]
fn load_versions_keeps_rows_in_order() {
    let rows = vec![(3, "1.2.3".to_string()), (1, "0.1.0-alpha".to_string())];
    let t = load_versions(rows).unwrap();
    assert_eq!(t.len(), 2);
    assert_eq!((t[0].package_id, t[0].num.as_str()), (3, "1.2.3"));
    assert_eq!((t[1].package_id, t[1].num.as_str()), (1, "0.1.0-alpha"));
}

#[test]
fn load_versions_rejects_bad_row() {
    let rows = vec![(3, "1.2.3".to_string()), (1, "latest".to_string())];
    assert_eq!(load_versions(rows).unwrap_err(), IndexError::MalformedRecord);
}

#[test]
fn description_truncated_to_hundred() {
    let mut c = WordCollector::new();
    let text = "x".repeat(150);
    c.collect_crate_description(&text);
    assert_eq!(c.words.len(), 1);
    assert_eq!(c.words[0], "x".repeat(100));
}

#[test]
fn description_is_trimmed_and_keeps_whole_chars() {
    let mut c = WordCollector::new();
    c.collect_crate_description("  short text \n");
    let long = "\u{e9}".repeat(120);
    c.collect_crate_description(&long);
    assert_eq!(c.words[0], "short text");
    assert_eq!(c.words[1], "\u{e9}".repeat(100));
}

#[test]
fn ranking_keeps_most_downloaded() {
    let ps = vec![pkg(1, "five-hundred", 500, None), pkg(2, "ten", 10, None), pkg(3, "many", 9999, None)];
    let top = rank_packages(ps, 1).unwrap();
    assert_eq!(top.len(), 2);
    assert_eq!(top[0].downloads, 9999);
    assert_eq!(top[1].downloads, 500);
}

#[test]
fn ranking_fails_on_small_population() {
    let ps = vec![pkg(1, "a", 1, None), pkg(2, "b", 2, None)];
    assert_eq!(rank_packages(ps, 2).unwrap_err(), IndexError::InsufficientPopulation);
}

#[test]
fn ranking_exactly_enough() {
    let ps = vec![pkg(1, "a", 1, None), pkg(2, "b", 2, None), pkg(3, "c", 3, None)];
    let top = rank_packages(ps, 2).unwrap();
    let ids: Vec<u64> = top.iter().map(|p| p.id).collect();
    assert_eq!(ids, vec![3, 2, 1]);
}

#[test]
fn ranking_is_stable_on_ties() {
    let ps = vec![pkg(1, "a", 5, None), pkg(2, "b", 5, None), pkg(3, "c", 5, None)];
    let top = rank_packages(ps, 1).unwrap();
    let ids: Vec<u64> = top.iter().map(|p| p.id).collect();
    assert_eq!(ids, vec![1, 2]);
}

#[test]
fn prepare_builds_corpus_in_rank_order() {
    let ps = vec![
        pkg(1, "serde_json", 100, Some("  JSON support ")),
        pkg(2, "rand", 300, None),
        pkg(3, "ab", 1, Some("tiny")),
    ];
    let table = vec![ver(1, "1.0.1"), ver(2, "0.8.5"), ver(1, "1.0.100")];
    let (ranked, corpus) = prepare_packages(ps, &table, 1).unwrap();
    assert_eq!(ranked.len(), 2);
    assert_eq!(ranked[0].name, "rand");
    assert_eq!(ranked[0].version, "0.8.5");
    assert_eq!(ranked[1].version, "1.0.100");
    assert_eq!(corpus.words, vec!["rand", "serde", "json", "JSON support"]);
}

#[test]
fn prepare_fails_without_enough_packages() {
    let ps = vec![pkg(1, "serde", 1, None)];
    assert_eq!(prepare_packages(ps, &vec![], 1).unwrap_err(), IndexError::InsufficientPopulation);
}

#[test]
fn render_exact_text() {
    let mut p = pkg(1, "serde", 1, Some("say \"hi\""));
    p.version = "1.0.0".to_string();
    let q = pkg(2, "rand", 1, None);
    let mapping = vec![("serde".to_string(), "$0".to_string())];
    let text = generate_javascript_crates_index(&mapping, &vec![p, q]);
    assert_eq!(
        text,
        "var N=null;var mapping={\"serde\":\"$0\"};var crateIndex={\"serde\":[\"say \\\"hi\\\"\",\"1.0.0\"],\"rand\":[N,\"0.0.0\"]};"
    );
}

#[test]
fn render_keeps_first_of_a_name() {
    let a = pkg(1, "dup", 1, Some("first"));
    let b = pkg(2, "dup", 1, Some("second"));
    let text = generate_javascript_crates_index(&vec![], &vec![a, b]);
    assert_eq!(text, "var N=null;var mapping={};var crateIndex={\"dup\":[\"first\",\"0.0.0\"]};");
}

#[test]
fn render_is_deterministic() {
    let make = || vec![pkg(1, "x-y-z", 3, Some("d")), pkg(2, "abc", 4, None)];
    let m = vec![("abc".to_string(), "a".to_string()), ("xyz".to_string(), "b".to_string())];
    assert_eq!(generate_javascript_crates_index(&m, &make()), generate_javascript_crates_index(&m, &make()));
}

#[test]
fn index_has_one_entry_per_ranked_package() {
    let ps = vec![pkg(1, "one", 1, None), pkg(2, "two", 2, None), pkg(3, "three", 3, None), pkg(4, "four", 4, None)];
    let (ranked, _) = prepare_packages(ps, &vec![], 2).unwrap();
    let text = generate_javascript_crates_index(&vec![], &ranked);
    assert_eq!(text.matches(":[").count(), 3);
    assert!(!text.contains("\"one\""));
}

#[test]
fn render_escapes_control_characters() {
    let p = pkg(1, "k", 1, Some("a\u{1}\tb\\"));
    let text = generate_javascript_crates_index(&vec![], &vec![p]);
    assert_eq!(text, "var N=null;var mapping={};var crateIndex={\"k\":[\"a\\u0001\\tb\\\\\",\"0.0.0\"]};");
}
