use sha2::{Digest, Sha256};
use sigil::cache::{
    cache_dir, cache_file_name, compute_directory_hash, is_cache_file, load_cached, prune_cache,
    save_to_cache, CacheEntry, CacheFile, FileStamp, CACHE_VERSION, MAX_CACHE_ENTRIES,
};
use sigil::scanner::{Finding, Phase, ScanResult, Severity, Verdict};
use std::collections::BTreeMap;
use std::path::PathBuf;

fn stamp(path: &str, size: u64, mtime: u64) -> FileStamp {
    FileStamp { path: path.to_string(), size, mtime }
}

fn reference(stamps: &[(&str, u64, u64)]) -> String {
    let mut map: BTreeMap<PathBuf, (u64, u64)> = BTreeMap::new();
    for (path, size, mtime) in stamps {
        map.insert(PathBuf::from(path), (*size, *mtime));
    }
    let mut hasher = Sha256::new();
    for (path, (size, mtime)) in &map {
        hasher.update(path.to_string_lossy().as_bytes());
        hasher.update(size.to_le_bytes());
        hasher.update(mtime.to_le_bytes());
    }
    hex::encode(hasher.finalize())
}

fn ours(stamps: &[(&str, u64, u64)]) -> String {
    let list: Vec<FileStamp> = stamps.iter().map(|(p, s, m)| stamp(p, *s, *m)).collect();
    compute_directory_hash(&list)
}

fn sample_result() -> ScanResult {
    ScanResult {
        findings: vec![Finding {
            phase: Phase::Credentials,
            rule: "CRED-004".to_string(),
            severity: Severity::Critical,
            file: "k.py".to_string(),
            line: Some(2),
            snippet: "Hardcoded AWS access key ID: AKIA".to_string(),
            weight: 2,
        }],
        score: 10,
        verdict: Verdict::LowRisk,
        files_scanned: 4,
        duration_ms: 77,
    }
}

#[test]
fn fingerprint_of_nothing_is_the_digest_of_the_empty_message() {
    assert_eq!(
        compute_directory_hash(&vec![]),
        "e3b0c44298fc1c149afbf4c8996fb92427ae41e4649b934ca495991b7852b855"
    );
}

#[test]
fn fingerprint_of_one_file() {
    assert_eq!(
        ours(&[("a", 1, 2)]),
        "bb73eb96121bcfc6bb8a286ca397ac62ef9339c590af1f8e4ad3231722a9469e"
    );
}

#[test]
fn fingerprint_takes_paths_part_by_part() {
    let expected = "113194d8ab65c68a387e49ca70955fec620bbdfd2c612b3ce0e63c13062e0295";
    assert_eq!(ours(&[("a/b", 3, 4), ("a.b", 5, 6), ("ab", 7, 8), ("a", 9, 10)]), expected);
    assert_eq!(ours(&[("a", 9, 10), ("a/b", 3, 4), ("a.b", 5, 6), ("ab", 7, 8)]), expected);
    assert_eq!(ours(&[("ab", 7, 8), ("a.b", 5, 6), ("a/b", 3, 4), ("a", 9, 10)]), expected);
}

#[test]
fn fingerprint_agrees_with_a_sorted_map_of_paths() {
    let samples: Vec<Vec<(&str, u64, u64)>> = vec![
        vec![],
        vec![("z", 1, 1), ("a", 2, 2), ("m/n", 3, 3), ("m", 4, 4)],
        vec![("src/lib.rs", 10, 100), ("src-old/lib.rs", 11, 101), ("src.bak", 12, 102)],
        vec![("a/b/c", 1, 1), ("a/b.c", 2, 2), ("a/b", 3, 3), ("a!b", 4, 4), ("a0", 5, 5)],
        vec![("d\u{00e9}j\u{00e0}/vu", 1, 1), ("d\u{00e9}j\u{00e0}", 2, 2), ("de", 3, 3)],
        vec![("same", 1, 1), ("other", 2, 2), ("same", 3, 3)],
        vec![("", 1, 1), ("x", u64::MAX, 0)],
    ];
    for sample in samples {
        assert_eq!(ours(&sample), reference(&sample), "for {:?}", sample);
    }
}

#[test]
fn last_stamp_of_a_path_counts() {
    assert_eq!(
        ours(&[("x", 1, 1), ("x", 2, 2)]),
        "3e08be0a586d94716f10902e38b6fb369c04f136ab2d966c6fb4d254d5359fae"
    );
    assert_eq!(ours(&[("x", 1, 1), ("x", 2, 2)]), ours(&[("x", 2, 2)]));
}

#[test]
fn touching_a_file_changes_the_fingerprint() {
    let before = ours(&[("a", 1, 2), ("b", 3, 4)]);
    assert_ne!(before, ours(&[("a", 1, 3), ("b", 3, 4)]));
    assert_ne!(before, ours(&[("a", 1, 2), ("b", 4, 4)]));
    assert_ne!(before, ours(&[("a", 1, 2), ("c", 3, 4)]));
    assert_eq!(before, ours(&[("b", 3, 4), ("a", 1, 2)]));
    assert_eq!(before.len(), 64);
    assert!(before.chars().all(|c| c.is_ascii_digit() || ('a'..='f').contains(&c)));
}

#[test]
fn stored_result_is_loaded_for_the_same_fingerprint() {
    let hash = ours(&[("a", 1, 2)]);
    let entry = save_to_cache(&hash, sample_result());
    assert_eq!(entry.version, CACHE_VERSION);
    assert_eq!(entry.version, 1);
    assert_eq!(entry.directory_hash, hash);
    let loaded = load_cached(entry, &hash).unwrap();
    let expected = sample_result();
    assert_eq!(loaded.score, expected.score);
    assert_eq!(loaded.verdict, expected.verdict);
    assert_eq!(loaded.files_scanned, expected.files_scanned);
    assert_eq!(loaded.duration_ms, expected.duration_ms);
    assert_eq!(loaded.findings.len(), 1);
    assert_eq!(loaded.findings[0].rule, expected.findings[0].rule);
    assert_eq!(loaded.findings[0].snippet, expected.findings[0].snippet);
    assert_eq!(loaded.findings[0].line, expected.findings[0].line);
}

#[test]
fn changed_fingerprint_or_version_is_a_miss() {
    let hash = ours(&[("a", 1, 2)]);
    let touched = ours(&[("a", 1, 3)]);
    assert!(load_cached(save_to_cache(&hash, sample_result()), &touched).is_none());
    let old = CacheEntry { version: 0, directory_hash: hash.clone(), result: sample_result() };
    assert!(load_cached(old, &hash).is_none());
    let newer = CacheEntry { version: 2, directory_hash: hash.clone(), result: sample_result() };
    assert!(load_cached(newer, &hash).is_none());
}

#[test]
fn cache_file_is_named_by_sixteen_characters() {
    let hash = "e3b0c44298fc1c149afbf4c8996fb92427ae41e4649b934ca495991b7852b855";
    assert_eq!(cache_file_name(hash), "e3b0c44298fc1c14.json");
    assert_eq!(cache_file_name("0123456789abcdef"), "0123456789abcdef.json");
    assert_eq!(cache_dir("/home/u"), "/home/u/.sigil/cache");
}

#[test]
fn cache_files_end_in_json() {
    assert!(is_cache_file("e3b0c44298fc1c14.json"));
    assert!(is_cache_file("a.json"));
    assert!(!is_cache_file(".json"));
    assert!(!is_cache_file("a.json.tmp"));
    assert!(!is_cache_file("json"));
}

fn cache_file(name: &str, modified: u128) -> CacheFile {
    CacheFile { name: name.to_string(), modified }
}

fn names(files: &[CacheFile]) -> Vec<String> {
    files.iter().map(|f| f.name.clone()).collect()
}

#[test]
fn pruning_removes_the_oldest_beyond_the_limit() {
    let files = vec![
        cache_file("c", 30),
        cache_file("a", 10),
        cache_file("e", 50),
        cache_file("b", 20),
        cache_file("d", 40),
    ];
    assert!(prune_cache(&files, 5).is_empty());
    assert!(prune_cache(&files, 9).is_empty());
    assert_eq!(names(&prune_cache(&files, 4)), vec!["a"]);
    assert_eq!(names(&prune_cache(&files, 2)), vec!["a", "b", "c"]);
    assert_eq!(names(&prune_cache(&files, 0)), vec!["a", "b", "c", "d", "e"]);
    assert!(prune_cache(&vec![], 0).is_empty());
}

#[test]
fn files_of_the_same_age_leave_in_the_order_given() {
    let files = vec![
        cache_file("x", 7),
        cache_file("y", 7),
        cache_file("old", 1),
        cache_file("z", 7),
    ];
    assert_eq!(names(&prune_cache(&files, 1)), vec!["old", "x", "y"]);
    assert_eq!(names(&prune_cache(&files, 2)), vec!["old", "x"]);
}

#[test]
fn cache_keeps_one_hundred_entries() {
    assert_eq!(MAX_CACHE_ENTRIES, 100);
    let files: Vec<CacheFile> =
        (0..103u128).map(|i| cache_file(&format!("f{}", i), 1000 - i)).collect();
    assert_eq!(names(&prune_cache(&files, MAX_CACHE_ENTRIES)), vec!["f102", "f101", "f100"]);
}
