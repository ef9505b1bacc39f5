use sigil::quarantine::{
    add, add_with, approve, approve_at, index_path, list, list_with_status, quarantine_path,
    reject, reject_at, short_id, status_of_lowered, QuarantineEntry, QuarantineError,
    QuarantineStatus, Timestamp,
};

const T0: Timestamp = Timestamp { secs: 1_700_000_000, nanos: 5 };
const T1: Timestamp = Timestamp { secs: 1_700_000_100, nanos: 6 };
const T2: Timestamp = Timestamp { secs: 1_700_000_200, nanos: 7 };

fn ledger() -> Vec<QuarantineEntry> {
    let mut index = Vec::new();
    add_with(&mut index, "aaaaaaaa", "https://x/y.git", "git", "/q/aaaaaaaa", T0);
    add_with(&mut index, "bbbbbbbb", "left-pad@1.0.0", "npm", "/q/bbbbbbbb", T0);
    add_with(&mut index, "cccccccc", "requests==2.0", "pip", "/q/cccccccc", T0);
    index
}

fn ids(entries: &[QuarantineEntry]) -> Vec<String> {
    entries.iter().map(|e| e.id.clone()).collect()
}

#[test]
fn intake_appends_a_pending_entry() {
    let mut index = Vec::new();
    let entry = add_with(&mut index, "12345678", "src", "git", "/q/12345678", T0);
    assert_eq!(index.len(), 1);
    for e in [&entry, &index[0]] {
        assert_eq!(e.id, "12345678");
        assert_eq!(e.source, "src");
        assert_eq!(e.source_type, "git");
        assert_eq!(e.path, "/q/12345678");
        assert_eq!(e.status, QuarantineStatus::Pending);
        assert_eq!(e.created_at, T0);
        assert_eq!(e.updated_at, T0);
        assert_eq!(e.reason, None);
        assert_eq!(e.scan_score, None);
    }
}

#[test]
fn add_allocates_identifier_and_staging_path() {
    let mut index = ledger();
    let entry = add(&mut index, "/home/u", "pkg", "pip");
    assert_eq!(index.len(), 4);
    assert_eq!(entry.id.chars().count(), 8);
    assert!(entry.id.chars().all(|c| c.is_ascii_hexdigit()));
    assert_eq!(entry.path, format!("/home/u/.sigil/quarantine/{}", entry.id));
    assert_eq!(entry.status, QuarantineStatus::Pending);
    assert_eq!(entry.created_at, entry.updated_at);
    assert!(entry.created_at.secs > 1_600_000_000);
    assert_eq!(index[3].id, entry.id);
    assert_eq!(index[3].source, "pkg");
    assert_eq!(index[3].source_type, "pip");
    let other = add(&mut index, "/home/u", "pkg", "pip");
    assert_ne!(other.id, entry.id);
}

#[test]
fn short_ids_have_eight_characters() {
    for _ in 0..20 {
        assert_eq!(short_id().chars().count(), 8);
    }
}

#[test]
fn approve_succeeds_exactly_once() {
    let mut index = ledger();
    let entry = approve_at(&mut index, "bbbbbbbb", Some("looks fine"), T1).unwrap();
    assert_eq!(entry.status, QuarantineStatus::Approved);
    assert_eq!(entry.updated_at, T1);
    assert_eq!(entry.created_at, T0);
    assert_eq!(entry.reason, Some("looks fine".to_string()));
    assert_eq!(entry.source, "left-pad@1.0.0");
    assert_eq!(index[1].status, QuarantineStatus::Approved);
    assert_eq!(index[1].reason, Some("looks fine".to_string()));
    assert_eq!(index[0].status, QuarantineStatus::Pending);
    assert_eq!(index[2].status, QuarantineStatus::Pending);

    let again = approve_at(&mut index, "bbbbbbbb", None, T2);
    assert_eq!(
        again.unwrap_err(),
        QuarantineError::AlreadyFinalized(QuarantineStatus::Approved)
    );
    let rejected = reject_at(&mut index, "bbbbbbbb", None, T2);
    assert_eq!(
        rejected.unwrap_err(),
        QuarantineError::AlreadyFinalized(QuarantineStatus::Approved)
    );
    assert_eq!(index[1].updated_at, T1);
    assert_eq!(index[1].status, QuarantineStatus::Approved);
}

#[test]
fn reject_succeeds_exactly_once_and_names_the_staging_path() {
    let mut index = ledger();
    let entry = reject_at(&mut index, "cccccccc", None, T1).unwrap();
    assert_eq!(entry.status, QuarantineStatus::Rejected);
    assert_eq!(entry.path, "/q/cccccccc");
    assert_eq!(entry.reason, None);
    assert_eq!(index[2].status, QuarantineStatus::Rejected);
    assert_eq!(
        reject_at(&mut index, "cccccccc", Some("again"), T2).unwrap_err(),
        QuarantineError::AlreadyFinalized(QuarantineStatus::Rejected)
    );
    assert_eq!(
        approve_at(&mut index, "cccccccc", None, T2).unwrap_err(),
        QuarantineError::AlreadyFinalized(QuarantineStatus::Rejected)
    );
    assert_eq!(index[2].reason, None);
}

#[test]
fn unknown_identifier_is_not_found() {
    let mut index = ledger();
    assert_eq!(
        approve_at(&mut index, "zzzzzzzz", None, T1).unwrap_err(),
        QuarantineError::NotFound
    );
    assert_eq!(
        reject_at(&mut index, "aaaaaaa", None, T1).unwrap_err(),
        QuarantineError::NotFound
    );
    let mut empty: Vec<QuarantineEntry> = Vec::new();
    assert_eq!(approve(&mut empty, "x", None).unwrap_err(), QuarantineError::NotFound);
    assert_eq!(reject(&mut empty, "x", None).unwrap_err(), QuarantineError::NotFound);
    assert!(index.iter().all(|e| e.status == QuarantineStatus::Pending));
}

#[test]
fn decisions_taken_now() {
    let mut index = ledger();
    let approved = approve(&mut index, "aaaaaaaa", Some("ok")).unwrap();
    assert_eq!(approved.status, QuarantineStatus::Approved);
    assert!(approved.updated_at.secs >= T0.secs);
    let rejected = reject(&mut index, "bbbbbbbb", Some("bad")).unwrap();
    assert_eq!(rejected.status, QuarantineStatus::Rejected);
    assert_eq!(rejected.reason, Some("bad".to_string()));
    assert_eq!(
        approve(&mut index, "bbbbbbbb", None).unwrap_err(),
        QuarantineError::AlreadyFinalized(QuarantineStatus::Rejected)
    );
}

#[test]
fn first_entry_with_the_identifier_is_the_one_meant() {
    let mut index = ledger();
    add_with(&mut index, "aaaaaaaa", "dup", "git", "/q/dup", T0);
    approve_at(&mut index, "aaaaaaaa", None, T1).unwrap();
    assert_eq!(index[0].status, QuarantineStatus::Approved);
    assert_eq!(index[3].status, QuarantineStatus::Pending);
    assert_eq!(
        reject_at(&mut index, "aaaaaaaa", None, T2).unwrap_err(),
        QuarantineError::AlreadyFinalized(QuarantineStatus::Approved)
    );
}

#[test]
fn listing_keeps_ledger_order() {
    let mut index = ledger();
    approve_at(&mut index, "bbbbbbbb", None, T1).unwrap();
    reject_at(&mut index, "aaaaaaaa", None, T1).unwrap();
    assert_eq!(ids(&list(&index, None).unwrap()), vec!["aaaaaaaa", "bbbbbbbb", "cccccccc"]);
    assert_eq!(ids(&list(&index, Some("pending")).unwrap()), vec!["cccccccc"]);
    assert_eq!(ids(&list(&index, Some("Approved")).unwrap()), vec!["bbbbbbbb"]);
    assert_eq!(ids(&list(&index, Some("REJECTED")).unwrap()), vec!["aaaaaaaa"]);
    assert_eq!(ids(&list(&index, Some("whatever")).unwrap()), vec!["cccccccc"]);
    assert_eq!(
        ids(&list_with_status(&index, QuarantineStatus::Rejected)),
        vec!["aaaaaaaa"]
    );
    add_with(&mut index, "dddddddd", "s", "git", "/q/d", T2);
    assert_eq!(ids(&list(&index, Some("pending")).unwrap()), vec!["cccccccc", "dddddddd"]);
}

#[test]
fn status_names_and_labels() {
    assert_eq!(status_of_lowered("pending"), QuarantineStatus::Pending);
    assert_eq!(status_of_lowered("approved"), QuarantineStatus::Approved);
    assert_eq!(status_of_lowered("rejected"), QuarantineStatus::Rejected);
    assert_eq!(status_of_lowered("Approved"), QuarantineStatus::Pending);
    assert_eq!(QuarantineStatus::Pending.label(), "pending");
    assert_eq!(QuarantineStatus::Approved.label(), "approved");
    assert_eq!(QuarantineStatus::Rejected.label(), "rejected");
}

#[test]
fn refusals_in_words() {
    assert_eq!(
        QuarantineError::NotFound.message("abc", "approve"),
        "quarantine entry 'abc' not found"
    );
    assert_eq!(
        QuarantineError::AlreadyFinalized(QuarantineStatus::Approved).message("abc", "reject"),
        "entry 'abc' is already approved (cannot reject)"
    );
    assert_eq!(
        QuarantineError::AlreadyFinalized(QuarantineStatus::Rejected).message("x", "approve"),
        "entry 'x' is already rejected (cannot approve)"
    );
}

#[test]
fn paths() {
    assert_eq!(quarantine_path("/home/u"), "/home/u/.sigil/quarantine");
    assert_eq!(quarantine_path("."), "./.sigil/quarantine");
    assert_eq!(index_path("/home/u"), "/home/u/.sigil/quarantine/index.json");
}

#[test]
fn entries_can_be_cloned() {
    let index = ledger();
    let copy = index[1].clone();
    assert_eq!(copy.id, index[1].id);
    assert_eq!(copy.source, index[1].source);
    assert_eq!(copy.path, index[1].path);
    assert_eq!(copy.created_at, index[1].created_at);
}
