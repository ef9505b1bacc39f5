//! The quarantine ledger: artifacts wait here, pending, until each is
//! approved or rejected once and for all.
//!
//! The ledger is an ordered list of entries that its owner loads, hands to
//! these functions and stores again; one writer at a time is assumed.

use vstd::prelude::*;
use vstd::string::*;
use chrono::Utc;
use uuid::Uuid;
use crate::paths::{join_path, joined_path};
use crate::text::{hex_digit, lowercase, same_text, str_view, text_view, to_lowercase};

verus! {

/// Status of a quarantined item. `Pending` is where every entry starts;
/// `Approved` and `Rejected` are final.
#[derive(Debug, Clone, Copy, PartialEq, Eq, Hash, Structural)]
pub enum QuarantineStatus {
    Pending,
    Approved,
    Rejected,
}

/// A point in time: seconds since the Unix epoch, and the nanoseconds since
/// the last full second.
#[derive(Debug, Clone, Copy, PartialEq, Eq, Hash, Structural)]
pub struct Timestamp {
    pub secs: i64,
    pub nanos: u32,
}

/// A quarantined item awaiting review.
#[derive(Debug)]
pub struct QuarantineEntry {
    /// Short unique token.
    pub id: String,
    /// Where the item came from: a URL, or a package with its version.
    pub source: String,
    /// Kind of source: "git", "pip" or "npm".
    pub source_type: String,
    /// Staging directory of the item.
    pub path: String,
    pub status: QuarantineStatus,
    pub created_at: Timestamp,
    pub updated_at: Timestamp,
    /// Why the item was approved or rejected, where a reason was given.
    pub reason: Option<String>,
    /// Score of the item's scan, once it has been scanned.
    pub scan_score: Option<u32>,
}

/// What a `QuarantineEntry` holds, with its strings as sequences of
/// characters.
pub struct EntryView {
    pub id: Seq<char>,
    pub source: Seq<char>,
    pub source_type: Seq<char>,
    pub path: Seq<char>,
    pub status: QuarantineStatus,
    pub created_at: Timestamp,
    pub updated_at: Timestamp,
    pub reason: Option<Seq<char>>,
    pub scan_score: Option<u32>,
}

impl View for QuarantineEntry {
    type V = EntryView;

    open spec fn view(&self) -> EntryView {
        EntryView {
            id: self.id@,
            source: self.source@,
            source_type: self.source_type@,
            path: self.path@,
            status: self.status,
            created_at: self.created_at,
            updated_at: self.updated_at,
            reason: text_view(self.reason),
            scan_score: self.scan_score,
        }
    }
}

impl DeepView for QuarantineEntry {
    type V = EntryView;

    open spec fn deep_view(&self) -> EntryView {
        self@
    }
}

impl Clone for QuarantineEntry {
    fn clone(&self) -> (copy: QuarantineEntry)
        ensures
            copy@ == self@,
    {
        QuarantineEntry {
            id: self.id.clone(),
            source: self.source.clone(),
            source_type: self.source_type.clone(),
            path: self.path.clone(),
            status: self.status,
            created_at: self.created_at,
            updated_at: self.updated_at,
            reason: match &self.reason {
                Some(reason) => Some(reason.clone()),
                None => None,
            },
            scan_score: self.scan_score,
        }
    }
}

/// Why a ledger operation was refused.
#[derive(Debug, Clone, Copy, PartialEq, Eq, Structural)]
pub enum QuarantineError {
    /// The ledger holds no entry with the identifier.
    NotFound,
    /// The entry has left `Pending` already; its status is given.
    AlreadyFinalized(QuarantineStatus),
}

/// The quarantine directory below a home directory.
pub open spec fn quarantine_dir(home: Seq<char>) -> Seq<char> {
    joined_path(joined_path(home, ".sigil"@), "quarantine"@)
}

/// The entry that an intake creates.
pub open spec fn pending_entry(
    id: Seq<char>,
    source: Seq<char>,
    source_type: Seq<char>,
    path: Seq<char>,
    at: Timestamp,
) -> EntryView {
    EntryView {
        id,
        source,
        source_type,
        path,
        status: QuarantineStatus::Pending,
        created_at: at,
        updated_at: at,
        reason: None,
        scan_score: None,
    }
}

/// The position of the first entry with an identifier, or the length of the
/// ledger where none has it.
pub open spec fn position_of(entries: Seq<EntryView>, id: Seq<char>) -> int
    decreases entries.len(),
{
    if entries.len() == 0 {
        0
    } else if entries[0].id == id {
        0
    } else {
        1 + position_of(entries.skip(1), id)
    }
}

/// An entry as a decision leaves it: with the new status, the time of the
/// decision and its reason; all else as it was.
pub open spec fn decided(
    entry: EntryView,
    status: QuarantineStatus,
    reason: Option<Seq<char>>,
    at: Timestamp,
) -> EntryView {
    EntryView { status, updated_at: at, reason, ..entry }
}

/// What a decision on the entry with an identifier comes to: the ledger
/// after it and the entry as decided, or the reason why it is refused.
/// The first entry with the identifier is the one meant.
pub open spec fn decision(
    entries: Seq<EntryView>,
    id: Seq<char>,
    status: QuarantineStatus,
    reason: Option<Seq<char>>,
    at: Timestamp,
) -> Result<(Seq<EntryView>, EntryView), QuarantineError> {
    let at_index = position_of(entries, id);
    if at_index >= entries.len() {
        Err(QuarantineError::NotFound)
    } else if entries[at_index].status != QuarantineStatus::Pending {
        Err(QuarantineError::AlreadyFinalized(entries[at_index].status))
    } else {
        let entry = decided(entries[at_index], status, reason, at);
        Ok((entries.update(at_index, entry), entry))
    }
}

/// Whether `outcome` and the ledger `after` are what a decision taken at
/// `at` makes of the ledger `before`.
pub open spec fn carried_out(
    before: Seq<EntryView>,
    after: Seq<EntryView>,
    outcome: Result<QuarantineEntry, QuarantineError>,
    id: Seq<char>,
    status: QuarantineStatus,
    reason: Option<Seq<char>>,
    at: Timestamp,
) -> bool {
    match decision(before, id, status, reason, at) {
        Ok((ledger, entry)) => {
            &&& outcome matches Ok(decided)
            &&& decided@ == entry
            &&& after == ledger
        },
        Err(error) => {
            &&& outcome matches Err(refused)
            &&& refused == error
            &&& after == before
        },
    }
}

/// The status that a name in lower case stands for in a listing; a name
/// that is not recognised stands for `Pending`.
pub open spec fn status_named(lower: Seq<char>) -> QuarantineStatus {
    if lower == "approved"@ {
        QuarantineStatus::Approved
    } else if lower == "rejected"@ {
        QuarantineStatus::Rejected
    } else {
        QuarantineStatus::Pending
    }
}

/// The entries that a listing shows: all of them without a filter, else
/// those with the status that the filter names, in ledger order.
pub open spec fn listed(entries: Seq<EntryView>, filter: Option<Seq<char>>) -> Seq<EntryView> {
    match filter {
        None => entries,
        Some(name) => entries.filter(|e: EntryView| e.status == status_named(lowercase(name))),
    }
}

/// Whether a character is a hexadecimal digit in lower case.
pub open spec fn is_hex_digit(c: char) -> bool {
    exists|d: int| 0 <= d < 16 && c == #[trigger] hex_digit(d)
}

/// Whether a text has the hyphenated form of a UUID: 36 characters, a
/// hyphen at each of the positions 8, 13, 18 and 23, and hexadecimal
/// digits in lower case elsewhere.
pub open spec fn is_hyphenated_uuid(text: Seq<char>) -> bool {
    &&& text.len() == 36
    &&& forall|i: int|
        0 <= i < 36 ==> if i == 8 || i == 13 || i == 18 || i == 23 {
            text[i] == '-'
        } else {
            is_hex_digit(#[trigger] text[i])
        }
}

/// `Uuid::new_v4` in the form that `to_string` gives it, the hyphenated
/// one. Which digits it holds is a matter of chance.
#[verifier::external_body]
fn fresh_uuid() -> (text: String)
    ensures
        is_hyphenated_uuid(text@),
{
    Uuid::new_v4().to_string()
}

/// `Utc::now`, as seconds and nanoseconds (`timestamp`,
/// `timestamp_subsec_nanos`). Nothing is stated of the time read. The call
/// panics where the system clock stands before 1970.
#[verifier::external_body]
fn now() -> Timestamp {
    let time = Utc::now();
    Timestamp { secs: time.timestamp(), nanos: time.timestamp_subsec_nanos() }
}

/// Whether a text can be a short identifier: 8 hexadecimal digits in
/// lower case.
pub open spec fn is_short_id(id: Seq<char>) -> bool {
    id.len() == 8 && forall|i: int| 0 <= i < 8 ==> is_hex_digit(#[trigger] id[i])
}

/// Generate a short identifier: the first 8 characters of a random UUID.
pub fn short_id() -> (id: String)
    ensures
        is_short_id(id@),
{
    let uuid = fresh_uuid();
    let id = uuid.as_str().substring_char(0, 8).to_string();
    proof {
        assert forall|i: int| 0 <= i < 8 implies is_hex_digit(#[trigger] id@[i]) by {
            assert(id@[i] == uuid@[i]);
        }
    }
    id
}

/// The quarantine directory below a home directory:
/// `<home>/.sigil/quarantine`.
pub fn quarantine_path(home: &str) -> (path: String)
    ensures
        path@ == quarantine_dir(home@),
{
    let config = join_path(home, ".sigil");
    join_path(config.as_str(), "quarantine")
}

/// The file that holds the ledger: `index.json` in the quarantine
/// directory.
pub fn index_path(home: &str) -> (path: String)
    ensures
        path@ == joined_path(quarantine_dir(home@), "index.json"@),
{
    let dir = quarantine_path(home);
    join_path(dir.as_str(), "index.json")
}

impl QuarantineStatus {
    /// The name of the status in lower case.
    pub open spec fn name(self) -> Seq<char> {
        match self {
            QuarantineStatus::Pending => "pending"@,
            QuarantineStatus::Approved => "approved"@,
            QuarantineStatus::Rejected => "rejected"@,
        }
    }

    /// The name of the status in lower case.
    pub fn label(&self) -> (text: String)
        ensures
            text@ == self.name(),
    {
        match self {
            QuarantineStatus::Pending => "pending".to_string(),
            QuarantineStatus::Approved => "approved".to_string(),
            QuarantineStatus::Rejected => "rejected".to_string(),
        }
    }
}

/// What is said to the user where a decision on `id` is refused; `verb` is
/// what was tried, "approve" or "reject".
pub open spec fn refusal(error: QuarantineError, id: Seq<char>, verb: Seq<char>) -> Seq<char> {
    match error {
        QuarantineError::NotFound => "quarantine entry '"@ + id + "' not found"@,
        QuarantineError::AlreadyFinalized(status) => "entry '"@ + id + "' is already "@
            + status.name() + " (cannot "@ + verb + ")"@,
    }
}

impl QuarantineError {
    /// What is said to the user where a decision on `id` is refused.
    pub fn message(&self, id: &str, verb: &str) -> (text: String)
        ensures
            text@ == refusal(*self, id@, verb@),
    {
        match self {
            QuarantineError::NotFound => {
                let mut text = "quarantine entry '".to_string();
                text.append(id);
                text.append("' not found");
                text
            },
            QuarantineError::AlreadyFinalized(status) => {
                let mut text = "entry '".to_string();
                text.append(id);
                text.append("' is already ");
                let label = status.label();
                text.append(label.as_str());
                text.append(" (cannot ");
                text.append(verb);
                text.append(")");
                text
            },
        }
    }
}

/// The position of the first entry with an identifier, or the length of
/// the ledger where none has it.
fn find_entry(entries: &Vec<QuarantineEntry>, id: &str) -> (at: usize)
    ensures
        at == position_of(entries.deep_view(), id@),
        at <= entries.len(),
{
    let ghost views = entries.deep_view();
    let wanted = id.to_string();
    let mut i: usize = 0;
    proof {
        assert(views.skip(0) =~= views);
    }
    while i < entries.len()
        invariant
            i <= entries.len(),
            views == entries.deep_view(),
            views.len() == entries.len(),
            wanted@ == id@,
            position_of(views, id@) == i + position_of(views.skip(i as int), id@),
        decreases entries.len() - i,
    {
        proof {
            assert(views[i as int] == entries[i as int]@);
            assert(views.skip(i as int)[0] == views[i as int]);
            assert(views.skip(i as int).skip(1) =~= views.skip(i + 1));
        }
        if entries[i].id == wanted {
            return i;
        }
        i = i + 1;
    }
    i
}

/// An owned copy of an optional text.
fn owned(text: Option<&str>) -> (copy: Option<String>)
    ensures
        text_view(copy) == str_view(text),
{
    match text {
        Some(text) => Some(text.to_string()),
        None => None,
    }
}

/// Decide on the entry with an identifier: set its status, the time of the
/// decision and its reason, and hand out the entry as decided. Refused, and
/// the ledger left as it is, where no entry has the identifier or where
/// the entry is not pending.
fn decide(
    index: &mut Vec<QuarantineEntry>,
    id: &str,
    status: QuarantineStatus,
    reason: Option<&str>,
    at: Timestamp,
) -> (outcome: Result<QuarantineEntry, QuarantineError>)
    ensures
        carried_out(
            old(index).deep_view(),
            final(index).deep_view(),
            outcome,
            id@,
            status,
            str_view(reason),
            at,
        ),
{
    let ghost before = index.deep_view();
    let at_index = find_entry(index, id);
    if at_index >= index.len() {
        return Err(QuarantineError::NotFound);
    }
    let current = &index[at_index];
    proof {
        assert(before[at_index as int] == current@);
    }
    if current.status != QuarantineStatus::Pending {
        return Err(QuarantineError::AlreadyFinalized(current.status));
    }
    let entry = QuarantineEntry {
        id: current.id.clone(),
        source: current.source.clone(),
        source_type: current.source_type.clone(),
        path: current.path.clone(),
        status,
        created_at: current.created_at,
        updated_at: at,
        reason: owned(reason),
        scan_score: current.scan_score,
    };
    let copy = entry.clone();
    index.set(at_index, entry);
    proof {
        assert(index.deep_view() =~= before.update(at_index as int, copy@));
    }
    Ok(copy)
}

/// Approve the pending entry with an identifier, at a given time.
pub fn approve_at(index: &mut Vec<QuarantineEntry>, id: &str, reason: Option<&str>, at: Timestamp) -> (outcome:
    Result<QuarantineEntry, QuarantineError>)
    ensures
        carried_out(
            old(index).deep_view(),
            final(index).deep_view(),
            outcome,
            id@,
            QuarantineStatus::Approved,
            str_view(reason),
            at,
        ),
{
    decide(index, id, QuarantineStatus::Approved, reason, at)
}

/// Reject the pending entry with an identifier, at a given time. The
/// staging directory of the entry handed out, `path`, is the caller's to
/// delete.
pub fn reject_at(index: &mut Vec<QuarantineEntry>, id: &str, reason: Option<&str>, at: Timestamp) -> (outcome:
    Result<QuarantineEntry, QuarantineError>)
    ensures
        carried_out(
            old(index).deep_view(),
            final(index).deep_view(),
            outcome,
            id@,
            QuarantineStatus::Rejected,
            str_view(reason),
            at,
        ),
{
    decide(index, id, QuarantineStatus::Rejected, reason, at)
}

/// Approve a quarantined item by its identifier, now. Returns the updated
/// entry.
pub fn approve(index: &mut Vec<QuarantineEntry>, id: &str, reason: Option<&str>) -> (outcome: Result<
    QuarantineEntry,
    QuarantineError,
>)
    ensures
        exists|at: Timestamp| #[trigger]
            carried_out(
                old(index).deep_view(),
                final(index).deep_view(),
                outcome,
                id@,
                QuarantineStatus::Approved,
                str_view(reason),
                at,
            ),
{
    let at = now();
    approve_at(index, id, reason, at)
}

/// Reject a quarantined item by its identifier, now. Returns the updated
/// entry, whose staging directory is the caller's to delete.
pub fn reject(index: &mut Vec<QuarantineEntry>, id: &str, reason: Option<&str>) -> (outcome: Result<
    QuarantineEntry,
    QuarantineError,
>)
    ensures
        exists|at: Timestamp| #[trigger]
            carried_out(
                old(index).deep_view(),
                final(index).deep_view(),
                outcome,
                id@,
                QuarantineStatus::Rejected,
                str_view(reason),
                at,
            ),
{
    let at = now();
    reject_at(index, id, reason, at)
}

/// Take an item in: append a pending entry with the given identifier,
/// staging directory and time of intake, and hand out a copy of it.
pub fn add_with(
    index: &mut Vec<QuarantineEntry>,
    id: &str,
    source: &str,
    source_type: &str,
    path: &str,
    at: Timestamp,
) -> (entry: QuarantineEntry)
    ensures
        entry@ == pending_entry(id@, source@, source_type@, path@, at),
        final(index).deep_view() == old(index).deep_view().push(entry@),
{
    let entry = QuarantineEntry {
        id: id.to_string(),
        source: source.to_string(),
        source_type: source_type.to_string(),
        path: path.to_string(),
        status: QuarantineStatus::Pending,
        created_at: at,
        updated_at: at,
        reason: None,
        scan_score: None,
    };
    let copy = entry.clone();
    index.push(entry);
    proof {
        assert(final(index).deep_view() =~= old(index).deep_view().push(copy@));
    }
    copy
}

/// Whether `entry` is a pending entry for the source, taken in under the
/// quarantine directory of `home` with a short identifier.
pub open spec fn taken_in(
    entry: EntryView,
    home: Seq<char>,
    source: Seq<char>,
    source_type: Seq<char>,
) -> bool {
    &&& is_short_id(entry.id)
    &&& entry == pending_entry(
        entry.id,
        source,
        source_type,
        joined_path(quarantine_dir(home), entry.id),
        entry.created_at,
    )
}

/// Add a new item to quarantine, now: a pending entry with a fresh
/// identifier, whose staging directory is named after the identifier and
/// lies in the quarantine directory below `home`. The directory is the
/// caller's to create.
pub fn add(index: &mut Vec<QuarantineEntry>, home: &str, source: &str, source_type: &str) -> (entry:
    QuarantineEntry)
    ensures
        taken_in(entry@, home@, source@, source_type@),
        final(index).deep_view() == old(index).deep_view().push(entry@),
{
    let id = short_id();
    let dir = quarantine_path(home);
    let path = join_path(dir.as_str(), id.as_str());
    let at = now();
    add_with(index, id.as_str(), source, source_type, path.as_str(), at)
}

/// The status that a name stands for in a listing, the name being in lower
/// case already.
pub fn status_of_lowered(lower: &str) -> (status: QuarantineStatus)
    ensures
        status == status_named(lower@),
{
    if same_text(lower, "approved") {
        QuarantineStatus::Approved
    } else if same_text(lower, "rejected") {
        QuarantineStatus::Rejected
    } else {
        QuarantineStatus::Pending
    }
}

/// The entries with a status, cloned in ledger order.
pub fn list_with_status(index: &Vec<QuarantineEntry>, status: QuarantineStatus) -> (entries: Vec<
    QuarantineEntry,
>)
    ensures
        entries.deep_view() == index.deep_view().filter(|e: EntryView| e.status == status),
{
    let ghost views = index.deep_view();
    let ghost pred = |e: EntryView| e.status == status;
    let mut entries: Vec<QuarantineEntry> = Vec::new();
    let mut i: usize = 0;
    proof {
        reveal(Seq::filter);
        assert(views.take(0).filter(pred) =~= Seq::<EntryView>::empty());
        assert(entries.deep_view() =~= Seq::<EntryView>::empty());
    }
    while i < index.len()
        invariant
            i <= index.len(),
            views == index.deep_view(),
            views.len() == index.len(),
            pred == |e: EntryView| e.status == status,
            entries.deep_view() == views.take(i as int).filter(pred),
        decreases index.len() - i,
    {
        let entry = &index[i];
        proof {
            assert(views[i as int] == entry@);
            reveal(Seq::filter);
            assert(views.take(i + 1).drop_last() =~= views.take(i as int));
        }
        if entry.status == status {
            let ghost before = entries.deep_view();
            entries.push(entry.clone());
            proof {
                assert(entries.deep_view() =~= before.push(entry@));
            }
        }
        i = i + 1;
    }
    proof {
        assert(views.take(i as int) =~= views);
    }
    entries
}

/// List quarantined items in ledger order, all of them or those with the
/// status that `status_filter` names, whatever its case.
pub fn list(index: &Vec<QuarantineEntry>, status_filter: Option<&str>) -> (outcome: Result<
    Vec<QuarantineEntry>,
    QuarantineError,
>)
    ensures
        outcome matches Ok(entries) && entries.deep_view() == listed(
            index.deep_view(),
            str_view(status_filter),
        ),
{
    match status_filter {
        Some(name) => {
            let lower = to_lowercase(name);
            let status = status_of_lowered(lower.as_str());
            Ok(list_with_status(index, status))
        },
        None => {
            let ghost views = index.deep_view();
            let mut entries: Vec<QuarantineEntry> = Vec::new();
            let mut i: usize = 0;
            while i < index.len()
                invariant
                    i <= index.len(),
                    views == index.deep_view(),
                    views.len() == index.len(),
                    entries.deep_view() =~= views.take(i as int),
                decreases index.len() - i,
            {
                let ghost before = entries.deep_view();
                entries.push(index[i].clone());
                proof {
                    assert(views[i as int] == index[i as int]@);
                    assert(entries.deep_view() =~= before.push(index[i as int]@));
                }
                i = i + 1;
            }
            proof {
                assert(views.take(i as int) =~= views);
            }
            Ok(entries)
        },
    }
}

/// The first entry with an identifier stays where it is when an entry is
/// replaced by one with the same identifier.
proof fn lemma_position_after_update(
    entries: Seq<EntryView>,
    id: Seq<char>,
    k: int,
    entry: EntryView,
)
    requires
        0 <= k < entries.len(),
        entry.id == entries[k].id,
    ensures
        position_of(entries.update(k, entry), id) == position_of(entries, id),
    decreases entries.len(),
{
    let updated = entries.update(k, entry);
    if k == 0 {
        assert(updated.skip(1) =~= entries.skip(1));
    } else {
        assert(updated[0] == entries[0]);
        assert(updated.skip(1) =~= entries.skip(1).update(k - 1, entry));
        assert(entries.skip(1)[k - 1] == entries[k]);
        lemma_position_after_update(entries.skip(1), id, k - 1, entry);
    }
}

/// What `position_of` finds: the first entry with the identifier, if any.
pub proof fn lemma_position_of(entries: Seq<EntryView>, id: Seq<char>)
    ensures
        0 <= position_of(entries, id) <= entries.len(),
        position_of(entries, id) < entries.len() ==> entries[position_of(entries, id)].id == id,
        forall|i: int| 0 <= i < position_of(entries, id) ==> (#[trigger] entries[i]).id != id,
    decreases entries.len(),
{
    if entries.len() > 0 && entries[0].id != id {
        lemma_position_of(entries.skip(1), id);
        let rest = position_of(entries.skip(1), id);
        if rest < entries.skip(1).len() {
            assert(entries.skip(1)[rest] == entries[rest + 1]);
        }
        assert forall|i: int| 0 <= i < position_of(entries, id) implies (#[trigger] entries[i]).id
            != id by {
            if i > 0 {
                assert(entries.skip(1)[i - 1] == entries[i]);
            }
        }
    }
}

/// A decision on an identifier that no entry has is refused as not found,
/// and only such a decision is.
pub proof fn lemma_unknown_id_is_not_found(
    entries: Seq<EntryView>,
    id: Seq<char>,
    status: QuarantineStatus,
    reason: Option<Seq<char>>,
    at: Timestamp,
)
    ensures
        decision(entries, id, status, reason, at) == Err::<
            (Seq<EntryView>, EntryView),
            QuarantineError,
        >(QuarantineError::NotFound) <==> forall|i: int|
            0 <= i < entries.len() ==> (#[trigger] entries[i]).id != id,
{
    lemma_position_of(entries, id);
}

/// A decision on a pending entry succeeds, and succeeds once: whatever is
/// decided on the same identifier afterwards is refused, the entry being
/// final.
pub proof fn lemma_decision_is_final(
    entries: Seq<EntryView>,
    id: Seq<char>,
    status: QuarantineStatus,
    reason: Option<Seq<char>>,
    at: Timestamp,
    later_status: QuarantineStatus,
    later_reason: Option<Seq<char>>,
    later: Timestamp,
)
    requires
        status != QuarantineStatus::Pending,
        position_of(entries, id) < entries.len(),
        entries[position_of(entries, id)].status == QuarantineStatus::Pending,
    ensures
        decision(entries, id, status, reason, at) is Ok,
        decision(
            decision(entries, id, status, reason, at)->Ok_0.0,
            id,
            later_status,
            later_reason,
            later,
        ) == Err::<(Seq<EntryView>, EntryView), QuarantineError>(
            QuarantineError::AlreadyFinalized(status),
        ),
{
    lemma_position_of(entries, id);
    let k = position_of(entries, id);
    let entry = decided(entries[k], status, reason, at);
    lemma_position_after_update(entries, id, k, entry);
}

/// A decision changes one entry only, and of that entry the status, the
/// time of the last update and the reason only.
pub proof fn lemma_decision_touches_one_entry(
    entries: Seq<EntryView>,
    id: Seq<char>,
    status: QuarantineStatus,
    reason: Option<Seq<char>>,
    at: Timestamp,
)
    requires
        decision(entries, id, status, reason, at) is Ok,
    ensures
        ({
            let (ledger, entry) = decision(entries, id, status, reason, at)->Ok_0;
            let k = position_of(entries, id);
            &&& ledger.len() == entries.len()
            &&& forall|i: int| 0 <= i < entries.len() && i != k ==> ledger[i] == entries[i]
            &&& ledger[k] == entry
            &&& entry.id == id
            &&& entry.status == status
            &&& entry.updated_at == at
            &&& entry.reason == reason
            &&& entry.source == entries[k].source
            &&& entry.source_type == entries[k].source_type
            &&& entry.path == entries[k].path
            &&& entry.created_at == entries[k].created_at
            &&& entry.scan_score == entries[k].scan_score
        }),
{
    lemma_position_of(entries, id);
}

} // verus!
