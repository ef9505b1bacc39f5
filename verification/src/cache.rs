//! Scan result caching, keyed by a fingerprint of a directory's files.
//!
//! The fingerprint is a digest over the path, size and modification time of
//! every regular file under a root, taken in the order of the paths. A
//! cached result is used only where its fingerprint and the format version
//! both agree with what is asked for. The cache is advisory: what cannot be
//! read counts as a miss.

use vstd::prelude::*;
use vstd::string::*;
use vstd::bytes::{lemma_auto_spec_u64_to_from_le_bytes, spec_u64_to_le_bytes, u64_to_le_bytes};
use vstd::utf8::encode_utf8;
use sha2::{Digest, Sha256};
use crate::paths::{
    comes_before, lemma_before_is_transitive, lemma_not_before_itself, lemma_one_comes_first,
    join_path, joined_path, path_before,
};
use crate::scanner::{ScanResult, ScanResultView};
use crate::text::{chars_of, ends_with, hex_digit};

verus! {

/// Version of the format in which results are cached.
pub const CACHE_VERSION: u32 = 1;

/// Number of entries that the cache keeps at most.
pub const MAX_CACHE_ENTRIES: usize = 100;

/// Number of characters of a fingerprint that name its cache file.
pub const FILE_NAME_PREFIX: usize = 16;

/// What `Sha256::digest` returns for a message: its SHA-256 digest.
pub uninterp spec fn sha256(message: Seq<u8>) -> Seq<u8>;

/// The hexadecimal form of bytes: two digits in lower case for each byte,
/// the high half first.
pub open spec fn hex_of(bytes: Seq<u8>) -> Seq<char>
    decreases bytes.len(),
{
    if bytes.len() == 0 {
        Seq::empty()
    } else {
        hex_of(bytes.drop_last()).push(hex_digit(bytes.last() as int / 16)).push(
            hex_digit(bytes.last() as int % 16),
        )
    }
}

pub proof fn lemma_hex_len(bytes: Seq<u8>)
    ensures
        hex_of(bytes).len() == 2 * bytes.len(),
    decreases bytes.len(),
{
    if bytes.len() > 0 {
        lemma_hex_len(bytes.drop_last());
    }
}

/// `Sha256::digest` of the `sha2` crate: the SHA-256 digest of a message,
/// 32 bytes that depend on the message alone.
#[verifier::external_body]
fn sha256_digest(message: &Vec<u8>) -> (digest: Vec<u8>)
    ensures
        digest@ == sha256(message@),
        digest@.len() == 32,
{
    Sha256::digest(message).to_vec()
}

/// `hex::encode`: each byte as two hexadecimal digits in lower case, the
/// high half first.
#[verifier::external_body]
fn hex_encode(bytes: &Vec<u8>) -> (text: String)
    ensures
        text@ == hex_of(bytes@),
{
    hex::encode(bytes)
}

/// What the fingerprint reads of one regular file.
#[derive(Debug)]
pub struct FileStamp {
    /// Path relative to the root, with `/` between its parts.
    pub path: String,
    /// Size in bytes.
    pub size: u64,
    /// Time of the last modification, in whole seconds since the Unix
    /// epoch; 0 where it is not known.
    pub mtime: u64,
}

/// What a `FileStamp` holds, with its path as a sequence of characters.
pub struct StampView {
    pub path: Seq<char>,
    pub size: u64,
    pub mtime: u64,
}

impl View for FileStamp {
    type V = StampView;

    open spec fn view(&self) -> StampView {
        StampView { path: self.path@, size: self.size, mtime: self.mtime }
    }
}

impl DeepView for FileStamp {
    type V = StampView;

    open spec fn deep_view(&self) -> StampView {
        self@
    }
}

/// A list of stamps in path order with one more stamp put in its place; it
/// takes the place of a stamp with the same path.
pub open spec fn inserted(sorted: Seq<StampView>, stamp: StampView) -> Seq<StampView>
    decreases sorted.len(),
{
    if sorted.len() == 0 {
        seq![stamp]
    } else if path_before(sorted[0].path, stamp.path) {
        seq![sorted[0]] + inserted(sorted.skip(1), stamp)
    } else if sorted[0].path == stamp.path {
        seq![stamp] + sorted.skip(1)
    } else {
        seq![stamp] + sorted
    }
}

/// The stamps in the order of their paths, one for each path: the last one
/// given for it.
pub open spec fn in_path_order(stamps: Seq<StampView>) -> Seq<StampView>
    decreases stamps.len(),
{
    if stamps.len() == 0 {
        Seq::empty()
    } else {
        inserted(in_path_order(stamps.drop_last()), stamps.last())
    }
}

/// The bytes that one stamp adds to the message: its path in UTF-8, then
/// its size and, where times count, its modification time, 8 bytes each,
/// low byte first.
pub open spec fn stamp_bytes(stamp: StampView, with_times: bool) -> Seq<u8> {
    if with_times {
        encode_utf8(stamp.path) + spec_u64_to_le_bytes(stamp.size) + spec_u64_to_le_bytes(
            stamp.mtime,
        )
    } else {
        encode_utf8(stamp.path) + spec_u64_to_le_bytes(stamp.size)
    }
}

/// The message that is digested: the bytes of the stamps, one after the
/// other.
pub open spec fn message_of(stamps: Seq<StampView>, with_times: bool) -> Seq<u8>
    decreases stamps.len(),
{
    if stamps.len() == 0 {
        Seq::empty()
    } else {
        message_of(stamps.drop_last(), with_times) + stamp_bytes(stamps.last(), with_times)
    }
}

/// The fingerprint of a directory whose regular files have the given
/// stamps: the SHA-256 digest of their message, in hexadecimal.
pub open spec fn fingerprint(stamps: Seq<StampView>) -> Seq<char> {
    hex_of(sha256(message_of(in_path_order(stamps), true)))
}

/// The hash under which a directory is looked up among known threats: as
/// the fingerprint, but without the modification times, so that it names
/// the contents wherever they are unpacked.
pub open spec fn content_hash(stamps: Seq<StampView>) -> Seq<char> {
    hex_of(sha256(message_of(in_path_order(stamps), false)))
}

/// Whether two lists hold the same characters.
fn same_chars(a: &Vec<char>, b: &Vec<char>) -> (same: bool)
    ensures
        same == (a@ == b@),
{
    if a.len() != b.len() {
        return false;
    }
    let mut i: usize = 0;
    while i < a.len()
        invariant
            i <= a.len(),
            a.len() == b.len(),
            forall|j: int| 0 <= j < i ==> a@[j] == b@[j],
        decreases a.len() - i,
    {
        if a[i] != b[i] {
            return false;
        }
        i = i + 1;
    }
    proof {
        assert(a@ =~= b@);
    }
    true
}

/// The stamps that a list of positions picks from a list of stamps.
spec fn picked(order: Seq<usize>, stamps: Seq<StampView>) -> Seq<StampView> {
    Seq::new(order.len(), |k: int| stamps[order[k] as int])
}

/// Putting a stamp in its place, the search having passed `k` stamps that
/// all come before it.
proof fn lemma_insert_after(sorted: Seq<StampView>, stamp: StampView, k: int)
    requires
        0 <= k <= sorted.len(),
        forall|j: int| 0 <= j < k ==> path_before(#[trigger] sorted[j].path, stamp.path),
    ensures
        inserted(sorted, stamp) == sorted.take(k) + inserted(sorted.skip(k), stamp),
    decreases k,
{
    if k == 0 {
        assert(sorted.skip(0) =~= sorted);
        assert(sorted.take(0) + inserted(sorted, stamp) =~= inserted(sorted, stamp));
    } else {
        lemma_insert_after(sorted, stamp, k - 1);
        let rest = sorted.skip(k - 1);
        assert(rest[0] == sorted[k - 1]);
        assert(path_before(sorted[k - 1].path, stamp.path));
        assert(rest.skip(1) =~= sorted.skip(k));
        assert(sorted.take(k - 1) + (seq![rest[0]] + inserted(sorted.skip(k), stamp)) =~= sorted.take(
            k,
        ) + inserted(sorted.skip(k), stamp));
    }
}

/// The positions of the stamps in path order, one for each path: that of
/// the last stamp given for it.
fn path_order(stamps: &Vec<FileStamp>) -> (order: Vec<usize>)
    ensures
        forall|k: int| 0 <= k < order.len() ==> (#[trigger] order[k]) < stamps.len(),
        picked(order@, stamps.deep_view()) == in_path_order(stamps.deep_view()),
{
    let ghost views = stamps.deep_view();
    let mut keys: Vec<Vec<char>> = Vec::new();
    let mut order: Vec<usize> = Vec::new();
    let mut n: usize = 0;
    proof {
        assert(picked(order@, views) =~= in_path_order(views.take(0)));
    }
    while n < stamps.len()
        invariant
            n <= stamps.len(),
            views == stamps.deep_view(),
            views.len() == stamps.len(),
            keys.len() == n,
            forall|j: int| 0 <= j < n ==> (#[trigger] keys[j])@ == views[j].path,
            forall|k: int| 0 <= k < order.len() ==> (#[trigger] order[k]) < n,
            picked(order@, views) == in_path_order(views.take(n as int)),
        decreases stamps.len() - n,
    {
        let key = chars_of(stamps[n].path.as_str());
        let ghost stamp = views[n as int];
        let ghost sorted = picked(order@, views);
        proof {
            assert(stamp == stamps[n as int]@);
            assert(views.take(n + 1).drop_last() =~= views.take(n as int));
            assert(views.take(n + 1).last() == stamp);
        }
        let mut k: usize = 0;
        while k < order.len() && comes_before(&keys[order[k]], &key)
            invariant
                k <= order.len(),
                keys.len() == n,
                n < stamps.len(),
                views.len() == stamps.len(),
                key@ == stamp.path,
                sorted == picked(order@, views),
                forall|j: int| 0 <= j < n ==> (#[trigger] keys[j])@ == views[j].path,
                forall|j: int| 0 <= j < order.len() ==> (#[trigger] order[j]) < n,
                forall|j: int| 0 <= j < k ==> path_before(#[trigger] sorted[j].path, stamp.path),
            decreases order.len() - k,
        {
            proof {
                assert(sorted[k as int] == views[order[k as int] as int]);
            }
            k = k + 1;
        }
        proof {
            lemma_insert_after(sorted, stamp, k as int);
            if k < order.len() {
                assert(sorted.skip(k as int)[0] == sorted[k as int]);
                assert(sorted[k as int] == views[order[k as int] as int]);
            }
        }
        let replace = k < order.len() && same_chars(&keys[order[k]], &key);
        keys.push(key);
        if replace {
            order.set(k, n);
            proof {
                let rest = sorted.skip(k as int);
                assert(picked(order@, views) =~= sorted.take(k as int) + (seq![stamp] + rest.skip(1)));
            }
        } else {
            order.insert(k, n);
            proof {
                let rest = sorted.skip(k as int);
                if rest.len() == 0 {
                    assert(picked(order@, views) =~= sorted.take(k as int) + seq![stamp]);
                } else {
                    assert(picked(order@, views) =~= sorted.take(k as int) + (seq![stamp] + rest));
                }
            }
        }
        n = n + 1;
    }
    proof {
        assert(views.take(n as int) =~= views);
    }
    order
}

/// Append bytes to a buffer.
fn push_bytes(buffer: &mut Vec<u8>, bytes: &[u8])
    ensures
        final(buffer)@ == old(buffer)@ + bytes@,
{
    let mut i: usize = 0;
    proof {
        assert(buffer@ =~= old(buffer)@ + bytes@.take(0));
    }
    while i < bytes.len()
        invariant
            i <= bytes.len(),
            buffer@ == old(buffer)@ + bytes@.take(i as int),
        decreases bytes.len() - i,
    {
        buffer.push(bytes[i]);
        proof {
            assert(buffer@ =~= old(buffer)@ + bytes@.take(i + 1));
        }
        i = i + 1;
    }
    proof {
        assert(bytes@.take(i as int) =~= bytes@);
    }
}

/// The digest, in hexadecimal, of the message of the stamps in path order.
fn digest_in_path_order(stamps: &Vec<FileStamp>, with_times: bool) -> (hash: String)
    ensures
        hash@ == hex_of(sha256(message_of(in_path_order(stamps.deep_view()), with_times))),
        hash@.len() == 64,
{
    let ghost views = stamps.deep_view();
    let order = path_order(stamps);
    let ghost sorted = picked(order@, views);
    let mut message: Vec<u8> = Vec::new();
    let mut k: usize = 0;
    proof {
        assert(message@ =~= message_of(sorted.take(0), with_times));
    }
    while k < order.len()
        invariant
            k <= order.len(),
            views == stamps.deep_view(),
            views.len() == stamps.len(),
            sorted == picked(order@, views),
            forall|j: int| 0 <= j < order.len() ==> (#[trigger] order[j]) < stamps.len(),
            message@ == message_of(sorted.take(k as int), with_times),
        decreases order.len() - k,
    {
        let stamp = &stamps[order[k]];
        let ghost before = message@;
        proof {
            assert(sorted[k as int] == stamp@);
            assert(sorted.take(k + 1).drop_last() =~= sorted.take(k as int));
            assert(sorted.take(k + 1).last() == stamp@);
        }
        push_bytes(&mut message, stamp.path.as_str().as_bytes());
        let mut size = u64_to_le_bytes(stamp.size);
        message.append(&mut size);
        if with_times {
            let mut mtime = u64_to_le_bytes(stamp.mtime);
            message.append(&mut mtime);
        }
        proof {
            assert(message@ =~= before + stamp_bytes(stamp@, with_times));
        }
        k = k + 1;
    }
    proof {
        assert(sorted.take(k as int) =~= sorted);
    }
    let digest = sha256_digest(&message);
    proof {
        lemma_hex_len(digest@);
    }
    hex_encode(&digest)
}

/// Compute the fingerprint of a directory from the stamps of its regular
/// files: 64 hexadecimal digits.
pub fn compute_directory_hash(stamps: &Vec<FileStamp>) -> (hash: String)
    ensures
        hash@ == fingerprint(stamps.deep_view()),
        hash@.len() == 64,
{
    digest_in_path_order(stamps, true)
}

/// Compute the hash under which a directory is looked up among known
/// threats: 64 hexadecimal digits.
pub fn compute_content_hash(stamps: &Vec<FileStamp>) -> (hash: String)
    ensures
        hash@ == content_hash(stamps.deep_view()),
        hash@.len() == 64,
{
    digest_in_path_order(stamps, false)
}

/// A cached scan result as it is stored.
#[derive(Debug)]
pub struct CacheEntry {
    pub version: u32,
    pub directory_hash: String,
    pub result: ScanResult,
}

/// What a `CacheEntry` holds.
pub struct CacheEntryView {
    pub version: u32,
    pub directory_hash: Seq<char>,
    pub result: ScanResultView,
}

impl View for CacheEntry {
    type V = CacheEntryView;

    open spec fn view(&self) -> CacheEntryView {
        CacheEntryView {
            version: self.version,
            directory_hash: self.directory_hash@,
            result: self.result@,
        }
    }
}

/// The cache directory below a home directory: `<home>/.sigil/cache`.
pub fn cache_dir(home: &str) -> (path: String)
    ensures
        path@ == joined_path(joined_path(home@, ".sigil"@), "cache"@),
{
    let config = join_path(home, ".sigil");
    join_path(config.as_str(), "cache")
}

/// The name of the file that caches the result for a fingerprint: the
/// first 16 characters of the fingerprint, then `.json`.
pub fn cache_file_name(dir_hash: &str) -> (name: String)
    requires
        dir_hash@.len() >= FILE_NAME_PREFIX,
    ensures
        name@ == dir_hash@.take(FILE_NAME_PREFIX as int) + ".json"@,
{
    let mut name = dir_hash.substring_char(0, FILE_NAME_PREFIX).to_string();
    name.append(".json");
    proof {
        assert(dir_hash@.subrange(0, FILE_NAME_PREFIX as int) =~= dir_hash@.take(
            FILE_NAME_PREFIX as int,
        ));
    }
    name
}

/// Whether a stored entry answers for a fingerprint: its version is the
/// current one and its fingerprint is the one asked for.
pub open spec fn is_hit(entry: CacheEntryView, dir_hash: Seq<char>) -> bool {
    entry.version == CACHE_VERSION && entry.directory_hash == dir_hash
}

/// The cached result for a directory with the given fingerprint, out of the
/// entry found under its name: a hit where version and fingerprint both
/// agree, else a miss.
pub fn load_cached(entry: CacheEntry, dir_hash: &str) -> (cached: Option<ScanResult>)
    ensures
        match cached {
            Some(result) => is_hit(entry@, dir_hash@) && result@ == entry@.result,
            None => !is_hit(entry@, dir_hash@),
        },
{
    let wanted = dir_hash.to_string();
    if entry.version == CACHE_VERSION && entry.directory_hash == wanted {
        Some(entry.result)
    } else {
        None
    }
}

/// The entry that caches a result for a directory with the given
/// fingerprint.
pub fn save_to_cache(dir_hash: &str, result: ScanResult) -> (entry: CacheEntry)
    ensures
        entry@ == (CacheEntryView {
            version: CACHE_VERSION,
            directory_hash: dir_hash@,
            result: result@,
        }),
{
    CacheEntry { version: CACHE_VERSION, directory_hash: dir_hash.to_string(), result }
}

/// Storing a result and loading it for the same fingerprint gives the
/// result back; loading it for another fingerprint is a miss.
pub proof fn lemma_cache_round_trip(
    stored_for: Seq<char>,
    asked_for: Seq<char>,
    result: ScanResultView,
)
    ensures
        is_hit(
            CacheEntryView { version: CACHE_VERSION, directory_hash: stored_for, result },
            asked_for,
        ) <==> stored_for == asked_for,
{
}

/// Whether a file of the cache directory is a cached result: its name ends
/// in `.json` and has something before that.
pub fn is_cache_file(name: &str) -> (cached: bool)
    ensures
        cached == (".json"@.is_suffix_of(name@) && name@.len() > 5),
{
    ends_with(name, ".json") && name.unicode_len() > 5
}

/// A file of the cache directory.
#[derive(Debug)]
pub struct CacheFile {
    pub name: String,
    /// Time of the last modification, in nanoseconds since the Unix epoch;
    /// 0 where it is not known.
    pub modified: u128,
}

/// What a `CacheFile` holds, with its name as a sequence of characters.
pub struct CacheFileView {
    pub name: Seq<char>,
    pub modified: u128,
}

impl View for CacheFile {
    type V = CacheFileView;

    open spec fn view(&self) -> CacheFileView {
        CacheFileView { name: self.name@, modified: self.modified }
    }
}

impl DeepView for CacheFile {
    type V = CacheFileView;

    open spec fn deep_view(&self) -> CacheFileView {
        self@
    }
}

/// A list of files, oldest first, with one more file put behind all that
/// are not younger than it.
pub open spec fn placed_by_age(sorted: Seq<CacheFileView>, file: CacheFileView) -> Seq<
    CacheFileView,
>
    decreases sorted.len(),
{
    if sorted.len() == 0 {
        seq![file]
    } else if sorted[0].modified <= file.modified {
        seq![sorted[0]] + placed_by_age(sorted.skip(1), file)
    } else {
        seq![file] + sorted
    }
}

/// The files oldest first; files of the same age stay in the order given.
pub open spec fn oldest_first(files: Seq<CacheFileView>) -> Seq<CacheFileView>
    decreases files.len(),
{
    if files.len() == 0 {
        Seq::empty()
    } else {
        placed_by_age(oldest_first(files.drop_last()), files.last())
    }
}

/// The files that leave a cache which keeps `max_entries` at most: none
/// where it holds no more than that, else the oldest ones beyond that
/// number, oldest first.
pub open spec fn evicted(files: Seq<CacheFileView>, max_entries: usize) -> Seq<CacheFileView> {
    if files.len() <= max_entries {
        Seq::empty()
    } else {
        oldest_first(files).take(files.len() - max_entries)
    }
}

proof fn lemma_placed_len(sorted: Seq<CacheFileView>, file: CacheFileView)
    ensures
        placed_by_age(sorted, file).len() == sorted.len() + 1,
    decreases sorted.len(),
{
    if sorted.len() > 0 && sorted[0].modified <= file.modified {
        lemma_placed_len(sorted.skip(1), file);
    }
}

proof fn lemma_oldest_first_len(files: Seq<CacheFileView>)
    ensures
        oldest_first(files).len() == files.len(),
    decreases files.len(),
{
    if files.len() > 0 {
        lemma_oldest_first_len(files.drop_last());
        lemma_placed_len(oldest_first(files.drop_last()), files.last());
    }
}

/// The files that a list of positions picks from a list of files.
spec fn picked_files(order: Seq<usize>, files: Seq<CacheFileView>) -> Seq<CacheFileView> {
    Seq::new(order.len(), |k: int| files[order[k] as int])
}

/// Placing a file, the search having passed `k` files that are not
/// younger.
proof fn lemma_place_after(sorted: Seq<CacheFileView>, file: CacheFileView, k: int)
    requires
        0 <= k <= sorted.len(),
        forall|j: int| 0 <= j < k ==> (#[trigger] sorted[j]).modified <= file.modified,
    ensures
        placed_by_age(sorted, file) == sorted.take(k) + placed_by_age(sorted.skip(k), file),
    decreases k,
{
    if k == 0 {
        assert(sorted.skip(0) =~= sorted);
        assert(sorted.take(0) + placed_by_age(sorted, file) =~= placed_by_age(sorted, file));
    } else {
        lemma_place_after(sorted, file, k - 1);
        let rest = sorted.skip(k - 1);
        assert(rest[0] == sorted[k - 1]);
        assert(sorted[k - 1].modified <= file.modified);
        assert(rest.skip(1) =~= sorted.skip(k));
        assert(sorted.take(k - 1) + (seq![rest[0]] + placed_by_age(sorted.skip(k), file))
            =~= sorted.take(k) + placed_by_age(sorted.skip(k), file));
    }
}

/// The positions of the files, oldest first.
fn age_order(files: &Vec<CacheFile>) -> (order: Vec<usize>)
    ensures
        order.len() == files.len(),
        forall|k: int| 0 <= k < order.len() ==> (#[trigger] order[k]) < files.len(),
        picked_files(order@, files.deep_view()) == oldest_first(files.deep_view()),
{
    let ghost views = files.deep_view();
    let mut order: Vec<usize> = Vec::new();
    let mut n: usize = 0;
    proof {
        assert(picked_files(order@, views) =~= oldest_first(views.take(0)));
    }
    while n < files.len()
        invariant
            n <= files.len(),
            views == files.deep_view(),
            views.len() == files.len(),
            order.len() == n,
            forall|k: int| 0 <= k < order.len() ==> (#[trigger] order[k]) < n,
            picked_files(order@, views) == oldest_first(views.take(n as int)),
        decreases files.len() - n,
    {
        let modified = files[n].modified;
        let ghost file = views[n as int];
        let ghost sorted = picked_files(order@, views);
        proof {
            assert(file == files[n as int]@);
            assert(views.take(n + 1).drop_last() =~= views.take(n as int));
            assert(views.take(n + 1).last() == file);
        }
        let mut k: usize = 0;
        while k < order.len() && files[order[k]].modified <= modified
            invariant
                k <= order.len(),
                n < files.len(),
                views == files.deep_view(),
                views.len() == files.len(),
                modified == file.modified,
                sorted == picked_files(order@, views),
                forall|j: int| 0 <= j < order.len() ==> (#[trigger] order[j]) < n,
                forall|j: int| 0 <= j < k ==> (#[trigger] sorted[j]).modified <= file.modified,
            decreases order.len() - k,
        {
            proof {
                assert(sorted[k as int] == views[order[k as int] as int]);
                assert(views[order[k as int] as int] == files[order[k as int] as int]@);
            }
            k = k + 1;
        }
        proof {
            lemma_place_after(sorted, file, k as int);
            if k < order.len() {
                assert(sorted.skip(k as int)[0] == sorted[k as int]);
                assert(sorted[k as int] == views[order[k as int] as int]);
                assert(views[order[k as int] as int] == files[order[k as int] as int]@);
            }
        }
        order.insert(k, n);
        proof {
            let rest = sorted.skip(k as int);
            if rest.len() == 0 {
                assert(picked_files(order@, views) =~= sorted.take(k as int) + seq![file]);
            } else {
                assert(picked_files(order@, views) =~= sorted.take(k as int) + (seq![file] + rest));
            }
        }
        n = n + 1;
    }
    proof {
        assert(views.take(n as int) =~= views);
    }
    order
}

/// Choose the files to remove so that the cache keeps `max_entries` at
/// most: the oldest ones, oldest first.
pub fn prune_cache(files: &Vec<CacheFile>, max_entries: usize) -> (victims: Vec<CacheFile>)
    ensures
        victims.deep_view() == evicted(files.deep_view(), max_entries),
{
    let ghost views = files.deep_view();
    let mut victims: Vec<CacheFile> = Vec::new();
    if files.len() <= max_entries {
        proof {
            assert(victims.deep_view() =~= Seq::<CacheFileView>::empty());
        }
        return victims;
    }
    let order = age_order(files);
    let ghost sorted = picked_files(order@, views);
    let count: usize = files.len() - max_entries;
    let mut k: usize = 0;
    proof {
        assert(victims.deep_view() =~= sorted.take(0));
    }
    while k < count
        invariant
            k <= count <= order.len(),
            order.len() == files.len(),
            views == files.deep_view(),
            views.len() == files.len(),
            sorted == picked_files(order@, views),
            forall|j: int| 0 <= j < order.len() ==> (#[trigger] order[j]) < files.len(),
            victims.deep_view() == sorted.take(k as int),
        decreases count - k,
    {
        let file = &files[order[k]];
        let ghost before = victims.deep_view();
        victims.push(CacheFile { name: file.name.clone(), modified: file.modified });
        proof {
            assert(sorted[k as int] == file@);
            assert(victims.deep_view() =~= before.push(file@));
            assert(before.push(file@) =~= sorted.take(k + 1));
        }
        k = k + 1;
    }
    victims
}

/// Whether each stamp's path comes before the paths of all stamps behind
/// it.
pub open spec fn strictly_ordered(stamps: Seq<StampView>) -> bool {
    forall|i: int, j: int|
        0 <= i < j < stamps.len() ==> path_before(
            (#[trigger] stamps[i]).path,
            (#[trigger] stamps[j]).path,
        )
}

/// The last stamp of a list that has a given path, if any has it.
pub open spec fn last_stamp(stamps: Seq<StampView>, path: Seq<char>) -> Option<StampView>
    decreases stamps.len(),
{
    if stamps.len() == 0 {
        None
    } else if stamps.last().path == path {
        Some(stamps.last())
    } else {
        last_stamp(stamps.drop_last(), path)
    }
}

/// What putting a stamp in its place does to a list in path order: the
/// list stays in path order, and holds the stamp and every stamp it held
/// with another path, nothing else.
proof fn lemma_inserted(sorted: Seq<StampView>, stamp: StampView)
    requires
        strictly_ordered(sorted),
    ensures
        strictly_ordered(inserted(sorted, stamp)),
        forall|e: StampView|
            #[trigger] inserted(sorted, stamp).contains(e) <==> (e == stamp || (sorted.contains(e)
                && e.path != stamp.path)),
    decreases sorted.len(),
{
    let out = inserted(sorted, stamp);
    if sorted.len() == 0 {
        assert(out[0] == stamp);
        assert forall|e: StampView| #[trigger] out.contains(e) <==> (e == stamp || (
        sorted.contains(e) && e.path != stamp.path)) by {
            if e == stamp {
                assert(out[0] == e);
            }
        }
    } else {
        let head = sorted[0];
        let tail = sorted.skip(1);
        assert forall|i: int, j: int| 0 <= i < j < tail.len() implies path_before(
            (#[trigger] tail[i]).path,
            (#[trigger] tail[j]).path,
        ) by {
            assert(tail[i] == sorted[i + 1]);
            assert(tail[j] == sorted[j + 1]);
        }
        assert forall|e: StampView| sorted.contains(e) <==> (e == head || tail.contains(e)) by {
            if sorted.contains(e) {
                let k = choose|k: int| 0 <= k < sorted.len() && sorted[k] == e;
                if k > 0 {
                    assert(tail[k - 1] == e);
                }
            }
            if tail.contains(e) {
                let k = choose|k: int| 0 <= k < tail.len() && tail[k] == e;
                assert(sorted[k + 1] == e);
            }
            if e == head {
                assert(sorted[0] == e);
            }
        }
        assert forall|e: StampView| tail.contains(e) implies path_before(head.path, e.path) by {
            let k = choose|k: int| 0 <= k < tail.len() && tail[k] == e;
            assert(sorted[k + 1] == e);
        }
        lemma_not_before_itself(head.path);
        lemma_not_before_itself(stamp.path);
        if path_before(head.path, stamp.path) {
            let rest = inserted(tail, stamp);
            lemma_inserted(tail, stamp);
            assert(out =~= seq![head] + rest);
            assert forall|e: StampView| out.contains(e) <==> (e == head || rest.contains(e)) by {
                if out.contains(e) {
                    let k = choose|k: int| 0 <= k < out.len() && out[k] == e;
                    if k > 0 {
                        assert(rest[k - 1] == e);
                    }
                }
                if rest.contains(e) {
                    let k = choose|k: int| 0 <= k < rest.len() && rest[k] == e;
                    assert(out[k + 1] == e);
                }
                if e == head {
                    assert(out[0] == e);
                }
            }
            assert forall|i: int, j: int| 0 <= i < j < out.len() implies path_before(
                (#[trigger] out[i]).path,
                (#[trigger] out[j]).path,
            ) by {
                if i == 0 {
                    assert(out[j] == rest[j - 1]);
                    assert(rest.contains(out[j]));
                } else {
                    assert(out[i] == rest[i - 1]);
                    assert(out[j] == rest[j - 1]);
                }
            }
            assert forall|e: StampView| #[trigger] out.contains(e) <==> (e == stamp || (
            sorted.contains(e) && e.path != stamp.path)) by {}
        } else if head.path == stamp.path {
            assert(out =~= seq![stamp] + tail);
            assert forall|e: StampView| out.contains(e) <==> (e == stamp || tail.contains(e)) by {
                if out.contains(e) {
                    let k = choose|k: int| 0 <= k < out.len() && out[k] == e;
                    if k > 0 {
                        assert(tail[k - 1] == e);
                    }
                }
                if tail.contains(e) {
                    let k = choose|k: int| 0 <= k < tail.len() && tail[k] == e;
                    assert(out[k + 1] == e);
                }
                if e == stamp {
                    assert(out[0] == e);
                }
            }
            assert forall|i: int, j: int| 0 <= i < j < out.len() implies path_before(
                (#[trigger] out[i]).path,
                (#[trigger] out[j]).path,
            ) by {
                assert(out[j] == tail[j - 1]);
                assert(tail.contains(out[j]));
                if i > 0 {
                    assert(out[i] == tail[i - 1]);
                }
            }
            assert forall|e: StampView| #[trigger] out.contains(e) <==> (e == stamp || (
            sorted.contains(e) && e.path != stamp.path)) by {}
        } else {
            lemma_one_comes_first(head.path, stamp.path);
            assert(path_before(stamp.path, head.path));
            assert(out =~= seq![stamp] + sorted);
            assert forall|e: StampView| sorted.contains(e) implies path_before(
                stamp.path,
                e.path,
            ) by {
                if e != head {
                    lemma_before_is_transitive(stamp.path, head.path, e.path);
                }
            }
            assert forall|e: StampView| out.contains(e) <==> (e == stamp || sorted.contains(e)) by {
                if out.contains(e) {
                    let k = choose|k: int| 0 <= k < out.len() && out[k] == e;
                    if k > 0 {
                        assert(sorted[k - 1] == e);
                    }
                }
                if sorted.contains(e) {
                    let k = choose|k: int| 0 <= k < sorted.len() && sorted[k] == e;
                    assert(out[k + 1] == e);
                }
                if e == stamp {
                    assert(out[0] == e);
                }
            }
            assert forall|i: int, j: int| 0 <= i < j < out.len() implies path_before(
                (#[trigger] out[i]).path,
                (#[trigger] out[j]).path,
            ) by {
                assert(out[j] == sorted[j - 1]);
                assert(sorted.contains(out[j]));
                if i > 0 {
                    assert(out[i] == sorted[i - 1]);
                }
            }
            assert forall|e: StampView| #[trigger] out.contains(e) <==> (e == stamp || (
            sorted.contains(e) && e.path != stamp.path)) by {}
        }
    }
}

/// What the fingerprint digests: the stamps in the order of their paths,
/// each path once, with the last stamp given for it, and nothing else.
pub proof fn lemma_path_order(stamps: Seq<StampView>)
    ensures
        strictly_ordered(in_path_order(stamps)),
        forall|e: StampView|
            #[trigger] in_path_order(stamps).contains(e) <==> last_stamp(stamps, e.path) == Some(e),
    decreases stamps.len(),
{
    if stamps.len() > 0 {
        lemma_path_order(stamps.drop_last());
        lemma_inserted(in_path_order(stamps.drop_last()), stamps.last());
    }
}

/// Two lists in path order that hold the same stamps are the same list.
proof fn lemma_path_order_is_unique(a: Seq<StampView>, b: Seq<StampView>)
    requires
        strictly_ordered(a),
        strictly_ordered(b),
        forall|e: StampView| a.contains(e) <==> b.contains(e),
    ensures
        a == b,
    decreases a.len(),
{
    if a.len() == 0 {
        if b.len() > 0 {
            assert(b.contains(b[0]));
        }
        assert(a =~= b);
    } else {
        assert(a.contains(a[0]));
        let k = choose|k: int| 0 <= k < b.len() && b[k] == a[0];
        assert(b.contains(b[0]));
        let m = choose|m: int| 0 <= m < a.len() && a[m] == b[0];
        lemma_not_before_itself(a[0].path);
        if k > 0 {
            assert(path_before(b[0].path, b[k].path));
            if m > 0 {
                assert(path_before(a[0].path, a[m].path));
                lemma_before_is_transitive(a[0].path, b[0].path, a[0].path);
            }
        }
        assert(a[0] == b[0]);
        let rest_a = a.skip(1);
        let rest_b = b.skip(1);
        assert forall|i: int, j: int| 0 <= i < j < rest_a.len() implies path_before(
            (#[trigger] rest_a[i]).path,
            (#[trigger] rest_a[j]).path,
        ) by {
            assert(rest_a[i] == a[i + 1]);
            assert(rest_a[j] == a[j + 1]);
        }
        assert forall|i: int, j: int| 0 <= i < j < rest_b.len() implies path_before(
            (#[trigger] rest_b[i]).path,
            (#[trigger] rest_b[j]).path,
        ) by {
            assert(rest_b[i] == b[i + 1]);
            assert(rest_b[j] == b[j + 1]);
        }
        assert forall|e: StampView| rest_a.contains(e) <==> rest_b.contains(e) by {
            if rest_a.contains(e) {
                let i = choose|i: int| 0 <= i < rest_a.len() && rest_a[i] == e;
                assert(a[i + 1] == e);
                assert(path_before(a[0].path, a[i + 1].path));
                assert(a.contains(e));
                let j = choose|j: int| 0 <= j < b.len() && b[j] == e;
                assert(rest_b[j - 1] == e);
            }
            if rest_b.contains(e) {
                let i = choose|i: int| 0 <= i < rest_b.len() && rest_b[i] == e;
                assert(b[i + 1] == e);
                assert(path_before(b[0].path, b[i + 1].path));
                assert(b.contains(e));
                let j = choose|j: int| 0 <= j < a.len() && a[j] == e;
                assert(rest_a[j - 1] == e);
            }
        }
        lemma_path_order_is_unique(rest_a, rest_b);
        assert(a =~= seq![a[0]] + rest_a);
        assert(b =~= seq![b[0]] + rest_b);
    }
}

/// The fingerprint does not depend on the order in which the files are
/// listed: two lists that give the same last stamp for every path have the
/// same fingerprint.
pub proof fn lemma_fingerprint_ignores_listing_order(a: Seq<StampView>, b: Seq<StampView>)
    requires
        forall|path: Seq<char>| last_stamp(a, path) == last_stamp(b, path),
    ensures
        in_path_order(a) == in_path_order(b),
        fingerprint(a) == fingerprint(b),
        content_hash(a) == content_hash(b),
{
    lemma_path_order(a);
    lemma_path_order(b);
    assert forall|e: StampView| in_path_order(a).contains(e) <==> in_path_order(b).contains(
        e,
    ) by {
        assert(last_stamp(a, e.path) == last_stamp(b, e.path));
    }
    lemma_path_order_is_unique(in_path_order(a), in_path_order(b));
}

/// A stamp with another modification time.
pub open spec fn touched(stamp: StampView, mtime: u64) -> StampView {
    StampView { mtime, ..stamp }
}

/// Touching a file changes what the fingerprint digests: where one stamp
/// of a list gets another modification time, the message of the list is
/// another one. Whether its digest is another one too is the digest's
/// matter.
pub proof fn lemma_touch_changes_message(stamps: Seq<StampView>, k: int, mtime: u64)
    requires
        0 <= k < stamps.len(),
        mtime != stamps[k].mtime,
    ensures
        message_of(stamps.update(k, touched(stamps[k], mtime)), true) != message_of(stamps, true),
    decreases stamps.len(),
{
    let after = stamps.update(k, touched(stamps[k], mtime));
    let head = message_of(stamps.drop_last(), true);
    let head_after = message_of(after.drop_last(), true);
    let tail = stamp_bytes(stamps.last(), true);
    let tail_after = stamp_bytes(after.last(), true);
    lemma_auto_spec_u64_to_from_le_bytes();
    if k == stamps.len() - 1 {
        assert(after.drop_last() =~= stamps.drop_last());
        let old_time = spec_u64_to_le_bytes(stamps[k].mtime);
        let new_time = spec_u64_to_le_bytes(mtime);
        let before_time = encode_utf8(stamps[k].path) + spec_u64_to_le_bytes(stamps[k].size);
        assert(tail == before_time + old_time);
        assert(tail_after == before_time + new_time);
        if head + tail == head_after + tail_after {
            let whole = head + tail;
            let cut: int = (head.len() + before_time.len()) as int;
            assert(whole.subrange(cut, cut + 8) =~= old_time);
            assert((head_after + tail_after).subrange(cut, cut + 8) =~= new_time);
        }
    } else {
        assert(after.last() == stamps.last());
        assert(after.drop_last() =~= stamps.drop_last().update(k, touched(stamps[k], mtime)));
        assert(stamps.drop_last()[k] == stamps[k]);
        lemma_touch_changes_message(stamps.drop_last(), k, mtime);
        if head + tail == head_after + tail {
            assert((head + tail).len() == (head_after + tail).len());
            assert((head + tail).subrange(0, head.len() as int) =~= head);
            assert((head_after + tail).subrange(0, head.len() as int) =~= head_after);
        }
    }
}

/// Whether no file is older than a file before it.
pub open spec fn ordered_by_age(files: Seq<CacheFileView>) -> bool {
    forall|i: int, j: int|
        0 <= i < j < files.len() ==> (#[trigger] files[i]).modified <= (#[trigger] files[j]).modified
}

/// What placing a file does to a list ordered by age: the list stays
/// ordered, and holds the file and what it held before, nothing else.
proof fn lemma_placed(sorted: Seq<CacheFileView>, file: CacheFileView)
    requires
        ordered_by_age(sorted),
    ensures
        ordered_by_age(placed_by_age(sorted, file)),
        forall|e: CacheFileView|
            #[trigger] placed_by_age(sorted, file).contains(e) <==> (e == file || sorted.contains(e)),
    decreases sorted.len(),
{
    let out = placed_by_age(sorted, file);
    if sorted.len() == 0 {
        assert(out[0] == file);
        assert forall|e: CacheFileView| #[trigger] out.contains(e) <==> (e == file
            || sorted.contains(e)) by {
            if e == file {
                assert(out[0] == e);
            }
        }
    } else {
        let head = sorted[0];
        let (first, rest) = if head.modified <= file.modified {
            (head, placed_by_age(sorted.skip(1), file))
        } else {
            (file, sorted)
        };
        let tail = sorted.skip(1);
        assert forall|i: int, j: int| 0 <= i < j < tail.len() implies (#[trigger] tail[i]).modified
            <= (#[trigger] tail[j]).modified by {
            assert(tail[i] == sorted[i + 1]);
            assert(tail[j] == sorted[j + 1]);
        }
        assert forall|e: CacheFileView| sorted.contains(e) <==> (e == head || tail.contains(e)) by {
            if sorted.contains(e) {
                let k = choose|k: int| 0 <= k < sorted.len() && sorted[k] == e;
                if k > 0 {
                    assert(tail[k - 1] == e);
                }
            }
            if tail.contains(e) {
                let k = choose|k: int| 0 <= k < tail.len() && tail[k] == e;
                assert(sorted[k + 1] == e);
            }
            if e == head {
                assert(sorted[0] == e);
            }
        }
        assert forall|e: CacheFileView| sorted.contains(e) implies head.modified <= e.modified by {
            let k = choose|k: int| 0 <= k < sorted.len() && sorted[k] == e;
            if k > 0 {
                assert(sorted[0].modified <= sorted[k].modified);
            }
        }
        if head.modified <= file.modified {
            lemma_placed(tail, file);
        }
        assert(out =~= seq![first] + rest);
        assert forall|e: CacheFileView| out.contains(e) <==> (e == first || rest.contains(e)) by {
            if out.contains(e) {
                let k = choose|k: int| 0 <= k < out.len() && out[k] == e;
                if k > 0 {
                    assert(rest[k - 1] == e);
                }
            }
            if rest.contains(e) {
                let k = choose|k: int| 0 <= k < rest.len() && rest[k] == e;
                assert(out[k + 1] == e);
            }
            if e == first {
                assert(out[0] == e);
            }
        }
        assert forall|i: int, j: int| 0 <= i < j < out.len() implies (#[trigger] out[i]).modified
            <= (#[trigger] out[j]).modified by {
            assert(out[j] == rest[j - 1]);
            assert(rest.contains(out[j]));
            if i > 0 {
                assert(out[i] == rest[i - 1]);
            }
        }
        assert forall|e: CacheFileView| #[trigger] out.contains(e) <==> (e == file
            || sorted.contains(e)) by {}
    }
}

/// The files oldest first are the files given, ordered by age, as many as
/// were given: whatever leaves the cache is no younger than what stays.
pub proof fn lemma_oldest_first(files: Seq<CacheFileView>)
    ensures
        ordered_by_age(oldest_first(files)),
        oldest_first(files).len() == files.len(),
        forall|e: CacheFileView| #[trigger] oldest_first(files).contains(e) <==> files.contains(e),
    decreases files.len(),
{
    lemma_oldest_first_len(files);
    if files.len() > 0 {
        let before = files.drop_last();
        lemma_oldest_first(before);
        lemma_placed(oldest_first(before), files.last());
        assert forall|e: CacheFileView| files.contains(e) <==> (e == files.last()
            || before.contains(e)) by {
            if files.contains(e) {
                let k = choose|k: int| 0 <= k < files.len() && files[k] == e;
                if k < files.len() - 1 {
                    assert(before[k] == e);
                }
            }
            if before.contains(e) {
                let k = choose|k: int| 0 <= k < before.len() && before[k] == e;
                assert(files[k] == e);
            }
            if e == files.last() {
                assert(files[files.len() - 1] == e);
            }
        }
    } else {
        assert forall|e: CacheFileView| #[trigger] oldest_first(files).contains(e)
            <==> files.contains(e) by {}
    }
}

} // verus!
