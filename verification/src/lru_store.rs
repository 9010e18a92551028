//! The recency-ordered store behind the decode cache.
//!
//! The store itself is `lru::LruCache`. Nothing in this file is proved: each
//! function below states, over a sequence model of the store, what the
//! corresponding `lru` method does. The cache logic in `cache` is verified
//! against these statements.

use std::num::NonZeroUsize;
use std::sync::Arc;

use lru::LruCache;
use vstd::prelude::*;

use crate::buffer::AudioData;

verus! {

/// Modification time of a file, as whole seconds and nanoseconds since the
/// Unix epoch.
#[derive(Clone, Copy, Debug, PartialEq, Eq, Structural)]
pub struct FileStamp {
    pub secs: u64,
    pub nanos: u32,
}

/// One cached decode.
#[derive(Clone, Debug)]
pub struct CacheEntry {
    /// The decoded audio, shared with every playback that uses it.
    pub audio_data: Arc<AudioData>,
    /// Modification time of the file when it was decoded.
    pub file_modified: Option<FileStamp>,
    /// Estimated footprint, for the byte budget.
    pub size_bytes: usize,
}

/// The store's contents as (path, entry) pairs.
pub type Slots = Seq<(Seq<char>, CacheEntry)>;

/// `lru::LruCache`, carried as a value that only the functions below look
/// into.
#[verifier::external_type_specification]
#[verifier::external_body]
#[verifier::reject_recursive_types(K)]
#[verifier::reject_recursive_types(V)]
#[verifier::reject_recursive_types(S)]
pub struct ExLruCache<K, V, S>(LruCache<K, V, S>);

/// `lru::DefaultHasher`, the hasher of a store made by `LruCache::new`.
#[verifier::external_type_specification]
#[verifier::external_body]
pub struct ExDefaultHasher(lru::DefaultHasher);

/// What the store holds, as pairs of path and entry, least recently used
/// first.
pub uninterp spec fn lru_slots(store: LruCache<String, CacheEntry>) -> Seq<(Seq<char>, CacheEntry)>;

/// The number of entries the store was created for.
pub uninterp spec fn lru_limit(store: LruCache<String, CacheEntry>) -> nat;

/// Whether some slot is keyed by `path`.
pub open spec fn holds_path(slots: Slots, path: Seq<char>) -> bool {
    exists|i: int| 0 <= i < slots.len() && (#[trigger] slots[i]).0 == path
}

/// The position of the slot keyed by `path`, if there is one.
pub open spec fn slot_of(slots: Slots, path: Seq<char>) -> int {
    choose|i: int| 0 <= i < slots.len() && (#[trigger] slots[i]).0 == path
}

/// No path keys two slots.
pub open spec fn distinct_paths(slots: Slots) -> bool {
    forall|i: int, j: int|
        0 <= i < slots.len() && 0 <= j < slots.len() && (#[trigger] slots[i]).0 == (
        #[trigger] slots[j]).0 ==> i == j
}

/// `slots` after the slot at `i` has become the most recently used.
pub open spec fn touched(slots: Slots, i: int) -> Slots {
    slots.remove(i).push(slots[i])
}

/// `LruCache::new`: an empty store for at most `limit` entries.
#[verifier::external_body]
pub(crate) fn lru_new(limit: usize) -> (store: LruCache<String, CacheEntry>)
    requires
        limit > 0,
    ensures
        lru_slots(store) == Slots::empty(),
        lru_limit(store) == limit,
{
    LruCache::new(NonZeroUsize::new(limit).unwrap())
}

/// `LruCache::len`: the number of entries.
#[verifier::external_body]
pub(crate) fn lru_len(store: &LruCache<String, CacheEntry>) -> (n: usize)
    ensures
        n == lru_slots(*store).len(),
{
    store.len()
}

/// `LruCache::contains`: whether an entry stands under `path`; the order of
/// the entries is not touched.
#[verifier::external_body]
pub(crate) fn lru_contains(store: &LruCache<String, CacheEntry>, path: &str) -> (held: bool)
    ensures
        held == holds_path(lru_slots(*store), path@),
{
    store.contains(path)
}

/// `LruCache::get`: hands out a copy of the entry under `path` and makes it
/// the most recently used; leaves the store alone when `path` is absent.
#[verifier::external_body]
pub(crate) fn lru_get(store: &mut LruCache<String, CacheEntry>, path: &str) -> (found: Option<
    CacheEntry,
>)
    ensures
        lru_limit(*final(store)) == lru_limit(*old(store)),
        holds_path(lru_slots(*old(store)), path@) ==> found == Some(
            lru_slots(*old(store))[slot_of(lru_slots(*old(store)), path@)].1,
        ) && lru_slots(*final(store)) == touched(
            lru_slots(*old(store)),
            slot_of(lru_slots(*old(store)), path@),
        ),
        !holds_path(lru_slots(*old(store)), path@) ==> found is None && lru_slots(*final(store))
            == lru_slots(*old(store)),
{
    store.get(path).cloned()
}

/// `LruCache::pop`: removes and returns the entry under `path`, keeping the
/// order of the others; leaves the store alone when `path` is absent.
#[verifier::external_body]
pub(crate) fn lru_pop(store: &mut LruCache<String, CacheEntry>, path: &str) -> (removed: Option<
    CacheEntry,
>)
    ensures
        lru_limit(*final(store)) == lru_limit(*old(store)),
        holds_path(lru_slots(*old(store)), path@) ==> removed == Some(
            lru_slots(*old(store))[slot_of(lru_slots(*old(store)), path@)].1,
        ) && lru_slots(*final(store)) == lru_slots(*old(store)).remove(
            slot_of(lru_slots(*old(store)), path@),
        ),
        !holds_path(lru_slots(*old(store)), path@) ==> removed is None && lru_slots(
            *final(store),
        ) == lru_slots(*old(store)),
{
    store.pop(path)
}

/// `LruCache::pop_lru`: removes and returns the least recently used entry with
/// its path, or returns `None` on an empty store.
#[verifier::external_body]
pub(crate) fn lru_pop_lru(store: &mut LruCache<String, CacheEntry>) -> (removed: Option<
    (String, CacheEntry),
>)
    ensures
        lru_limit(*final(store)) == lru_limit(*old(store)),
        lru_slots(*old(store)).len() > 0 ==> (removed matches Some(pair) && (pair.0@, pair.1)
            == lru_slots(*old(store))[0]) && lru_slots(*final(store)) == lru_slots(
            *old(store),
        ).drop_first(),
        lru_slots(*old(store)).len() == 0 ==> removed is None && lru_slots(*final(store))
            == lru_slots(*old(store)),
{
    store.pop_lru()
}

/// `LruCache::put`: stores `entry` under `path` as the most recently used.
/// An entry already under `path` is replaced and returned. Otherwise a store
/// that is full first drops its least recently used entry.
#[verifier::external_body]
pub(crate) fn lru_put(
    store: &mut LruCache<String, CacheEntry>,
    path: String,
    entry: CacheEntry,
) -> (replaced: Option<CacheEntry>)
    ensures
        lru_limit(*final(store)) == lru_limit(*old(store)),
        holds_path(lru_slots(*old(store)), path@) ==> replaced == Some(
            lru_slots(*old(store))[slot_of(lru_slots(*old(store)), path@)].1,
        ) && lru_slots(*final(store)) == lru_slots(*old(store)).remove(
            slot_of(lru_slots(*old(store)), path@),
        ).push((path@, entry)),
        !holds_path(lru_slots(*old(store)), path@) && lru_slots(*old(store)).len() == lru_limit(
            *old(store),
        ) ==> replaced is None && lru_slots(*final(store)) == lru_slots(
            *old(store),
        ).drop_first().push((path@, entry)),
        !holds_path(lru_slots(*old(store)), path@) && lru_slots(*old(store)).len() != lru_limit(
            *old(store),
        ) ==> replaced is None && lru_slots(*final(store)) == lru_slots(*old(store)).push(
            (path@, entry),
        ),
{
    store.put(path, entry)
}

/// `LruCache::clear`: removes every entry.
#[verifier::external_body]
pub(crate) fn lru_clear(store: &mut LruCache<String, CacheEntry>)
    ensures
        lru_limit(*final(store)) == lru_limit(*old(store)),
        lru_slots(*final(store)) == Slots::empty(),
{
    store.clear()
}

/// `Arc::clone`: another handle to the same audio.
#[verifier::external_body]
pub(crate) fn share_audio(audio: &Arc<AudioData>) -> (shared: Arc<AudioData>)
    ensures
        shared == *audio,
{
    Arc::clone(audio)
}

} // verus!
