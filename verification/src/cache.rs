//! Byte-budgeted cache of decoded audio, least recently used out first.
//!
//! The cache is modelled by [`AudioCache::slots`]: its (path, entry) pairs from
//! the least to the most recently used. Every operation is specified as a
//! function on that sequence.

use std::sync::Arc;

use lru::LruCache;
use vstd::prelude::*;

use crate::buffer::{footprint_of, AudioData};
use crate::error::AudioError;
use crate::lru_store::{
    distinct_paths, holds_path, lru_clear, lru_contains, lru_get, lru_len, lru_limit, lru_new, lru_pop,
    lru_pop_lru, lru_put, lru_slots, share_audio, slot_of, touched, CacheEntry, FileStamp, Slots,
};

verus! {

/// Bytes in one mebibyte.
pub const BYTES_PER_MB: usize = 1024 * 1024;

/// Byte budget of a cache configured with zero.
pub const DEFAULT_MAX_CACHE_BYTES: usize = 500 * 1024 * 1024;

/// Upper bound on the number of entries, whatever the byte budget.
pub const MAX_ENTRIES: usize = 1000;

/// Figures for monitoring the cache.
#[derive(Clone, Copy, Debug, PartialEq, Eq, Structural)]
pub struct CacheStats {
    /// Number of cached entries.
    pub entries: usize,
    /// Current estimated memory use in bytes.
    pub memory_bytes: usize,
    /// Byte budget.
    pub max_memory_bytes: usize,
    /// Current estimated memory use in whole mebibytes.
    pub memory_mb: usize,
    /// Byte budget in whole mebibytes.
    pub max_memory_mb: usize,
}

/// Sum of the entries' sizes.
pub open spec fn total_bytes(slots: Slots) -> nat
    decreases slots.len(),
{
    if slots.len() == 0 {
        0
    } else {
        total_bytes(slots.drop_last()) + slots.last().1.size_bytes as nat
    }
}

/// `slots` without the entry under `path`.
pub open spec fn without(slots: Slots, path: Seq<char>) -> Slots {
    if holds_path(slots, path) {
        slots.remove(slot_of(slots, path))
    } else {
        slots
    }
}

/// Whether an entry has to leave before `need` more bytes can come in.
pub open spec fn must_evict(slots: Slots, need: nat, budget: nat) -> bool {
    slots.len() > 0 && (total_bytes(slots) + need > budget || slots.len() >= MAX_ENTRIES)
}

/// `slots` after the least recently used entries have left, one by one, until
/// `need` more bytes fit into `budget` or nothing is left.
pub open spec fn make_room(slots: Slots, need: nat, budget: nat) -> Slots
    decreases slots.len(),
{
    if must_evict(slots, need, budget) {
        make_room(slots.drop_first(), need, budget)
    } else {
        slots
    }
}

/// An entry is valid only while the file's modification time is known and
/// equal to the one recorded at decode time.
pub open spec fn entry_valid(entry: CacheEntry, current: Option<FileStamp>) -> bool {
    entry.file_modified is Some && current is Some && entry.file_modified->0 == current->0
}

/// The entry that caching `audio` creates.
pub open spec fn entry_for(audio: AudioData, modified: Option<FileStamp>) -> CacheEntry {
    CacheEntry {
        audio_data: Arc::new(audio),
        file_modified: modified,
        size_bytes: footprint_of(audio.samples@.len()) as usize,
    }
}

/// The cache after a request for `path` whose file now has stamp `current`:
/// a valid entry becomes the most recently used, a stale one leaves.
pub open spec fn after_lookup(slots: Slots, path: Seq<char>, current: Option<FileStamp>) -> Slots {
    if !holds_path(slots, path) {
        slots
    } else if entry_valid(slots[slot_of(slots, path)].1, current) {
        touched(slots, slot_of(slots, path))
    } else {
        slots.remove(slot_of(slots, path))
    }
}

/// Whether a request for `path` is answered from the cache.
pub open spec fn is_hit(slots: Slots, path: Seq<char>, current: Option<FileStamp>) -> bool {
    holds_path(slots, path) && entry_valid(slots[slot_of(slots, path)].1, current)
}

/// The cache after `entry` has been stored under `path`: an older entry under
/// `path` leaves, then room is made, then `entry` comes in as the most
/// recently used.
pub open spec fn after_store(slots: Slots, path: Seq<char>, entry: CacheEntry, budget: nat) -> Slots {
    make_room(without(slots, path), entry.size_bytes as nat, budget).push((path, entry))
}

/// Every entry's recorded size is the footprint of its audio.
pub open spec fn sizes_match(slots: Slots) -> bool {
    forall|i: int|
        0 <= i < slots.len() ==> (#[trigger] slots[i]).1.size_bytes == footprint_of(
            slots[i].1.audio_data.samples@.len(),
        )
}

pub proof fn lemma_total_push(slots: Slots, item: (Seq<char>, CacheEntry))
    ensures
        total_bytes(slots.push(item)) == total_bytes(slots) + item.1.size_bytes,
{
    assert(slots.push(item).drop_last() =~= slots);
}

pub proof fn lemma_total_remove(slots: Slots, i: int)
    requires
        0 <= i < slots.len(),
    ensures
        total_bytes(slots.remove(i)) + slots[i].1.size_bytes == total_bytes(slots),
    decreases slots.len(),
{
    if i == slots.len() - 1 {
        assert(slots.remove(i) =~= slots.drop_last());
    } else {
        lemma_total_remove(slots.drop_last(), i);
        assert(slots.remove(i).drop_last() =~= slots.drop_last().remove(i));
        assert(slots.remove(i).last() == slots.last());
    }
}

pub proof fn lemma_total_single(slots: Slots)
    requires
        slots.len() == 1,
    ensures
        total_bytes(slots) == slots[0].1.size_bytes,
{
    reveal_with_fuel(total_bytes, 2);
    assert(slots.drop_last().len() == 0);
    assert(slots.last() == slots[0]);
}

/// Removing a slot keeps paths distinct and sizes matching, and the removed
/// path is gone.
pub proof fn lemma_remove_keeps(slots: Slots, i: int)
    requires
        distinct_paths(slots),
        0 <= i < slots.len(),
    ensures
        distinct_paths(slots.remove(i)),
        !holds_path(slots.remove(i), slots[i].0),
        sizes_match(slots) ==> sizes_match(slots.remove(i)),
        forall|p: Seq<char>|
            p != slots[i].0 ==> (holds_path(slots.remove(i), p) <==> holds_path(slots, p)),
{
    let r = slots.remove(i);
    assert forall|a: int, b: int|
        0 <= a < r.len() && 0 <= b < r.len() && (#[trigger] r[a]).0 == (#[trigger] r[b]).0 implies a
        == b by {
        let a0 = if a < i { a } else { a + 1 };
        let b0 = if b < i { b } else { b + 1 };
        assert(r[a] == slots[a0]);
        assert(r[b] == slots[b0]);
    }
    if holds_path(r, slots[i].0) {
        let k = slot_of(r, slots[i].0);
        let k0 = if k < i { k } else { k + 1 };
        assert(r[k] == slots[k0]);
        assert(false);
    }
    if sizes_match(slots) {
        assert forall|a: int| 0 <= a < r.len() implies (#[trigger] r[a]).1.size_bytes
            == footprint_of(r[a].1.audio_data.samples@.len()) by {
            let a0 = if a < i { a } else { a + 1 };
            assert(r[a] == slots[a0]);
        }
    }
    assert forall|p: Seq<char>| p != slots[i].0 implies (holds_path(r, p) <==> holds_path(
        slots,
        p,
    )) by {
        if holds_path(r, p) {
            let k = slot_of(r, p);
            let k0 = if k < i { k } else { k + 1 };
            assert(r[k] == slots[k0]);
        }
        if holds_path(slots, p) {
            let k = slot_of(slots, p);
            let k1 = if k < i { k } else { k - 1 };
            assert(r[k1] == slots[k]);
        }
    }
}

/// Appending a slot under a path that is not held keeps paths distinct.
pub proof fn lemma_push_keeps(slots: Slots, item: (Seq<char>, CacheEntry))
    requires
        distinct_paths(slots),
        !holds_path(slots, item.0),
    ensures
        distinct_paths(slots.push(item)),
        holds_path(slots.push(item), item.0),
        slot_of(slots.push(item), item.0) == slots.len(),
        sizes_match(slots) && item.1.size_bytes == footprint_of(
            item.1.audio_data.samples@.len(),
        ) ==> sizes_match(slots.push(item)),
{
    let r = slots.push(item);
    assert forall|a: int, b: int|
        0 <= a < r.len() && 0 <= b < r.len() && (#[trigger] r[a]).0 == (#[trigger] r[b]).0 implies a
        == b by {
        if a < slots.len() {
            assert(r[a] == slots[a]);
        }
        if b < slots.len() {
            assert(r[b] == slots[b]);
        }
    }
    assert(r[slots.len() as int].0 == item.0);
}

/// Making room only drops entries from the front, and ends either within the
/// budget or empty.
pub proof fn lemma_make_room(slots: Slots, need: nat, budget: nat)
    requires
        distinct_paths(slots),
        slots.len() <= MAX_ENTRIES,
    ensures
        distinct_paths(make_room(slots, need, budget)),
        make_room(slots, need, budget).len() <= slots.len(),
        make_room(slots, need, budget).len() < MAX_ENTRIES || slots.len() == 0,
        !must_evict(make_room(slots, need, budget), need, budget),
        sizes_match(slots) ==> sizes_match(make_room(slots, need, budget)),
        forall|p: Seq<char>|
            holds_path(make_room(slots, need, budget), p) ==> holds_path(slots, p),
        make_room(slots, need, budget) == slots.subrange(
            slots.len() - make_room(slots, need, budget).len(),
            slots.len() as int,
        ),
    decreases slots.len(),
{
    if must_evict(slots, need, budget) {
        let rest = slots.drop_first();
        assert(rest =~= slots.remove(0));
        lemma_remove_keeps(slots, 0);
        lemma_make_room(rest, need, budget);
        let out = make_room(rest, need, budget);
        assert forall|p: Seq<char>| holds_path(out, p) implies holds_path(slots, p) by {
            assert(holds_path(rest, p));
            let k = slot_of(rest, p);
            assert(rest[k] == slots[k + 1]);
        }
        assert(out =~= slots.subrange(slots.len() - out.len(), slots.len() as int));
    } else {
        assert(slots =~= slots.subrange(0, slots.len() as int));
    }
}

/// How a request for `path` ends. `seen` is the modification time found when
/// the request came in, `modified` the one found after a decode.
///
/// A hit returns the cached audio and makes its entry the most recently used.
/// A failed decode leaves the cache as the lookup left it. A successful decode
/// is stored on top of that.
pub open spec fn decode_outcome(
    before: Slots,
    after: Slots,
    path: Seq<char>,
    seen: Option<FileStamp>,
    modified: Option<FileStamp>,
    budget: nat,
    result: Result<Arc<AudioData>, AudioError>,
) -> bool {
    if is_hit(before, path, seen) {
        &&& result == Ok::<Arc<AudioData>, AudioError>(before[slot_of(before, path)].1.audio_data)
        &&& after == after_lookup(before, path, seen)
    } else {
        match result {
            Ok(shared) => after == after_store(
                after_lookup(before, path, seen),
                path,
                entry_for(*shared, modified),
                budget,
            ),
            Err(_) => after == after_lookup(before, path, seen),
        }
    }
}

/// A lookup never adds bytes: a cache within its budget stays within it.
pub proof fn law_lookup_within_budget(
    slots: Slots,
    path: Seq<char>,
    current: Option<FileStamp>,
    budget: nat,
)
    requires
        distinct_paths(slots),
        total_bytes(slots) <= budget,
    ensures
        total_bytes(after_lookup(slots, path, current)) <= budget,
{
    if holds_path(slots, path) {
        let i = slot_of(slots, path);
        lemma_total_remove(slots, i);
        lemma_total_push(slots.remove(i), slots[i]);
    }
}

/// Storing an entry that by itself fits into the budget leaves the cache
/// within the budget, whatever it held before.
pub proof fn law_store_within_budget(
    slots: Slots,
    path: Seq<char>,
    entry: CacheEntry,
    budget: nat,
)
    requires
        distinct_paths(slots),
        slots.len() <= MAX_ENTRIES,
        entry.size_bytes <= budget,
    ensures
        total_bytes(after_store(slots, path, entry, budget)) <= budget,
        after_store(slots, path, entry, budget).len() <= MAX_ENTRIES,
{
    let base = without(slots, path);
    if holds_path(slots, path) {
        lemma_remove_keeps(slots, slot_of(slots, path));
    }
    lemma_make_room(base, entry.size_bytes as nat, budget);
    let room = make_room(base, entry.size_bytes as nat, budget);
    lemma_total_push(room, (path, entry));
    if room.len() == 0 {
        lemma_total_single(room.push((path, entry)));
    }
}

/// Recency decides who leaves. Of three cached entries the oldest is used
/// again; an entry is then stored that needs exactly one eviction. The one to
/// leave is the second oldest, which is now the least recently used; the one
/// that was used again and the youngest both stay.
pub proof fn law_lru_order(
    a: (Seq<char>, CacheEntry),
    b: (Seq<char>, CacheEntry),
    c: (Seq<char>, CacheEntry),
    path: Seq<char>,
    entry: CacheEntry,
    current: Option<FileStamp>,
    budget: nat,
)
    requires
        a.0 != b.0 && a.0 != c.0 && b.0 != c.0,
        path != a.0 && path != b.0 && path != c.0,
        entry_valid(a.1, current),
        a.1.size_bytes + b.1.size_bytes + c.1.size_bytes + entry.size_bytes > budget,
        a.1.size_bytes + c.1.size_bytes + entry.size_bytes <= budget,
    ensures
        after_lookup(seq![a, b, c], a.0, current) == seq![b, c, a],
        after_store(seq![b, c, a], path, entry, budget) == seq![c, a, (path, entry)],
{
    reveal_with_fuel(total_bytes, 4);
    reveal_with_fuel(make_room, 3);
    let first = seq![a, b, c];
    assert(first[0].0 == a.0);
    assert(holds_path(first, a.0));
    assert(slot_of(first, a.0) == 0);
    assert(first.remove(0).push(first[0]) =~= seq![b, c, a]);
    let second = seq![b, c, a];
    if holds_path(second, path) {
        let i = slot_of(second, path);
        assert(second[i].0 == path);
        assert(false);
    }
    assert(second.drop_last() =~= seq![b, c]);
    assert(seq![b, c].drop_last() =~= seq![b]);
    assert(seq![b].drop_last() =~= Seq::<(Seq<char>, CacheEntry)>::empty());
    assert(total_bytes(second) == b.1.size_bytes + c.1.size_bytes + a.1.size_bytes);
    let third = second.drop_first();
    assert(third =~= seq![c, a]);
    assert(third.drop_last() =~= seq![c]);
    assert(seq![c].drop_last() =~= Seq::<(Seq<char>, CacheEntry)>::empty());
    assert(total_bytes(third) == c.1.size_bytes + a.1.size_bytes);
    assert(must_evict(second, entry.size_bytes as nat, budget));
    assert(!must_evict(third, entry.size_bytes as nat, budget));
    assert(make_room(second, entry.size_bytes as nat, budget) == third);
    assert(third.push((path, entry)) =~= seq![c, a, (path, entry)]);
}

/// The decode cache.
pub struct AudioCache {
    cache: LruCache<String, CacheEntry>,
    current_bytes: usize,
    max_bytes: usize,
}

impl AudioCache {
    /// The cached (path, entry) pairs, least recently used first.
    pub closed spec fn slots(&self) -> Slots {
        lru_slots(self.cache)
    }

    /// The byte count the cache keeps of its entries.
    pub closed spec fn used_bytes(&self) -> nat {
        self.current_bytes as nat
    }

    /// The byte budget.
    pub closed spec fn budget(&self) -> nat {
        self.max_bytes as nat
    }

    /// The cache's invariant: one entry per path, at most [`MAX_ENTRIES`]
    /// entries, exact byte accounting, and a total within the budget unless a
    /// single entry larger than the whole budget is all that is cached.
    pub closed spec fn wf(&self) -> bool {
        &&& lru_limit(self.cache) == MAX_ENTRIES
        &&& distinct_paths(self.slots())
        &&& sizes_match(self.slots())
        &&& self.slots().len() <= MAX_ENTRIES
        &&& self.current_bytes == total_bytes(self.slots())
        &&& (total_bytes(self.slots()) <= self.max_bytes || self.slots().len() == 1)
    }

    /// In every state that the cache can reach, no path is cached twice, no
    /// more than [`MAX_ENTRIES`] entries are cached, each entry's size is the
    /// footprint of its audio, the byte count is the sum of the sizes, and
    /// that sum is within the budget unless a single entry is all there is.
    pub proof fn law_invariant(&self)
        requires
            self.wf(),
        ensures
            distinct_paths(self.slots()),
            sizes_match(self.slots()),
            self.slots().len() <= MAX_ENTRIES,
            self.used_bytes() == total_bytes(self.slots()),
            self.used_bytes() <= self.budget() || self.slots().len() == 1,
    {
    }

    /// Creates an empty cache with a budget of `max_memory_mb` mebibytes, or
    /// of 500 mebibytes when `max_memory_mb` is zero.
    pub fn new(max_memory_mb: usize) -> (cache: Self)
        requires
            max_memory_mb * BYTES_PER_MB <= usize::MAX,
        ensures
            cache.wf(),
            cache.slots() == Slots::empty(),
            cache.used_bytes() == 0,
            cache.budget() == if max_memory_mb > 0 {
                max_memory_mb * BYTES_PER_MB
            } else {
                DEFAULT_MAX_CACHE_BYTES as int
            },
    {
        let max_bytes: usize = if max_memory_mb > 0 {
            max_memory_mb * BYTES_PER_MB
        } else {
            DEFAULT_MAX_CACHE_BYTES
        };
        AudioCache { cache: lru_new(MAX_ENTRIES), current_bytes: 0, max_bytes }
    }

    fn evict_needed(&self, needed_bytes: usize) -> (yes: bool)
        requires
            self.wf(),
        ensures
            yes == must_evict(self.slots(), needed_bytes as nat, self.budget()),
    {
        let len: usize = lru_len(&self.cache);
        len > 0 && (self.current_bytes > self.max_bytes || needed_bytes > self.max_bytes
            - self.current_bytes || len >= MAX_ENTRIES)
    }

    /// Evicts least recently used entries until `needed_bytes` more fit into
    /// the budget, or the cache is empty.
    pub fn make_space(&mut self, needed_bytes: usize)
        requires
            old(self).wf(),
        ensures
            final(self).wf(),
            final(self).budget() == old(self).budget(),
            final(self).slots() == make_room(
                old(self).slots(),
                needed_bytes as nat,
                old(self).budget(),
            ),
            final(self).used_bytes() + needed_bytes <= final(self).budget() || final(self).slots().len() == 0,
    {
        proof {
            lemma_make_room(self.slots(), needed_bytes as nat, self.budget());
        }
        while self.evict_needed(needed_bytes)
            invariant
                self.wf(),
                self.max_bytes == old(self).max_bytes,
                make_room(self.slots(), needed_bytes as nat, self.budget()) == make_room(
                    old(self).slots(),
                    needed_bytes as nat,
                    old(self).budget(),
                ),
            decreases self.slots().len(),
        {
            let ghost before = self.slots();
            let removed = lru_pop_lru(&mut self.cache);
            proof {
                assert(before.drop_first() =~= before.remove(0));
                lemma_remove_keeps(before, 0);
                lemma_total_remove(before, 0);
            }
            match removed {
                Some(pair) => {
                    self.current_bytes = self.current_bytes - pair.1.size_bytes;
                },
                None => {},
            }
            proof {
                let after = self.slots();
                if after.len() == 1 {
                    lemma_total_single(after);
                }
                if !(total_bytes(after) <= self.max_bytes) && after.len() != 1 {
                    // More than one entry was cached, so the total was within
                    // the budget, and it has only gone down.
                    assert(before.len() != 1);
                    assert(false);
                }
            }
        }
    }

    /// Answers a request for `file_path` from the cache, given the file's
    /// current modification time.
    ///
    /// A valid entry is returned and becomes the most recently used. A stale
    /// entry is evicted and `None` is returned, as for an absent one.
    pub fn lookup(&mut self, file_path: &str, current: Option<FileStamp>) -> (found: Option<
        Arc<AudioData>,
    >)
        requires
            old(self).wf(),
        ensures
            final(self).wf(),
            final(self).budget() == old(self).budget(),
            final(self).slots() == after_lookup(old(self).slots(), file_path@, current),
            is_hit(old(self).slots(), file_path@, current) ==> found == Some(
                old(self).slots()[slot_of(old(self).slots(), file_path@)].1.audio_data,
            ),
            !is_hit(old(self).slots(), file_path@, current) ==> found is None,
            final(self).used_bytes() <= old(self).used_bytes(),
    {
        let ghost before = self.slots();
        match lru_get(&mut self.cache, file_path) {
            None => None,
            Some(entry) => {
                let ghost i = slot_of(before, file_path@);
                proof {
                    lemma_remove_keeps(before, i);
                    lemma_total_remove(before, i);
                    lemma_push_keeps(before.remove(i), before[i]);
                    lemma_total_push(before.remove(i), before[i]);
                    assert(touched(before, i).len() == before.len());
                }
                if stamps_agree(entry.file_modified, current) {
                    Some(entry.audio_data)
                } else {
                    let ghost mid = self.slots();
                    let removed = lru_pop(&mut self.cache, file_path);
                    proof {
                        let j = slot_of(mid, file_path@);
                        assert(j == mid.len() - 1);
                        assert(mid.remove(j) =~= before.remove(i));
                        if before.remove(i).len() == 1 {
                            lemma_total_single(before.remove(i));
                        }
                    }
                    self.current_bytes = self.current_bytes - entry.size_bytes;
                    None
                }
            },
        }
    }

    /// Caches `audio` under `file_path` with the file's modification time.
    ///
    /// An older entry under the same path leaves first. Then least recently
    /// used entries are evicted until the new one fits, and the new entry comes
    /// in as the most recently used. Returns the shared audio.
    pub fn store(
        &mut self,
        file_path: &str,
        audio: AudioData,
        modified: Option<FileStamp>,
    ) -> (shared: Arc<AudioData>)
        requires
            old(self).wf(),
        ensures
            final(self).wf(),
            final(self).budget() == old(self).budget(),
            shared == audio,
            final(self).slots() == after_store(
                old(self).slots(),
                file_path@,
                entry_for(audio, modified),
                old(self).budget(),
            ),
            footprint_of(audio.samples@.len()) <= old(self).budget() ==> final(self).used_bytes()
                <= final(self).budget(),
    {
        self.invalidate(file_path);
        let size_bytes: usize = audio.estimated_bytes();
        self.make_space(size_bytes);
        let audio_data = Arc::new(audio);
        let shared = share_audio(&audio_data);
        let entry = CacheEntry { audio_data, file_modified: modified, size_bytes };
        let ghost room = self.slots();
        proof {
            lemma_make_room(without(old(self).slots(), file_path@), size_bytes as nat, self.budget());
            assert(!holds_path(room, file_path@));
            lemma_push_keeps(room, (file_path@, entry));
            lemma_total_push(room, (file_path@, entry));
            if room.len() == 0 {
                lemma_total_single(room.push((file_path@, entry)));
            }
        }
        let key = file_path.to_owned();
        lru_put(&mut self.cache, key, entry);
        self.current_bytes = self.current_bytes + size_bytes;
        shared
    }

    /// Whether an entry stands under `file_path`. The entry's recency is not
    /// touched and its validity is not examined.
    pub fn contains(&self, file_path: &str) -> (held: bool)
        requires
            self.wf(),
        ensures
            held == holds_path(self.slots(), file_path@),
    {
        lru_contains(&self.cache, file_path)
    }

    /// Returns the decoded audio for `file_path`, from the cache where it can.
    ///
    /// `stat` reports a file's current modification time and `decode` decodes
    /// a file; both are the caller's. `stat` is asked only when an entry stands
    /// under `file_path`. If that entry is valid it is returned, and `decode`
    /// is not called. Otherwise a stale entry is evicted and the file is
    /// decoded: a failure is handed on as it came and nothing is cached; a
    /// success is cached under the modification time that `stat` then reports,
    /// after least recently used entries have made room for it.
    pub fn get_or_decode<S, D>(&mut self, file_path: &str, stat: S, decode: D) -> (result: Result<
        Arc<AudioData>,
        AudioError,
    >) where S: Fn(&str) -> Option<FileStamp>, D: FnOnce(&str) -> Result<AudioData, AudioError>
        requires
            old(self).wf(),
            stat.requires((file_path,)),
            decode.requires((file_path,)),
        ensures
            final(self).wf(),
            final(self).budget() == old(self).budget(),
            exists|seen: Option<FileStamp>, modified: Option<FileStamp>|
                {
                    &&& holds_path(old(self).slots(), file_path@) ==> stat.ensures(
                        (file_path,),
                        seen,
                    )
                    &&& #[trigger] decode_outcome(
                        old(self).slots(),
                        final(self).slots(),
                        file_path@,
                        seen,
                        modified,
                        old(self).budget(),
                        result,
                    )
                    &&& !is_hit(old(self).slots(), file_path@, seen) ==> match result {
                        Ok(shared) => decode.ensures((file_path,), Ok(*shared)) && stat.ensures(
                            (file_path,),
                            modified,
                        ),
                        Err(e) => decode.ensures((file_path,), Err(e)),
                    }
                },
            old(self).used_bytes() <= old(self).budget() && (result matches Ok(shared)
                ==> footprint_of(shared.samples@.len()) <= old(self).budget())
                ==> final(self).used_bytes() <= final(self).budget(),
    {
        let ghost before = self.slots();
        let seen = if self.contains(file_path) {
            stat(file_path)
        } else {
            None
        };
        match self.lookup(file_path, seen) {
            Some(shared) => {
                proof {
                    assert(decode_outcome(
                        before,
                        self.slots(),
                        file_path@,
                        seen,
                        None,
                        self.budget(),
                        Ok(shared),
                    ));
                }
                return Ok(shared);
            },
            None => {},
        }
        match decode(file_path) {
            Err(e) => {
                proof {
                    assert(decode_outcome(
                        before,
                        self.slots(),
                        file_path@,
                        seen,
                        None,
                        self.budget(),
                        Err(e),
                    ));
                }
                Err(e)
            },
            Ok(audio) => {
                let modified = stat(file_path);
                let shared = self.store(file_path, audio, modified);
                proof {
                    assert(decode_outcome(
                        before,
                        self.slots(),
                        file_path@,
                        seen,
                        modified,
                        self.budget(),
                        Ok(shared),
                    ));
                }
                Ok(shared)
            },
        }
    }

    /// Removes every entry and resets the byte count.
    pub fn clear(&mut self)
        requires
            old(self).wf(),
        ensures
            final(self).wf(),
            final(self).budget() == old(self).budget(),
            final(self).slots() == Slots::empty(),
            final(self).used_bytes() == 0,
            old(self).slots().len() == 0 ==> final(self).slots() == old(self).slots()
                && final(self).used_bytes() == old(self).used_bytes(),
    {
        proof {
            if self.slots().len() == 0 {
                assert(self.slots() =~= Slots::empty());
            }
        }
        lru_clear(&mut self.cache);
        self.current_bytes = 0;
    }

    /// The cache's figures.
    pub fn stats(&self) -> (stats: CacheStats)
        requires
            self.wf(),
        ensures
            stats.entries == self.slots().len(),
            stats.memory_bytes == self.used_bytes(),
            stats.max_memory_bytes == self.budget(),
            stats.memory_mb == self.used_bytes() / (BYTES_PER_MB as nat),
            stats.max_memory_mb == self.budget() / (BYTES_PER_MB as nat),
    {
        CacheStats {
            entries: lru_len(&self.cache),
            memory_bytes: self.current_bytes,
            max_memory_bytes: self.max_bytes,
            memory_mb: self.current_bytes / BYTES_PER_MB,
            max_memory_mb: self.max_bytes / BYTES_PER_MB,
        }
    }

    /// Removes the entry under `file_path`, if there is one.
    pub fn invalidate(&mut self, file_path: &str)
        requires
            old(self).wf(),
        ensures
            final(self).wf(),
            final(self).budget() == old(self).budget(),
            final(self).slots() == without(old(self).slots(), file_path@),
            !holds_path(final(self).slots(), file_path@),
            !holds_path(old(self).slots(), file_path@) ==> final(self).slots() == old(self).slots()
                && final(self).used_bytes() == old(self).used_bytes(),
    {
        let ghost before = self.slots();
        match lru_pop(&mut self.cache, file_path) {
            Some(entry) => {
                proof {
                    let i = slot_of(before, file_path@);
                    lemma_remove_keeps(before, i);
                    lemma_total_remove(before, i);
                    if before.remove(i).len() == 1 {
                        lemma_total_single(before.remove(i));
                    }
                }
                self.current_bytes = self.current_bytes - entry.size_bytes;
            },
            None => {},
        }
    }
}

/// Whether a recorded and a current modification time are both known and
/// equal.
fn stamps_agree(recorded: Option<FileStamp>, current: Option<FileStamp>) -> (same: bool)
    ensures
        same == (recorded is Some && current is Some && recorded->0 == current->0),
{
    match (recorded, current) {
        (Some(cached_time), Some(current_time)) => cached_time == current_time,
        _ => false,
    }
}

} // verus!
