//! Keyboard shortcuts and the sounds they trigger.

use vstd::prelude::*;

use crate::keyed::{has_key, text_eq, StringMap};
use crate::library::{find_sound, has_sound, Sound};
use crate::sounds::SoundId;
use crate::text::texts;

verus! {

/// Hotkey mappings: shortcut text to the sound it triggers.
#[derive(Debug, Clone)]
pub struct HotkeyMappings {
    pub mappings: StringMap<SoundId>,
}

impl Default for HotkeyMappings {
    /// No shortcut is assigned.
    fn default() -> (empty: Self)
        ensures
            empty.mappings.wf(),
            empty.mappings@ == Map::<Seq<char>, SoundId>::empty(),
    {
        HotkeyMappings { mappings: StringMap::new() }
    }
}

/// The message for a shortcut that is already taken.
pub open spec fn taken_message(hotkey: Seq<char>) -> Seq<char> {
    "Hotkey '"@ + hotkey + "' is already assigned"@
}

/// The message for a shortcut that is not assigned.
pub open spec fn missing_message(hotkey: Seq<char>) -> Seq<char> {
    "Hotkey '"@ + hotkey + "' not found"@
}

/// The shortcuts among `pairs` that trigger the sound `id`, in the order of
/// the pairs.
pub open spec fn keys_for(pairs: Seq<(String, SoundId)>, id: Seq<char>) -> Seq<Seq<char>>
    decreases pairs.len(),
{
    if pairs.len() == 0 {
        Seq::empty()
    } else if pairs.last().1.0@ == id {
        keys_for(pairs.drop_last(), id).push(pairs.last().0@)
    } else {
        keys_for(pairs.drop_last(), id)
    }
}

/// Assigns `hotkey` to `sound_id`.
///
/// Fails, and changes nothing, exactly when the shortcut is already
/// assigned; the error says so. One sound may have several shortcuts.
pub fn add_mapping(
    mappings: &mut HotkeyMappings,
    hotkey: String,
    sound_id: SoundId,
) -> (result: Result<(), String>)
    requires
        old(mappings).mappings.wf(),
    ensures
        final(mappings).mappings.wf(),
        match result {
            Ok(()) => !old(mappings).mappings@.contains_key(hotkey@) && final(mappings).mappings@
                == old(mappings).mappings@.insert(hotkey@, sound_id),
            Err(message) => {
                &&& old(mappings).mappings@.contains_key(hotkey@)
                &&& final(mappings).mappings@ == old(mappings).mappings@
                &&& message@ == taken_message(hotkey@)
            },
        },
{
    if mappings.mappings.contains_key(hotkey.as_str()) {
        let mut message = String::from_str("Hotkey '");
        message.append(hotkey.as_str());
        message.append("' is already assigned");
        return Err(message);
    }
    mappings.mappings.insert(hotkey, sound_id);
    Ok(())
}

/// Takes the assignment of `hotkey` away.
///
/// Fails, and changes nothing, exactly when the shortcut is not assigned;
/// the error says so.
pub fn remove_mapping(mappings: &mut HotkeyMappings, hotkey: &str) -> (result: Result<(), String>)
    requires
        old(mappings).mappings.wf(),
    ensures
        final(mappings).mappings.wf(),
        match result {
            Ok(()) => old(mappings).mappings@.contains_key(hotkey@) && final(mappings).mappings@
                == old(mappings).mappings@.remove(hotkey@),
            Err(message) => {
                &&& !old(mappings).mappings@.contains_key(hotkey@)
                &&& final(mappings).mappings@ == old(mappings).mappings@
                &&& message@ == missing_message(hotkey@)
            },
        },
{
    match mappings.mappings.remove(hotkey) {
        Some(_) => Ok(()),
        None => {
            let mut message = String::from_str("Hotkey '");
            message.append(hotkey);
            message.append("' not found");
            Err(message)
        },
    }
}

/// The sound that `hotkey` triggers.
pub fn get_sound_id<'a>(mappings: &'a HotkeyMappings, hotkey: &str) -> (sound_id: Option<
    &'a SoundId,
>)
    requires
        mappings.mappings.wf(),
    ensures
        match sound_id {
            Some(id) => mappings.mappings@.contains_key(hotkey@) && *id == mappings.mappings@[hotkey@],
            None => !mappings.mappings@.contains_key(hotkey@),
        },
{
    mappings.mappings.get(hotkey)
}

/// All shortcuts that trigger `sound_id`, in the order in which they were
/// assigned.
pub fn get_hotkeys_for_sound(mappings: &HotkeyMappings, sound_id: &SoundId) -> (hotkeys: Vec<String>)
    requires
        mappings.mappings.wf(),
    ensures
        texts(hotkeys@) == keys_for(mappings.mappings.pairs(), sound_id.0@),
{
    let mut hotkeys: Vec<String> = Vec::new();
    let count: usize = mappings.mappings.len();
    let ghost pairs = mappings.mappings.pairs();
    let mut i: usize = 0;
    proof {
        assert(texts(hotkeys@) =~= keys_for(pairs.subrange(0, 0), sound_id.0@));
    }
    while i < count
        invariant
            0 <= i <= count,
            count == pairs.len(),
            pairs == mappings.mappings.pairs(),
            texts(hotkeys@) == keys_for(pairs.subrange(0, i as int), sound_id.0@),
        decreases count - i,
    {
        let ghost known = pairs.subrange(0, i as int);
        let ghost next = pairs.subrange(0, i + 1);
        proof {
            assert(next.drop_last() =~= known);
            assert(next.last() == pairs[i as int]);
        }
        if text_eq(mappings.mappings.value_at(i).as_str(), sound_id.as_str()) {
            let ghost before = hotkeys@;
            let key = String::from_str(mappings.mappings.key_at(i));
            hotkeys.push(key);
            proof {
                assert(texts(hotkeys@) =~= texts(before).push(key@));
            }
        }
        i += 1;
    }
    proof {
        assert(pairs.subrange(0, count as int) =~= pairs);
    }
    hotkeys
}

/// `map` without the keys in `keys`.
pub open spec fn without_keys(map: Map<Seq<char>, SoundId>, keys: Seq<Seq<char>>) -> Map<
    Seq<char>,
    SoundId,
>
    decreases keys.len(),
{
    if keys.len() == 0 {
        map
    } else {
        without_keys(map, keys.drop_last()).remove(keys.last())
    }
}

/// The shortcuts among `pairs` whose sound is not among `sounds`, in the
/// order of the pairs.
pub open spec fn orphans(pairs: Seq<(String, SoundId)>, sounds: Seq<Sound>) -> Seq<Seq<char>>
    decreases pairs.len(),
{
    if pairs.len() == 0 {
        Seq::empty()
    } else if !has_sound(sounds, pairs.last().1.0@) {
        orphans(pairs.drop_last(), sounds).push(pairs.last().0@)
    } else {
        orphans(pairs.drop_last(), sounds)
    }
}

/// Takes away every shortcut of `sound_id` and returns the shortcuts that
/// were taken away, in the order in which they were assigned.
pub fn remove_hotkeys_for_sound(mappings: &mut HotkeyMappings, sound_id: &SoundId) -> (removed: Vec<
    String,
>)
    requires
        old(mappings).mappings.wf(),
    ensures
        final(mappings).mappings.wf(),
        texts(removed@) == keys_for(old(mappings).mappings.pairs(), sound_id.0@),
        final(mappings).mappings@ == without_keys(
            old(mappings).mappings@,
            keys_for(old(mappings).mappings.pairs(), sound_id.0@),
        ),
{
    let removed = get_hotkeys_for_sound(mappings, sound_id);
    let ghost start = mappings.mappings@;
    let mut i: usize = 0;
    proof {
        assert(texts(removed@).subrange(0, 0) =~= Seq::<Seq<char>>::empty());
    }
    while i < removed.len()
        invariant
            0 <= i <= removed@.len(),
            mappings.mappings.wf(),
            mappings.mappings@ == without_keys(start, texts(removed@).subrange(0, i as int)),
        decreases removed@.len() - i,
    {
        proof {
            let known = texts(removed@).subrange(0, i as int);
            let next = texts(removed@).subrange(0, i + 1);
            assert(next.drop_last() =~= known);
            assert(next.last() == removed@[i as int]@);
        }
        mappings.mappings.remove(removed[i].as_str());
        i += 1;
    }
    proof {
        assert(texts(removed@).subrange(0, removed@.len() as int) =~= texts(removed@));
    }
    removed
}

/// The shortcuts whose sound is no longer among `sounds`, in the order in
/// which they were assigned.
pub fn orphaned_hotkeys(mappings: &HotkeyMappings, sounds: &Vec<Sound>) -> (hotkeys: Vec<String>)
    requires
        mappings.mappings.wf(),
    ensures
        texts(hotkeys@) == orphans(mappings.mappings.pairs(), sounds@),
{
    let mut hotkeys: Vec<String> = Vec::new();
    let count: usize = mappings.mappings.len();
    let ghost pairs = mappings.mappings.pairs();
    let mut i: usize = 0;
    proof {
        assert(texts(hotkeys@) =~= orphans(pairs.subrange(0, 0), sounds@));
    }
    while i < count
        invariant
            0 <= i <= count,
            count == pairs.len(),
            pairs == mappings.mappings.pairs(),
            texts(hotkeys@) == orphans(pairs.subrange(0, i as int), sounds@),
        decreases count - i,
    {
        let ghost known = pairs.subrange(0, i as int);
        let ghost next = pairs.subrange(0, i + 1);
        proof {
            assert(next.drop_last() =~= known);
            assert(next.last() == pairs[i as int]);
        }
        if find_sound(sounds, mappings.mappings.value_at(i).as_str()).is_none() {
            let ghost before = hotkeys@;
            let key = String::from_str(mappings.mappings.key_at(i));
            hotkeys.push(key);
            proof {
                assert(texts(hotkeys@) =~= texts(before).push(key@));
            }
        }
        i += 1;
    }
    proof {
        assert(pairs.subrange(0, count as int) =~= pairs);
    }
    hotkeys
}

/// Taking keys away leaves every other key with its value, and none of the
/// keys taken.
pub proof fn law_without_keys(map: Map<Seq<char>, SoundId>, keys: Seq<Seq<char>>, key: Seq<char>)
    ensures
        without_keys(map, keys).contains_key(key) <==> map.contains_key(key) && !keys.contains(key),
        without_keys(map, keys).contains_key(key) ==> without_keys(map, keys)[key] == map[key],
    decreases keys.len(),
{
    if keys.len() > 0 {
        let front = keys.drop_last();
        law_without_keys(map, front, key);
        if keys.contains(key) {
            let at = choose|at: int| 0 <= at < keys.len() && keys[at] == key;
            if at < front.len() {
                assert(front[at] == key);
            }
        }
        if front.contains(key) {
            let at = choose|at: int| 0 <= at < front.len() && front[at] == key;
            assert(keys[at] == key);
        }
        if key == keys.last() {
            assert(keys[keys.len() - 1] == key);
        }
    }
}

/// Once the shortcuts of a sound have been taken away, no shortcut triggers
/// that sound, and every shortcut of another sound is as it was.
pub proof fn law_no_hotkey_left(mappings: HotkeyMappings, id: Seq<char>, key: Seq<char>)
    requires
        mappings.mappings.wf(),
    ensures
        ({
            let left = without_keys(mappings.mappings@, keys_for(mappings.mappings.pairs(), id));
            &&& left.contains_key(key) ==> left[key].0@ != id
            &&& mappings.mappings@.contains_key(key) && mappings.mappings@[key].0@ != id
                ==> left.contains_key(key) && left[key] == mappings.mappings@[key]
        }),
{
    let pairs = mappings.mappings.pairs();
    let map = mappings.mappings@;
    let keys = keys_for(pairs, id);
    mappings.mappings.law_view();
    law_without_keys(map, keys, key);
    law_keys_for_members(pairs, id, key);
    if map.contains_key(key) {
        assert(has_key(pairs, key));
        let at = choose|at: int| 0 <= at < pairs.len() && (#[trigger] pairs[at]).0@ == key;
        assert(map[pairs[at].0@] == pairs[at].1);
        if keys.contains(key) {
            let i = choose|i: int|
                0 <= i < pairs.len() && (#[trigger] pairs[i]).0@ == key && pairs[i].1.0@ == id;
            assert(i == at);
        }
    }
}

/// A shortcut is among those listed for a sound exactly if it triggers that
/// sound.
pub proof fn law_keys_for_members(pairs: Seq<(String, SoundId)>, id: Seq<char>, key: Seq<char>)
    ensures
        keys_for(pairs, id).contains(key) <==> exists|i: int|
            0 <= i < pairs.len() && (#[trigger] pairs[i]).0@ == key && pairs[i].1.0@ == id,
    decreases pairs.len(),
{
    if pairs.len() > 0 {
        let front = pairs.drop_last();
        law_keys_for_members(front, id, key);
        let found = keys_for(pairs, id);
        let earlier = keys_for(front, id);
        if exists|i: int|
            0 <= i < pairs.len() && (#[trigger] pairs[i]).0@ == key && pairs[i].1.0@ == id {
            let i = choose|i: int|
                0 <= i < pairs.len() && (#[trigger] pairs[i]).0@ == key && pairs[i].1.0@ == id;
            if i < front.len() {
                assert(front[i] == pairs[i]);
                let at = choose|at: int| 0 <= at < earlier.len() && earlier[at] == key;
                assert(found[at] == key);
            } else {
                assert(found[found.len() - 1] == key);
            }
        }
        if found.contains(key) {
            let at = choose|at: int| 0 <= at < found.len() && found[at] == key;
            if at < earlier.len() {
                assert(earlier[at] == key);
                let i = choose|i: int|
                    0 <= i < front.len() && (#[trigger] front[i]).0@ == key && front[i].1.0@ == id;
                assert(pairs[i] == front[i]);
            } else {
                assert(pairs[pairs.len() - 1].0@ == key);
            }
        }
    }
}

} // verus!
