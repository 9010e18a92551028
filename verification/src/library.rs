//! The sound library: categories and the sounds in them.
//!
//! A sound's own volume is kept in thousandths of full volume.

use vstd::prelude::*;

use crate::keyed::text_eq;
use crate::sounds::{Category, CategoryId, SoundId};

verus! {

/// Full volume, in thousandths.
pub const FULL_VOLUME: i32 = 1000;

/// A sound in the library.
#[derive(Debug, Clone)]
pub struct Sound {
    /// Unique identifier.
    pub id: SoundId,
    /// Display name.
    pub name: String,
    /// Path to the audio file.
    pub file_path: String,
    /// Category that the sound belongs to.
    pub category_id: CategoryId,
    /// Icon for display.
    pub icon: Option<String>,
    /// The sound's own volume in thousandths, from 0 to 1000.
    pub volume: Option<i32>,
    /// Whether the sound is marked as a favourite.
    pub is_favorite: bool,
    /// Where playback starts, in milliseconds.
    pub trim_start_ms: Option<u64>,
    /// Where playback ends, in milliseconds.
    pub trim_end_ms: Option<u64>,
}

/// All categories and all sounds.
#[derive(Debug, Clone)]
pub struct SoundLibrary {
    pub categories: Vec<Category>,
    pub sounds: Vec<Sound>,
}

/// The items of `items` that `keep` holds of, in their order.
pub open spec fn kept<T>(items: Seq<T>, keep: spec_fn(T) -> bool) -> Seq<T>
    decreases items.len(),
{
    if items.len() == 0 {
        Seq::empty()
    } else if keep(items.last()) {
        kept(items.drop_last(), keep).push(items.last())
    } else {
        kept(items.drop_last(), keep)
    }
}

/// A volume held between nothing and full volume.
pub open spec fn clamped(volume: int) -> int {
    if volume < 0 {
        0
    } else if volume > FULL_VOLUME {
        FULL_VOLUME as int
    } else {
        volume
    }
}

/// A volume, where one is given, held between nothing and full volume.
pub open spec fn clamped_volume(volume: Option<i32>) -> Option<i32> {
    match volume {
        Some(v) => Some(clamped(v as int) as i32),
        None => None,
    }
}

/// Whether some sound has the identifier `id`.
pub open spec fn has_sound(sounds: Seq<Sound>, id: Seq<char>) -> bool {
    exists|i: int| 0 <= i < sounds.len() && (#[trigger] sounds[i]).id.0@ == id
}

/// Whether the sound at `i` is the first with the identifier `id`.
pub open spec fn first_sound_at(sounds: Seq<Sound>, id: Seq<char>, i: int) -> bool {
    &&& 0 <= i < sounds.len()
    &&& sounds[i].id.0@ == id
    &&& forall|j: int| 0 <= j < i ==> (#[trigger] sounds[j]).id.0@ != id
}

/// Whether some category has the identifier `id`.
pub open spec fn has_category(categories: Seq<Category>, id: Seq<char>) -> bool {
    exists|i: int| 0 <= i < categories.len() && (#[trigger] categories[i]).id.0@ == id
}

/// Whether the category at `i` is the first with the identifier `id`.
pub open spec fn first_category_at(categories: Seq<Category>, id: Seq<char>, i: int) -> bool {
    &&& 0 <= i < categories.len()
    &&& categories[i].id.0@ == id
    &&& forall|j: int| 0 <= j < i ==> (#[trigger] categories[j]).id.0@ != id
}

/// The largest sort order among `categories`, or zero if there are none.
pub open spec fn max_sort_order(categories: Seq<Category>) -> int
    decreases categories.len(),
{
    if categories.len() == 0 {
        0
    } else if categories.len() == 1 {
        categories[0].sort_order as int
    } else {
        let rest = max_sort_order(categories.drop_last());
        if categories.last().sort_order > rest {
            categories.last().sort_order as int
        } else {
            rest
        }
    }
}

/// `sound` with each field replaced for which a new value is given. A new
/// volume is held between nothing and full volume.
pub open spec fn updated_sound(
    sound: Sound,
    name: Option<String>,
    file_path: Option<String>,
    category_id: Option<CategoryId>,
    icon: Option<Option<String>>,
    volume: Option<Option<i32>>,
    is_favorite: Option<bool>,
    trim_start_ms: Option<Option<u64>>,
    trim_end_ms: Option<Option<u64>>,
) -> Sound {
    Sound {
        id: sound.id,
        name: match name {
            Some(v) => v,
            None => sound.name,
        },
        file_path: match file_path {
            Some(v) => v,
            None => sound.file_path,
        },
        category_id: match category_id {
            Some(v) => v,
            None => sound.category_id,
        },
        icon: match icon {
            Some(v) => v,
            None => sound.icon,
        },
        volume: match volume {
            Some(v) => clamped_volume(v),
            None => sound.volume,
        },
        is_favorite: match is_favorite {
            Some(v) => v,
            None => sound.is_favorite,
        },
        trim_start_ms: match trim_start_ms {
            Some(v) => v,
            None => sound.trim_start_ms,
        },
        trim_end_ms: match trim_end_ms {
            Some(v) => v,
            None => sound.trim_end_ms,
        },
    }
}

/// `category` with each field replaced for which a new value is given.
pub open spec fn updated_category(
    category: Category,
    name: Option<String>,
    icon: Option<Option<String>>,
    sort_order: Option<i32>,
) -> Category {
    Category {
        id: category.id,
        name: match name {
            Some(v) => v,
            None => category.name,
        },
        icon: match icon {
            Some(v) => v,
            None => category.icon,
        },
        sort_order: match sort_order {
            Some(v) => v,
            None => category.sort_order,
        },
    }
}

/// `sounds` with every sound of category `from` moved to category `to`.
pub open spec fn moved_sounds(sounds: Seq<Sound>, from: Seq<char>, to: CategoryId) -> Seq<Sound> {
    sounds.map_values(
        |s: Sound|
            if s.category_id.0@ == from {
                Sound { category_id: to, ..s }
            } else {
                s
            },
    )
}

/// The message for a sound that is not in the library.
pub open spec fn sound_missing(id: Seq<char>) -> Seq<char> {
    "Sound not found: "@ + id
}

/// The message for a category that is not in the library.
pub open spec fn category_missing(id: Seq<char>) -> Seq<char> {
    "Category not found: "@ + id
}

pub proof fn lemma_kept_push<T>(items: Seq<T>, item: T, keep: spec_fn(T) -> bool)
    ensures
        kept(items.push(item), keep) == if keep(item) {
            kept(items, keep).push(item)
        } else {
            kept(items, keep)
        },
{
    assert(items.push(item).drop_last() =~= items);
}

/// What is kept is no longer than what it was taken from, and holds only
/// items that were there and that `keep` holds of.
pub proof fn lemma_kept_members<T>(items: Seq<T>, keep: spec_fn(T) -> bool)
    ensures
        kept(items, keep).len() <= items.len(),
        forall|i: int|
            0 <= i < kept(items, keep).len() ==> keep(#[trigger] kept(items, keep)[i])
                && items.contains(kept(items, keep)[i]),
        forall|i: int|
            0 <= i < items.len() && keep(#[trigger] items[i]) ==> kept(items, keep).contains(
                items[i],
            ),
        kept(items, keep).len() == items.len() ==> kept(items, keep) == items,
    decreases items.len(),
{
    if items.len() > 0 {
        let front = items.drop_last();
        lemma_kept_members(front, keep);
        let out = kept(items, keep);
        let before = kept(front, keep);
        assert forall|i: int| 0 <= i < out.len() implies keep(#[trigger] out[i]) && items.contains(
            out[i],
        ) by {
            if i < before.len() {
                assert(out[i] == before[i]);
                let at = choose|at: int| 0 <= at < front.len() && front[at] == before[i];
                assert(items[at] == front[at]);
            } else {
                assert(out[i] == items[items.len() - 1]);
            }
        }
        assert forall|i: int| 0 <= i < items.len() && keep(#[trigger] items[i]) implies out.contains(
            items[i],
        ) by {
            if i < front.len() {
                assert(front[i] == items[i]);
                let at = choose|at: int| 0 <= at < before.len() && before[at] == front[i];
                assert(out[at] == before[at]);
            } else {
                assert(out[out.len() - 1] == items[i]);
            }
        }
        if out.len() == items.len() {
            assert(out =~= items);
        }
    }
}

impl SoundId {
    /// A copy of the identifier.
    pub fn duplicate(&self) -> (copy: SoundId)
        ensures
            copy == *self,
    {
        SoundId(self.0.clone())
    }
}

impl CategoryId {
    /// A copy of the identifier.
    pub fn duplicate(&self) -> (copy: CategoryId)
        ensures
            copy == *self,
    {
        CategoryId(self.0.clone())
    }
}

fn copy_text(text: &Option<String>) -> (copy: Option<String>)
    ensures
        copy == *text,
{
    match text {
        Some(s) => Some(s.clone()),
        None => None,
    }
}

impl Category {
    /// A copy of the category.
    pub fn duplicate(&self) -> (copy: Category)
        ensures
            copy == *self,
    {
        Category {
            id: self.id.duplicate(),
            name: self.name.clone(),
            icon: copy_text(&self.icon),
            sort_order: self.sort_order,
        }
    }
}

impl Sound {
    /// A copy of the sound.
    pub fn duplicate(&self) -> (copy: Sound)
        ensures
            copy == *self,
    {
        Sound {
            id: self.id.duplicate(),
            name: self.name.clone(),
            file_path: self.file_path.clone(),
            category_id: self.category_id.duplicate(),
            icon: copy_text(&self.icon),
            volume: self.volume,
            is_favorite: self.is_favorite,
            trim_start_ms: self.trim_start_ms,
            trim_end_ms: self.trim_end_ms,
        }
    }
}

impl Default for SoundLibrary {
    /// A library with the default category `General` and no sounds.
    fn default() -> (library: Self)
        ensures
            library.sounds@.len() == 0,
            library.categories@.len() == 1,
            library.categories@[0].id.0@ == "default"@,
            library.categories@[0].name@ == "General"@,
            library.categories@[0].sort_order == 0,
    {
        let mut categories: Vec<Category> = Vec::new();
        categories.push(
            Category {
                id: CategoryId::from_string(String::from_str("default")),
                name: String::from_str("General"),
                icon: Some(String::from_str("\u{1F3B5}")),
                sort_order: 0,
            },
        );
        SoundLibrary { categories, sounds: Vec::new() }
    }
}

/// Holds a volume between nothing and full volume.
pub fn clamp_volume(volume: Option<i32>) -> (held: Option<i32>)
    ensures
        held == clamped_volume(volume),
{
    match volume {
        Some(v) => if v < 0 {
            Some(0)
        } else if v > FULL_VOLUME {
            Some(FULL_VOLUME)
        } else {
            Some(v)
        },
        None => None,
    }
}

/// Adds a new sound at the end of the library and returns a copy of it.
///
/// The sound gets a fresh identifier, is no favourite and is not trimmed.
/// Its volume, where one is given, is held between nothing and full volume.
pub fn add_sound(
    library: &mut SoundLibrary,
    name: String,
    file_path: String,
    category_id: CategoryId,
    icon: Option<String>,
    volume: Option<i32>,
) -> (sound: Sound)
    ensures
        final(library).categories == old(library).categories,
        final(library).sounds@ == old(library).sounds@.push(sound),
        sound.id.0@.len() == 36,
        sound.name == name,
        sound.file_path == file_path,
        sound.category_id == category_id,
        sound.icon == icon,
        sound.volume == clamped_volume(volume),
        !sound.is_favorite,
        sound.trim_start_ms is None,
        sound.trim_end_ms is None,
{
    let sound = Sound {
        id: SoundId::new(),
        name,
        file_path,
        category_id,
        icon,
        volume: clamp_volume(volume),
        is_favorite: false,
        trim_start_ms: None,
        trim_end_ms: None,
    };
    let copy = sound.duplicate();
    library.sounds.push(sound);
    copy
}

/// The position of the first sound with the identifier `id`.
pub fn find_sound(sounds: &Vec<Sound>, id: &str) -> (at: Option<usize>)
    ensures
        match at {
            Some(i) => first_sound_at(sounds@, id@, i as int),
            None => !has_sound(sounds@, id@),
        },
{
    let mut i: usize = 0;
    while i < sounds.len()
        invariant
            0 <= i <= sounds@.len(),
            forall|j: int| 0 <= j < i ==> (#[trigger] sounds@[j]).id.0@ != id@,
        decreases sounds@.len() - i,
    {
        if text_eq(sounds[i].id.as_str(), id) {
            return Some(i);
        }
        i += 1;
    }
    None
}

/// The position of the first category with the identifier `id`.
fn find_category(categories: &Vec<Category>, id: &str) -> (at: Option<usize>)
    ensures
        match at {
            Some(i) => first_category_at(categories@, id@, i as int),
            None => !has_category(categories@, id@),
        },
{
    let mut i: usize = 0;
    while i < categories.len()
        invariant
            0 <= i <= categories@.len(),
            forall|j: int| 0 <= j < i ==> (#[trigger] categories@[j]).id.0@ != id@,
        decreases categories@.len() - i,
    {
        if text_eq(categories[i].id.as_str(), id) {
            return Some(i);
        }
        i += 1;
    }
    None
}

fn missing(head: &str, id: &str) -> (message: String)
    ensures
        message@ == head@ + id@,
{
    let mut message = String::from_str(head);
    message.append(id);
    message
}

/// Changes the first sound with the identifier `sound_id` and returns a copy
/// of it as it is then.
///
/// Each field for which a value is given is replaced; a given volume is held
/// between nothing and full volume. Fails, and changes nothing, exactly when
/// no sound has the identifier.
pub fn update_sound(
    library: &mut SoundLibrary,
    sound_id: &SoundId,
    name: Option<String>,
    file_path: Option<String>,
    category_id: Option<CategoryId>,
    icon: Option<Option<String>>,
    volume: Option<Option<i32>>,
    is_favorite: Option<bool>,
    trim_start_ms: Option<Option<u64>>,
    trim_end_ms: Option<Option<u64>>,
) -> (result: Result<Sound, String>)
    ensures
        final(library).categories == old(library).categories,
        match result {
            Ok(sound) => exists|i: int|
                first_sound_at(old(library).sounds@, sound_id.0@, i) && sound == updated_sound(
                    #[trigger] old(library).sounds@[i],
                    name,
                    file_path,
                    category_id,
                    icon,
                    volume,
                    is_favorite,
                    trim_start_ms,
                    trim_end_ms,
                ) && final(library).sounds@ == old(library).sounds@.update(i, sound),
            Err(message) => !has_sound(old(library).sounds@, sound_id.0@) && final(library).sounds
                == old(library).sounds && message@ == sound_missing(sound_id.0@),
        },
{
    let at = match find_sound(&library.sounds, sound_id.as_str()) {
        Some(at) => at,
        None => {
            return Err(missing("Sound not found: ", sound_id.as_str()));
        },
    };
    let ghost before = library.sounds@;
    let mut sound = library.sounds.remove(at);
    if let Some(name) = name {
        sound.name = name;
    }
    if let Some(file_path) = file_path {
        sound.file_path = file_path;
    }
    if let Some(category_id) = category_id {
        sound.category_id = category_id;
    }
    if let Some(icon) = icon {
        sound.icon = icon;
    }
    if let Some(volume) = volume {
        sound.volume = clamp_volume(volume);
    }
    if let Some(is_favorite) = is_favorite {
        sound.is_favorite = is_favorite;
    }
    if let Some(trim_start_ms) = trim_start_ms {
        sound.trim_start_ms = trim_start_ms;
    }
    if let Some(trim_end_ms) = trim_end_ms {
        sound.trim_end_ms = trim_end_ms;
    }
    let copy = sound.duplicate();
    library.sounds.insert(at, sound);
    proof {
        assert(library.sounds@ =~= before.update(at as int, copy));
    }
    Ok(copy)
}

/// Flips the favourite mark of the first sound with the identifier
/// `sound_id` and returns a copy of the sound as it is then.
///
/// Fails, and changes nothing, exactly when no sound has the identifier.
pub fn toggle_favorite(library: &mut SoundLibrary, sound_id: &SoundId) -> (result: Result<
    Sound,
    String,
>)
    ensures
        final(library).categories == old(library).categories,
        match result {
            Ok(sound) => exists|i: int|
                first_sound_at(old(library).sounds@, sound_id.0@, i) && sound == (Sound {
                    is_favorite: !old(library).sounds@[i].is_favorite,
                    ..#[trigger] old(library).sounds@[i]
                }) && final(library).sounds@ == old(library).sounds@.update(i, sound),
            Err(message) => !has_sound(old(library).sounds@, sound_id.0@) && final(library).sounds
                == old(library).sounds && message@ == sound_missing(sound_id.0@),
        },
{
    let marked = match find_sound(&library.sounds, sound_id.as_str()) {
        Some(at) => library.sounds[at].is_favorite,
        None => {
            return Err(missing("Sound not found: ", sound_id.as_str()));
        },
    };
    update_sound(library, sound_id, None, None, None, None, None, Some(!marked), None, None)
}

/// Takes every sound out of `sounds` that has the identifier `id`.
fn remove_sounds_by_id(sounds: &mut Vec<Sound>, id: &str)
    ensures
        final(sounds)@ == kept(old(sounds)@, |s: Sound| s.id.0@ != id@),
{
    let ghost start = sounds@;
    let ghost keep = |s: Sound| s.id.0@ != id@;
    let mut i: usize = 0;
    let ghost mut done: int = 0;
    proof {
        assert(start.subrange(0, 0) =~= Seq::<Sound>::empty());
        assert(sounds@ =~= kept(start.subrange(0, 0), keep) + start.subrange(0, start.len() as int));
    }
    while i < sounds.len()
        invariant
            0 <= done <= start.len(),
            i == kept(start.subrange(0, done), keep).len(),
            sounds@ == kept(start.subrange(0, done), keep) + start.subrange(
                done,
                start.len() as int,
            ),
            keep == (|s: Sound| s.id.0@ != id@),
        decreases start.len() - done,
    {
        proof {
            assert(sounds@[i as int] == start[done]);
            assert(start.subrange(0, done + 1) =~= start.subrange(0, done).push(start[done]));
            lemma_kept_push(start.subrange(0, done), start[done], keep);
        }
        if text_eq(sounds[i].id.as_str(), id) {
            sounds.remove(i);
        } else {
            i += 1;
        }
        proof {
            done = done + 1;
            assert(sounds@ =~= kept(start.subrange(0, done), keep) + start.subrange(
                done,
                start.len() as int,
            ));
        }
    }
    proof {
        assert(done == start.len());
        assert(start.subrange(0, done) =~= start);
        assert(sounds@ =~= kept(start, keep));
    }
}

/// Takes every sound out of `sounds` that belongs to the category `id`.
fn remove_sounds_by_category(sounds: &mut Vec<Sound>, id: &str)
    ensures
        final(sounds)@ == kept(old(sounds)@, |s: Sound| s.category_id.0@ != id@),
{
    let ghost start = sounds@;
    let ghost keep = |s: Sound| s.category_id.0@ != id@;
    let mut i: usize = 0;
    let ghost mut done: int = 0;
    proof {
        assert(start.subrange(0, 0) =~= Seq::<Sound>::empty());
        assert(sounds@ =~= kept(start.subrange(0, 0), keep) + start.subrange(0, start.len() as int));
    }
    while i < sounds.len()
        invariant
            0 <= done <= start.len(),
            i == kept(start.subrange(0, done), keep).len(),
            sounds@ == kept(start.subrange(0, done), keep) + start.subrange(
                done,
                start.len() as int,
            ),
            keep == (|s: Sound| s.category_id.0@ != id@),
        decreases start.len() - done,
    {
        proof {
            assert(sounds@[i as int] == start[done]);
            assert(start.subrange(0, done + 1) =~= start.subrange(0, done).push(start[done]));
            lemma_kept_push(start.subrange(0, done), start[done], keep);
        }
        if text_eq(sounds[i].category_id.as_str(), id) {
            sounds.remove(i);
        } else {
            i += 1;
        }
        proof {
            done = done + 1;
            assert(sounds@ =~= kept(start.subrange(0, done), keep) + start.subrange(
                done,
                start.len() as int,
            ));
        }
    }
    proof {
        assert(done == start.len());
        assert(start.subrange(0, done) =~= start);
        assert(sounds@ =~= kept(start, keep));
    }
}

/// Takes every category out of `categories` that has the identifier `id`.
fn remove_categories_by_id(categories: &mut Vec<Category>, id: &str)
    ensures
        final(categories)@ == kept(old(categories)@, |c: Category| c.id.0@ != id@),
{
    let ghost start = categories@;
    let ghost keep = |c: Category| c.id.0@ != id@;
    let mut i: usize = 0;
    let ghost mut done: int = 0;
    proof {
        assert(start.subrange(0, 0) =~= Seq::<Category>::empty());
        assert(categories@ =~= kept(start.subrange(0, 0), keep) + start.subrange(
            0,
            start.len() as int,
        ));
    }
    while i < categories.len()
        invariant
            0 <= done <= start.len(),
            i == kept(start.subrange(0, done), keep).len(),
            categories@ == kept(start.subrange(0, done), keep) + start.subrange(
                done,
                start.len() as int,
            ),
            keep == (|c: Category| c.id.0@ != id@),
        decreases start.len() - done,
    {
        proof {
            assert(categories@[i as int] == start[done]);
            assert(start.subrange(0, done + 1) =~= start.subrange(0, done).push(start[done]));
            lemma_kept_push(start.subrange(0, done), start[done], keep);
        }
        if text_eq(categories[i].id.as_str(), id) {
            categories.remove(i);
        } else {
            i += 1;
        }
        proof {
            done = done + 1;
            assert(categories@ =~= kept(start.subrange(0, done), keep) + start.subrange(
                done,
                start.len() as int,
            ));
        }
    }
    proof {
        assert(done == start.len());
        assert(start.subrange(0, done) =~= start);
        assert(categories@ =~= kept(start, keep));
    }
}

/// Deletes every sound with the identifier `sound_id`.
///
/// Fails, and changes nothing, exactly when no sound has the identifier.
pub fn delete_sound(library: &mut SoundLibrary, sound_id: &SoundId) -> (result: Result<(), String>)
    ensures
        final(library).categories == old(library).categories,
        final(library).sounds@ == kept(old(library).sounds@, |s: Sound| s.id.0@ != sound_id.0@),
        match result {
            Ok(()) => has_sound(old(library).sounds@, sound_id.0@),
            Err(message) => !has_sound(old(library).sounds@, sound_id.0@) && final(library).sounds@
                == old(library).sounds@ && message@ == sound_missing(sound_id.0@),
        },
{
    let ghost before = library.sounds@;
    let ghost keep = |s: Sound| s.id.0@ != sound_id.0@;
    let initial_len: usize = library.sounds.len();
    remove_sounds_by_id(&mut library.sounds, sound_id.as_str());
    proof {
        lemma_kept_members(before, keep);
        if has_sound(before, sound_id.0@) {
            let i = choose|i: int| 0 <= i < before.len() && (#[trigger] before[i]).id.0@ == sound_id.0@;
            if kept(before, keep).len() == before.len() {
                assert(kept(before, keep)[i] == before[i]);
                assert(keep(kept(before, keep)[i]));
            }
        } else {
            assert forall|i: int| 0 <= i < before.len() implies keep(#[trigger] before[i]) by {}
            lemma_kept_all(before, keep);
        }
    }
    if library.sounds.len() == initial_len {
        return Err(missing("Sound not found: ", sound_id.as_str()));
    }
    Ok(())
}

pub proof fn lemma_kept_all<T>(items: Seq<T>, keep: spec_fn(T) -> bool)
    requires
        forall|i: int| 0 <= i < items.len() ==> keep(#[trigger] items[i]),
    ensures
        kept(items, keep) == items,
    decreases items.len(),
{
    if items.len() > 0 {
        let front = items.drop_last();
        assert forall|i: int| 0 <= i < front.len() implies keep(#[trigger] front[i]) by {
            assert(front[i] == items[i]);
        }
        lemma_kept_all(front, keep);
        assert(keep(items[items.len() - 1]));
        assert(kept(items, keep) =~= items);
    }
}

/// The largest sort order among the categories, or zero if there are none.
pub fn max_sort_order_of(categories: &Vec<Category>) -> (order: i32)
    ensures
        order == max_sort_order(categories@),
{
    if categories.len() == 0 {
        return 0;
    }
    let mut order: i32 = categories[0].sort_order;
    let mut i: usize = 1;
    proof {
        assert(categories@.subrange(0, 1).len() == 1);
    }
    while i < categories.len()
        invariant
            1 <= i <= categories@.len(),
            order == max_sort_order(categories@.subrange(0, i as int)),
        decreases categories@.len() - i,
    {
        proof {
            assert(categories@.subrange(0, i + 1).drop_last() =~= categories@.subrange(0, i as int));
        }
        if categories[i].sort_order > order {
            order = categories[i].sort_order;
        }
        i += 1;
    }
    proof {
        assert(categories@.subrange(0, categories@.len() as int) =~= categories@);
    }
    order
}

/// Adds a new category after all others and returns a copy of it.
///
/// The category gets a fresh identifier and a sort order one above the
/// largest there is.
pub fn add_category(library: &mut SoundLibrary, name: String, icon: Option<String>) -> (category: Category)
    requires
        max_sort_order(old(library).categories@) < i32::MAX,
    ensures
        final(library).sounds == old(library).sounds,
        final(library).categories@ == old(library).categories@.push(category),
        category.id.0@.len() == 36,
        category.name == name,
        category.icon == icon,
        category.sort_order == max_sort_order(old(library).categories@) + 1,
{
    let max_order = max_sort_order_of(&library.categories);
    let category = Category { id: CategoryId::new(), name, icon, sort_order: max_order + 1 };
    let copy = category.duplicate();
    library.categories.push(category);
    copy
}

/// Changes the first category with the identifier `category_id` and returns
/// a copy of it as it is then.
///
/// Each field for which a value is given is replaced. Fails, and changes
/// nothing, exactly when no category has the identifier.
pub fn update_category(
    library: &mut SoundLibrary,
    category_id: &CategoryId,
    name: Option<String>,
    icon: Option<Option<String>>,
    sort_order: Option<i32>,
) -> (result: Result<Category, String>)
    ensures
        final(library).sounds == old(library).sounds,
        match result {
            Ok(category) => exists|i: int|
                first_category_at(old(library).categories@, category_id.0@, i) && category
                    == updated_category(
                    #[trigger] old(library).categories@[i],
                    name,
                    icon,
                    sort_order,
                ) && final(library).categories@ == old(library).categories@.update(i, category),
            Err(message) => {
                &&& !has_category(old(library).categories@, category_id.0@)
                &&& final(library).categories == old(library).categories
                &&& message@ == category_missing(category_id.0@)
            },
        },
{
    let at = match find_category(&library.categories, category_id.as_str()) {
        Some(at) => at,
        None => {
            return Err(missing("Category not found: ", category_id.as_str()));
        },
    };
    let ghost before = library.categories@;
    let mut category = library.categories.remove(at);
    if let Some(name) = name {
        category.name = name;
    }
    if let Some(icon) = icon {
        category.icon = icon;
    }
    if let Some(sort_order) = sort_order {
        category.sort_order = sort_order;
    }
    let copy = category.duplicate();
    library.categories.insert(at, category);
    proof {
        assert(library.categories@ =~= before.update(at as int, copy));
    }
    Ok(copy)
}

/// Moves every sound of the category `from` to the category `to`.
fn move_sounds(sounds: &mut Vec<Sound>, from: &str, to: &CategoryId)
    ensures
        final(sounds)@ == moved_sounds(old(sounds)@, from@, *to),
{
    let ghost start = sounds@;
    let mut i: usize = 0;
    while i < sounds.len()
        invariant
            0 <= i <= sounds@.len(),
            sounds@.len() == start.len(),
            forall|k: int| 0 <= k < i ==> sounds@[k] == moved_sounds(start, from@, *to)[k],
            forall|k: int| i <= k < start.len() ==> sounds@[k] == start[k],
        decreases sounds@.len() - i,
    {
        if text_eq(sounds[i].category_id.as_str(), from) {
            let mut sound = sounds.remove(i);
            sound.category_id = to.duplicate();
            sounds.insert(i, sound);
        }
        i += 1;
    }
    proof {
        assert(sounds@ =~= moved_sounds(start, from@, *to));
    }
}

/// Deletes every category with the identifier `category_id`, together with
/// its sounds, or after moving its sounds to the category `move_sounds_to`.
///
/// Fails, and changes nothing, when the identifier is `default`, which names
/// the category that cannot be deleted, or when no category has it.
pub fn delete_category(
    library: &mut SoundLibrary,
    category_id: &CategoryId,
    move_sounds_to: Option<CategoryId>,
) -> (result: Result<(), String>)
    ensures
        match result {
            Ok(()) => {
                &&& category_id.0@ != "default"@
                &&& has_category(old(library).categories@, category_id.0@)
                &&& final(library).categories@ == kept(
                    old(library).categories@,
                    |c: Category| c.id.0@ != category_id.0@,
                )
                &&& final(library).sounds@ == match move_sounds_to {
                    Some(target) => moved_sounds(old(library).sounds@, category_id.0@, target),
                    None => kept(
                        old(library).sounds@,
                        |s: Sound| s.category_id.0@ != category_id.0@,
                    ),
                }
            },
            Err(message) => {
                &&& *final(library) == *old(library)
                &&& if category_id.0@ == "default"@ {
                    message@ == "Cannot delete the default category"@
                } else {
                    !has_category(old(library).categories@, category_id.0@) && message@
                        == category_missing(category_id.0@)
                }
            },
        },
{
    if text_eq(category_id.as_str(), "default") {
        return Err(String::from_str("Cannot delete the default category"));
    }
    if find_category(&library.categories, category_id.as_str()).is_none() {
        return Err(missing("Category not found: ", category_id.as_str()));
    }
    match move_sounds_to {
        Some(target) => {
            move_sounds(&mut library.sounds, category_id.as_str(), &target);
        },
        None => {
            remove_sounds_by_category(&mut library.sounds, category_id.as_str());
        },
    }
    remove_categories_by_id(&mut library.categories, category_id.as_str());
    Ok(())
}

/// After a sound has been deleted, no sound has its identifier, and every
/// other sound is still there.
pub proof fn law_delete_sound(sounds: Seq<Sound>, id: Seq<char>)
    ensures
        !has_sound(kept(sounds, |s: Sound| s.id.0@ != id), id),
        forall|i: int|
            0 <= i < sounds.len() && (#[trigger] sounds[i]).id.0@ != id ==> kept(
                sounds,
                |s: Sound| s.id.0@ != id,
            ).contains(sounds[i]),
{
    let keep = |s: Sound| s.id.0@ != id;
    lemma_kept_members(sounds, keep);
    let out = kept(sounds, keep);
    if has_sound(out, id) {
        let i = choose|i: int| 0 <= i < out.len() && (#[trigger] out[i]).id.0@ == id;
        assert(keep(out[i]));
    }
}

/// After a category has been deleted with its sounds moved, no sound
/// belongs to it any more unless it was moved to itself, and no sound was
/// lost.
pub proof fn law_moved_sounds(sounds: Seq<Sound>, from: Seq<char>, to: CategoryId)
    ensures
        moved_sounds(sounds, from, to).len() == sounds.len(),
        to.0@ != from ==> forall|i: int|
            0 <= i < sounds.len() ==> (#[trigger] moved_sounds(sounds, from, to)[i]).category_id.0@
                != from,
        forall|i: int|
            0 <= i < sounds.len() ==> (#[trigger] moved_sounds(sounds, from, to)[i]).id
                == sounds[i].id,
{
}

} // verus!
