//! The spelling of keyboard shortcuts.
//!
//! The system reports a shortcut in its own spelling, such as
//! `control+shift+KeyA`. Shortcuts are stored as `Ctrl+Shift+A`. This module
//! turns the one into the other.

use vstd::prelude::*;

use crate::keyed::text_eq;
use crate::text::{
    char_to_uppercase, char_uppercase_of, has_prefix, join_with_plus, joined_plus, lowercase_of,
    split_at_plus, split_plus, starts_with, texts, to_lowercase, to_uppercase, trim, trimmed,
    uppercase_of,
};

verus! {

/// `s` with its first character in upper case.
pub open spec fn capitalized(s: Seq<char>) -> Seq<char> {
    if s.len() == 0 {
        Seq::empty()
    } else {
        char_uppercase_of(s[0]) + s.drop_first()
    }
}

/// The stored spelling of one key of a shortcut.
///
/// The key is taken without surrounding white space and in lower case. The
/// modifiers `control`, `alt`, `shift` and `meta` become `Ctrl`, `Alt`,
/// `Shift` and `Super`. A key of the number pad, `numpad` and a name, becomes
/// `NumPad` and the name with a capital. A digit key, `digit` and a digit,
/// becomes the digit. A letter key, `key` and a letter, becomes the letter in
/// upper case. Any other key gets a capital.
pub open spec fn normalized_key(part: Seq<char>) -> Seq<char> {
    let key = lowercase_of(trimmed(part));
    if key == "control"@ {
        "Ctrl"@
    } else if key == "alt"@ {
        "Alt"@
    } else if key == "shift"@ {
        "Shift"@
    } else if key == "meta"@ {
        "Super"@
    } else if has_prefix(key, "numpad"@) {
        "NumPad"@ + capitalized(key.skip("numpad"@.len() as int))
    } else if has_prefix(key, "digit"@) {
        key.skip("digit"@.len() as int)
    } else if has_prefix(key, "key"@) {
        uppercase_of(key.skip("key"@.len() as int))
    } else {
        capitalized(key)
    }
}

/// The stored spelling of a shortcut: the stored spelling of each of its
/// keys, joined by `+` as the keys were.
pub open spec fn normalized(hotkey: Seq<char>) -> Seq<char> {
    joined_plus(split_plus(hotkey).map_values(|part: Seq<char>| normalized_key(part)))
}

/// Capitalize the first letter of a string
pub fn capitalize_first(s: &str) -> (capital: String)
    ensures
        capital@ == capitalized(s@),
{
    let len: usize = s.unicode_len();
    if len == 0 {
        return String::new();
    }
    let mut capital = char_to_uppercase(s.get_char(0));
    capital.append(s.substring_char(1, len));
    proof {
        assert(s@.subrange(1, len as int) =~= s@.drop_first());
    }
    capital
}

/// `key` without its first `count` characters.
fn after(key: &str, count: usize) -> (rest: &str)
    requires
        count <= key@.len(),
    ensures
        rest@ == key@.skip(count as int),
{
    let len: usize = key.unicode_len();
    proof {
        assert(key@.subrange(count as int, len as int) =~= key@.skip(count as int));
    }
    key.substring_char(count, len)
}

/// Normalizes one key of a shortcut, see [`normalized_key`].
pub fn normalize_key(part: &str) -> (stored: String)
    ensures
        stored@ == normalized_key(part@),
{
    proof {
        reveal_strlit("numpad");
        reveal_strlit("digit");
        reveal_strlit("key");
    }
    let lowered = to_lowercase(trim(part));
    let key = lowered.as_str();
    if text_eq(key, "control") {
        String::from_str("Ctrl")
    } else if text_eq(key, "alt") {
        String::from_str("Alt")
    } else if text_eq(key, "shift") {
        String::from_str("Shift")
    } else if text_eq(key, "meta") {
        String::from_str("Super")
    } else if starts_with(key, "numpad") {
        let mut stored = String::from_str("NumPad");
        let name = capitalize_first(after(key, 6));
        stored.append(name.as_str());
        stored
    } else if starts_with(key, "digit") {
        String::from_str(after(key, 5))
    } else if starts_with(key, "key") {
        to_uppercase(after(key, 3))
    } else {
        capitalize_first(key)
    }
}

/// Normalize hotkey string to match our storage format
pub fn normalize_hotkey_string(hotkey: &str) -> (stored: String)
    ensures
        stored@ == normalized(hotkey@),
{
    let parts = split_at_plus(hotkey);
    let mut keys: Vec<String> = Vec::new();
    let ghost wanted = split_plus(hotkey@).map_values(|part: Seq<char>| normalized_key(part));
    let mut i: usize = 0;
    while i < parts.len()
        invariant
            0 <= i <= parts@.len(),
            texts(parts@) == split_plus(hotkey@),
            wanted == split_plus(hotkey@).map_values(|part: Seq<char>| normalized_key(part)),
            keys@.len() == i,
            forall|k: int| 0 <= k < i ==> (#[trigger] keys@[k])@ == wanted[k],
        decreases parts@.len() - i,
    {
        proof {
            assert(texts(parts@)[i as int] == parts@[i as int]@);
        }
        let key = normalize_key(parts[i].as_str());
        keys.push(key);
        i += 1;
    }
    proof {
        assert(texts(keys@) =~= wanted);
    }
    join_with_plus(&keys)
}

} // verus!
