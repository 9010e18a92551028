//! Identifiers of sounds and categories, and the categories themselves.

use vstd::prelude::*;

use crate::text::{append_hex, hex_digits, push_char};

verus! {

/// Unique identifier of a sound in the library.
#[derive(Debug, Clone, PartialEq, Eq, Hash)]
pub struct SoundId(pub String);

/// Unique identifier of a category.
#[derive(Debug, Clone, PartialEq, Eq, Hash)]
pub struct CategoryId(pub String);

/// A category that sounds are sorted into.
#[derive(Debug, Clone)]
pub struct Category {
    /// Unique identifier.
    pub id: CategoryId,
    /// Display name.
    pub name: String,
    /// Icon for the category's tab.
    pub icon: Option<String>,
    /// Position among the categories; lower comes first.
    pub sort_order: i32,
}

/// The clock's reading mixed into 64 bits: its low 64 bits times a constant
/// plus a constant, as far as 64 bits hold it.
pub open spec fn scrambled(timestamp: u128) -> u64 {
    (((timestamp as u64) as u128) * 0x5DEECE66D + 0xB) as u64
}

/// The five groups of an identifier made from `timestamp`, each as a number.
/// The third group lacks the leading version digit.
pub open spec fn id_groups(timestamp: u128) -> (u64, u64, u64, u64, u64) {
    let mixed = scrambled(timestamp);
    (
        ((timestamp >> 64) as u32) as u64,
        ((timestamp >> 48) as u16) as u64,
        ((mixed as u16) & 0x0FFF) as u64,
        ((((mixed >> 16) as u16) & 0x3FFF) | 0x8000) as u64,
        mixed >> 32,
    )
}

/// The identifier made from `timestamp`: five groups of lower-case
/// hexadecimal digits, 8, 4, 4, 4 and 12 long, joined by hyphens; the third
/// group begins with the version digit 4.
pub open spec fn id_text(timestamp: u128) -> Seq<char> {
    let g = id_groups(timestamp);
    hex_digits(g.0 as nat, 8).push('-') + hex_digits(g.1 as nat, 4).push('-').push('4')
        + hex_digits(g.2 as nat, 3).push('-') + hex_digits(g.3 as nat, 4).push('-') + hex_digits(
        g.4 as nat,
        12,
    )
}

/// `SystemTime::now`: the system clock, as nanoseconds since the Unix epoch,
/// zero for a clock that reads earlier. Nothing is known of the value.
#[verifier::external_body]
fn epoch_nanos() -> (nanos: u128) {
    std::time::SystemTime::now().duration_since(std::time::UNIX_EPOCH).unwrap_or_default().as_nanos()
}

/// Makes the identifier for a reading of the clock, see [`id_text`].
pub fn uuid_from_nanos(timestamp: u128) -> (id: String)
    ensures
        id@ == id_text(timestamp),
{
    let low: u64 = #[verifier::truncate]
    (timestamp as u64);
    let mixed: u64 = #[verifier::truncate]
    (((low as u128) * 0x5DEECE66D + 0xB) as u64);
    let first: u32 = #[verifier::truncate]
    ((timestamp >> 64) as u32);
    let second: u16 = #[verifier::truncate]
    ((timestamp >> 48) as u16);
    let low16: u16 = #[verifier::truncate]
    (mixed as u16);
    let third: u16 = low16 & 0x0FFF;
    let mid16: u16 = #[verifier::truncate]
    ((mixed >> 16) as u16);
    let fourth: u16 = (mid16 & 0x3FFF) | 0x8000;
    let fifth: u64 = mixed >> 32;
    let mut id = String::new();
    append_hex(&mut id, first as u64, 8);
    push_char(&mut id, '-');
    append_hex(&mut id, second as u64, 4);
    push_char(&mut id, '-');
    push_char(&mut id, '4');
    append_hex(&mut id, third as u64, 3);
    push_char(&mut id, '-');
    append_hex(&mut id, fourth as u64, 4);
    push_char(&mut id, '-');
    append_hex(&mut id, fifth, 12);
    proof {
        assert(id@ =~= id_text(timestamp));
    }
    id
}

/// Makes a fresh identifier from the system clock.
pub fn uuid_v4() -> (id: String)
    ensures
        exists|timestamp: u128| id@ == id_text(timestamp),
        id@.len() == 36,
        id@[8] == '-' && id@[13] == '-' && id@[14] == '4' && id@[18] == '-' && id@[23] == '-',
{
    let timestamp = epoch_nanos();
    proof {
        law_id_shape(timestamp);
    }
    uuid_from_nanos(timestamp)
}

pub proof fn lemma_hex_digits_len(value: nat, width: nat)
    ensures
        hex_digits(value, width).len() == width,
    decreases width,
{
    if width > 0 {
        lemma_hex_digits_len(value / 16, (width - 1) as nat);
    }
}

/// Every identifier has 36 characters, hyphens after the 8th, 13th, 18th and
/// 23rd, and the version digit 4 at the head of its third group.
pub proof fn law_id_shape(timestamp: u128)
    ensures
        id_text(timestamp).len() == 36,
        id_text(timestamp)[8] == '-',
        id_text(timestamp)[13] == '-',
        id_text(timestamp)[14] == '4',
        id_text(timestamp)[18] == '-',
        id_text(timestamp)[23] == '-',
{
    let g = id_groups(timestamp);
    lemma_hex_digits_len(g.0 as nat, 8);
    lemma_hex_digits_len(g.1 as nat, 4);
    lemma_hex_digits_len(g.2 as nat, 3);
    lemma_hex_digits_len(g.3 as nat, 4);
    lemma_hex_digits_len(g.4 as nat, 12);
}

impl SoundId {
    /// Creates a fresh identifier.
    pub fn new() -> (id: Self)
        ensures
            exists|timestamp: u128| id.0@ == id_text(timestamp),
            id.0@.len() == 36,
    {
        SoundId(uuid_v4())
    }

    /// The identifier as text.
    pub fn as_str(&self) -> (text: &str)
        ensures
            text@ == self.0@,
    {
        self.0.as_str()
    }
}

impl Default for SoundId {
    fn default() -> (id: Self)
        ensures
            id.0@.len() == 36,
    {
        SoundId::new()
    }
}

impl CategoryId {
    /// Creates a fresh identifier.
    pub fn new() -> (id: Self)
        ensures
            exists|timestamp: u128| id.0@ == id_text(timestamp),
            id.0@.len() == 36,
    {
        CategoryId(uuid_v4())
    }

    /// Makes an identifier of given text, as for the default category.
    pub fn from_string(s: String) -> (id: Self)
        ensures
            id.0 == s,
    {
        CategoryId(s)
    }

    /// The identifier as text.
    pub fn as_str(&self) -> (text: &str)
        ensures
            text@ == self.0@,
    {
        self.0.as_str()
    }
}

impl Default for CategoryId {
    fn default() -> (id: Self)
        ensures
            id.0@.len() == 36,
    {
        CategoryId::new()
    }
}

} // verus!
