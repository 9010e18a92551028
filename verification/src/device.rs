//! Output devices and their index-derived identifiers.

use vstd::prelude::*;

use crate::error::AudioError;
use crate::keyed::text_eq;
use crate::text::{
    all_digits, append_decimal, decimal_digits, digit_value, digits_number, has_prefix, hex_char,
    parse_unsigned, parse_unsigned_from, starts_with, unsigned_body,
};

verus! {

/// Identifier of a device: the text `device_` followed by the device's index
/// in the host's list. Names are not unique, indices are.
#[derive(Debug, Clone, PartialEq, Eq, Hash)]
pub struct DeviceId(pub String);

/// An audio output device.
#[derive(Debug, Clone)]
pub struct AudioDevice {
    /// Identifier of the device.
    pub id: DeviceId,
    /// Human-readable name of the device.
    pub name: String,
    /// Whether this is the system's default device.
    pub is_default: bool,
}

/// What every identifier made from an index begins with.
pub open spec fn id_prefix() -> Seq<char> {
    "device_"@
}

/// The identifier for the device at `index`.
pub open spec fn id_text(index: nat) -> Seq<char> {
    id_prefix() + decimal_digits(index)
}

/// The index that an identifier names: what follows `device_`, read as an
/// unsigned decimal number that fits the machine's index type. `None` for
/// any other text.
pub open spec fn id_index(id: Seq<char>) -> Option<nat> {
    if has_prefix(id, id_prefix()) {
        parse_unsigned(id.skip(id_prefix().len() as int), usize::MAX as nat)
    } else {
        None
    }
}

impl DeviceId {
    /// Creates the identifier of the device at `index`.
    pub fn from_index(index: usize) -> (id: Self)
        ensures
            id.0@ == id_text(index as nat),
    {
        let mut text = String::from_str("device_");
        append_decimal(&mut text, index as u64);
        DeviceId(text)
    }

    /// Reads the device index back from the identifier.
    ///
    /// Fails with `InvalidDeviceId`, carrying the identifier's text, exactly
    /// when the identifier names no index.
    pub fn index(&self) -> (index: Result<usize, AudioError>)
        ensures
            match index {
                Ok(i) => id_index(self.0@) == Some(i as nat),
                Err(e) => id_index(self.0@) is None && (e matches AudioError::InvalidDeviceId(text)
                    && text@ == self.0@),
            },
    {
        proof {
            reveal_strlit("device_");
        }
        let text = self.0.as_str();
        if starts_with(text, "device_") {
            match parse_unsigned_from(text, 7, usize::MAX as u64) {
                Some(value) => {
                    return Ok(value as usize);
                },
                None => {},
            }
        }
        Err(AudioError::InvalidDeviceId(self.0.clone()))
    }

    /// The identifier as text.
    pub fn as_str(&self) -> (text: &str)
        ensures
            text@ == self.0@,
    {
        self.0.as_str()
    }

    /// The identifier as an owned string, as it is shown to users.
    pub fn to_string(&self) -> (text: String)
        ensures
            text@ == self.0@,
    {
        self.0.clone()
    }
}

/// The device that stands at position `index` of the host's list under the
/// name `name`.
pub open spec fn device_at(index: nat, name: String, default_name: Seq<char>) -> DeviceModel {
    DeviceModel { id: id_text(index), name: name@, is_default: name@ == default_name }
}

/// The devices that a host's list gives: one for each position that has a
/// name, in the list's order. A position without a name gives no device but
/// still counts for the identifiers of the ones after it.
pub open spec fn listed(names: Seq<Option<String>>, default_name: Seq<char>) -> Seq<DeviceModel>
    decreases names.len(),
{
    if names.len() == 0 {
        Seq::empty()
    } else {
        let front = listed(names.drop_last(), default_name);
        match names.last() {
            Some(name) => front.push(device_at((names.len() - 1) as nat, name, default_name)),
            None => front,
        }
    }
}

/// A device as a value of the model.
pub struct DeviceModel {
    pub id: Seq<char>,
    pub name: Seq<char>,
    pub is_default: bool,
}

impl View for AudioDevice {
    type V = DeviceModel;

    open spec fn view(&self) -> DeviceModel {
        DeviceModel { id: self.id.0@, name: self.name@, is_default: self.is_default }
    }
}

/// The models of a list of devices.
pub open spec fn device_models(devices: Seq<AudioDevice>) -> Seq<DeviceModel> {
    devices.map_values(|d: AudioDevice| d@)
}

/// Makes the list of output devices from what the host reports: the name at
/// each position of its list, where the device gave one, and the name of the
/// default device, empty if there is none.
///
/// Fails with `NoDevices` exactly when no position has a name.
pub fn enumerate_devices(names: Vec<Option<String>>, default_name: &str) -> (devices: Result<
    Vec<AudioDevice>,
    AudioError,
>)
    ensures
        match devices {
            Ok(list) => device_models(list@) == listed(names@, default_name@) && list@.len() > 0,
            Err(e) => e is NoDevices && listed(names@, default_name@).len() == 0,
        },
{
    let mut devices: Vec<AudioDevice> = Vec::new();
    let mut index: usize = 0;
    proof {
        assert(names@.subrange(0, 0) =~= Seq::<Option<String>>::empty());
        assert(device_models(devices@) =~= listed(names@.subrange(0, 0), default_name@));
    }
    while index < names.len()
        invariant
            0 <= index <= names@.len(),
            device_models(devices@) == listed(names@.subrange(0, index as int), default_name@),
        decreases names@.len() - index,
    {
        proof {
            assert(names@.subrange(0, index + 1).drop_last() =~= names@.subrange(0, index as int));
            assert(names@.subrange(0, index + 1).last() == names@[index as int]);
        }
        match &names[index] {
            Some(name) => {
                let ghost before = devices@;
                let is_default = text_eq(name.as_str(), default_name);
                let device = AudioDevice {
                    id: DeviceId::from_index(index),
                    name: name.clone(),
                    is_default,
                };
                devices.push(device);
                proof {
                    assert(device_models(devices@) =~= device_models(before).push(device@));
                }
            },
            None => {},
        }
        index += 1;
    }
    proof {
        assert(names@.subrange(0, names@.len() as int) =~= names@);
    }
    if devices.len() == 0 {
        return Err(AudioError::NoDevices);
    }
    Ok(devices)
}

proof fn lemma_hex_char_is_digit(d: nat)
    requires
        d < 10,
    ensures
        digit_value(hex_char(d)) == Some(d),
        hex_char(d) != '+',
{
}

/// The decimal digits of a number spell that number.
pub proof fn lemma_decimal_digits_spell(n: nat)
    ensures
        decimal_digits(n).len() > 0,
        all_digits(decimal_digits(n)),
        digits_number(decimal_digits(n)) == n,
        decimal_digits(n)[0] != '+',
    decreases n,
{
    reveal_with_fuel(digits_number, 2);
    if n < 10 {
        lemma_hex_char_is_digit(n);
        let s = decimal_digits(n);
        assert(s.drop_last().len() == 0);
        assert(s.last() == hex_char(n));
    } else {
        lemma_decimal_digits_spell(n / 10);
        lemma_hex_char_is_digit(n % 10);
        let head = decimal_digits(n / 10);
        let s = decimal_digits(n);
        assert(s.drop_last() =~= head);
        assert(s[0] == head[0]);
        assert forall|i: int| 0 <= i < s.len() implies digit_value(#[trigger] s[i]) is Some by {
            if i < head.len() {
                assert(s[i] == head[i]);
            }
        }
    }
}

/// An identifier made from an index names that index: `from_index` followed
/// by `index` gives the index back.
pub proof fn law_index_round_trip(index: nat)
    requires
        index <= usize::MAX,
    ensures
        id_index(id_text(index)) == Some(index),
{
    lemma_decimal_digits_spell(index);
    let id = id_text(index);
    let digits = decimal_digits(index);
    assert(id.subrange(0, id_prefix().len() as int) =~= id_prefix());
    assert(id.skip(id_prefix().len() as int) =~= digits);
    assert(unsigned_body(digits) == digits);
}

} // verus!
