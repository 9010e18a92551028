//! Values that describe a virtual audio cable and the system's default
//! devices around its installation.

use vstd::prelude::*;

use crate::device::{id_text, DeviceId};
use crate::text::{contains_text, has_text, lowercase_of, to_lowercase};

verus! {

/// How often the device list is searched for the cable after an
/// installation.
pub const MAX_RETRIES: u32 = 5;

/// Milliseconds between two searches.
pub const RETRY_DELAY_MS: u64 = 1000;

/// The devices of a detected virtual cable.
#[derive(Debug, Clone)]
pub struct VbCableInfo {
    /// Name of the output device, to which applications send audio.
    pub output_device: String,
    /// Name of the input device, from which applications receive audio.
    pub input_device: Option<String>,
}

/// Whether the virtual cable is installed.
#[derive(Debug, Clone)]
pub enum VbCableStatus {
    /// The cable was detected.
    Installed { info: VbCableInfo },
    /// No cable was found.
    NotInstalled,
}

/// The system's default devices, one per direction and role.
#[derive(Debug, Clone)]
pub struct SavedDefaults {
    pub render_console: Option<String>,
    pub render_communications: Option<String>,
    pub capture_console: Option<String>,
    pub capture_communications: Option<String>,
}

/// Remembers the default output device across the cable's installation.
#[derive(Debug, Clone)]
pub struct DefaultDeviceManager {
    pub saved_device_id: Option<String>,
}

impl DefaultDeviceManager {
    /// The identifier of the saved device.
    pub fn get_saved_device_id(&self) -> (id: Option<String>)
        ensures
            id == self.saved_device_id,
    {
        match &self.saved_device_id {
            Some(id) => Some(id.clone()),
            None => None,
        }
    }
}

/// Whether a device name, whatever its case, holds `needle`.
pub open spec fn name_holds(name: Seq<char>, needle: Seq<char>) -> bool {
    has_text(lowercase_of(name), needle)
}

/// Whether position `i` of `names` has a name that holds `needle`.
pub open spec fn matches_at(names: Seq<Option<String>>, needle: Seq<char>, i: int) -> bool {
    0 <= i < names.len() && names[i] is Some && name_holds(names[i]->0@, needle)
}

/// Whether position `i` is the first of `names` with a name that holds
/// `needle`.
pub open spec fn first_match_at(names: Seq<Option<String>>, needle: Seq<char>, i: int) -> bool {
    matches_at(names, needle, i) && forall|j: int| 0 <= j < i ==> !matches_at(names, needle, j)
}

/// Whether no name among `names` holds `needle`.
pub open spec fn no_match(names: Seq<Option<String>>, needle: Seq<char>) -> bool {
    forall|j: int| !matches_at(names, needle, j)
}

/// The capture devices that a host's list gives: identifier and name of each
/// position that has a name, unless the name holds `cable`, in the list's
/// order.
pub open spec fn microphones(names: Seq<Option<String>>) -> Seq<(Seq<char>, Seq<char>)>
    decreases names.len(),
{
    if names.len() == 0 {
        Seq::empty()
    } else {
        let front = microphones(names.drop_last());
        match names.last() {
            Some(name) => if name_holds(name@, "cable"@) {
                front
            } else {
                front.push((id_text((names.len() - 1) as nat), name@))
            },
            None => front,
        }
    }
}

/// The texts of a list of pairs of strings.
pub open spec fn pair_texts(pairs: Seq<(String, String)>) -> Seq<(Seq<char>, Seq<char>)> {
    pairs.map_values(|p: (String, String)| (p.0@, p.1@))
}

/// Finds the first position of `names` whose name, whatever its case, holds
/// `needle`.
pub fn find_device_named(names: &Vec<Option<String>>, needle: &str) -> (found: Option<usize>)
    ensures
        match found {
            Some(i) => first_match_at(names@, needle@, i as int),
            None => no_match(names@, needle@),
        },
{
    let mut i: usize = 0;
    while i < names.len()
        invariant
            0 <= i <= names@.len(),
            forall|j: int| 0 <= j < i ==> !matches_at(names@, needle@, j),
        decreases names@.len() - i,
    {
        match &names[i] {
            Some(name) => {
                let lowered = to_lowercase(name.as_str());
                if contains_text(lowered.as_str(), needle) {
                    return Some(i);
                }
            },
            None => {},
        }
        i += 1;
    }
    None
}

/// A copy of the name at a position that has one.
fn name_at(names: &Vec<Option<String>>, i: usize) -> (name: String)
    requires
        i < names@.len(),
        names@[i as int] is Some,
    ensures
        name == names@[i as int]->0,
{
    match &names[i] {
        Some(name) => name.clone(),
        None => vstd::pervasive::unreached(),
    }
}

/// Looks for the virtual cable among the names of the output devices and of
/// the input devices, each list in the host's order.
///
/// The cable is there if an output device's name holds `cable input`; the
/// first such name is reported. The first input device whose name holds
/// `cable output` is reported with it, if there is one.
pub fn detect_vb_cable(
    output_names: &Vec<Option<String>>,
    input_names: &Vec<Option<String>>,
) -> (detected: Option<VbCableInfo>)
    ensures
        match detected {
            Some(info) => {
                &&& exists|i: int|
                    first_match_at(output_names@, "cable input"@, i) && info.output_device
                        == (#[trigger] output_names@[i])->0
                &&& match info.input_device {
                    Some(name) => exists|i: int|
                        first_match_at(input_names@, "cable output"@, i) && name
                            == (#[trigger] input_names@[i])->0,
                    None => no_match(input_names@, "cable output"@),
                }
            },
            None => no_match(output_names@, "cable input"@),
        },
{
    let output_device = match find_device_named(output_names, "cable input") {
        Some(i) => name_at(output_names, i),
        None => {
            return None;
        },
    };
    let input_device = match find_device_named(input_names, "cable output") {
        Some(i) => Some(name_at(input_names, i)),
        None => None,
    };
    Some(VbCableInfo { output_device, input_device })
}

/// The status that a detection stands for.
pub fn check_vb_cable_status(detected: Option<VbCableInfo>) -> (status: VbCableStatus)
    ensures
        match detected {
            Some(info) => status == (VbCableStatus::Installed { info }),
            None => status is NotInstalled,
        },
{
    match detected {
        Some(info) => VbCableStatus::Installed { info },
        None => VbCableStatus::NotInstalled,
    }
}

/// What follows a search that did not find the cable: after each but the
/// last of [`MAX_RETRIES`] searches, counted from one, a pause of
/// [`RETRY_DELAY_MS`] milliseconds and another search; after the last,
/// nothing.
pub fn retry_delay(attempt: u32) -> (pause: Option<u64>)
    ensures
        pause == if 1 <= attempt < MAX_RETRIES {
            Some(RETRY_DELAY_MS)
        } else {
            None::<u64>
        },
{
    if 1 <= attempt && attempt < MAX_RETRIES {
        Some(RETRY_DELAY_MS)
    } else {
        None
    }
}

/// Lists the microphones among the names of the input devices: identifier
/// and name of every named device that is not part of the virtual cable.
pub fn list_capture_devices(names: &Vec<Option<String>>) -> (devices: Vec<(String, String)>)
    ensures
        pair_texts(devices@) == microphones(names@),
{
    let mut devices: Vec<(String, String)> = Vec::new();
    let mut index: usize = 0;
    proof {
        assert(names@.subrange(0, 0) =~= Seq::<Option<String>>::empty());
        assert(pair_texts(devices@) =~= microphones(names@.subrange(0, 0)));
    }
    while index < names.len()
        invariant
            0 <= index <= names@.len(),
            pair_texts(devices@) == microphones(names@.subrange(0, index as int)),
        decreases names@.len() - index,
    {
        proof {
            assert(names@.subrange(0, index + 1).drop_last() =~= names@.subrange(0, index as int));
            assert(names@.subrange(0, index + 1).last() == names@[index as int]);
        }
        match &names[index] {
            Some(name) => {
                let lowered = to_lowercase(name.as_str());
                if !contains_text(lowered.as_str(), "cable") {
                    let ghost before = devices@;
                    let pair = (DeviceId::from_index(index).to_string(), name.clone());
                    devices.push(pair);
                    proof {
                        assert(pair_texts(devices@) =~= pair_texts(before).push((pair.0@, pair.1@)));
                    }
                }
            },
            None => {},
        }
        index += 1;
    }
    proof {
        assert(names@.subrange(0, names@.len() as int) =~= names@);
    }
    devices
}

} // verus!
