//! Failures of the audio pipeline and their messages.

use vstd::prelude::*;

verus! {

/// `std::io::Error`, carried as it came.
#[verifier::external_type_specification]
#[verifier::external_body]
pub struct ExIoError(std::io::Error);

/// What can go wrong between a file path and audible output.
#[derive(Debug)]
pub enum AudioError {
    /// The file could not be opened.
    FileOpen(std::io::Error),
    /// The container format was not recognised.
    ProbeFormat(String),
    /// The file holds no audio track.
    NoTracks,
    /// No decoder could be made for the track.
    DecoderCreation(String),
    /// A packet could not be read.
    PacketRead(String),
    /// A packet could not be decoded.
    Decode(String),
    /// Decoding produced no samples.
    NoData,
    /// The output devices could not be listed.
    DeviceEnumeration(String),
    /// There is no output device.
    NoDevices,
    /// A device did not report its configuration.
    DeviceConfig(String),
    /// The device wants a sample format the engine does not write.
    UnsupportedFormat,
    /// An output stream could not be built.
    StreamBuild(String),
    /// An output stream could not be started.
    StreamStart(String),
    /// A device identifier is not of the form the engine hands out.
    InvalidDeviceId(String),
    /// No device stands at the identifier's index.
    DeviceNotFound(String),
}

/// The fixed part of an error's message. Where the variant carries a detail,
/// the heading ends in a colon and a space and the detail follows it.
pub open spec fn heading(error: AudioError) -> Seq<char> {
    match error {
        AudioError::FileOpen(_) => "Failed to open audio file: "@,
        AudioError::ProbeFormat(_) => "Failed to probe audio format: "@,
        AudioError::NoTracks => "No audio tracks found in file"@,
        AudioError::DecoderCreation(_) => "Failed to create decoder: "@,
        AudioError::PacketRead(_) => "Error reading audio packet: "@,
        AudioError::Decode(_) => "Decoding error: "@,
        AudioError::NoData => "No audio data decoded"@,
        AudioError::DeviceEnumeration(_) => "Failed to enumerate audio devices: "@,
        AudioError::NoDevices => "No audio output devices found"@,
        AudioError::DeviceConfig(_) => "Failed to get device configuration: "@,
        AudioError::UnsupportedFormat => "Unsupported sample format"@,
        AudioError::StreamBuild(_) => "Failed to build output stream: "@,
        AudioError::StreamStart(_) => "Failed to start stream: "@,
        AudioError::InvalidDeviceId(_) => "Invalid device ID: "@,
        AudioError::DeviceNotFound(_) => "Device not found: "@,
    }
}

/// The detail that a variant carries as text, empty for a variant without
/// one. The detail of `FileOpen` is the text of its I/O error, which this
/// function does not know.
pub open spec fn detail(error: AudioError) -> Seq<char> {
    match error {
        AudioError::ProbeFormat(s) => s@,
        AudioError::DecoderCreation(s) => s@,
        AudioError::PacketRead(s) => s@,
        AudioError::Decode(s) => s@,
        AudioError::DeviceEnumeration(s) => s@,
        AudioError::DeviceConfig(s) => s@,
        AudioError::StreamBuild(s) => s@,
        AudioError::StreamStart(s) => s@,
        AudioError::InvalidDeviceId(s) => s@,
        AudioError::DeviceNotFound(s) => s@,
        _ => Seq::<char>::empty(),
    }
}

/// `std::io::Error`'s `to_string`: the text of an I/O error. It depends on
/// the platform, so nothing is said of it.
#[verifier::external_body]
fn io_error_text(error: &std::io::Error) -> (text: String) {
    error.to_string()
}

fn headed(head: &str, tail: &str) -> (message: String)
    ensures
        message@ == head@ + tail@,
{
    let mut message = String::from_str(head);
    message.append(tail);
    message
}

fn plain(head: &str) -> (message: String)
    ensures
        message@ == head@ + Seq::<char>::empty(),
{
    let message = String::from_str(head);
    proof {
        assert(message@ =~= head@ + Seq::<char>::empty());
    }
    message
}

impl AudioError {
    /// The error's message: its heading, followed by its detail.
    ///
    /// For `FileOpen` the detail is the I/O error's own text; the message is
    /// then only known to begin with the heading.
    pub fn to_string(&self) -> (message: String)
        ensures
            !(self is FileOpen) ==> message@ == heading(*self) + detail(*self),
            self is FileOpen ==> message@.len() >= heading(*self).len() && message@.subrange(
                0,
                heading(*self).len() as int,
            ) == heading(*self),
    {
        match self {
            AudioError::FileOpen(e) => {
                let text = io_error_text(e);
                let message = headed("Failed to open audio file: ", text.as_str());
                proof {
                    assert(message@.subrange(0, heading(*self).len() as int) =~= heading(*self));
                }
                message
            },
            AudioError::ProbeFormat(s) => headed("Failed to probe audio format: ", s.as_str()),
            AudioError::NoTracks => plain("No audio tracks found in file"),
            AudioError::DecoderCreation(s) => headed("Failed to create decoder: ", s.as_str()),
            AudioError::PacketRead(s) => headed("Error reading audio packet: ", s.as_str()),
            AudioError::Decode(s) => headed("Decoding error: ", s.as_str()),
            AudioError::NoData => plain("No audio data decoded"),
            AudioError::DeviceEnumeration(s) => headed(
                "Failed to enumerate audio devices: ",
                s.as_str(),
            ),
            AudioError::NoDevices => plain("No audio output devices found"),
            AudioError::DeviceConfig(s) => headed(
                "Failed to get device configuration: ",
                s.as_str(),
            ),
            AudioError::UnsupportedFormat => plain("Unsupported sample format"),
            AudioError::StreamBuild(s) => headed("Failed to build output stream: ", s.as_str()),
            AudioError::StreamStart(s) => headed("Failed to start stream: ", s.as_str()),
            AudioError::InvalidDeviceId(s) => headed("Invalid device ID: ", s.as_str()),
            AudioError::DeviceNotFound(s) => headed("Device not found: ", s.as_str()),
        }
    }
}

impl From<std::io::Error> for AudioError {
    /// An I/O error is a failure to open the file.
    fn from(error: std::io::Error) -> (converted: AudioError) {
        AudioError::FileOpen(error)
    }
}

impl vstd::std_specs::convert::FromSpecImpl<std::io::Error> for AudioError {
    open spec fn obeys_from_spec() -> bool {
        true
    }

    open spec fn from_spec(error: std::io::Error) -> AudioError {
        AudioError::FileOpen(error)
    }
}

impl From<AudioError> for String {
    /// An error turns into its message.
    fn from(error: AudioError) -> (message: String) {
        error.to_string()
    }
}

impl vstd::std_specs::convert::FromSpecImpl<AudioError> for String {
    /// The message of a failure to open a file holds the platform's text
    /// for the I/O error, so the conversion is not a function of the model.
    open spec fn obeys_from_spec() -> bool {
        false
    }

    open spec fn from_spec(error: AudioError) -> String {
        arbitrary()
    }
}

} // verus!
