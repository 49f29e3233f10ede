//! Audio formats and synthesized audio.
use vstd::prelude::*;

verus! {

/// A format that audio can be asked for in.
#[derive(Clone, Copy, Debug, PartialEq, Eq, Structural)]
pub enum AudioFormat {
    Mp3,
    Opus,
    Aac,
    Pcm,
    Wav,
    Webm,
}

/// The name that vLLM-Omni has for a format, if it serves it.
pub open spec fn served_as(format: AudioFormat) -> Option<Seq<char>> {
    match format {
        AudioFormat::Mp3 => Some("mp3"@),
        AudioFormat::Opus => Some("opus"@),
        AudioFormat::Pcm => Some("pcm"@),
        AudioFormat::Wav => Some("wav"@),
        AudioFormat::Aac | AudioFormat::Webm => None,
    }
}

/// The format to ask for where `requested` is wanted: itself where it is served,
/// else the closest one that is.
pub open spec fn closest_served(requested: AudioFormat) -> AudioFormat {
    match requested {
        AudioFormat::Aac => AudioFormat::Mp3,
        AudioFormat::Webm => AudioFormat::Opus,
        _ => requested,
    }
}

/// A buffer of bytes that is cheap to share.
#[verifier::external_type_specification]
#[verifier::external_body]
pub struct ExBytes(bytes::Bytes);

/// The bytes that a shared buffer holds.
pub uninterp spec fn shared_bytes(buffer: bytes::Bytes) -> Seq<u8>;

/// Turns a vector into a shared buffer with the `From` conversion of
/// [`bytes::Bytes`].
///
/// Taken on trust: the buffer holds the bytes of the vector in their order.
#[verifier::external_body]
fn share(data: Vec<u8>) -> (res: bytes::Bytes)
    ensures
        shared_bytes(res) == data@,
{
    bytes::Bytes::from(data)
}

/// Synthesized audio.
#[derive(Debug)]
pub struct AudioOutput {
    pub data: bytes::Bytes,
    pub format: AudioFormat,
    pub duration_ms: Option<u64>,
}

/// What synthesized audio is.
pub struct AudioClip {
    pub data: Seq<u8>,
    pub format: AudioFormat,
    pub duration_ms: Option<u64>,
}

impl View for AudioOutput {
    type V = AudioClip;

    open spec fn view(&self) -> AudioClip {
        AudioClip {
            data: shared_bytes(self.data),
            format: self.format,
            duration_ms: self.duration_ms,
        }
    }
}

impl AudioOutput {
    /// Audio of the given format whose duration is not known.
    pub fn new(data: Vec<u8>, format: AudioFormat) -> (res: AudioOutput)
        ensures
            res@ == (AudioClip { data: data@, format, duration_ms: None }),
    {
        AudioOutput { data: share(data), format, duration_ms: None }
    }
}

/// What is reported is what was asked for on the wire, and the server serves it;
/// a format that the server serves is asked for as it is.
pub proof fn law_format_is_reported_honestly(requested: AudioFormat)
    ensures
        served_as(closest_served(requested)) is Some,
        served_as(requested) is Some ==> closest_served(requested) == requested,
        closest_served(closest_served(requested)) == closest_served(requested),
{
}

} // verus!
