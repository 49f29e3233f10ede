//! What an exchange with the server comes to, whatever is asked and answered.
use crate::audio;
use crate::audio::AudioFormat;
use crate::error;
use crate::error::TtsFault;
use crate::number;
use crate::status;
use crate::status::HttpStatus;
use crate::voice_design;
use crate::voices;
use crate::voices::{UploadedVoice, VoicesResponse};
use crate::voxcpm;
use crate::voxcpm::{Action, Exchange, Outcome, Provider, Speech, SpeechBody};
use vstd::prelude::*;

verus! {

// Synthesis

/// Audio that was received is returned: with a success, every body that holds at
/// least one byte is returned byte for byte, labelled with a format whose name
/// on the wire is the one that was asked for.
pub proof fn law_received_audio_is_returned<S>(
    provider: Provider,
    speech: Speech<S>,
    status: HttpStatus,
    data: Vec<u8>,
)
    requires
        200 <= status@ < 300,
        data@.len() > 0,
    ensures
        match voxcpm::speech_action(provider, speech, Exchange::Received(status, Ok(data))) {
            Action::Done(Outcome::Success(clip)) => {
                &&& clip.data == data@
                &&& clip.duration_ms is None
                &&& audio::served_as(clip.format) == Some(
                    voxcpm::speech_body(provider, speech).response_format,
                )
                &&& audio::served_as(speech.output_format) is Some ==> clip.format
                    == speech.output_format
            },
            _ => false,
        },
{
}

/// A synthesis is sent to the speech path of the endpoint, and what is sent is
/// what the request and the configuration ask for.
pub proof fn law_synthesis_is_sent<S>(provider: Provider, speech: Speech<S>)
    ensures
        match voxcpm::speech_action(provider, speech, Exchange::NotSent) {
            Action::Send { url, body } => {
                &&& url == provider.endpoint + "/audio/speech"@
                &&& body.voice == (if speech.voice_id is Some {
                    speech.voice_id
                } else {
                    provider.voice
                })
                &&& body.model == (if speech.model is Some {
                    speech.model
                } else {
                    provider.model
                })
                &&& body.speed == speech.speed
                &&& body.input == (match speech.instructions {
                    Some(instructions) => voice_design::designed(
                        speech.text,
                        Some(voice_design::unlabelled(instructions)),
                        provider.voice_design,
                    ),
                    None => speech.text,
                })
            },
            _ => false,
        },
{
}

/// Whether the body is read as what was asked for hangs on the status alone: it
/// is with a success, and with any other status it is read as an explanation.
pub proof fn law_status_decides_how_to_read<S>(
    provider: Provider,
    speech: Speech<S>,
    status: HttpStatus,
)
    ensures
        voxcpm::speech_action(provider, speech, Exchange::Answered(status)) is ReadPayload
            <==> 200 <= status@ < 300,
        voxcpm::speech_action(provider, speech, Exchange::Answered(status)) is ReadExplanation
            <==> !(200 <= status@ < 300),
        voxcpm::voices_action(provider, Exchange::Answered(status)) is ReadPayload <==> 200
            <= status@ < 300,
        voxcpm::voices_action(provider, Exchange::Answered(status)) is ReadExplanation <==> !(200
            <= status@ < 300),
{
}

/// A body that was read in the wrong way for its status decides nothing: it is
/// to be read in the other way.
pub proof fn law_misread_body_decides_nothing<S>(
    provider: Provider,
    speech: Speech<S>,
    status: HttpStatus,
    said: String,
    data: Result<Vec<u8>, String>,
    listing: Result<VoicesResponse, String>,
)
    ensures
        200 <= status@ < 300 ==> voxcpm::speech_action(
            provider,
            speech,
            Exchange::Explained(status, said),
        ) is ReadPayload,
        200 <= status@ < 300 ==> voxcpm::voices_action(
            provider,
            Exchange::Explained(status, said),
        ) is ReadPayload,
        !(200 <= status@ < 300) ==> voxcpm::speech_action(
            provider,
            speech,
            Exchange::Received(status, data),
        ) is ReadExplanation,
        !(200 <= status@ < 300) ==> voxcpm::voices_action(
            provider,
            Exchange::Received(status, listing),
        ) is ReadExplanation,
{
}

/// What went wrong in a synthesis is said in full: what kept the server from
/// being reached, what it said when it refused, or what cut the audio short.
pub proof fn law_failed_synthesis_is_explained<S>(
    provider: Provider,
    speech: Speech<S>,
    status: HttpStatus,
    said: String,
)
    ensures
        voxcpm::speech_action(provider, speech, Exchange::Unreachable(said)) matches Action::Done(
            Outcome::Failure(fault),
        ) && error::fault_message(fault) == "failed to reach VoxCPM server at "@
            + provider.endpoint + ": "@ + said@
            + ". Start it with: vllm serve openbmb/VoxCPM2 --omni --port 8000"@,
        !(200 <= status@ < 300) ==> (voxcpm::speech_action(
            provider,
            speech,
            Exchange::Explained(status, said),
        ) matches Action::Done(Outcome::Failure(fault)) && error::fault_message(fault)
            == "VoxCPM synthesis failed: "@ + number::decimal(status@ as nat) + " "@
            + status::reason_phrase(status@) + " - "@ + said@),
        200 <= status@ < 300 ==> (voxcpm::speech_action(
            provider,
            speech,
            Exchange::Received(status, Err(said)),
        ) matches Action::Done(Outcome::Failure(fault)) && error::fault_message(fault) == said@),
{
    lemma_start_hint();
    lemma_status_text(status@);
    let start = ". Start it with: "@ + error::START_COMMAND@;
    assert("failed to reach VoxCPM server at "@ + provider.endpoint + ": "@ + said@
        + ". Start it with: "@ + error::START_COMMAND@ == "failed to reach VoxCPM server at "@
        + provider.endpoint + ": "@ + said@ + start);
    assert("VoxCPM synthesis failed: "@ + status::status_text(status@) + " - "@ + said@
        == "VoxCPM synthesis failed: "@ + number::decimal(status@ as nat) + " "@
        + status::reason_phrase(status@) + " - "@ + said@);
}

proof fn lemma_start_hint()
    ensures
        ". Start it with: "@ + error::START_COMMAND@
            == ". Start it with: vllm serve openbmb/VoxCPM2 --omni --port 8000"@,
{
    reveal_strlit(". Start it with: ");
    reveal_strlit("vllm serve openbmb/VoxCPM2 --omni --port 8000");
    reveal_strlit(". Start it with: vllm serve openbmb/VoxCPM2 --omni --port 8000");
}

proof fn lemma_status_text(code: u16)
    ensures
        status::status_text(code) == number::decimal(code as nat) + " "@ + status::reason_phrase(
            code,
        ),
{
    reveal_strlit(" ");
    assert(" "@ == seq![' ']);
    assert(number::decimal(code as nat).push(' ') == number::decimal(code as nat) + " "@);
}

/// An empty body that came with a success is said to be empty.
pub proof fn law_empty_audio_is_explained<S>(
    provider: Provider,
    speech: Speech<S>,
    status: HttpStatus,
    data: Vec<u8>,
)
    requires
        200 <= status@ < 300,
        data@.len() == 0,
    ensures
        voxcpm::speech_action(provider, speech, Exchange::Received(status, Ok(data))) matches Action::Done(
            Outcome::Failure(fault),
        ) && error::fault_message(fault) == "VoxCPM returned an empty audio response"@,
{
}

/// The formats that the server serves go by these names, and no other does; AAC
/// gives way to MP3 and WebM to Opus.
pub proof fn law_formats_on_the_wire<S>(provider: Provider, speech: Speech<S>)
    ensures
        ({
            let asked = voxcpm::speech_body(provider, speech).response_format;
            &&& speech.output_format == AudioFormat::Mp3 || speech.output_format == AudioFormat::Aac
                ==> asked == "mp3"@
            &&& speech.output_format == AudioFormat::Opus || speech.output_format
                == AudioFormat::Webm ==> asked == "opus"@
            &&& speech.output_format == AudioFormat::Pcm ==> asked == "pcm"@
            &&& speech.output_format == AudioFormat::Wav ==> asked == "wav"@
        }),
        audio::served_as(AudioFormat::Mp3) == Some("mp3"@),
        audio::served_as(AudioFormat::Opus) == Some("opus"@),
        audio::served_as(AudioFormat::Pcm) == Some("pcm"@),
        audio::served_as(AudioFormat::Wav) == Some("wav"@),
        audio::served_as(AudioFormat::Aac) is None,
        audio::served_as(AudioFormat::Webm) is None,
        audio::closest_served(AudioFormat::Aac) == AudioFormat::Mp3,
        audio::closest_served(AudioFormat::Webm) == AudioFormat::Opus,
{
}

/// The members of the body of a speech request are sent once each and in this
/// order, the model and the voice only where they are set.
pub proof fn law_fields_are_sent_once_and_in_order<S>(body: SpeechBody<S>)
    ensures
        ({
            let fields = voxcpm::sent_fields(body);
            let input = ("input"@, body.input);
            let format = ("response_format"@, body.response_format);
            match (body.model, body.voice) {
                (None, None) => fields == seq![input, format],
                (Some(model), None) => fields == seq![("model"@, model), input, format],
                (None, Some(voice)) => fields == seq![input, ("voice"@, voice), format],
                (Some(model), Some(voice)) => fields == seq![
                    ("model"@, model),
                    input,
                    ("voice"@, voice),
                    format,
                ],
            }
        }),
{
}

// Voices

/// The description that goes with an upload: its own, else the transcript of its
/// reference, else none.
proof fn lemma_upload_description(uploaded: UploadedVoice)
    ensures
        uploaded.speaker_description matches Some(description) ==> voices::upload_description(
            uploaded,
        ) == Some(description@),
        uploaded.speaker_description is None ==> (uploaded.ref_text matches Some(transcript)
            ==> voices::upload_description(uploaded) == Some("Cloned from: "@ + transcript@)),
        uploaded.speaker_description is None && uploaded.ref_text is None
            ==> voices::upload_description(uploaded) is None,
{
}

/// A listing that was received is returned: with a success, there are as many
/// voices as the server lists names, and the voices have those names in their
/// order.
pub proof fn law_received_listing_is_returned(
    provider: Provider,
    status: HttpStatus,
    listing: VoicesResponse,
)
    requires
        200 <= status@ < 300,
    ensures
        match voxcpm::voices_action(provider, Exchange::Received(status, Ok(listing))) {
            Action::Done(Outcome::Success(found)) => {
                &&& found.len() == listing.voices@.len()
                &&& forall|i: int|
                    0 <= i < found.len() ==> {
                        &&& (#[trigger] found[i]).id == listing.voices@[i]@
                        &&& found[i].name == listing.voices@[i]@
                        &&& found[i].preview_url is None
                    }
            },
            _ => false,
        },
{
}

/// A voice that is listed and was uploaded is described by the latest upload of
/// its name: by its description, else by the transcript of its reference, else
/// not at all.
pub proof fn law_listed_upload_is_described(
    provider: Provider,
    status: HttpStatus,
    listing: VoicesResponse,
    i: int,
    k: int,
)
    requires
        200 <= status@ < 300,
        0 <= i < listing.voices@.len(),
        0 <= k < listing.uploaded_voices@.len(),
        listing.uploaded_voices@[k].name@ == listing.voices@[i]@,
        forall|j: int|
            k < j < listing.uploaded_voices@.len() ==> (
            #[trigger] listing.uploaded_voices@[j]).name@ != listing.voices@[i]@,
    ensures
        match voxcpm::voices_action(provider, Exchange::Received(status, Ok(listing))) {
            Action::Done(Outcome::Success(found)) => {
                let upload = listing.uploaded_voices@[k];
                &&& i < found.len()
                &&& upload.speaker_description matches Some(description) ==> found[i].description
                    == Some(description@)
                &&& upload.speaker_description is None ==> (upload.ref_text matches Some(transcript)
                    ==> found[i].description == Some("Cloned from: "@ + transcript@))
                &&& upload.speaker_description is None && upload.ref_text is None
                    ==> found[i].description is None
            },
            _ => false,
        },
{
    voices::law_latest_upload_describes(listing.uploaded_voices@, k);
    lemma_upload_description(listing.uploaded_voices@[k]);
}

/// A voice that is listed and was not uploaded has no description.
pub proof fn law_listed_preset_is_not_described(
    provider: Provider,
    status: HttpStatus,
    listing: VoicesResponse,
    i: int,
)
    requires
        200 <= status@ < 300,
        0 <= i < listing.voices@.len(),
        forall|j: int|
            0 <= j < listing.uploaded_voices@.len() ==> (
            #[trigger] listing.uploaded_voices@[j]).name@ != listing.voices@[i]@,
    ensures
        match voxcpm::voices_action(provider, Exchange::Received(status, Ok(listing))) {
            Action::Done(Outcome::Success(found)) => i < found.len() && found[i].description is None,
            _ => false,
        },
{
    voices::law_preset_has_no_description(listing.uploaded_voices@, listing.voices@[i]@);
}

/// The listing is asked for at the voices path of the endpoint.
pub proof fn law_listing_is_asked_for(provider: Provider)
    ensures
        match voxcpm::voices_action(provider, Exchange::NotSent) {
            Action::Send { url, .. } => url == provider.endpoint + "/audio/voices"@,
            _ => false,
        },
{
}

/// What went wrong in a listing is said in full: what kept the server from being
/// reached, what it said when it refused, or what made its answer unreadable.
pub proof fn law_failed_listing_is_explained(provider: Provider, status: HttpStatus, said: String)
    ensures
        voxcpm::voices_action(provider, Exchange::Unreachable(said)) matches Action::Done(
            Outcome::Failure(fault),
        ) && error::fault_message(fault) == "failed to reach VoxCPM server at "@
            + provider.endpoint + ": "@ + said@
            + ". Start it with: vllm serve openbmb/VoxCPM2 --omni --port 8000"@,
        !(200 <= status@ < 300) ==> (voxcpm::voices_action(
            provider,
            Exchange::Explained(status, said),
        ) matches Action::Done(Outcome::Failure(fault)) && error::fault_message(fault)
            == "VoxCPM voices request failed: "@ + number::decimal(status@ as nat) + " "@
            + status::reason_phrase(status@) + " - "@ + said@),
        200 <= status@ < 300 ==> (voxcpm::voices_action(
            provider,
            Exchange::Received(status, Err(said)),
        ) matches Action::Done(Outcome::Failure(fault)) && error::fault_message(fault)
            == "failed to parse VoxCPM voices response: "@ + said@),
{
    lemma_start_hint();
    lemma_status_text(status@);
    let start = ". Start it with: "@ + error::START_COMMAND@;
    assert("failed to reach VoxCPM server at "@ + provider.endpoint + ": "@ + said@
        + ". Start it with: "@ + error::START_COMMAND@ == "failed to reach VoxCPM server at "@
        + provider.endpoint + ": "@ + said@ + start);
    assert("VoxCPM voices request failed: "@ + status::status_text(status@) + " - "@ + said@
        == "VoxCPM voices request failed: "@ + number::decimal(status@ as nat) + " "@
        + status::reason_phrase(status@) + " - "@ + said@);
}

} // verus!
