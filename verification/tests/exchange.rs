use moltis_voice::audio::{AudioFormat, AudioOutput};
use moltis_voice::config::VoxCpmTtsConfig;
use moltis_voice::error::TtsError;
use moltis_voice::status::HttpStatus;
use moltis_voice::voices::{UploadedVoice, Voice, VoicesResponse};
use moltis_voice::voxcpm::{Exchange, SpeechStep, SynthesizeRequest, VoicesStep, VoxCpmTts};

const SERVER: &str = "http://127.0.0.1:9";

/// Builds a provider pointed at the server.
fn provider(model: Option<&str>, voice: Option<&str>) -> VoxCpmTts {
    VoxCpmTts::new(&VoxCpmTtsConfig {
        endpoint: format!("{}/v1", SERVER),
        model: model.map(ToString::to_string),
        voice: voice.map(ToString::to_string),
        voice_design: true,
    })
}

fn status(code: u16) -> HttpStatus {
    HttpStatus::new(code).expect("status")
}

fn request(text: &str, output_format: AudioFormat) -> SynthesizeRequest<f32> {
    SynthesizeRequest {
        text: text.into(),
        output_format,
        voice_id: None,
        model: None,
        instructions: None,
        speed: None,
    }
}

/// Synthesizes against a server that answers every post to the speech path with
/// `code` and `reply`; returns the body that was posted and the result.
fn synthesize(
    tts: &VoxCpmTts,
    request: &SynthesizeRequest<f32>,
    code: u16,
    reply: &[u8],
) -> (serde_json::Value, Result<AudioOutput, TtsError>) {
    let mut exchange = Exchange::NotSent;
    let mut posted = serde_json::Value::Null;
    loop {
        exchange = match tts.synthesize(request, exchange) {
            SpeechStep::Post { url, body } => {
                assert_eq!(url, format!("{}/v1/audio/speech", SERVER));
                posted = body.text_fields().into_iter().collect();
                if let Some(speed) = body.speed {
                    posted["speed"] = speed.into();
                }
                Exchange::Answered(status(code))
            }
            SpeechStep::ReadExplanation => Exchange::Explained(
                status(code),
                String::from_utf8(reply.to_vec()).expect("text"),
            ),
            SpeechStep::ReadAudio => Exchange::Received(status(code), Ok(reply.to_vec())),
            SpeechStep::Done(result) => return (posted, result),
        };
    }
}

fn list(
    tts: &VoxCpmTts,
    code: u16,
    said: &str,
    listing: Result<VoicesResponse, String>,
) -> Result<Vec<Voice>, TtsError> {
    let mut exchange = Exchange::NotSent;
    let mut listing = Some(listing);
    loop {
        exchange = match tts.voices(exchange) {
            VoicesStep::Get { url } => {
                assert_eq!(url, format!("{}/v1/audio/voices", SERVER));
                Exchange::Answered(status(code))
            }
            VoicesStep::ReadExplanation => Exchange::Explained(status(code), said.to_string()),
            VoicesStep::ReadListing => {
                Exchange::Received(status(code), listing.take().expect("read once"))
            }
            VoicesStep::Done(result) => return result,
        };
    }
}

#[test]
fn synthesize_omits_voice_for_zero_shot() {
    let (body, output) = synthesize(
        &provider(Some("openbmb/VoxCPM2"), None),
        &request("Hello from Moltis.", AudioFormat::Wav),
        200,
        b"RIFFfake-wav",
    );
    let output = output.expect("synthesis should succeed");

    assert_eq!(output.format, AudioFormat::Wav);
    assert_eq!(&output.data[..], b"RIFFfake-wav");
    assert_eq!(output.duration_ms, None);

    assert_eq!(body["input"], "Hello from Moltis.");
    assert_eq!(body["model"], "openbmb/VoxCPM2");
    assert_eq!(body["response_format"], "wav");
    // The absence of `voice` is what selects zero-shot synthesis. A default
    // like "alloy" would be rejected by VoxCPM's speaker validation.
    assert!(
        body.get("voice").is_none(),
        "voice must be omitted when no speaker is configured, got {body}"
    );
    assert!(
        body.get("speed").is_none(),
        "speed must be omitted when unset"
    );
}

#[test]
fn synthesize_sends_configured_speaker() {
    let (body, output) = synthesize(
        &provider(None, Some("alice")),
        &request("Cloned voice.", AudioFormat::Mp3),
        200,
        b"audio",
    );
    output.expect("synthesis should succeed");
    assert_eq!(body["voice"], "alice");
    assert_eq!(body["response_format"], "mp3");
}

#[test]
fn request_voice_id_overrides_configured_speaker() {
    let mut request = request("Override.", AudioFormat::Mp3);
    request.voice_id = Some("bob".into());
    let (body, output) = synthesize(&provider(None, Some("alice")), &request, 200, b"audio");
    output.expect("synthesis should succeed");
    assert_eq!(body["voice"], "bob");
}

#[test]
fn request_model_overrides_configured_model_and_speed_is_handed_on() {
    let mut request = request("Override.", AudioFormat::Opus);
    request.model = Some("other".into());
    request.speed = Some(1.5);
    let (body, output) = synthesize(&provider(Some("one"), None), &request, 200, b"audio");
    output.expect("synthesis should succeed");
    assert_eq!(body["model"], "other");
    assert_eq!(body["response_format"], "opus");
    assert_eq!(body["speed"], 1.5);
}

#[test]
fn persona_instructions_become_a_voice_design_prefix() {
    let mut request = request("Good evening, sir.", AudioFormat::Mp3);
    // Shape that a persona is rendered in.
    request.instructions = Some("Persona: Alfred\nStyle: Dry wit".into());
    let (body, output) = synthesize(&provider(None, None), &request, 200, b"audio");
    output.expect("synthesis should succeed");

    // Field labels are stripped: a surviving `Key:` label collapses the effect
    // back to the no-prefix baseline, and `Persona:` carries an internal name
    // rather than voice direction.
    assert_eq!(
        body["input"], "(Dry wit)Good evening, sir.",
        "personas must arrive as a plain VoxCPM voice-design prefix"
    );
    // VoxCPM2's serving adapter ignores `instructions`; sending it would be
    // dead weight at best and a 400 on a strict server at worst.
    assert!(body.get("instructions").is_none());
}

#[test]
fn persona_with_several_fields_becomes_a_comma_list() {
    let mut request = request("Hi.", AudioFormat::Mp3);
    request.instructions =
        Some("Persona: Alfred\nProfile: A butler (retired)\nStyle: Dry wit".into());
    let (body, _) = synthesize(&provider(None, None), &request, 200, b"audio");
    assert_eq!(body["input"], "(A butler retired, Dry wit)Hi.");

    request.instructions = Some("Persona: Alfred".into());
    let (body, _) = synthesize(&provider(None, None), &request, 200, b"audio");
    assert_eq!(body["input"], "Hi.");
}

#[test]
fn voxcpm_integration_voice_design_can_be_disabled() {
    let tts = VoxCpmTts::new(&VoxCpmTtsConfig {
        endpoint: format!("{}/v1", SERVER),
        voice_design: false,
        ..Default::default()
    });
    let mut request = request("Plain text.", AudioFormat::Mp3);
    request.instructions = Some("Style: Dry wit".into());
    let (body, output) = synthesize(&tts, &request, 200, b"audio");
    output.expect("synthesis should succeed");
    assert_eq!(body["input"], "Plain text.");
}

#[test]
fn unsupported_format_falls_back_and_reports_honestly() {
    // vLLM-Omni serves no AAC, so the provider must ask for something it does
    // serve and report the format it actually received.
    let (body, output) = synthesize(
        &provider(None, None),
        &request("Hi.", AudioFormat::Aac),
        200,
        b"audio",
    );
    let output = output.expect("synthesis should succeed");
    assert_eq!(output.format, AudioFormat::Mp3);
    assert_eq!(body["response_format"], "mp3");
}

#[test]
fn server_error_body_is_surfaced() {
    let (_, output) = synthesize(
        &provider(None, Some("alloy")),
        &request("Hi.", AudioFormat::Mp3),
        400,
        b"Invalid voice 'alloy'. Supported: alice, bob",
    );
    let err = output.expect_err("a 400 must not be reported as success");

    let message = err.message();
    assert!(
        message.contains("400"),
        "status should be surfaced: {message}"
    );
    assert!(
        message.contains("Supported: alice, bob"),
        "server explanation should be surfaced: {message}"
    );
    assert_eq!(
        message,
        "VoxCPM synthesis failed: 400 Bad Request - Invalid voice 'alloy'. Supported: alice, bob"
    );
}

#[test]
fn empty_audio_is_rejected() {
    let (_, output) = synthesize(
        &provider(None, None),
        &request("Hi.", AudioFormat::Mp3),
        200,
        b"",
    );
    let err = output.expect_err("an empty 200 must not be treated as audio");
    assert!(err.message().contains("empty"), "got: {err:?}");
    assert_eq!(err.message(), "VoxCPM returned an empty audio response");
}

#[test]
fn unreachable_server_explains_how_to_start_it() {
    let tts = VoxCpmTts::new(&VoxCpmTtsConfig {
        endpoint: "http://127.0.0.1:1/v1".into(),
        ..Default::default()
    });
    let step = tts.synthesize(
        &request("Hi.", AudioFormat::Mp3),
        Exchange::Unreachable("connection refused".into()),
    );
    let err = match step {
        SpeechStep::Done(result) => result.expect_err("an unreachable server must error"),
        _ => panic!("the exchange must be over"),
    };
    let message = err.message();
    assert!(
        message.contains("vllm serve openbmb/VoxCPM2"),
        "got: {message}"
    );
    assert_eq!(
        message,
        "failed to reach VoxCPM server at http://127.0.0.1:1/v1: connection refused. \
         Start it with: vllm serve openbmb/VoxCPM2 --omni --port 8000"
    );
    let step = tts.voices(Exchange::Unreachable("connection refused".into()));
    match step {
        VoicesStep::Done(Err(err)) => assert_eq!(err.message(), message),
        _ => panic!("the exchange must have failed"),
    }
}

#[test]
fn interrupted_audio_is_reported() {
    let step = provider(None, None).synthesize(
        &request("Hi.", AudioFormat::Mp3),
        Exchange::Received(status(200), Err("body cut short".into())),
    );
    match step {
        SpeechStep::Done(Err(err)) => assert_eq!(err.message(), "body cut short"),
        _ => panic!("the exchange must have failed"),
    }
}

#[test]
fn refused_body_is_never_taken_for_audio() {
    let tts = provider(None, None);
    let request = request("Hi.", AudioFormat::Mp3);
    for code in [100, 199, 300, 404, 500, 999] {
        let step = tts.synthesize(&request, Exchange::Received(status(code), Ok(vec![1, 2])));
        assert!(matches!(step, SpeechStep::ReadExplanation));
        let step = tts.voices(Exchange::Received(status(code), Ok(VoicesResponse::default())));
        assert!(matches!(step, VoicesStep::ReadExplanation));
    }
    let step = tts.synthesize(&request, Exchange::Explained(status(204), "fine".into()));
    assert!(matches!(step, SpeechStep::ReadAudio));
    let step = tts.voices(Exchange::Explained(status(299), "fine".into()));
    assert!(matches!(step, VoicesStep::ReadListing));
}

#[test]
fn voices_are_read_from_the_server() {
    let listing = VoicesResponse {
        voices: vec!["alice".into(), "preset_one".into()],
        uploaded_voices: vec![UploadedVoice {
            name: "alice".into(),
            speaker_description: Some("warm narrator".into()),
            ref_text: None,
        }],
    };
    let voices =
        list(&provider(None, None), 200, "", Ok(listing)).expect("voices should be listed");

    assert_eq!(voices.len(), 2);
    let alice = voices.iter().find(|v| v.id == "alice").expect("alice");
    assert_eq!(alice.description.as_deref(), Some("warm narrator"));
    let preset = voices
        .iter()
        .find(|v| v.id == "preset_one")
        .expect("preset");
    assert!(preset.description.is_none());
}

#[test]
fn voices_error_is_not_silently_swallowed() {
    let err = list(
        &provider(None, None),
        500,
        "boom",
        Ok(VoicesResponse::default()),
    )
    .expect_err("a 500 must not be reported as an empty voice list");
    assert!(err.message().contains("500"), "got: {err:?}");
    assert_eq!(
        err.message(),
        "VoxCPM voices request failed: 500 Internal Server Error - boom"
    );
}

#[test]
fn unreadable_listing_is_reported() {
    let err = list(&provider(None, None), 200, "", Err("not JSON".into()))
        .expect_err("an unreadable listing must error");
    assert_eq!(
        err.message(),
        "failed to parse VoxCPM voices response: not JSON"
    );
}

#[test]
fn trailing_slash_in_endpoint_does_not_double_up_the_path() {
    let tts = VoxCpmTts::new(&VoxCpmTtsConfig {
        endpoint: format!("{}/v1/", SERVER),
        ..Default::default()
    });
    // Matching on the exact path proves no `//audio/speech` is emitted.
    let (_, output) = synthesize(&tts, &request("Hi.", AudioFormat::Mp3), 200, b"audio");
    output.expect("synthesis should succeed against a trailing-slash endpoint");
}

#[test]
fn statuses_have_three_digits() {
    assert!(HttpStatus::new(99).is_none());
    assert!(HttpStatus::new(1000).is_none());
    assert_eq!(status(404).to_text(), "404 Not Found");
    assert_eq!(status(999).to_text(), "999 <unknown status code>");
    assert_eq!(status(100).as_u16(), 100);
    assert!(!status(199).is_success());
    assert!(status(200).is_success());
    assert!(status(299).is_success());
    assert!(!status(300).is_success());
    // The text is the one that the client library shows.
    for code in 100..1000u16 {
        let shown = reqwest::StatusCode::from_u16(code).expect("status").to_string();
        assert_eq!(status(code).to_text(), shown);
        assert!(shown.starts_with(&format!("{code} ")));
    }
}

#[test]
fn instructions_without_labels_are_applied_as_they_are() {
    let mut request = request("Hi.", AudioFormat::Mp3);
    request.instructions = Some("Speak softly\rand slowly (please)".into());
    let (body, _) = synthesize(&provider(None, None), &request, 200, b"audio");
    assert_eq!(body["input"], "(Speak softly, and slowly please)Hi.");

    // A text with a design of its own is sent as it is, labels or not.
    request.text = "(calm)Hi.".into();
    request.instructions = Some("Style: Dry wit".into());
    let (body, _) = synthesize(&provider(None, None), &request, 200, b"audio");
    assert_eq!(body["input"], "(calm)Hi.");
}
