use moltis_voice::audio::AudioFormat;
use moltis_voice::config::{normalize_endpoint, non_empty, VoxCpmTtsConfig, DEFAULT_ENDPOINT};
use moltis_voice::voice_design::{apply_voice_design, flatten_voice_design, strip_field_labels};
use moltis_voice::voices::{UploadedVoice, VoicesResponse};
use moltis_voice::voxcpm::{SpeechRequest, VoxCpmTts};
use std::borrow::Cow;

fn provider(config: VoxCpmTtsConfig) -> VoxCpmTts {
    VoxCpmTts::new(&config)
}

#[test]
fn metadata_is_stable() {
    let tts = provider(VoxCpmTtsConfig::default());
    assert_eq!(tts.id(), "voxcpm");
    assert_eq!(tts.name(), "VoxCPM");
    assert!(!tts.supports_ssml());
}

#[test]
fn defaults_are_not_considered_configured() {
    assert!(!provider(VoxCpmTtsConfig::default()).is_configured());
}

#[test]
fn explicit_model_marks_configured() {
    let tts = provider(VoxCpmTtsConfig {
        model: Some("openbmb/VoxCPM2".into()),
        ..Default::default()
    });
    assert!(tts.is_configured());
}

#[test]
fn custom_endpoint_marks_configured() {
    let tts = provider(VoxCpmTtsConfig {
        endpoint: "http://10.0.0.5:8000/v1".into(),
        ..Default::default()
    });
    assert!(tts.is_configured());
}

#[test]
fn endpoint_trailing_slash_is_trimmed() {
    let tts = provider(VoxCpmTtsConfig {
        endpoint: "http://localhost:8000/v1/".into(),
        ..Default::default()
    });
    // Trimming must also keep the default recognisable, so a slash-only
    // difference does not silently look like a custom endpoint.
    assert_eq!(tts.endpoint, DEFAULT_ENDPOINT);
    assert!(!tts.is_configured());
}

#[test]
fn blank_endpoint_falls_back_to_default() {
    let tts = provider(VoxCpmTtsConfig {
        endpoint: "   ".into(),
        ..Default::default()
    });
    assert_eq!(tts.endpoint, DEFAULT_ENDPOINT);
}

#[test]
fn blank_voice_and_model_are_treated_as_unset() {
    let tts = provider(VoxCpmTtsConfig {
        model: Some("  ".into()),
        voice: Some(String::new()),
        ..Default::default()
    });
    assert!(tts.model.is_none());
    assert!(tts.voice.is_none());
    assert!(!tts.is_configured());
}

#[test]
fn unsupported_formats_report_what_was_actually_returned() {
    // AAC and WebM are not served by vLLM-Omni; the reported format must
    // match the bytes we asked for, not the bytes we wanted.
    assert_eq!(
        VoxCpmTts::negotiate_format(AudioFormat::Aac),
        ("mp3", AudioFormat::Mp3)
    );
    assert_eq!(
        VoxCpmTts::negotiate_format(AudioFormat::Webm),
        ("opus", AudioFormat::Opus)
    );
    assert_eq!(
        VoxCpmTts::negotiate_format(AudioFormat::Wav),
        ("wav", AudioFormat::Wav)
    );
    assert_eq!(
        VoxCpmTts::negotiate_format(AudioFormat::Pcm),
        ("pcm", AudioFormat::Pcm)
    );
}

#[test]
fn served_formats_are_asked_for_as_they_are() {
    assert_eq!(
        VoxCpmTts::negotiate_format(AudioFormat::Mp3),
        ("mp3", AudioFormat::Mp3)
    );
    assert_eq!(
        VoxCpmTts::negotiate_format(AudioFormat::Opus),
        ("opus", AudioFormat::Opus)
    );
}

#[test]
fn persona_block_becomes_a_single_design_clause() {
    let rendered = "Persona: Alfred\nProfile: A wise British butler\nStyle: Dry wit";
    assert_eq!(
        flatten_voice_design(rendered),
        "Persona: Alfred, Profile: A wise British butler, Style: Dry wit"
    );
}

#[test]
fn design_clause_drops_inner_parentheses() {
    // Unbalanced parentheses would break VoxCPM's prefix delimiter.
    assert_eq!(
        flatten_voice_design("Profile: A butler (retired)"),
        "Profile: A butler retired"
    );
}

#[test]
fn design_clause_collapses_white_space_and_commas() {
    assert_eq!(flatten_voice_design(""), "");
    assert_eq!(flatten_voice_design("  a \t b  "), "a b");
    assert_eq!(flatten_voice_design("\n\na\r\n \r\nb\n"), "a, b");
    assert_eq!(flatten_voice_design("a,\nb"), "a, b");
    assert_eq!(flatten_voice_design("a,,\n"), "a");
    assert_eq!(flatten_voice_design("a ,"), "a ");
    assert_eq!(flatten_voice_design("a\n,b"), "a, ,b");
    assert_eq!(flatten_voice_design("(a)\n()\n(b"), "a, b");
    assert_eq!(flatten_voice_design("a\u{3000}\u{85}b"), "a b");
    assert_eq!(flatten_voice_design(",,"), "");
}

#[test]
fn voice_design_prefixes_the_text() {
    let out = apply_voice_design("Good evening.", Some("Style: Dry wit"), true);
    assert_eq!(out, "(Style: Dry wit)Good evening.");
}

#[test]
fn voxcpm_voice_design_can_be_disabled() {
    let out = apply_voice_design("Good evening.", Some("Style: Dry wit"), false);
    assert_eq!(out, "Good evening.");
}

#[test]
fn voice_design_is_skipped_without_instructions() {
    assert_eq!(
        apply_voice_design("Good evening.", None, true),
        "Good evening."
    );
}

#[test]
fn existing_prefix_is_not_double_wrapped() {
    let out = apply_voice_design("(A calm narrator)Hello.", Some("Style: Dry wit"), true);
    assert_eq!(out, "(A calm narrator)Hello.");
}

#[test]
fn prefix_behind_white_space_counts_and_applying_twice_is_applying_once() {
    assert_eq!(apply_voice_design(" \n(calm)Hi", Some("loud"), true), " \n(calm)Hi");
    let once = apply_voice_design("Hi", Some("loud"), true).into_owned();
    assert_eq!(once, "(loud)Hi");
    assert_eq!(apply_voice_design(&once, Some("soft"), true), once);
}

#[test]
fn unchanged_text_is_borrowed() {
    assert!(matches!(apply_voice_design("Hi", None, true), Cow::Borrowed("Hi")));
    assert!(matches!(apply_voice_design("Hi", Some("loud"), true), Cow::Owned(_)));
}

#[test]
fn whitespace_only_instructions_do_not_prefix() {
    assert_eq!(apply_voice_design("Hello.", Some("  \n "), true), "Hello.");
}

#[test]
fn field_labels_are_stripped() {
    assert_eq!(strip_field_labels("Persona: Alfred\nStyle: Dry wit"), "\nDry wit");
    assert_eq!(strip_field_labels("  Accent:\tBritish\rPace: slow "), "British\nslow ");
    assert_eq!(strip_field_labels("Constraints:\n- no slang"), "\n- no slang");
    // A colon that does not end the first word, or is not set off, labels nothing.
    assert_eq!(strip_field_labels("Speak slowly: very"), "Speak slowly: very");
    assert_eq!(strip_field_labels("At 10:30"), "At 10:30");
    assert_eq!(strip_field_labels("10:30 sharp"), "10:30 sharp");
    assert_eq!(strip_field_labels(": odd"), ": odd");
    assert_eq!(strip_field_labels("Style: Tone: dry"), "Tone: dry");
    assert_eq!(strip_field_labels("plain"), "plain");
    assert_eq!(strip_field_labels(""), "");
}

/// Reads a listing as a server sends it; what is not there is empty or unset.
fn parse_listing(raw: &str) -> VoicesResponse {
    let value: serde_json::Value =
        serde_json::from_str(raw).expect("voices payload should deserialize");
    let text = |value: &serde_json::Value| value.as_str().map(|text| text.to_string());
    let list = |key: &str| value[key].as_array().cloned().unwrap_or_default();
    VoicesResponse {
        voices: list("voices").iter().filter_map(text).collect(),
        uploaded_voices: list("uploaded_voices")
            .iter()
            .map(|voice| UploadedVoice {
                name: text(&voice["name"]).expect("name"),
                speaker_description: text(&voice["speaker_description"]),
                ref_text: text(&voice["ref_text"]),
            })
            .collect(),
    }
}

#[test]
fn voices_response_merges_uploaded_metadata() {
    let raw = r#"{
            "voices": ["alice", "preset_one"],
            "uploaded_voices": [
                {"name": "alice", "speaker_description": "warm narrator"}
            ]
        }"#;
    let parsed = parse_listing(raw);
    let voices = parsed.into_voices();

    assert_eq!(voices.len(), 2);
    assert_eq!(voices[0].id, "alice");
    assert_eq!(voices[0].description.as_deref(), Some("warm narrator"));
    assert_eq!(voices[1].id, "preset_one");
    assert!(voices[1].description.is_none());
}

#[test]
fn voices_response_falls_back_to_reference_transcript() {
    let raw = r#"{
            "voices": ["bob"],
            "uploaded_voices": [{"name": "bob", "ref_text": "hello there"}]
        }"#;
    let parsed = parse_listing(raw);
    let voices = parsed.into_voices();
    assert_eq!(
        voices[0].description.as_deref(),
        Some("Cloned from: hello there")
    );
}

#[test]
fn voices_response_tolerates_missing_uploaded_list() {
    let parsed = parse_listing(r#"{"voices":["x"]}"#);
    assert_eq!(parsed.into_voices().len(), 1);
}

#[test]
fn latest_upload_of_a_name_describes_the_speaker() {
    let parsed = parse_listing(
        r#"{
            "voices": ["a", "a", "b"],
            "uploaded_voices": [
                {"name": "a", "speaker_description": "old"},
                {"name": "c", "speaker_description": "not listed"},
                {"name": "a", "speaker_description": "new", "ref_text": "unused"},
                {"name": "b"}
            ]
        }"#,
    );
    let voices = parsed.into_voices();
    assert_eq!(voices.len(), 3);
    assert_eq!(voices[0].description.as_deref(), Some("new"));
    assert_eq!(voices[1].description.as_deref(), Some("new"));
    assert_eq!(voices[1].name, "a");
    assert_eq!(voices[2].description, None);
    assert_eq!(voices[2].preview_url, None);
    assert_eq!(VoicesResponse::default().into_voices().len(), 0);
}

#[test]
fn request_omits_voice_and_model_when_unset() {
    let body: SpeechRequest<f32> = SpeechRequest {
        model: None,
        input: "hi".into(),
        voice: None,
        response_format: "wav".into(),
        speed: None,
    };
    let members: serde_json::Value = body.text_fields().into_iter().collect();
    let json = serde_json::to_string(&members).expect("request should serialize");
    // Omitting `voice` is what selects zero-shot synthesis; sending a
    // placeholder like "alloy" would be rejected by VoxCPM.
    assert_eq!(json, r#"{"input":"hi","response_format":"wav"}"#);
}

#[test]
fn request_fields_are_sent_in_order() {
    let body: SpeechRequest<f32> = SpeechRequest {
        model: Some("m".into()),
        input: "hi".into(),
        voice: Some("v".into()),
        response_format: "wav".into(),
        speed: None,
    };
    let expected: Vec<(&'static str, String)> = vec![
        ("model", "m".into()),
        ("input", "hi".into()),
        ("voice", "v".into()),
        ("response_format", "wav".into()),
    ];
    assert_eq!(body.text_fields(), expected);
}

#[test]
fn endpoints_are_normalized() {
    assert_eq!(normalize_endpoint("  http://a/v1//  "), "http://a/v1");
    assert_eq!(normalize_endpoint("///"), DEFAULT_ENDPOINT);
    assert_eq!(normalize_endpoint(""), DEFAULT_ENDPOINT);
    assert_eq!(normalize_endpoint("a /"), "a ");
    assert_eq!(normalize_endpoint("http://localhost:8000/v1///"), DEFAULT_ENDPOINT);
}

#[test]
fn values_are_trimmed() {
    assert_eq!(non_empty(Some(" a b\u{a0}\n")), Some("a b".to_string()));
    assert_eq!(non_empty(Some("\u{2028}")), None);
    assert_eq!(non_empty(None), None);
}

#[test]
fn clone_keeps_the_settings() {
    let tts = provider(VoxCpmTtsConfig {
        endpoint: "http://a".into(),
        model: Some(" m ".into()),
        voice: Some("v".into()),
        voice_design: false,
    });
    let copy = tts.clone();
    assert_eq!(copy.endpoint, "http://a");
    assert_eq!(copy.model.as_deref(), Some("m"));
    assert_eq!(copy.voice.as_deref(), Some("v"));
    assert!(!copy.voice_design);
}

#[test]
fn instructions_without_labels_give_the_same_clause() {
    for instructions in ["Speak softly\rand slowly", "(calm)\n\nAt 10:30, warmly", "", "a,\r\nb"] {
        assert_eq!(
            flatten_voice_design(&strip_field_labels(instructions)),
            flatten_voice_design(instructions)
        );
    }
}

#[test]
fn design_can_be_told_from_the_text() {
    let out = apply_voice_design("Hi (there)", Some("calm (very\n) low)"), true);
    assert_eq!(out, "(calm very, low)Hi (there)");
    let (clause, text) = out[1..].split_once(')').expect("delimiter");
    assert_eq!((clause, text), ("calm very, low", "Hi (there)"));
    assert_eq!(apply_voice_design("Hi", Some("( )\n()"), true), "Hi");
}

#[test]
fn trailing_slash_makes_no_difference() {
    for endpoint in ["http://a/v1", " http://a", "", "  ", "/"] {
        assert_eq!(
            normalize_endpoint(&format!("{endpoint}/")),
            normalize_endpoint(endpoint)
        );
    }
}
