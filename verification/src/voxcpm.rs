//! VoxCPM TTS provider, served through a vLLM-Omni speech endpoint.
//!
//! vLLM-Omni exposes an OpenAI-compatible speech API extended with
//! VoxCPM-specific fields:
//!
//! ```bash
//! vllm serve openbmb/VoxCPM2 --omni --host 0.0.0.0 --port 8000
//! ```
//!
//! Two endpoints are used:
//!
//! - `POST {endpoint}/audio/speech` for synthesis
//! - `GET  {endpoint}/audio/voices` for the speakers the server actually has
//!
//! `voice` is never defaulted: VoxCPM rejects speaker names it does not know,
//! and omitting the field selects zero-shot synthesis. Voice personas are
//! applied as a voice design prefix on the input text, because the VoxCPM2
//! serving adapter reads the description from the text rather than from a
//! separate `instructions` field.
use crate::audio;
use crate::audio::{AudioFormat, AudioOutput};
use crate::config;
use crate::config::{VoxCpmTtsConfig, DEFAULT_ENDPOINT};
use crate::error::{TtsError, TtsFault};
use crate::status;
use crate::status::HttpStatus;
use crate::text;
use crate::voice_design;
use crate::voices;
use crate::voices::{Voice, VoicesResponse};
use vstd::prelude::*;

verus! {

/// How long synthesis may take, in seconds. It can be slow on CPU-bound or cold
/// servers.
pub const SYNTHESIZE_TIMEOUT_SECS: u64 = 120;

/// How long listing voices may take, in seconds. It is a cheap metadata call.
pub const VOICES_TIMEOUT_SECS: u64 = 5;

/// VoxCPM TTS provider backed by a vLLM-Omni server.
#[derive(Debug)]
pub struct VoxCpmTts {
    pub endpoint: String,
    pub model: Option<String>,
    pub voice: Option<String>,
    pub voice_design: bool,
}

/// What a provider is set up with.
#[verifier::ext_equal]
pub struct Provider {
    pub endpoint: Seq<char>,
    pub model: Option<Seq<char>>,
    pub voice: Option<Seq<char>>,
    pub voice_design: bool,
}

impl View for VoxCpmTts {
    type V = Provider;

    open spec fn view(&self) -> Provider {
        Provider {
            endpoint: self.endpoint@,
            model: self.model.deep_view(),
            voice: self.voice.deep_view(),
            voice_design: self.voice_design,
        }
    }
}

impl Provider {
    /// Whether the endpoint is one to which a path can be added, and what is set
    /// is not empty.
    pub open spec fn wf(self) -> bool {
        &&& self.endpoint.len() > 0
        &&& self.endpoint.last() != '/'
        &&& self.model matches Some(model) ==> model.len() > 0
        &&& self.voice matches Some(voice) ==> voice.len() > 0
    }

    /// Whether the provider was set up deliberately: with an endpoint other than
    /// the default, or with a model.
    pub open spec fn is_configured(self) -> bool {
        self.endpoint != DEFAULT_ENDPOINT@ || self.model is Some
    }
}

/// The provider that a configuration sets up.
pub open spec fn provider_of(settings: VoxCpmTtsConfig) -> Provider {
    Provider {
        endpoint: config::normalized_endpoint(settings.endpoint@),
        model: config::non_blank(settings.model.deep_view()),
        voice: config::non_blank(settings.voice.deep_view()),
        voice_design: settings.voice_design,
    }
}

/// What to synthesize. `S` is the type of a speed, which is handed on as it is.
#[derive(Debug)]
pub struct SynthesizeRequest<S> {
    pub text: String,
    pub output_format: AudioFormat,
    pub voice_id: Option<String>,
    pub model: Option<String>,
    pub instructions: Option<String>,
    pub speed: Option<S>,
}

/// What is to be spoken, and how.
#[verifier::ext_equal]
pub struct Speech<S> {
    pub text: Seq<char>,
    pub output_format: AudioFormat,
    pub voice_id: Option<Seq<char>>,
    pub model: Option<Seq<char>>,
    pub instructions: Option<Seq<char>>,
    pub speed: Option<S>,
}

impl<S> View for SynthesizeRequest<S> {
    type V = Speech<S>;

    open spec fn view(&self) -> Speech<S> {
        Speech {
            text: self.text@,
            output_format: self.output_format,
            voice_id: self.voice_id.deep_view(),
            model: self.model.deep_view(),
            instructions: self.instructions.deep_view(),
            speed: self.speed,
        }
    }
}

/// The body of a speech request. What is not set is not sent.
#[derive(Debug)]
pub struct SpeechRequest<S> {
    pub model: Option<String>,
    pub input: String,
    pub voice: Option<String>,
    pub response_format: String,
    pub speed: Option<S>,
}

/// What a speech request asks for.
#[verifier::ext_equal]
pub struct SpeechBody<S> {
    pub model: Option<Seq<char>>,
    pub input: Seq<char>,
    pub voice: Option<Seq<char>>,
    pub response_format: Seq<char>,
    pub speed: Option<S>,
}

impl<S> View for SpeechRequest<S> {
    type V = SpeechBody<S>;

    open spec fn view(&self) -> SpeechBody<S> {
        SpeechBody {
            model: self.model.deep_view(),
            input: self.input@,
            voice: self.voice.deep_view(),
            response_format: self.response_format@,
            speed: self.speed,
        }
    }
}

/// A member of the body that is there only if it is set.
pub open spec fn optional_field(key: Seq<char>, value: Option<Seq<char>>) -> Seq<
    (Seq<char>, Seq<char>),
> {
    match value {
        Some(value) => seq![(key, value)],
        None => seq![],
    }
}

/// The text members of the body of a speech request, in the order in which they
/// are sent.
pub open spec fn sent_fields<S>(body: SpeechBody<S>) -> Seq<(Seq<char>, Seq<char>)> {
    optional_field("model"@, body.model) + seq![("input"@, body.input)] + optional_field(
        "voice"@,
        body.voice,
    ) + seq![("response_format"@, body.response_format)]
}

/// What each of the fields holds.
pub open spec fn field_texts(fields: Seq<(&'static str, String)>) -> Seq<(Seq<char>, Seq<char>)> {
    fields.map_values(|field: (&'static str, String)| (field.0@, field.1@))
}

fn put_field(fields: &mut Vec<(&'static str, String)>, key: &'static str, value: &String)
    ensures
        field_texts(final(fields)@) == field_texts(old(fields)@).push((key@, value@)),
{
    fields.push((key, value.clone()));
    assert(field_texts(fields@) == field_texts(old(fields)@).push((key@, value@)));
}

impl<S> SpeechRequest<S> {
    /// The text members of the body, in the order in which they are sent. The
    /// speed, where there is one, is sent behind them.
    pub fn text_fields(&self) -> (res: Vec<(&'static str, String)>)
        ensures
            field_texts(res@) == sent_fields(self@),
    {
        let mut fields: Vec<(&'static str, String)> = Vec::new();
        assert(field_texts(fields@) == Seq::<(Seq<char>, Seq<char>)>::empty());
        if let Some(model) = &self.model {
            put_field(&mut fields, "model", model);
        }
        assert(field_texts(fields@) == optional_field("model"@, self@.model));
        put_field(&mut fields, "input", &self.input);
        if let Some(voice) = &self.voice {
            put_field(&mut fields, "voice", voice);
        }
        put_field(&mut fields, "response_format", &self.response_format);
        assert(field_texts(fields@) == sent_fields(self@));
        fields
    }
}

/// The first of two values that is set.
pub open spec fn first_set(first: Option<Seq<char>>, second: Option<Seq<char>>) -> Option<
    Seq<char>,
> {
    match first {
        Some(_) => first,
        None => second,
    }
}

fn clone_first_set(first: &Option<String>, second: &Option<String>) -> (res: Option<String>)
    ensures
        res.deep_view() == first_set(first.deep_view(), second.deep_view()),
{
    match first {
        Some(value) => Some(value.clone()),
        None => match second {
            Some(value) => Some(value.clone()),
            None => None,
        },
    }
}

/// What the instructions of a request say of the voice.
pub open spec fn voice_direction(instructions: Option<Seq<char>>) -> Option<Seq<char>> {
    match instructions {
        Some(instructions) => Some(voice_design::unlabelled(instructions)),
        None => None,
    }
}

/// What the server is asked for: what the request names before what is
/// configured, nothing where neither names anything, and the text behind the
/// voice design.
pub open spec fn speech_body<S>(provider: Provider, speech: Speech<S>) -> SpeechBody<S> {
    SpeechBody {
        model: first_set(speech.model, provider.model),
        input: voice_design::designed(
            speech.text,
            voice_direction(speech.instructions),
            provider.voice_design,
        ),
        voice: first_set(speech.voice_id, provider.voice),
        response_format: audio::served_as(audio::closest_served(speech.output_format))->0,
        speed: speech.speed,
    }
}

/// How far an exchange with the server has come.
#[derive(Debug)]
pub enum Exchange<T> {
    /// Nothing was sent yet.
    NotSent,
    /// Sending failed, for the given cause.
    Unreachable(String),
    /// The server answered, and nothing of the body was read yet.
    Answered(HttpStatus),
    /// The body was read as an explanation.
    Explained(HttpStatus, String),
    /// The body was read as what was asked for, or could not be, for the given
    /// cause.
    Received(HttpStatus, Result<T, String>),
}

/// What comes of an exchange that is done.
pub enum Outcome<T> {
    Success(T),
    Failure(TtsFault),
}

/// What to do next in an exchange: send, read the body as an explanation or as
/// what was asked for, or end it.
pub enum Action<B, T> {
    Send { url: Seq<char>, body: B },
    ReadExplanation,
    ReadPayload,
    Done(Outcome<T>),
}

/// What to do next to synthesize.
#[derive(Debug)]
pub enum SpeechStep<S> {
    /// Post the body to the URL.
    Post { url: String, body: SpeechRequest<S> },
    /// Read the body of the response as text.
    ReadExplanation,
    /// Read the body of the response as audio.
    ReadAudio,
    Done(Result<AudioOutput, TtsError>),
}

impl<S> View for SpeechStep<S> {
    type V = Action<SpeechBody<S>, audio::AudioClip>;

    open spec fn view(&self) -> Action<SpeechBody<S>, audio::AudioClip> {
        match self {
            SpeechStep::Post { url, body } => Action::Send { url: url@, body: body@ },
            SpeechStep::ReadExplanation => Action::ReadExplanation,
            SpeechStep::ReadAudio => Action::ReadPayload,
            SpeechStep::Done(Ok(audio)) => Action::Done(Outcome::Success(audio@)),
            SpeechStep::Done(Err(error)) => Action::Done(Outcome::Failure(error@)),
        }
    }
}

/// What to do next to list the voices.
#[derive(Debug)]
pub enum VoicesStep {
    /// Get the URL.
    Get { url: String },
    /// Read the body of the response as text.
    ReadExplanation,
    /// Read the body of the response as a listing.
    ReadListing,
    Done(Result<Vec<Voice>, TtsError>),
}

impl View for VoicesStep {
    type V = Action<(), Seq<voices::VoiceEntry>>;

    open spec fn view(&self) -> Action<(), Seq<voices::VoiceEntry>> {
        match self {
            VoicesStep::Get { url } => Action::Send { url: url@, body: () },
            VoicesStep::ReadExplanation => Action::ReadExplanation,
            VoicesStep::ReadListing => Action::ReadPayload,
            VoicesStep::Done(Ok(found)) => Action::Done(Outcome::Success(voices::listed(found@))),
            VoicesStep::Done(Err(error)) => Action::Done(Outcome::Failure(error@)),
        }
    }
}

/// The URL that speech is synthesized at.
pub open spec fn speech_url(provider: Provider) -> Seq<char> {
    provider.endpoint + "/audio/speech"@
}

/// The URL that voices are listed at.
pub open spec fn voices_url(provider: Provider) -> Seq<char> {
    provider.endpoint + "/audio/voices"@
}

/// The step that follows in the synthesis of `speech`.
///
/// Only a body that came with a success is taken for audio, and only if it is
/// not empty.
pub open spec fn speech_action<S>(
    provider: Provider,
    speech: Speech<S>,
    exchange: Exchange<Vec<u8>>,
) -> Action<SpeechBody<S>, audio::AudioClip> {
    match exchange {
        Exchange::NotSent => Action::Send {
            url: speech_url(provider),
            body: speech_body(provider, speech),
        },
        Exchange::Unreachable(cause) => Action::Done(
            Outcome::Failure(
                TtsFault::Unreachable { endpoint: provider.endpoint, cause: cause@ },
            ),
        ),
        Exchange::Answered(status) => if status::is_success_code(status@) {
            Action::ReadPayload
        } else {
            Action::ReadExplanation
        },
        Exchange::Explained(status, body) => if status::is_success_code(status@) {
            Action::ReadPayload
        } else {
            Action::Done(
                Outcome::Failure(TtsFault::SynthesisRefused { code: status@, body: body@ }),
            )
        },
        Exchange::Received(status, data) => if !status::is_success_code(status@) {
            Action::ReadExplanation
        } else {
            match data {
                Ok(data) => if data@.len() == 0 {
                    Action::Done(Outcome::Failure(TtsFault::EmptyAudio))
                } else {
                    Action::Done(
                        Outcome::Success(
                            audio::AudioClip {
                                data: data@,
                                format: audio::closest_served(speech.output_format),
                                duration_ms: None,
                            },
                        ),
                    )
                },
                Err(cause) => Action::Done(
                    Outcome::Failure(TtsFault::Interrupted { cause: cause@ }),
                ),
            }
        },
    }
}

/// The step that follows in the listing of the voices.
///
/// Only a body that came with a success is taken for a listing.
pub open spec fn voices_action(provider: Provider, exchange: Exchange<VoicesResponse>) -> Action<
    (),
    Seq<voices::VoiceEntry>,
> {
    match exchange {
        Exchange::NotSent => Action::Send { url: voices_url(provider), body: () },
        Exchange::Unreachable(cause) => Action::Done(
            Outcome::Failure(
                TtsFault::Unreachable { endpoint: provider.endpoint, cause: cause@ },
            ),
        ),
        Exchange::Answered(status) => if status::is_success_code(status@) {
            Action::ReadPayload
        } else {
            Action::ReadExplanation
        },
        Exchange::Explained(status, body) => if status::is_success_code(status@) {
            Action::ReadPayload
        } else {
            Action::Done(
                Outcome::Failure(TtsFault::VoicesRefused { code: status@, body: body@ }),
            )
        },
        Exchange::Received(status, listing) => if !status::is_success_code(status@) {
            Action::ReadExplanation
        } else {
            match listing {
                Ok(listing) => Action::Done(Outcome::Success(voices::entries(listing))),
                Err(cause) => Action::Done(
                    Outcome::Failure(TtsFault::UnreadableListing { cause: cause@ }),
                ),
            }
        },
    }
}

impl Clone for VoxCpmTts {
    fn clone(&self) -> (res: VoxCpmTts)
        ensures
            res@ == self@,
    {
        VoxCpmTts {
            endpoint: self.endpoint.clone(),
            model: self.model.clone(),
            voice: self.voice.clone(),
            voice_design: self.voice_design,
        }
    }
}

impl VoxCpmTts {
    /// Creates a new VoxCPM provider from config.
    #[must_use]
    pub fn new(config: &VoxCpmTtsConfig) -> (res: VoxCpmTts)
        ensures
            res@ == provider_of(*config),
            res@.wf(),
    {
        let model = match &config.model {
            Some(model) => config::non_empty(Some(model.as_str())),
            None => None,
        };
        let voice = match &config.voice {
            Some(voice) => config::non_empty(Some(voice.as_str())),
            None => None,
        };
        proof {
            config::law_endpoint_ends_without_slash(config.endpoint@);
        }
        VoxCpmTts {
            endpoint: config::normalize_endpoint(config.endpoint.as_str()),
            model,
            voice,
            voice_design: config.voice_design,
        }
    }

    /// Maps an audio format onto a vLLM-Omni `response_format`.
    ///
    /// vLLM-Omni supports `wav`, `mp3`, `flac`, `pcm` and `opus`. Formats it
    /// does not serve fall back to the closest one it does, and the format
    /// actually returned is reported back so callers never mislabel the bytes.
    pub fn negotiate_format(requested: AudioFormat) -> (res: (&'static str, AudioFormat))
        ensures
            res.1 == audio::closest_served(requested),
            audio::served_as(res.1) == Some(res.0@),
    {
        match requested {
            AudioFormat::Mp3 | AudioFormat::Aac => ("mp3", AudioFormat::Mp3),
            AudioFormat::Opus | AudioFormat::Webm => ("opus", AudioFormat::Opus),
            AudioFormat::Pcm => ("pcm", AudioFormat::Pcm),
            AudioFormat::Wav => ("wav", AudioFormat::Wav),
        }
    }

    /// The identifier of the provider.
    pub fn id(&self) -> (res: &'static str)
        ensures
            res@ == "voxcpm"@,
    {
        "voxcpm"
    }

    /// The name of the provider.
    pub fn name(&self) -> (res: &'static str)
        ensures
            res@ == "VoxCPM"@,
    {
        "VoxCPM"
    }

    /// Whether the provider understands SSML, which it does not.
    pub fn supports_ssml(&self) -> (res: bool)
        ensures
            !res,
    {
        false
    }

    /// Whether the provider was set up deliberately.
    ///
    /// A non-default endpoint or an explicit model counts as deliberate
    /// configuration. Whether the server is actually up is probed separately.
    pub fn is_configured(&self) -> (res: bool)
        ensures
            res == self@.is_configured(),
    {
        !text::same_text(self.endpoint.as_str(), DEFAULT_ENDPOINT) || self.model.is_some()
    }

    /// The body of the request that synthesizes.
    ///
    /// `voice` is deliberately not defaulted: VoxCPM validates the name against
    /// its registered speakers and rejects unknown ones, while omitting it
    /// selects zero-shot synthesis.
    pub fn speech_request<S: Copy>(&self, request: &SynthesizeRequest<S>) -> (res: SpeechRequest<S>)
        ensures
            res@ == speech_body(self@, request@),
    {
        let (wire_format, _) = Self::negotiate_format(request.output_format);
        let input = match &request.instructions {
            Some(instructions) => {
                let direction = voice_design::strip_field_labels(instructions.as_str());
                text::owned(
                    voice_design::apply_voice_design(
                        request.text.as_str(),
                        Some(direction.as_str()),
                        self.voice_design,
                    ),
                )
            },
            None => text::owned(
                voice_design::apply_voice_design(request.text.as_str(), None, self.voice_design),
            ),
        };
        SpeechRequest {
            model: clone_first_set(&request.model, &self.model),
            input,
            voice: clone_first_set(&request.voice_id, &self.voice),
            response_format: wire_format.to_owned(),
            speed: request.speed,
        }
    }

    fn unreachable(&self, cause: String) -> (res: TtsError)
        ensures
            res@ == (TtsFault::Unreachable { endpoint: self@.endpoint, cause: cause@ }),
    {
        TtsError::Unreachable { endpoint: self.endpoint.clone(), cause }
    }

    /// Lists the voices of the server: given how far the exchange has come, says
    /// what to do next.
    pub fn voices(&self, exchange: Exchange<VoicesResponse>) -> (res: VoicesStep)
        ensures
            res@ == voices_action(self@, exchange),
    {
        match exchange {
            Exchange::NotSent => {
                let mut url = self.endpoint.clone();
                url.append("/audio/voices");
                VoicesStep::Get { url }
            },
            Exchange::Unreachable(cause) => VoicesStep::Done(Err(self.unreachable(cause))),
            Exchange::Answered(status) => if status.is_success() {
                VoicesStep::ReadListing
            } else {
                VoicesStep::ReadExplanation
            },
            Exchange::Explained(status, body) => if status.is_success() {
                VoicesStep::ReadListing
            } else {
                VoicesStep::Done(Err(TtsError::VoicesRefused { status, body }))
            },
            Exchange::Received(status, listing) => if !status.is_success() {
                VoicesStep::ReadExplanation
            } else {
                match listing {
                    Ok(listing) => VoicesStep::Done(Ok(listing.into_voices())),
                    Err(cause) => VoicesStep::Done(Err(TtsError::UnreadableListing { cause })),
                }
            },
        }
    }

    /// Synthesizes speech: given how far the exchange has come, says what to do
    /// next.
    pub fn synthesize<S: Copy>(
        &self,
        request: &SynthesizeRequest<S>,
        exchange: Exchange<Vec<u8>>,
    ) -> (res: SpeechStep<S>)
        ensures
            res@ == speech_action(self@, request@, exchange),
    {
        match exchange {
            Exchange::NotSent => {
                let mut url = self.endpoint.clone();
                url.append("/audio/speech");
                SpeechStep::Post { url, body: self.speech_request(request) }
            },
            Exchange::Unreachable(cause) => SpeechStep::Done(Err(self.unreachable(cause))),
            Exchange::Answered(status) => if status.is_success() {
                SpeechStep::ReadAudio
            } else {
                SpeechStep::ReadExplanation
            },
            Exchange::Explained(status, body) => if status.is_success() {
                SpeechStep::ReadAudio
            } else {
                SpeechStep::Done(Err(TtsError::SynthesisRefused { status, body }))
            },
            Exchange::Received(status, data) => if !status.is_success() {
                SpeechStep::ReadExplanation
            } else {
                match data {
                    Ok(data) => if data.len() == 0 {
                        SpeechStep::Done(Err(TtsError::EmptyAudio))
                    } else {
                        let (_, actual_format) = Self::negotiate_format(request.output_format);
                        SpeechStep::Done(Ok(AudioOutput::new(data, actual_format)))
                    },
                    Err(cause) => SpeechStep::Done(Err(TtsError::Interrupted { cause })),
                }
            },
        }
    }
}

/// Whether a member `key` is among the fields.
pub open spec fn has_field(fields: Seq<(Seq<char>, Seq<char>)>, key: Seq<char>) -> bool {
    exists|i: int| 0 <= i < fields.len() && (#[trigger] fields[i]).0 == key
}

proof fn lemma_keys_differ()
    ensures
        "model"@ != "input"@,
        "model"@ != "voice"@,
        "input"@ != "voice"@,
        "model"@ != "response_format"@,
        "input"@ != "response_format"@,
        "voice"@ != "response_format"@,
{
    reveal_strlit("model");
    reveal_strlit("input");
    reveal_strlit("voice");
    reveal_strlit("response_format");
    assert("model"@[0] == 'm' && "input"@[0] == 'i' && "voice"@[0] == 'v');
    assert("response_format"@[0] == 'r');
}

/// `voice` and `model` are sent exactly if they are set, and with the value they
/// are set to; the text and its format are always sent, and nothing else is.
pub proof fn law_unset_fields_are_not_sent<S>(body: SpeechBody<S>)
    ensures
        ({
            let fields = sent_fields(body);
            &&& has_field(fields, "voice"@) <==> body.voice is Some
            &&& has_field(fields, "model"@) <==> body.model is Some
            &&& has_field(fields, "input"@)
            &&& has_field(fields, "response_format"@)
            &&& forall|i: int|
                0 <= i < fields.len() ==> {
                    ||| #[trigger] fields[i] == ("model"@, body.model->0)
                    ||| fields[i] == ("input"@, body.input)
                    ||| fields[i] == ("voice"@, body.voice->0)
                    ||| fields[i] == ("response_format"@, body.response_format)
                }
        }),
{
    lemma_keys_differ();
    let fields = sent_fields(body);
    let m: int = if body.model is Some {
        1
    } else {
        0
    };
    let v: int = if body.voice is Some {
        1
    } else {
        0
    };
    assert(fields.len() == m + v + 2);
    assert(body.model is Some ==> fields[0] == ("model"@, body.model->0));
    assert(fields[m] == ("input"@, body.input));
    assert(body.voice is Some ==> fields[m + 1] == ("voice"@, body.voice->0));
    assert(fields[m + v + 1] == ("response_format"@, body.response_format));
}

/// The voice is never defaulted: none is asked for unless the request or the
/// configuration names one, and then it is the one that is named, the request
/// before the configuration. So it is with the model.
pub proof fn law_voice_is_never_defaulted<S>(provider: Provider, speech: Speech<S>)
    ensures
        ({
            let body = speech_body(provider, speech);
            &&& body.voice is None <==> speech.voice_id is None && provider.voice is None
            &&& speech.voice_id is Some ==> body.voice == speech.voice_id
            &&& speech.voice_id is None ==> body.voice == provider.voice
            &&& body.model is None <==> speech.model is None && provider.model is None
            &&& speech.model is Some ==> body.model == speech.model
            &&& speech.model is None ==> body.model == provider.model
        }),
{
}

/// A persona reaches the server as plain voice direction: where a block of
/// `Key: value` lines comes with a text, what is put before the text is made of
/// the values, that of the persona's name left out.
pub proof fn law_persona_is_sent_without_labels<S>(
    provider: Provider,
    speech: Speech<S>,
    fields: Seq<(Seq<char>, Seq<char>)>,
)
    requires
        forall|k: int|
            0 <= k < fields.len() ==> voice_design::is_key((#[trigger] fields[k]).0)
                && voice_design::is_one_line(fields[k].1),
        speech.instructions == Some(voice_design::persona_block(fields)),
    ensures
        speech_body(provider, speech).input == voice_design::designed(
            speech.text,
            Some(
                voice_design::line_block(
                    fields.map_values(
                        |field: (Seq<char>, Seq<char>)| voice_design::field_direction(field),
                    ),
                ),
            ),
            provider.voice_design,
        ),
{
    voice_design::law_field_labels_are_stripped(fields);
}

/// Stripping labels is all that is done to instructions before they become a
/// voice design: where no line of them is labelled, or no design applies, what is
/// sent is the text designed by the instructions as they came.
pub proof fn law_plain_instructions_are_applied_as_they_are<S>(
    provider: Provider,
    speech: Speech<S>,
)
    requires
        ({
            ||| !provider.voice_design
            ||| voice_design::has_design(speech.text)
            ||| speech.instructions matches Some(instructions) ==> forall|k: int|
                0 <= k < text::pieces(instructions, voice_design::line_breaks()).len()
                    ==> !voice_design::is_labelled(
                    text::trimmed_start(
                        #[trigger] text::pieces(instructions, voice_design::line_breaks())[k],
                    ),
                )
        }),
    ensures
        speech_body(provider, speech).input == voice_design::designed(
            speech.text,
            speech.instructions,
            provider.voice_design,
        ),
{
    if speech.instructions is Some && provider.voice_design && !voice_design::has_design(
        speech.text,
    ) {
        voice_design::law_unlabelled_instructions_are_kept(speech.instructions->0);
    }
}

/// Audio is returned only if the server reported success and sent some: it is
/// what the server sent, and it is labelled with the format that was asked for.
pub proof fn law_only_received_audio_is_returned<S>(
    provider: Provider,
    speech: Speech<S>,
    exchange: Exchange<Vec<u8>>,
    clip: audio::AudioClip,
)
    requires
        speech_action(provider, speech, exchange) == Action::<SpeechBody<S>, audio::AudioClip>::Done(
            Outcome::Success(clip),
        ),
    ensures
        exchange matches Exchange::Received(status, Ok(data)) && status::is_success_code(status@)
            && data@.len() > 0 && clip.data == data@,
        audio::served_as(clip.format) == Some(speech_body(provider, speech).response_format),
{
}

/// A refusal is never taken for success, whatever came with it, and is explained
/// by its status and by what the server said.
pub proof fn law_refused_synthesis_fails<S>(
    provider: Provider,
    speech: Speech<S>,
    status: HttpStatus,
    said: String,
    data: Result<Vec<u8>, String>,
)
    requires
        !status::is_success_code(status@),
    ensures
        speech_action(provider, speech, Exchange::Answered(status)) is ReadExplanation,
        speech_action(provider, speech, Exchange::Received(status, data)) is ReadExplanation,
        speech_action(provider, speech, Exchange::Explained(status, said)) == Action::<
            SpeechBody<S>,
            audio::AudioClip,
        >::Done(
            Outcome::Failure(TtsFault::SynthesisRefused { code: status@, body: said@ }),
        ),
{
}

/// An empty response is not taken for audio.
pub proof fn law_empty_audio_fails<S>(
    provider: Provider,
    speech: Speech<S>,
    status: HttpStatus,
    data: Vec<u8>,
)
    requires
        data@.len() == 0,
    ensures
        !(speech_action(provider, speech, Exchange::Received(status, Ok(data))) matches Action::Done(
            Outcome::Success(_),
        )),
{
}

/// A refusal to list voices is never taken for a listing, whatever came with it.
pub proof fn law_refused_listing_fails(
    provider: Provider,
    status: HttpStatus,
    said: String,
    listing: Result<VoicesResponse, String>,
)
    requires
        !status::is_success_code(status@),
    ensures
        voices_action(provider, Exchange::Answered(status)) is ReadExplanation,
        voices_action(provider, Exchange::Received(status, listing)) is ReadExplanation,
        voices_action(provider, Exchange::Explained(status, said)) == Action::<
            (),
            Seq<voices::VoiceEntry>,
        >::Done(Outcome::Failure(TtsFault::VoicesRefused { code: status@, body: said@ })),
{
}

/// Reading what an answer calls for ends the exchange.
pub proof fn law_exchange_ends<S>(
    provider: Provider,
    speech: Speech<S>,
    status: HttpStatus,
    said: String,
    data: Result<Vec<u8>, String>,
    listing: Result<VoicesResponse, String>,
)
    ensures
        match speech_action(provider, speech, Exchange::Answered(status)) {
            Action::ReadPayload => speech_action(
                provider,
                speech,
                Exchange::Received(status, data),
            ) is Done,
            Action::ReadExplanation => speech_action(
                provider,
                speech,
                Exchange::Explained(status, said),
            ) is Done,
            _ => false,
        },
        match voices_action(provider, Exchange::Answered(status)) {
            Action::ReadPayload => voices_action(
                provider,
                Exchange::Received(status, listing),
            ) is Done,
            Action::ReadExplanation => voices_action(
                provider,
                Exchange::Explained(status, said),
            ) is Done,
            _ => false,
        },
{
}

/// The URLs of a provider never have a doubled slash where the path begins.
pub proof fn law_path_does_not_double_slash(settings: VoxCpmTtsConfig)
    ensures
        ({
            let provider = provider_of(settings);
            let n = provider.endpoint.len() as int;
            &&& provider.wf()
            &&& speech_url(provider)[n - 1] != '/'
            &&& speech_url(provider).skip(n) == "/audio/speech"@
            &&& voices_url(provider)[n - 1] != '/'
            &&& voices_url(provider).skip(n) == "/audio/voices"@
        }),
{
    config::law_endpoint_ends_without_slash(settings.endpoint@);
    let provider = provider_of(settings);
    let n = provider.endpoint.len() as int;
    assert(speech_url(provider).skip(n) == "/audio/speech"@);
    assert(voices_url(provider).skip(n) == "/audio/voices"@);
}

/// The defaults are not considered configured: nor is the default endpoint with
/// slashes behind it, nor a blank one, where no model is set or a blank one is.
pub proof fn law_defaults_are_not_configured(settings: VoxCpmTtsConfig, slashes: nat)
    requires
        settings.endpoint@ == DEFAULT_ENDPOINT@ + Seq::new(slashes, |i: int| '/')
            || text::is_blank(settings.endpoint@),
        settings.model matches Some(model) ==> text::is_blank(model@),
    ensures
        provider_of(settings).endpoint == DEFAULT_ENDPOINT@,
        !provider_of(settings).is_configured(),
{
    config::law_default_endpoint_stays_recognisable(slashes);
    config::law_blank_values_are_unset(settings.endpoint@);
    if settings.model is Some {
        config::law_blank_values_are_unset(settings.model->0@);
    }
}

/// A model that is set, or an endpoint that is not the default, counts as
/// configured.
pub proof fn law_deliberate_settings_are_configured(settings: VoxCpmTtsConfig)
    requires
        (settings.model matches Some(model) && !text::is_blank(model@))
            || config::normalized_endpoint(settings.endpoint@) != DEFAULT_ENDPOINT@,
    ensures
        provider_of(settings).is_configured(),
{
    if settings.model is Some {
        config::law_blank_values_are_unset(settings.model->0@);
    }
}

} // verus!
