//! What can go wrong in an exchange with the server.
use crate::status;
use crate::status::HttpStatus;
use vstd::prelude::*;

verus! {

/// Why voices could not be listed or speech could not be synthesized.
#[derive(Debug)]
pub enum TtsError {
    /// The server could not be reached.
    Unreachable { endpoint: String, cause: String },
    /// The server did not list its voices.
    VoicesRefused { status: HttpStatus, body: String },
    /// The server did not synthesize.
    SynthesisRefused { status: HttpStatus, body: String },
    /// The listing could not be read.
    UnreadableListing { cause: String },
    /// The audio did not arrive.
    Interrupted { cause: String },
    /// The audio was empty.
    EmptyAudio,
}

/// What went wrong.
pub enum TtsFault {
    Unreachable { endpoint: Seq<char>, cause: Seq<char> },
    VoicesRefused { code: u16, body: Seq<char> },
    SynthesisRefused { code: u16, body: Seq<char> },
    UnreadableListing { cause: Seq<char> },
    Interrupted { cause: Seq<char> },
    EmptyAudio,
}

impl View for TtsError {
    type V = TtsFault;

    open spec fn view(&self) -> TtsFault {
        match self {
            TtsError::Unreachable { endpoint, cause } => TtsFault::Unreachable {
                endpoint: endpoint@,
                cause: cause@,
            },
            TtsError::VoicesRefused { status, body } => TtsFault::VoicesRefused {
                code: status@,
                body: body@,
            },
            TtsError::SynthesisRefused { status, body } => TtsFault::SynthesisRefused {
                code: status@,
                body: body@,
            },
            TtsError::UnreadableListing { cause } => TtsFault::UnreadableListing { cause: cause@ },
            TtsError::Interrupted { cause } => TtsFault::Interrupted { cause: cause@ },
            TtsError::EmptyAudio => TtsFault::EmptyAudio,
        }
    }
}

/// How to start a server.
pub const START_COMMAND: &'static str = "vllm serve openbmb/VoxCPM2 --omni --port 8000";

/// What is said of a fault.
pub open spec fn fault_message(fault: TtsFault) -> Seq<char> {
    match fault {
        TtsFault::Unreachable { endpoint, cause } => "failed to reach VoxCPM server at "@ + endpoint
            + ": "@ + cause + ". Start it with: "@ + START_COMMAND@,
        TtsFault::VoicesRefused { code, body } => "VoxCPM voices request failed: "@
            + status::status_text(code) + " - "@ + body,
        TtsFault::SynthesisRefused { code, body } => "VoxCPM synthesis failed: "@
            + status::status_text(code) + " - "@ + body,
        TtsFault::UnreadableListing { cause } => "failed to parse VoxCPM voices response: "@ + cause,
        TtsFault::Interrupted { cause } => cause,
        TtsFault::EmptyAudio => "VoxCPM returned an empty audio response"@,
    }
}

impl TtsError {
    /// Says what went wrong.
    pub fn message(&self) -> (res: String)
        ensures
            res@ == fault_message(self@),
    {
        match self {
            TtsError::Unreachable { endpoint, cause } => {
                let mut message = "failed to reach VoxCPM server at ".to_string();
                message.append(endpoint.as_str());
                message.append(": ");
                message.append(cause.as_str());
                message.append(". Start it with: ");
                message.append(START_COMMAND);
                message
            },
            TtsError::VoicesRefused { status, body } => {
                let mut message = "VoxCPM voices request failed: ".to_string();
                message.append(status.to_text().as_str());
                message.append(" - ");
                message.append(body.as_str());
                message
            },
            TtsError::SynthesisRefused { status, body } => {
                let mut message = "VoxCPM synthesis failed: ".to_string();
                message.append(status.to_text().as_str());
                message.append(" - ");
                message.append(body.as_str());
                message
            },
            TtsError::UnreadableListing { cause } => {
                let mut message = "failed to parse VoxCPM voices response: ".to_string();
                message.append(cause.as_str());
                message
            },
            TtsError::Interrupted { cause } => cause.clone(),
            TtsError::EmptyAudio => "VoxCPM returned an empty audio response".to_string(),
        }
    }
}

/// Whether `part` stands somewhere in `s`.
pub open spec fn holds(s: Seq<char>, part: Seq<char>) -> bool {
    exists|before: Seq<char>, behind: Seq<char>| s == #[trigger] (before + part + behind)
}

/// What is said of a refusal holds the status code and what the server said.
pub proof fn law_refusal_is_surfaced(code: u16, body: Seq<char>)
    ensures
        holds(
            fault_message(TtsFault::SynthesisRefused { code, body }),
            crate::number::decimal(code as nat),
        ),
        holds(fault_message(TtsFault::SynthesisRefused { code, body }), body),
        holds(
            fault_message(TtsFault::VoicesRefused { code, body }),
            crate::number::decimal(code as nat),
        ),
        holds(fault_message(TtsFault::VoicesRefused { code, body }), body),
{
    let code_text = crate::number::decimal(code as nat);
    let behind_code = seq![' '] + status::reason_phrase(code) + " - "@ + body;
    let none = Seq::<char>::empty();
    let synthesis = fault_message(TtsFault::SynthesisRefused { code, body });
    let voices = fault_message(TtsFault::VoicesRefused { code, body });
    assert(synthesis == "VoxCPM synthesis failed: "@ + code_text + behind_code);
    assert(synthesis == ("VoxCPM synthesis failed: "@ + status::status_text(code) + " - "@) + body
        + none);
    assert(voices == "VoxCPM voices request failed: "@ + code_text + behind_code);
    assert(voices == ("VoxCPM voices request failed: "@ + status::status_text(code) + " - "@) + body
        + none);
}

/// What is said of a server that cannot be reached names its endpoint and ends
/// with how to start one.
pub proof fn law_unreachable_explains_start(endpoint: Seq<char>, cause: Seq<char>)
    ensures
        holds(fault_message(TtsFault::Unreachable { endpoint, cause }), endpoint),
        crate::text::ends_with(
            fault_message(TtsFault::Unreachable { endpoint, cause }),
            START_COMMAND@,
        ),
{
    let message = fault_message(TtsFault::Unreachable { endpoint, cause });
    let behind = ": "@ + cause + ". Start it with: "@ + START_COMMAND@;
    assert(message == "failed to reach VoxCPM server at "@ + endpoint + behind);
    assert(message.skip(message.len() - START_COMMAND@.len()) == START_COMMAND@);
}

} // verus!
