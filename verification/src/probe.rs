//! Whether the local servers that the voice providers talk to are up.
use crate::status;
use crate::status::HttpStatus;
use crate::text;
use vstd::prelude::*;

verus! {

/// How long a probe waits for an answer, in seconds.
pub const PROBE_TIMEOUT_SECS: u64 = 2;

/// What to do next to learn whether a server is up.
pub enum ProbeAction {
    Get(Seq<char>),
    Done(bool),
}

/// What to do next to learn whether a server is up: request a URL, or say
/// whether it is.
#[derive(Debug)]
pub enum ProbeStep {
    Get(String),
    Done(bool),
}

impl View for ProbeStep {
    type V = ProbeAction;

    open spec fn view(&self) -> ProbeAction {
        match self {
            ProbeStep::Get(url) => ProbeAction::Get(url@),
            ProbeStep::Done(up) => ProbeAction::Done(*up),
        }
    }
}

/// Whether a request was answered with success; `None` is a request that was
/// not answered.
pub open spec fn is_alive(reply: Option<HttpStatus>) -> bool {
    reply matches Some(status) && status::is_success_code(status@)
}

/// Whether one of the requests was answered with success.
pub open spec fn any_alive(replies: Seq<Option<HttpStatus>>) -> bool {
    exists|i: int| 0 <= i < replies.len() && is_alive(#[trigger] replies[i])
}

/// The next step of a probe of `urls`, given the replies to the requests that
/// were made so far: a server is up as soon as one URL answers with success,
/// and down when none is left to try.
pub open spec fn probe_step(urls: Seq<Seq<char>>, replies: Seq<Option<HttpStatus>>) -> ProbeAction {
    if any_alive(replies) {
        ProbeAction::Done(true)
    } else if replies.len() < urls.len() {
        ProbeAction::Get(urls[replies.len() as int])
    } else {
        ProbeAction::Done(false)
    }
}

/// Decides the next step of a probe.
pub fn next_probe(urls: &Vec<String>, replies: &Vec<Option<HttpStatus>>) -> (res: ProbeStep)
    ensures
        res@ == probe_step(text::texts(urls@), replies@),
{
    let mut i: usize = 0;
    while i < replies.len()
        invariant
            i <= replies.len(),
            forall|j: int| 0 <= j < i ==> !is_alive(#[trigger] replies@[j]),
        decreases replies.len() - i,
    {
        if let Some(status) = &replies[i] {
            if status.is_success() {
                assert(is_alive(replies@[i as int]));
                return ProbeStep::Done(true);
            }
        }
        assert(!is_alive(replies@[i as int]));
        i += 1;
    }
    if replies.len() < urls.len() {
        assert(text::texts(urls@)[replies.len() as int] == urls@[replies.len() as int]@);
        ProbeStep::Get(urls[replies.len()].clone())
    } else {
        ProbeStep::Done(false)
    }
}

/// The URLs that tell whether a vLLM-Omni server is up.
///
/// The endpoint is an OpenAI-compatible base URL such as
/// `http://localhost:8000/v1`, while `/health` is served from the root.
pub open spec fn voxcpm_urls(endpoint: Seq<char>) -> Seq<Seq<char>> {
    let base = text::without_trailing(endpoint, '/');
    let root = if text::ends_with(base, "/v1"@) {
        base.take(base.len() - "/v1"@.len())
    } else {
        base
    };
    seq![root + "/health"@, base + "/audio/voices"@]
}

/// The URL that tells whether a vLLM server is up.
pub open spec fn vllm_urls(endpoint: Seq<char>) -> Seq<Seq<char>> {
    seq![text::without_trailing(endpoint, '/') + "/health"@]
}

/// Checks if a vLLM-Omni server is running, given the replies to the requests
/// that were made so far.
pub fn check_voxcpm_server(endpoint: &str, replies: &Vec<Option<HttpStatus>>) -> (res: ProbeStep)
    ensures
        res@ == probe_step(voxcpm_urls(endpoint@), replies@),
{
    let chars = text::chars_of(endpoint);
    let base = text::trim_end_char(chars.as_slice(), '/');
    let version = text::chars_of("/v1");
    let mut root = base;
    if version.len() <= base.len() {
        let at: usize = base.len() - version.len();
        let (head, tail) = base.split_at(at);
        proof {
            assert(tail@ == base@.skip(at as int));
            assert(head@ == base@.take(at as int));
            assert(tail@.take(version.len() as int) == tail@);
            assert(tail@.skip(0) == tail@);
        }
        if text::matches_at(tail, 0, version.as_slice()) {
            root = head;
        }
    }
    let mut urls: Vec<String> = Vec::new();
    let mut health = text::string_of(root);
    health.append("/health");
    urls.push(health);
    let mut voices = text::string_of(base);
    voices.append("/audio/voices");
    urls.push(voices);
    assert(text::texts(urls@) == voxcpm_urls(endpoint@));
    next_probe(&urls, replies)
}

/// Checks if a vLLM server is running, given the replies to the requests that
/// were made so far.
pub fn check_vllm_server(endpoint: &str, replies: &Vec<Option<HttpStatus>>) -> (res: ProbeStep)
    ensures
        res@ == probe_step(vllm_urls(endpoint@), replies@),
{
    let chars = text::chars_of(endpoint);
    let mut health = text::string_of(text::trim_end_char(chars.as_slice(), '/'));
    health.append("/health");
    let mut urls: Vec<String> = Vec::new();
    urls.push(health);
    assert(text::texts(urls@) == vllm_urls(endpoint@));
    next_probe(&urls, replies)
}

/// Checks if a Coqui TTS server is running, given the replies to the requests
/// that were made so far. Such a server responds to its endpoint as it is.
pub fn check_coqui_server(endpoint: &str, replies: &Vec<Option<HttpStatus>>) -> (res: ProbeStep)
    ensures
        res@ == probe_step(seq![endpoint@], replies@),
{
    let mut urls: Vec<String> = Vec::new();
    urls.push(endpoint.to_owned());
    assert(text::texts(urls@) == seq![endpoint@]);
    next_probe(&urls, replies)
}

/// What a probe ends with that has `n` replies already, where `answers` are the
/// replies that the URLs would give.
pub open spec fn probe_outcome(
    urls: Seq<Seq<char>>,
    answers: Seq<Option<HttpStatus>>,
    n: int,
) -> bool
    decreases urls.len() - n,
{
    match probe_step(urls, answers.take(n)) {
        ProbeAction::Done(up) => up,
        ProbeAction::Get(_) => if 0 <= n < urls.len() {
            probe_outcome(urls, answers, n + 1)
        } else {
            false
        },
    }
}

proof fn lemma_probe_outcome(urls: Seq<Seq<char>>, answers: Seq<Option<HttpStatus>>, n: int)
    requires
        answers.len() == urls.len(),
        0 <= n <= urls.len(),
    ensures
        probe_outcome(urls, answers, n) == any_alive(answers),
    decreases urls.len() - n,
{
    let replies = answers.take(n);
    if any_alive(replies) {
        let i = choose|i: int| 0 <= i < replies.len() && is_alive(#[trigger] replies[i]);
        assert(is_alive(answers[i]));
    } else if n < urls.len() {
        lemma_probe_outcome(urls, answers, n + 1);
    } else {
        assert(replies == answers);
    }
}

/// A probe that is carried on until it is done finds a server to be up exactly
/// if one of its URLs would answer with success.
pub proof fn law_probe_finds_live_server(urls: Seq<Seq<char>>, answers: Seq<Option<HttpStatus>>)
    requires
        answers.len() == urls.len(),
    ensures
        probe_outcome(urls, answers, 0) == any_alive(answers),
{
    lemma_probe_outcome(urls, answers, 0);
}

/// A trailing slash on the endpoint changes nothing of what a probe requests.
pub proof fn law_probe_ignores_trailing_slash(endpoint: Seq<char>)
    ensures
        voxcpm_urls(endpoint.push('/')) == voxcpm_urls(endpoint),
        vllm_urls(endpoint.push('/')) == vllm_urls(endpoint),
{
    assert(endpoint.push('/').drop_last() == endpoint);
}

} // verus!
