//! The configuration of the VoxCPM provider and how it is cleaned up.
use crate::text;
use vstd::prelude::*;

verus! {

/// Default vLLM-Omni OpenAI-compatible base URL.
pub const DEFAULT_ENDPOINT: &'static str = "http://localhost:8000/v1";

/// Configuration of the VoxCPM provider.
#[derive(Debug)]
pub struct VoxCpmTtsConfig {
    /// Base URL of the speech API.
    pub endpoint: String,
    /// Model to ask for, if any.
    pub model: Option<String>,
    /// Speaker to ask for, if any.
    pub voice: Option<String>,
    /// Whether instructions are put before the text as a voice design.
    pub voice_design: bool,
}

impl Default for VoxCpmTtsConfig {
    fn default() -> (res: VoxCpmTtsConfig)
        ensures
            res.endpoint@ == DEFAULT_ENDPOINT@,
            res.model is None,
            res.voice is None,
            res.voice_design,
    {
        VoxCpmTtsConfig {
            endpoint: DEFAULT_ENDPOINT.to_owned(),
            model: None,
            voice: None,
            voice_design: true,
        }
    }
}

/// The endpoint to use where `endpoint` is configured: without white space
/// around it and without trailing slashes, and the default where nothing is
/// left.
pub open spec fn normalized_endpoint(endpoint: Seq<char>) -> Seq<char> {
    let base = text::without_trailing(text::trimmed(endpoint), '/');
    if base.len() == 0 {
        DEFAULT_ENDPOINT@
    } else {
        base
    }
}

/// Trims trailing slashes so `{endpoint}/audio/speech` never doubles up.
pub fn normalize_endpoint(endpoint: &str) -> (res: String)
    ensures
        res@ == normalized_endpoint(endpoint@),
{
    let chars = text::chars_of(endpoint);
    let trimmed = text::trim_end_char(text::trim(chars.as_slice()), '/');
    if trimmed.len() == 0 {
        DEFAULT_ENDPOINT.to_owned()
    } else {
        text::string_of(trimmed)
    }
}

/// `value` without white space around it, if there is something in it.
pub open spec fn non_blank(value: Option<Seq<char>>) -> Option<Seq<char>> {
    match value {
        Some(value) => if text::trimmed(value).len() > 0 {
            Some(text::trimmed(value))
        } else {
            None
        },
        None => None,
    }
}

/// Treats blank config strings as unset.
pub fn non_empty(value: Option<&str>) -> (res: Option<String>)
    ensures
        res.deep_view() == non_blank(value.deep_view()),
{
    match value {
        Some(value) => {
            let chars = text::chars_of(value);
            let trimmed = text::trim(chars.as_slice());
            if trimmed.len() > 0 {
                Some(text::string_of(trimmed))
            } else {
                None
            }
        },
        None => None,
    }
}

proof fn lemma_default_endpoint()
    ensures
        DEFAULT_ENDPOINT@.len() > 0,
        DEFAULT_ENDPOINT@.last() != '/',
        !text::is_white_space(DEFAULT_ENDPOINT@.first()),
        !text::is_white_space(DEFAULT_ENDPOINT@.last()),
{
    reveal_strlit("http://localhost:8000/v1");
    assert(DEFAULT_ENDPOINT@.last() == '1');
    assert(DEFAULT_ENDPOINT@.first() == 'h');
}

/// Whatever is configured, the endpoint in use is not empty and does not end in
/// a slash.
pub proof fn law_endpoint_ends_without_slash(endpoint: Seq<char>)
    ensures
        normalized_endpoint(endpoint).len() > 0,
        normalized_endpoint(endpoint).last() != '/',
{
    lemma_default_endpoint();
    text::lemma_without_trailing(text::trimmed(endpoint), '/');
}

proof fn lemma_trimmed_start(s: Seq<char>)
    ensures
        text::trimmed_start(s).len() <= s.len(),
        text::trimmed_start(s) == s.skip(s.len() - text::trimmed_start(s).len()),
        text::trimmed_start(s).len() == 0 <==> text::is_blank(s),
        text::trimmed_start(s).len() > 0 ==> !text::is_white_space(text::trimmed_start(s).first()),
    decreases s.len(),
{
    if s.len() > 0 && text::is_white_space(s.first()) {
        let rest = s.drop_first();
        lemma_trimmed_start(rest);
        let n = text::trimmed_start(s).len();
        assert(s.skip(s.len() - n) == rest.skip(rest.len() - n));
        assert(text::is_blank(s) <==> text::is_blank(rest)) by {
            if text::is_blank(rest) {
                assert forall|i: int| 0 <= i < s.len() implies text::is_white_space(#[trigger] s[i]) by {
                    if i > 0 {
                        assert(s[i] == rest[i - 1]);
                    }
                }
            }
        }
    } else {
        assert(s.skip(0) == s);
    }
}

proof fn lemma_trimmed_end(s: Seq<char>)
    ensures
        text::trimmed_end(s).len() <= s.len(),
        text::trimmed_end(s) == s.take(text::trimmed_end(s).len() as int),
        text::trimmed_end(s).len() > 0 ==> !text::is_white_space(text::trimmed_end(s).last()),
        s.len() > 0 && !text::is_white_space(s.first()) ==> text::trimmed_end(s).len() > 0,
    decreases s.len(),
{
    if s.len() > 0 && text::is_white_space(s.last()) {
        lemma_trimmed_end(s.drop_last());
        let n = text::trimmed_end(s).len();
        assert(s.take(n as int) == s.drop_last().take(n as int));
    } else {
        assert(s.take(s.len() as int) == s);
    }
}

proof fn lemma_trimmed_start_push(s: Seq<char>, c: char)
    requires
        !text::is_white_space(c),
    ensures
        text::trimmed_start(s.push(c)) == text::trimmed_start(s).push(c),
    decreases s.len(),
{
    if s.len() > 0 {
        assert(s.push(c).first() == s.first());
        assert(s.push(c).drop_first() == s.drop_first().push(c));
        if text::is_white_space(s.first()) {
            lemma_trimmed_start_push(s.drop_first(), c);
        }
    } else {
        assert(s.push(c).first() == c);
    }
}

/// A difference of a slash at the end does not make a different endpoint.
///
/// White space between the endpoint and the slash does: it is kept, as it stands
/// inside what was configured.
pub proof fn law_trailing_slash_makes_no_difference(endpoint: Seq<char>)
    requires
        text::is_blank(endpoint) || !text::is_white_space(endpoint.last()),
    ensures
        normalized_endpoint(endpoint.push('/')) == normalized_endpoint(endpoint),
{
    let start = text::trimmed_start(endpoint);
    lemma_trimmed_start(endpoint);
    lemma_trimmed_start_push(endpoint, '/');
    assert(text::trimmed_end(start.push('/')) == start.push('/'));
    assert(start.push('/').drop_last() == start);
    if start.len() > 0 {
        assert(start.last() == endpoint.last());
    }
    assert(text::trimmed_end(start) == start);
}

/// Slashes behind the default endpoint do not make a custom one of it.
pub proof fn law_default_endpoint_stays_recognisable(slashes: nat)
    ensures
        normalized_endpoint(
            DEFAULT_ENDPOINT@ + Seq::new(slashes, |i: int| '/'),
        ) == DEFAULT_ENDPOINT@,
    decreases slashes,
{
    lemma_default_endpoint();
    let endpoint = DEFAULT_ENDPOINT@ + Seq::new(slashes, |i: int| '/');
    if slashes > 0 {
        let fewer = DEFAULT_ENDPOINT@ + Seq::new((slashes - 1) as nat, |i: int| '/');
        law_default_endpoint_stays_recognisable((slashes - 1) as nat);
        assert(endpoint == fewer.push('/'));
        assert(fewer.last() == '/' || fewer.last() == DEFAULT_ENDPOINT@.last());
        law_trailing_slash_makes_no_difference(fewer);
    } else {
        assert(endpoint == DEFAULT_ENDPOINT@);
    }
}

/// A configured value is used without the white space around it, and not at all
/// where it is nothing else.
pub proof fn law_blank_values_are_unset(value: Seq<char>)
    ensures
        non_blank(Some(value)) is None <==> text::is_blank(value),
        non_blank(Some(value)) matches Some(used) ==> {
            &&& used.len() > 0
            &&& !text::is_white_space(used.first())
            &&& !text::is_white_space(used.last())
        },
{
    let start = text::trimmed_start(value);
    lemma_trimmed_start(value);
    lemma_trimmed_end(start);
}

} // verus!
