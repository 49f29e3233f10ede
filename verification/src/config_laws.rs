//! What a configuration comes to, whatever is configured.
use crate::config;
use crate::config::VoxCpmTtsConfig;
use crate::text;
use crate::text_laws;
use crate::voxcpm;
use vstd::prelude::*;

verus! {

/// A configured endpoint is used as it is, but for the slashes behind it.
///
/// White space before those slashes is kept, as it stands inside what was
/// configured.
pub proof fn law_configured_endpoint_is_used(base: Seq<char>, slashes: nat)
    requires
        base.len() > 0,
        !text::is_white_space(base.first()),
        base.last() != '/',
        slashes == 0 ==> !text::is_white_space(base.last()),
    ensures
        config::normalized_endpoint(base + Seq::new(slashes, |i: int| '/')) == base,
{
    let endpoint = base + Seq::new(slashes, |i: int| '/');
    assert(endpoint.first() == base.first());
    if slashes > 0 {
        assert(endpoint.last() == '/');
    } else {
        assert(endpoint == base);
    }
    text_laws::law_inner_text_is_not_trimmed(endpoint);
    text_laws::law_trailing_copies_are_dropped(base, '/', slashes);
}

/// An endpoint that is clean is used as it is.
pub proof fn law_clean_endpoint_is_kept(endpoint: Seq<char>)
    requires
        endpoint.len() > 0,
        !text::is_white_space(endpoint.first()),
        !text::is_white_space(endpoint.last()),
        endpoint.last() != '/',
    ensures
        config::normalized_endpoint(endpoint) == endpoint,
{
    law_configured_endpoint_is_used(endpoint, 0);
    assert(endpoint + Seq::new(0, |i: int| '/') == endpoint);
}

/// White space around an endpoint makes no difference.
pub proof fn law_white_space_around_endpoint_is_ignored(endpoint: Seq<char>, c: char)
    requires
        text::is_white_space(c),
    ensures
        config::normalized_endpoint(seq![c] + endpoint) == config::normalized_endpoint(endpoint),
        config::normalized_endpoint(endpoint.push(c)) == config::normalized_endpoint(endpoint),
{
    text_laws::law_outer_white_space_is_trimmed(endpoint, c);
}

/// Where nothing but slashes is configured, the local server is used.
pub proof fn law_empty_endpoint_is_the_local_server(slashes: nat)
    ensures
        config::normalized_endpoint(Seq::new(slashes, |i: int| '/')) == "http://localhost:8000/v1"@,
{
    let endpoint = Seq::new(slashes, |i: int| '/');
    let none = Seq::<char>::empty();
    text_laws::law_inner_text_is_not_trimmed(endpoint);
    text_laws::law_trailing_copies_are_dropped(none, '/', slashes);
    assert(none + endpoint == endpoint);
}

/// A configured value is used as it is, but for the white space around it.
pub proof fn law_configured_value_is_used(value: Seq<char>, c: char)
    requires
        text::is_white_space(c),
    ensures
        value.len() > 0 && !text::is_white_space(value.first()) && !text::is_white_space(value.last())
            ==> config::non_blank(Some(value)) == Some(value),
        config::non_blank(Some(seq![c] + value)) == config::non_blank(Some(value)),
        config::non_blank(Some(value.push(c))) == config::non_blank(Some(value)),
        config::non_blank(Some(Seq::empty())) is None,
        config::non_blank(None) is None,
{
    text_laws::law_outer_white_space_is_trimmed(value, c);
    if value.len() > 0 && !text::is_white_space(value.first()) && !text::is_white_space(value.last()) {
        text_laws::law_inner_text_is_not_trimmed(value);
    }
    text_laws::law_inner_text_is_not_trimmed(Seq::empty());
}

/// A provider is set up with what is configured: clean values are taken over as
/// they are, and whether voice design applies is as it was chosen.
pub proof fn law_provider_takes_over_settings(settings: VoxCpmTtsConfig)
    ensures
        ({
            let provider = voxcpm::provider_of(settings);
            let endpoint = settings.endpoint@;
            &&& endpoint.len() > 0 && !text::is_white_space(endpoint.first())
                && !text::is_white_space(endpoint.last()) && endpoint.last() != '/'
                ==> provider.endpoint == endpoint
            &&& settings.model is None ==> provider.model is None
            &&& settings.model matches Some(model) ==> (model@.len() > 0
                && !text::is_white_space(model@.first()) && !text::is_white_space(model@.last())
                ==> provider.model == Some(model@))
            &&& settings.voice is None ==> provider.voice is None
            &&& settings.voice matches Some(voice) ==> (voice@.len() > 0
                && !text::is_white_space(voice@.first()) && !text::is_white_space(voice@.last())
                ==> provider.voice == Some(voice@))
            &&& provider.voice_design == settings.voice_design
        }),
{
    let endpoint = settings.endpoint@;
    if endpoint.len() > 0 && !text::is_white_space(endpoint.first()) && !text::is_white_space(
        endpoint.last(),
    ) && endpoint.last() != '/' {
        law_clean_endpoint_is_kept(endpoint);
    }
    if settings.model is Some {
        law_configured_value_is_used(settings.model->0@, ' ');
    }
    if settings.voice is Some {
        law_configured_value_is_used(settings.voice->0@, ' ');
    }
}

/// A provider counts as configured exactly if it has a model or talks to another
/// server than the local one.
pub proof fn law_configured_is_model_or_other_server(provider: voxcpm::Provider)
    ensures
        provider.model is Some ==> provider.is_configured(),
        provider.endpoint != "http://localhost:8000/v1"@ ==> provider.is_configured(),
        provider.model is None && provider.endpoint == "http://localhost:8000/v1"@
            ==> !provider.is_configured(),
{
}

/// A configured server is the one that is talked to.
pub proof fn law_requests_go_to_the_configured_server(settings: VoxCpmTtsConfig)
    requires
        settings.endpoint@.len() > 0,
        !text::is_white_space(settings.endpoint@.first()),
        !text::is_white_space(settings.endpoint@.last()),
        settings.endpoint@.last() != '/',
    ensures
        voxcpm::speech_url(voxcpm::provider_of(settings)) == settings.endpoint@ + "/audio/speech"@,
        voxcpm::voices_url(voxcpm::provider_of(settings)) == settings.endpoint@ + "/audio/voices"@,
{
    law_clean_endpoint_is_kept(settings.endpoint@);
}

} // verus!
