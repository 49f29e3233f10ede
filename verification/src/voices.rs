//! The speakers that a server has.
use vstd::prelude::*;

verus! {

/// A speaker that can be asked for.
#[derive(Debug)]
pub struct Voice {
    pub id: String,
    pub name: String,
    pub description: Option<String>,
    pub preview_url: Option<String>,
}

/// What a speaker is listed as.
#[verifier::ext_equal]
pub struct VoiceEntry {
    pub id: Seq<char>,
    pub name: Seq<char>,
    pub description: Option<Seq<char>>,
    pub preview_url: Option<Seq<char>>,
}

impl View for Voice {
    type V = VoiceEntry;

    open spec fn view(&self) -> VoiceEntry {
        VoiceEntry {
            id: self.id@,
            name: self.name@,
            description: self.description.deep_view(),
            preview_url: self.preview_url.deep_view(),
        }
    }
}

/// What is known of a voice that was uploaded to the server.
#[derive(Debug)]
pub struct UploadedVoice {
    pub name: String,
    pub speaker_description: Option<String>,
    pub ref_text: Option<String>,
}

/// The listing that a server gives: the names of all speakers, and the metadata
/// of those that were uploaded.
#[derive(Debug, Default)]
pub struct VoicesResponse {
    pub voices: Vec<String>,
    pub uploaded_voices: Vec<UploadedVoice>,
}

/// How an uploaded voice is described: as it was described when it was uploaded,
/// else by the transcript of its reference, if there is either.
pub open spec fn upload_description(uploaded: UploadedVoice) -> Option<Seq<char>> {
    match uploaded.speaker_description {
        Some(description) => Some(description@),
        None => match uploaded.ref_text {
            Some(transcript) => Some("Cloned from: "@ + transcript@),
            None => None,
        },
    }
}

/// How the speaker `id` is described: as the last of the uploaded voices that
/// have that name is.
pub open spec fn description_of(uploaded: Seq<UploadedVoice>, id: Seq<char>) -> Option<Seq<char>>
    decreases uploaded.len(),
{
    if uploaded.len() == 0 {
        None
    } else if uploaded.last().name@ == id {
        upload_description(uploaded.last())
    } else {
        description_of(uploaded.drop_last(), id)
    }
}

/// The entry of the speaker `id`.
pub open spec fn entry_of(uploaded: Seq<UploadedVoice>, id: Seq<char>) -> VoiceEntry {
    VoiceEntry { id, name: id, description: description_of(uploaded, id), preview_url: None }
}

/// The speakers of a listing, in its order.
pub open spec fn entries(listing: VoicesResponse) -> Seq<VoiceEntry> {
    listing.voices@.map_values(|id: String| entry_of(listing.uploaded_voices@, id@))
}

/// What each of the voices is listed as.
pub open spec fn listed(voices: Seq<Voice>) -> Seq<VoiceEntry> {
    voices.map_values(|voice: Voice| voice@)
}

impl UploadedVoice {
    fn describe(&self) -> (res: Option<String>)
        ensures
            res.deep_view() == upload_description(*self),
    {
        match &self.speaker_description {
            Some(description) => Some(description.clone()),
            None => match &self.ref_text {
                Some(transcript) => {
                    let mut description = "Cloned from: ".to_string();
                    description.append(transcript.as_str());
                    Some(description)
                },
                None => None,
            },
        }
    }
}

fn describe(uploaded: &Vec<UploadedVoice>, id: &String) -> (res: Option<String>)
    ensures
        res.deep_view() == description_of(uploaded@, id@),
{
    let mut n: usize = uploaded.len();
    assert(uploaded@.take(n as int) == uploaded@);
    while n > 0
        invariant
            n <= uploaded.len(),
            description_of(uploaded@, id@) == description_of(uploaded@.take(n as int), id@),
        decreases n,
    {
        assert(uploaded@.take(n as int).drop_last() == uploaded@.take(n - 1));
        if uploaded[n - 1].name == *id {
            return uploaded[n - 1].describe();
        }
        n -= 1;
    }
    None
}

impl VoicesResponse {
    /// Merges the preset and uploaded listings, preferring uploaded metadata.
    pub fn into_voices(self) -> (res: Vec<Voice>)
        ensures
            listed(res@) == entries(self),
    {
        let mut res: Vec<Voice> = Vec::new();
        let mut i: usize = 0;
        while i < self.voices.len()
            invariant
                i <= self.voices.len(),
                listed(res@) == entries(self).take(i as int),
            decreases self.voices.len() - i,
        {
            let id = self.voices[i].clone();
            let description = describe(&self.uploaded_voices, &id);
            let ghost before = res@;
            let voice = Voice { name: id.clone(), id, description, preview_url: None };
            proof {
                assert(voice@ == entries(self)[i as int]);
                assert(listed(before.push(voice)) == listed(before).push(voice@));
                assert(entries(self).take(i + 1) == entries(self).take(i as int).push(
                    entries(self)[i as int],
                ));
            }
            res.push(voice);
            i += 1;
        }
        assert(entries(self).take(i as int) == entries(self));
        res
    }
}

/// The speakers are the names that the server lists, each once for every time it
/// is listed and in that order; what was uploaded under another name adds none.
pub proof fn law_listing_is_kept(listing: VoicesResponse)
    ensures
        entries(listing).len() == listing.voices@.len(),
        forall|i: int|
            0 <= i < listing.voices@.len() ==> {
                &&& (#[trigger] entries(listing)[i]).id == listing.voices@[i]@
                &&& entries(listing)[i].name == listing.voices@[i]@
                &&& entries(listing)[i].preview_url is None
            },
{
}

/// Of the voices that were uploaded under one name the latest describes the
/// speaker.
pub proof fn law_latest_upload_describes(uploaded: Seq<UploadedVoice>, k: int)
    requires
        0 <= k < uploaded.len(),
        forall|j: int| k < j < uploaded.len() ==> (#[trigger] uploaded[j]).name@ != uploaded[k].name@,
    ensures
        description_of(uploaded, uploaded[k].name@) == upload_description(uploaded[k]),
    decreases uploaded.len(),
{
    if k < uploaded.len() - 1 {
        law_latest_upload_describes(uploaded.drop_last(), k);
    }
}

/// A speaker that was not uploaded has no description.
pub proof fn law_preset_has_no_description(uploaded: Seq<UploadedVoice>, id: Seq<char>)
    requires
        forall|j: int| 0 <= j < uploaded.len() ==> (#[trigger] uploaded[j]).name@ != id,
    ensures
        description_of(uploaded, id) is None,
    decreases uploaded.len(),
{
    if uploaded.len() > 0 {
        law_preset_has_no_description(uploaded.drop_last(), id);
    }
}

} // verus!
