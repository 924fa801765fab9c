//! Speech synthesis: what to ask of the synthesizer.

use crate::score::Score;
use vstd::prelude::*;
use vstd::string::*;

verus! {

/// The bit pattern of 0.5.
pub const HALF_BITS: u32 = 0x3F00_0000;

/// What is asked of the speech synthesizer.
#[derive(Debug)]
pub struct SpeechRequest {
    /// Where the request goes.
    pub url: String,
    /// What is to be spoken.
    pub text: String,
    /// The model that speaks.
    pub model_id: String,
    /// How steady the voice is to be.
    pub stability: Score,
    /// How closely the voice is to keep to its model.
    pub similarity_boost: Score,
}

/// The voice that speaks where none is asked for.
pub open spec fn default_voice() -> Seq<char> {
    "EXAVITQu4vr4xnSDxMaL"@
}

/// The voice that speaks: the one asked for, or else the default voice.
pub open spec fn voice_or_default(voice_id: Option<Seq<char>>) -> Seq<char> {
    match voice_id {
        Some(voice) => voice,
        None => default_voice(),
    }
}

/// Where a request for the voice `voice` goes.
pub open spec fn speech_url(voice: Seq<char>) -> Seq<char> {
    "https://api.elevenlabs.io/v1/text-to-speech/"@ + voice + "/stream"@
}

/// What the optional name of a voice is, as a mathematical value.
pub open spec fn voice_view(voice_id: Option<&str>) -> Option<Seq<char>> {
    match voice_id {
        Some(voice) => Some(voice@),
        None => None,
    }
}

/// Makes ready the request to speak `text` in the voice `voice_id`, or in
/// the default voice where none is given.
pub fn text_to_speech(text: &str, voice_id: Option<&str>) -> (request: SpeechRequest)
    ensures
        request.url@ == speech_url(voice_or_default(voice_view(voice_id))),
        request.text@ == text@,
        request.model_id@ == "eleven_monolingual_v1"@,
        request.stability.bits == HALF_BITS,
        request.similarity_boost.bits == HALF_BITS,
{
    let voice: &str = match voice_id {
        Some(voice) => voice,
        None => "EXAVITQu4vr4xnSDxMaL",
    };
    let mut url = String::from_str("https://api.elevenlabs.io/v1/text-to-speech/");
    url.append(voice);
    url.append("/stream");
    SpeechRequest {
        url,
        text: String::from_str(text),
        model_id: String::from_str("eleven_monolingual_v1"),
        stability: Score { bits: HALF_BITS },
        similarity_boost: Score { bits: HALF_BITS },
    }
}

} // verus!
