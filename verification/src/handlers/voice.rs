//! Requests about what is spoken, heard and understood on a call.

use crate::error::ScreeningError;
use crate::identity::{id_text, write_id};
use crate::json::{json_string_member, read_string_member};
use crate::lifecycle::lemma_screening_keeps_consistent;
use crate::models::state::AppState;
use crate::models::voice::{
    IntentAnalysisRequest, IntentAnalysisResponse, TranscriptRequest, TranscriptResponse,
    VoiceStreamRequest,
};
use crate::orchestrator::{
    after_classify, after_transcribe, analysis_view, answers_analysis, classify_and_store,
    classify_result, transcribe_and_store, transcribe_result, transcript_view,
    CollaboratorFailure,
};
use crate::score::Score;
use crate::services::elevenlabs::{
    speech_url, text_to_speech, voice_or_default, SpeechRequest, HALF_BITS,
};
use crate::timestamp::Timestamp;
use vstd::prelude::*;
use vstd::string::*;

verus! {

/// The bit pattern of 0.9, the confidence that every transcript is given:
/// the transcriber reports none of its own.
pub const TRANSCRIPT_CONFIDENCE_BITS: u32 = 0x3F66_6666;

/// How a service answered a request.
#[derive(Debug)]
pub enum ServiceReply {
    /// It could not be reached, or it refused the request.
    Failed,
    /// It did not answer in time.
    TimedOut,
    /// It answered, with this text.
    Answered(String),
}

/// The transcript that was found in the transcriber's answer: where the
/// answer is no JSON document, it cannot be read; where it is one, the
/// transcript is its member `text`, and is empty if there is no such text.
pub open spec fn transcript_found(found: Option<Option<Seq<char>>>) -> Result<
    Seq<char>,
    CollaboratorFailure,
> {
    match found {
        None => Err(CollaboratorFailure::Malformed),
        Some(None) => Ok(Seq::empty()),
        Some(Some(text)) => Ok(text),
    }
}

/// What the transcriber's reply comes to.
pub open spec fn transcriber_outcome(reply: ServiceReply) -> Result<
    Seq<char>,
    CollaboratorFailure,
> {
    match reply {
        ServiceReply::Failed => Err(CollaboratorFailure::Failed),
        ServiceReply::TimedOut => Err(CollaboratorFailure::TimedOut),
        ServiceReply::Answered(body) => transcript_found(json_string_member(body@, "text"@)),
    }
}

/// The transcript that was found in the transcriber's answer.
pub fn transcript_from(found: Option<Option<String>>) -> (r: Result<String, CollaboratorFailure>)
    ensures
        transcript_view(r) == transcript_found(found.deep_view()),
{
    match found {
        None => Err(CollaboratorFailure::Malformed),
        Some(None) => Ok(String::new()),
        Some(Some(text)) => Ok(text),
    }
}

/// What the transcriber's reply comes to.
pub fn read_transcriber_reply(reply: ServiceReply) -> (r: Result<String, CollaboratorFailure>)
    ensures
        transcript_view(r) == transcriber_outcome(reply),
{
    match reply {
        ServiceReply::Failed => Err(CollaboratorFailure::Failed),
        ServiceReply::TimedOut => Err(CollaboratorFailure::TimedOut),
        ServiceReply::Answered(body) => transcript_from(read_string_member(body.as_str(), "text")),
    }
}

/// The name of the file in which the audio of the call `call_id` is handed to
/// the transcriber.
pub open spec fn audio_file_name_text(call_id: u128) -> Seq<char> {
    "audio_"@ + id_text(call_id) + ".wav"@
}

/// The name of the file in which the audio of the call `call_id` is handed to
/// the transcriber.
pub fn audio_file_name(call_id: u128) -> (name: String)
    ensures
        name@ == audio_file_name_text(call_id),
{
    let id = write_id(call_id);
    let mut name = String::from_str("audio_");
    name.append(id.as_str());
    name.append(".wav");
    name
}

/// Makes ready the request to speak a text to the caller, in the voice that
/// is asked for or else in the default voice.
pub fn stream_tts(request: &VoiceStreamRequest) -> (speech: SpeechRequest)
    ensures
        speech.url@ == speech_url(voice_or_default(request.voice_id.deep_view())),
        speech.text@ == request.text@,
        speech.model_id@ == "eleven_monolingual_v1"@,
        speech.stability.bits == HALF_BITS,
        speech.similarity_boost.bits == HALF_BITS,
{
    match &request.voice_id {
        Some(voice) => text_to_speech(request.text.as_str(), Some(voice.as_str())),
        None => text_to_speech(request.text.as_str(), None),
    }
}

/// Whether a transcript response that was given is the one that was
/// expected.
pub open spec fn answers_transcription(
    given: Result<TranscriptResponse, ScreeningError>,
    expected: Result<Seq<char>, ScreeningError>,
) -> bool {
    match given {
        Ok(response) => expected == Ok::<Seq<char>, ScreeningError>(response.text@)
            && response.confidence.bits == TRANSCRIPT_CONFIDENCE_BITS,
        Err(error) => expected == Err::<Seq<char>, ScreeningError>(error),
    }
}

/// Takes the transcriber's reply for a call and writes the transcript into
/// the call's record, at the time that the clock shows.
///
/// Where the transcriber failed, reports `Transcription`, `Timeout` or
/// `MalformedResult` as the failure was; where the call is not on record,
/// `NotFound`. Whatever is reported, no record has changed.
pub fn create_transcript(state: &mut AppState, request: &TranscriptRequest, reply: ServiceReply)
    -> (r: Result<TranscriptResponse, ScreeningError>)
    requires
        old(state).inv(),
    ensures
        final(state).inv(),
        old(state).referential() ==> final(state).referential(),
        final(state).callbacks@ == old(state).callbacks@,
        exists|now: Timestamp|
            {
                &&& answers_transcription(
                    r,
                    #[trigger] transcribe_result(
                        old(state).calls@,
                        request.call_id,
                        transcriber_outcome(reply),
                        now,
                    ),
                )
                &&& final(state).calls@ == after_transcribe(
                    old(state).calls@,
                    request.call_id,
                    transcriber_outcome(reply),
                    now,
                )
            },
{
    let ghost before = state.calls@;
    let outcome = read_transcriber_reply(reply);
    let ghost read = transcript_view(outcome);
    let stored = transcribe_and_store(&mut state.calls, request.call_id, outcome);
    proof {
        let now = choose|now: Timestamp|
            {
                &&& crate::orchestrator::answers_transcript(
                    stored,
                    #[trigger] transcribe_result(before, request.call_id, read, now),
                )
                &&& state.calls@ == after_transcribe(before, request.call_id, read, now)
            };
        if let Ok(text) = read {
            lemma_screening_keeps_consistent(before, request.call_id, Some(text), None, None, now);
        }
    }
    match stored {
        Ok(text) => Ok(
            TranscriptResponse { text, confidence: Score { bits: TRANSCRIPT_CONFIDENCE_BITS } },
        ),
        Err(error) => Err(error),
    }
}

/// Takes the classifier's outcome for a call and writes the intent and the
/// spam likelihood into the call's record, at the time that the clock shows.
///
/// Where the classifier failed, reports `Classification`, `Timeout` or
/// `MalformedResult` as the failure was; where the spam likelihood is not a
/// number, `MalformedResult`; where the call is not on record, `NotFound`.
/// Whatever is reported, no record has changed.
pub fn analyze_intent(
    state: &mut AppState,
    request: &IntentAnalysisRequest,
    outcome: Result<IntentAnalysisResponse, CollaboratorFailure>,
) -> (r: Result<IntentAnalysisResponse, ScreeningError>)
    requires
        old(state).inv(),
    ensures
        final(state).inv(),
        old(state).referential() ==> final(state).referential(),
        final(state).callbacks@ == old(state).callbacks@,
        exists|now: Timestamp|
            {
                &&& answers_analysis(
                    r,
                    #[trigger] classify_result(
                        old(state).calls@,
                        request.call_id,
                        analysis_view(outcome),
                        now,
                    ),
                )
                &&& final(state).calls@ == after_classify(
                    old(state).calls@,
                    request.call_id,
                    analysis_view(outcome),
                    now,
                )
            },
{
    let ghost before = state.calls@;
    let ghost read = analysis_view(outcome);
    let stored = classify_and_store(&mut state.calls, request.call_id, outcome);
    proof {
        let now = choose|now: Timestamp|
            {
                &&& answers_analysis(
                    stored,
                    #[trigger] classify_result(before, request.call_id, read, now),
                )
                &&& state.calls@ == after_classify(before, request.call_id, read, now)
            };
        if let Ok(analysis) = read {
            if !analysis.spam_likelihood.is_nan() {
                lemma_screening_keeps_consistent(
                    before,
                    request.call_id,
                    None,
                    Some(analysis.intent),
                    Some(analysis.spam_likelihood),
                    now,
                );
            }
        }
    }
    stored
}

} // verus!
