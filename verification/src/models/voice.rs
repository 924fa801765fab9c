//! What goes to and comes from the collaborators that speak, listen and
//! classify.

use crate::score::Score;
use vstd::prelude::*;

verus! {

/// The request to speak a text to the caller.
#[derive(Debug)]
pub struct VoiceStreamRequest {
    pub call_id: u128,
    pub text: String,
    pub voice_id: Option<String>,
}

/// The request to turn what was said on a call into text.
#[derive(Debug)]
pub struct TranscriptRequest {
    pub call_id: u128,
    pub audio_data: Vec<u8>,
}

/// What was said, as text, and how sure the transcriber is of it.
#[derive(Debug)]
pub struct TranscriptResponse {
    pub text: String,
    pub confidence: Score,
}

/// The request to classify what was said on a call.
#[derive(Debug)]
pub struct IntentAnalysisRequest {
    pub call_id: u128,
    pub transcript: String,
}

/// What the classifier recommends to do with the caller.
#[derive(Clone, Copy, Debug, PartialEq, Eq, Structural)]
pub enum ActionRecommendation {
    Forward,
    TakeMessage,
    BlockCaller,
    OfferCallback,
}

/// What the classifier makes of a transcript.
#[derive(Debug)]
pub struct IntentAnalysisResponse {
    pub intent: String,
    pub confidence: Score,
    pub spam_likelihood: Score,
    pub sentiment: String,
    pub suggested_response: Option<String>,
    pub action_recommendation: ActionRecommendation,
}

/// What an analysis is, as a mathematical value.
pub struct IntentAnalysisResponseView {
    pub intent: Seq<char>,
    pub confidence: Score,
    pub spam_likelihood: Score,
    pub sentiment: Seq<char>,
    pub suggested_response: Option<Seq<char>>,
    pub action_recommendation: ActionRecommendation,
}

impl View for IntentAnalysisResponse {
    type V = IntentAnalysisResponseView;

    open spec fn view(&self) -> IntentAnalysisResponseView {
        IntentAnalysisResponseView {
            intent: self.intent@,
            confidence: self.confidence,
            spam_likelihood: self.spam_likelihood,
            sentiment: self.sentiment@,
            suggested_response: self.suggested_response.deep_view(),
            action_recommendation: self.action_recommendation,
        }
    }
}

} // verus!
