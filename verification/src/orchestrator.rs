//! The screening orchestrator: it takes what the transcriber and the
//! classifier have answered and writes it into the call's record, or reports
//! why it could not. It never writes part of an answer, and it decides no
//! routing.

use crate::error::ScreeningError;
use crate::lifecycle::{after_screening, screening_result, CallLifecycle};
use crate::models::call::CallView;
use crate::models::voice::{IntentAnalysisResponse, IntentAnalysisResponseView};
use crate::timestamp::{clock_now, Timestamp};
use vstd::prelude::*;

verus! {

/// How a collaborator let the library down.
#[derive(Clone, Copy, Debug, PartialEq, Eq, Structural)]
pub enum CollaboratorFailure {
    /// It could not be reached, or it refused the request.
    Failed,
    /// It did not answer in time.
    TimedOut,
    /// It answered with something that cannot be read.
    Malformed,
}

/// The error that a failure of the transcriber is reported as.
pub open spec fn transcription_error(failure: CollaboratorFailure) -> ScreeningError {
    match failure {
        CollaboratorFailure::Failed => ScreeningError::Transcription,
        CollaboratorFailure::TimedOut => ScreeningError::Timeout,
        CollaboratorFailure::Malformed => ScreeningError::MalformedResult,
    }
}

/// The error that a failure of the classifier is reported as.
pub open spec fn classification_error(failure: CollaboratorFailure) -> ScreeningError {
    match failure {
        CollaboratorFailure::Failed => ScreeningError::Classification,
        CollaboratorFailure::TimedOut => ScreeningError::Timeout,
        CollaboratorFailure::Malformed => ScreeningError::MalformedResult,
    }
}

/// What `transcribe_and_store` answers.
pub open spec fn transcribe_result(
    calls: Seq<CallView>,
    id: u128,
    outcome: Result<Seq<char>, CollaboratorFailure>,
    now: Timestamp,
) -> Result<Seq<char>, ScreeningError> {
    match outcome {
        Err(failure) => Err(transcription_error(failure)),
        Ok(text) => match screening_result(calls, id, Some(text), None, None, now) {
            Ok(_) => Ok(text),
            Err(error) => Err(error),
        },
    }
}

/// The calls on record after `transcribe_and_store`.
pub open spec fn after_transcribe(
    calls: Seq<CallView>,
    id: u128,
    outcome: Result<Seq<char>, CollaboratorFailure>,
    now: Timestamp,
) -> Seq<CallView> {
    match outcome {
        Err(_) => calls,
        Ok(text) => after_screening(calls, id, Some(text), None, None, now),
    }
}

impl IntentAnalysisResponseView {
    /// The analysis with its spam likelihood brought into the interval from
    /// 0.0 to 1.0.
    pub open spec fn settled(self) -> IntentAnalysisResponseView {
        IntentAnalysisResponseView { spam_likelihood: self.spam_likelihood.clamped(), ..self }
    }
}

/// What `classify_and_store` answers.
pub open spec fn classify_result(
    calls: Seq<CallView>,
    id: u128,
    outcome: Result<IntentAnalysisResponseView, CollaboratorFailure>,
    now: Timestamp,
) -> Result<IntentAnalysisResponseView, ScreeningError> {
    match outcome {
        Err(failure) => Err(classification_error(failure)),
        Ok(analysis) => if analysis.spam_likelihood.is_nan() {
            Err(ScreeningError::MalformedResult)
        } else {
            match screening_result(
                calls,
                id,
                None,
                Some(analysis.intent),
                Some(analysis.spam_likelihood),
                now,
            ) {
                Ok(_) => Ok(analysis.settled()),
                Err(error) => Err(error),
            }
        },
    }
}

/// The calls on record after `classify_and_store`.
pub open spec fn after_classify(
    calls: Seq<CallView>,
    id: u128,
    outcome: Result<IntentAnalysisResponseView, CollaboratorFailure>,
    now: Timestamp,
) -> Seq<CallView> {
    match outcome {
        Err(_) => calls,
        Ok(analysis) => if analysis.spam_likelihood.is_nan() {
            calls
        } else {
            after_screening(
                calls,
                id,
                None,
                Some(analysis.intent),
                Some(analysis.spam_likelihood),
                now,
            )
        },
    }
}

/// What the transcriber's outcome is, as a mathematical value.
pub open spec fn transcript_view(outcome: Result<String, CollaboratorFailure>) -> Result<
    Seq<char>,
    CollaboratorFailure,
> {
    match outcome {
        Ok(text) => Ok(text@),
        Err(failure) => Err(failure),
    }
}

/// What the classifier's outcome is, as a mathematical value.
pub open spec fn analysis_view(outcome: Result<IntentAnalysisResponse, CollaboratorFailure>)
    -> Result<IntentAnalysisResponseView, CollaboratorFailure> {
    match outcome {
        Ok(analysis) => Ok(analysis@),
        Err(failure) => Err(failure),
    }
}

/// Whether a transcript that was given is the one that was expected.
pub open spec fn answers_transcript(
    given: Result<String, ScreeningError>,
    expected: Result<Seq<char>, ScreeningError>,
) -> bool {
    match given {
        Ok(text) => expected == Ok::<Seq<char>, ScreeningError>(text@),
        Err(error) => expected == Err::<Seq<char>, ScreeningError>(error),
    }
}

/// Whether an analysis that was given is the one that was expected.
pub open spec fn answers_analysis(
    given: Result<IntentAnalysisResponse, ScreeningError>,
    expected: Result<IntentAnalysisResponseView, ScreeningError>,
) -> bool {
    match given {
        Ok(analysis) => expected == Ok::<IntentAnalysisResponseView, ScreeningError>(analysis@),
        Err(error) => expected == Err::<IntentAnalysisResponseView, ScreeningError>(error),
    }
}

/// Writes the transcriber's answer into the call with the identifier `id`,
/// at the time `now`, and hands the transcript on.
///
/// Where the transcriber failed, reports `Transcription`, `Timeout` or
/// `MalformedResult` as the failure was; where no such call is on record,
/// `NotFound`. Whatever is reported, no record has changed.
pub fn transcribe_and_store_at(
    calls: &mut CallLifecycle,
    id: u128,
    outcome: Result<String, CollaboratorFailure>,
    now: Timestamp,
) -> (r: Result<String, ScreeningError>)
    requires
        old(calls).inv(),
    ensures
        final(calls).inv(),
        answers_transcript(r, transcribe_result(old(calls)@, id, transcript_view(outcome), now)),
        final(calls)@ == after_transcribe(old(calls)@, id, transcript_view(outcome), now),
{
    let text = match outcome {
        Ok(text) => text,
        Err(CollaboratorFailure::Failed) => {
            return Err(ScreeningError::Transcription);
        },
        Err(CollaboratorFailure::TimedOut) => {
            return Err(ScreeningError::Timeout);
        },
        Err(CollaboratorFailure::Malformed) => {
            return Err(ScreeningError::MalformedResult);
        },
    };
    let kept = text.clone();
    match calls.record_screening_fields_at(id, Some(text), None, None, now) {
        Ok(_) => Ok(kept),
        Err(error) => Err(error),
    }
}

/// Writes the classifier's answer into the call with the identifier `id`, at
/// the time `now`: the intent, and the spam likelihood brought into the
/// interval from 0.0 to 1.0. Hands the analysis on, with the spam likelihood
/// as it was written.
///
/// Where the classifier failed, reports `Classification`, `Timeout` or
/// `MalformedResult` as the failure was; where the spam likelihood is not a
/// number, `MalformedResult`; where no such call is on record, `NotFound`.
/// Whatever is reported, no record has changed.
pub fn classify_and_store_at(
    calls: &mut CallLifecycle,
    id: u128,
    outcome: Result<IntentAnalysisResponse, CollaboratorFailure>,
    now: Timestamp,
) -> (r: Result<IntentAnalysisResponse, ScreeningError>)
    requires
        old(calls).inv(),
    ensures
        final(calls).inv(),
        answers_analysis(r, classify_result(old(calls)@, id, analysis_view(outcome), now)),
        final(calls)@ == after_classify(old(calls)@, id, analysis_view(outcome), now),
{
    let analysis = match outcome {
        Ok(analysis) => analysis,
        Err(CollaboratorFailure::Failed) => {
            return Err(ScreeningError::Classification);
        },
        Err(CollaboratorFailure::TimedOut) => {
            return Err(ScreeningError::Timeout);
        },
        Err(CollaboratorFailure::Malformed) => {
            return Err(ScreeningError::MalformedResult);
        },
    };
    if analysis.spam_likelihood.is_not_a_number() {
        return Err(ScreeningError::MalformedResult);
    }
    let intent = analysis.intent.clone();
    match calls.record_screening_fields_at(
        id,
        None,
        Some(intent),
        Some(analysis.spam_likelihood),
        now,
    ) {
        Ok(_) => Ok(
            IntentAnalysisResponse {
                intent: analysis.intent,
                confidence: analysis.confidence,
                spam_likelihood: analysis.spam_likelihood.clamp_unit(),
                sentiment: analysis.sentiment,
                suggested_response: analysis.suggested_response,
                action_recommendation: analysis.action_recommendation,
            },
        ),
        Err(error) => Err(error),
    }
}

/// Writes the transcriber's answer into the call with the identifier `id`,
/// at the time that the clock shows.
///
/// The answer is the one that `transcribe_and_store_at` gives for the time
/// that was read.
pub fn transcribe_and_store(
    calls: &mut CallLifecycle,
    id: u128,
    outcome: Result<String, CollaboratorFailure>,
) -> (r: Result<String, ScreeningError>)
    requires
        old(calls).inv(),
    ensures
        final(calls).inv(),
        exists|now: Timestamp|
            {
                &&& answers_transcript(
                    r,
                    #[trigger] transcribe_result(old(calls)@, id, transcript_view(outcome), now),
                )
                &&& final(calls)@ == after_transcribe(
                    old(calls)@,
                    id,
                    transcript_view(outcome),
                    now,
                )
            },
{
    let now = clock_now();
    transcribe_and_store_at(calls, id, outcome, now)
}

/// Writes the classifier's answer into the call with the identifier `id`, at
/// the time that the clock shows.
///
/// The answer is the one that `classify_and_store_at` gives for the time
/// that was read.
pub fn classify_and_store(
    calls: &mut CallLifecycle,
    id: u128,
    outcome: Result<IntentAnalysisResponse, CollaboratorFailure>,
) -> (r: Result<IntentAnalysisResponse, ScreeningError>)
    requires
        old(calls).inv(),
    ensures
        final(calls).inv(),
        exists|now: Timestamp|
            {
                &&& answers_analysis(
                    r,
                    #[trigger] classify_result(old(calls)@, id, analysis_view(outcome), now),
                )
                &&& final(calls)@ == after_classify(old(calls)@, id, analysis_view(outcome), now)
            },
{
    let now = clock_now();
    classify_and_store_at(calls, id, outcome, now)
}

} // verus!
