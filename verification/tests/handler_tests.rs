use call_screening::error::ScreeningError;
use call_screening::handlers::call::{
    get_call, get_call_history, route_call, session_key, start_call, HISTORY_LIMIT,
};
use call_screening::handlers::callback::{
    cancel_callback, complete_callback, get_callback, get_callbacks, schedule_callback,
};
use call_screening::handlers::health::health_check;
use call_screening::handlers::voice::{
    analyze_intent, audio_file_name, create_transcript, read_transcriber_reply, stream_tts,
    transcript_from, ServiceReply, TRANSCRIPT_CONFIDENCE_BITS,
};
use call_screening::models::{
    ActionRecommendation, AppState, CallRouteAction, CallRouteRequest, CallStartRequest,
    CallStatus, CallbackRequest, CallbackStatus, IntentAnalysisRequest, IntentAnalysisResponse,
    TranscriptRequest, VoiceStreamRequest,
};
use call_screening::orchestrator::{
    classify_and_store_at, transcribe_and_store_at, CollaboratorFailure,
};
use call_screening::routing::SideEffect;
use call_screening::score::Score;
use call_screening::services::elevenlabs::text_to_speech;
use call_screening::services::openai::settle_analysis;
use call_screening::timestamp::Timestamp;

fn at(micros: i64) -> Timestamp {
    Timestamp::from_micros(micros)
}

fn score(value: f32) -> Score {
    Score::from_bits(value.to_bits())
}

fn value(score: Score) -> f32 {
    f32::from_bits(score.to_bits())
}

fn start_request(number: &str) -> CallStartRequest {
    CallStartRequest {
        user_id: 7,
        caller_number: number.to_string(),
        caller_name: None,
        twilio_call_sid: "CA123".to_string(),
    }
}

fn analysis(spam_likelihood: f32) -> IntentAnalysisResponse {
    IntentAnalysisResponse {
        intent: "sales".to_string(),
        confidence: score(0.8),
        spam_likelihood: score(spam_likelihood),
        sentiment: "neutral".to_string(),
        suggested_response: Some("No, thank you.".to_string()),
        action_recommendation: ActionRecommendation::TakeMessage,
    }
}

#[test]
fn a_call_is_started_declined_and_then_stays_missed() {
    let mut state = AppState::new();
    let started = start_call(&mut state, start_request("+15551234567")).unwrap();
    assert_eq!(started.status, CallStatus::Ringing);
    assert_eq!(started.transcription, None);
    assert_eq!(started.spam_score, None);
    assert_eq!(started.intent, None);

    let declined = route_call(
        &mut state,
        CallRouteRequest { call_id: started.id, action: CallRouteAction::Decline },
    )
    .unwrap();
    assert_eq!(declined.response.id, started.id);
    assert_eq!(declined.response.status, CallStatus::Missed);
    assert!(declined.effects.is_empty());
    let call = get_call(&state, started.id).unwrap();
    assert_eq!(call.status, CallStatus::Missed);
    assert!(call.ended_at.is_some());
    assert!(call.duration_seconds.unwrap() >= 0);

    let refused = route_call(
        &mut state,
        CallRouteRequest { call_id: started.id, action: CallRouteAction::Accept },
    );
    assert_eq!(refused.err(), Some(ScreeningError::InvalidTransition));
    let after = get_call(&state, started.id).unwrap();
    assert_eq!(after.status, CallStatus::Missed);
    assert_eq!(after.ended_at, call.ended_at);
    assert_eq!(after.updated_at, call.updated_at);
}

#[test]
fn a_call_without_a_number_is_not_started() {
    let mut state = AppState::new();
    assert_eq!(start_call(&mut state, start_request("")).err(), Some(ScreeningError::Validation));
    assert_eq!(state.calls.len(), 0);
}

#[test]
fn routing_tells_what_has_to_be_done_besides() {
    let mut state = AppState::new();
    let started = start_call(&mut state, start_request("+15551234567")).unwrap();
    let routed = route_call(
        &mut state,
        CallRouteRequest { call_id: started.id, action: CallRouteAction::ScheduleCallback },
    )
    .unwrap();
    assert_eq!(routed.response.status, CallStatus::Missed);
    assert_eq!(routed.effects, vec![SideEffect::ScheduleCallback]);

    let other = start_call(&mut state, start_request("+15550000000")).unwrap();
    let routed = route_call(
        &mut state,
        CallRouteRequest { call_id: other.id, action: CallRouteAction::Voicemail },
    )
    .unwrap();
    assert_eq!(routed.response.status, CallStatus::InProgress);
    assert!(routed.effects.is_empty());
    assert_eq!(
        route_call(&mut state, CallRouteRequest { call_id: 1, action: CallRouteAction::Accept })
            .err(),
        Some(ScreeningError::NotFound)
    );
}

#[test]
fn unknown_calls_are_not_found() {
    let state = AppState::new();
    assert_eq!(get_call(&state, 1).err(), Some(ScreeningError::NotFound));
}

#[test]
fn the_history_stops_at_its_limit() {
    assert_eq!(HISTORY_LIMIT, 50);
    let mut state = AppState::new();
    for i in 0..60u128 {
        state.calls.create_at(i, 7, "+15551234567".to_string(), None, at(i as i64)).unwrap();
    }
    let history = get_call_history(&state);
    assert_eq!(history.len(), 50);
    let ids: Vec<u128> = history.iter().map(|call| call.id).collect();
    let expected: Vec<u128> = (10..60u128).rev().collect();
    assert_eq!(ids, expected);
}

#[test]
fn session_keys_name_the_call() {
    assert_eq!(
        session_key(0xa1a2a3a4b1b2c1c2d1d2d3d4d5d6d7d8),
        "call:a1a2a3a4-b1b2-c1c2-d1d2-d3d4d5d6d7d8:twilio_sid"
    );
    assert_eq!(session_key(0), "call:00000000-0000-0000-0000-000000000000:twilio_sid");
    assert_eq!(
        session_key(0x0123456789abcdef0fedcba987654321),
        "call:01234567-89ab-cdef-0fed-cba987654321:twilio_sid"
    );
}

#[test]
fn audio_files_are_named_after_the_call() {
    assert_eq!(
        audio_file_name(0xa1a2a3a4b1b2c1c2d1d2d3d4d5d6d7d8),
        "audio_a1a2a3a4-b1b2-c1c2-d1d2-d3d4d5d6d7d8.wav"
    );
}

#[test]
fn callbacks_are_scheduled_listed_and_closed() {
    let mut state = AppState::new();
    let call = start_call(&mut state, start_request("+15551234567")).unwrap();
    let late = schedule_callback(
        &mut state,
        CallbackRequest { call_id: call.id, scheduled_time: at(9_000), notes: None },
    )
    .unwrap();
    let soon = schedule_callback(
        &mut state,
        CallbackRequest {
            call_id: call.id,
            scheduled_time: at(3_000),
            notes: Some("early".to_string()),
        },
    )
    .unwrap();
    assert_eq!(late.status, CallbackStatus::Scheduled);
    assert_eq!(late.caller_number, "+15551234567");
    assert_eq!(late.user_id, 7);
    assert_eq!(get_callback(&state, soon.id).unwrap().notes, Some("early".to_string()));
    let ids: Vec<u128> = get_callbacks(&state).iter().map(|c| c.id).collect();
    assert_eq!(ids, vec![soon.id, late.id]);

    assert_eq!(complete_callback(&mut state, soon.id).unwrap().status, CallbackStatus::Completed);
    assert_eq!(
        cancel_callback(&mut state, soon.id).err(),
        Some(ScreeningError::InvalidTransition)
    );
    assert_eq!(cancel_callback(&mut state, late.id).unwrap().status, CallbackStatus::Cancelled);
    assert_eq!(
        complete_callback(&mut state, late.id).err(),
        Some(ScreeningError::InvalidTransition)
    );
    assert!(get_callbacks(&state).is_empty());
    assert_eq!(get_callback(&state, 5).err(), Some(ScreeningError::NotFound));
    assert_eq!(complete_callback(&mut state, 5).err(), Some(ScreeningError::NotFound));
    assert_eq!(cancel_callback(&mut state, 5).err(), Some(ScreeningError::NotFound));
}

#[test]
fn a_callback_for_an_unknown_call_is_refused_and_not_made() {
    let mut state = AppState::new();
    start_call(&mut state, start_request("+15551234567")).unwrap();
    let refused = schedule_callback(
        &mut state,
        CallbackRequest { call_id: 12345, scheduled_time: at(9_000), notes: None },
    );
    assert_eq!(refused.err(), Some(ScreeningError::NotFound));
    assert_eq!(state.callbacks.len(), 0);
    assert!(get_callbacks(&state).is_empty());
}

#[test]
fn records_are_restored_when_they_fit_together() {
    let mut state = AppState::new();
    let call = start_call(&mut state, start_request("+15551234567")).unwrap();
    schedule_callback(
        &mut state,
        CallbackRequest { call_id: call.id, scheduled_time: at(9_000), notes: None },
    )
    .unwrap();
    let calls = get_call_history(&state);
    let callbacks = get_callbacks(&state);
    let restored = AppState::restore(calls.clone(), callbacks.clone()).ok().unwrap();
    assert_eq!(restored.calls.len(), 1);
    assert_eq!(restored.callbacks.len(), 1);
    assert_eq!(AppState::restore(Vec::new(), callbacks).err(), Some(ScreeningError::Validation));
    assert!(AppState::restore(calls, Vec::new()).is_ok());
}

#[test]
fn health_tells_what_went_wrong() {
    let well = health_check("1.2.3", None, None);
    assert_eq!(well.status, "ok");
    assert_eq!(well.version, "1.2.3");
    assert_eq!(well.database, "ok");
    assert_eq!(well.redis, "ok");
    let ill = health_check("1.2.3", Some("connection refused"), Some("timed out"));
    assert_eq!(ill.status, "ok");
    assert_eq!(ill.database, "error: connection refused");
    assert_eq!(ill.redis, "error: timed out");
}

#[test]
fn speech_is_asked_for_in_the_given_or_the_default_voice() {
    let request = text_to_speech("Hello", None);
    assert_eq!(
        request.url,
        "https://api.elevenlabs.io/v1/text-to-speech/EXAVITQu4vr4xnSDxMaL/stream"
    );
    assert_eq!(request.text, "Hello");
    assert_eq!(request.model_id, "eleven_monolingual_v1");
    assert_eq!(value(request.stability), 0.5);
    assert_eq!(value(request.similarity_boost), 0.5);
    let request = text_to_speech("Hello", Some("abc"));
    assert_eq!(request.url, "https://api.elevenlabs.io/v1/text-to-speech/abc/stream");

    let streamed = stream_tts(&VoiceStreamRequest {
        call_id: 1,
        text: "Please hold".to_string(),
        voice_id: Some("v9".to_string()),
    });
    assert_eq!(streamed.url, "https://api.elevenlabs.io/v1/text-to-speech/v9/stream");
    assert_eq!(streamed.text, "Please hold");
    let streamed =
        stream_tts(&VoiceStreamRequest { call_id: 1, text: "Hi".to_string(), voice_id: None });
    assert_eq!(
        streamed.url,
        "https://api.elevenlabs.io/v1/text-to-speech/EXAVITQu4vr4xnSDxMaL/stream"
    );
}

#[test]
fn transcripts_are_read_from_the_reply() {
    assert_eq!(
        read_transcriber_reply(ServiceReply::Answered("{\"text\": \"hello there\"}".to_string())),
        Ok("hello there".to_string())
    );
    assert_eq!(
        read_transcriber_reply(ServiceReply::Answered("{\"words\": 3}".to_string())),
        Ok(String::new())
    );
    assert_eq!(
        read_transcriber_reply(ServiceReply::Answered("{\"text\": 3}".to_string())),
        Ok(String::new())
    );
    assert_eq!(
        read_transcriber_reply(ServiceReply::Answered("[1, 2]".to_string())),
        Ok(String::new())
    );
    assert_eq!(
        read_transcriber_reply(ServiceReply::Answered("not json".to_string())),
        Err(CollaboratorFailure::Malformed)
    );
    assert_eq!(
        read_transcriber_reply(ServiceReply::Answered("{\"text\": \"a\"} trailing".to_string())),
        Err(CollaboratorFailure::Malformed)
    );
    assert_eq!(read_transcriber_reply(ServiceReply::Failed), Err(CollaboratorFailure::Failed));
    assert_eq!(read_transcriber_reply(ServiceReply::TimedOut), Err(CollaboratorFailure::TimedOut));
    assert_eq!(transcript_from(None), Err(CollaboratorFailure::Malformed));
    assert_eq!(transcript_from(Some(None)), Ok(String::new()));
    assert_eq!(transcript_from(Some(Some("x".to_string()))), Ok("x".to_string()));
}

#[test]
fn a_transcript_is_written_into_the_call() {
    let mut state = AppState::new();
    let call = start_call(&mut state, start_request("+15551234567")).unwrap();
    let request = TranscriptRequest { call_id: call.id, audio_data: vec![1, 2, 3] };
    let response = create_transcript(
        &mut state,
        &request,
        ServiceReply::Answered("{\"text\": \"hello there\"}".to_string()),
    )
    .unwrap();
    assert_eq!(response.text, "hello there");
    assert_eq!(response.confidence.to_bits(), TRANSCRIPT_CONFIDENCE_BITS);
    assert_eq!(value(response.confidence), 0.9);
    let kept = get_call(&state, call.id).unwrap();
    assert_eq!(kept.transcription, Some("hello there".to_string()));
    assert_eq!(kept.status, CallStatus::Ringing);
}

#[test]
fn a_failed_transcription_writes_nothing() {
    let mut state = AppState::new();
    let call = start_call(&mut state, start_request("+15551234567")).unwrap();
    let request = TranscriptRequest { call_id: call.id, audio_data: Vec::new() };
    let before = get_call(&state, call.id).unwrap();
    let cases = [
        (ServiceReply::Failed, ScreeningError::Transcription),
        (ServiceReply::TimedOut, ScreeningError::Timeout),
        (ServiceReply::Answered("<html>".to_string()), ScreeningError::MalformedResult),
    ];
    for (reply, error) in cases {
        assert_eq!(create_transcript(&mut state, &request, reply).err(), Some(error));
        let after = get_call(&state, call.id).unwrap();
        assert_eq!(after.transcription, None);
        assert_eq!(after.updated_at, before.updated_at);
    }
    let unknown = TranscriptRequest { call_id: 1, audio_data: Vec::new() };
    assert_eq!(
        create_transcript(&mut state, &unknown, ServiceReply::Answered("{}".to_string())).err(),
        Some(ScreeningError::NotFound)
    );
}

#[test]
fn a_spam_likelihood_above_one_is_stored_as_one() {
    let mut state = AppState::new();
    let call = start_call(&mut state, start_request("+15551234567")).unwrap();
    let request = IntentAnalysisRequest { call_id: call.id, transcript: "buy now".to_string() };
    let response = analyze_intent(&mut state, &request, Ok(analysis(1.7))).unwrap();
    assert_eq!(value(response.spam_likelihood), 1.0);
    assert_eq!(response.intent, "sales");
    assert_eq!(value(response.confidence), 0.8);
    assert_eq!(response.sentiment, "neutral");
    assert_eq!(response.suggested_response, Some("No, thank you.".to_string()));
    assert_eq!(response.action_recommendation, ActionRecommendation::TakeMessage);
    let kept = get_call(&state, call.id).unwrap();
    assert_eq!(value(kept.spam_score.unwrap()), 1.0);
    assert_eq!(kept.spam_score.unwrap().to_bits(), 1.0f32.to_bits());
    assert_eq!(kept.intent, Some("sales".to_string()));
    assert_eq!(kept.status, CallStatus::Ringing);
    assert_eq!(kept.transcription, None);
}

#[test]
fn a_failed_classification_writes_nothing() {
    let mut state = AppState::new();
    let call = start_call(&mut state, start_request("+15551234567")).unwrap();
    let request = IntentAnalysisRequest { call_id: call.id, transcript: "buy now".to_string() };
    let before = get_call(&state, call.id).unwrap();
    let cases = [
        (Err(CollaboratorFailure::Failed), ScreeningError::Classification),
        (Err(CollaboratorFailure::TimedOut), ScreeningError::Timeout),
        (Err(CollaboratorFailure::Malformed), ScreeningError::MalformedResult),
        (Ok(analysis(f32::NAN)), ScreeningError::MalformedResult),
    ];
    for (outcome, error) in cases {
        assert_eq!(analyze_intent(&mut state, &request, outcome).err(), Some(error));
        let after = get_call(&state, call.id).unwrap();
        assert_eq!(after.intent, None);
        assert_eq!(after.spam_score, None);
        assert_eq!(after.updated_at, before.updated_at);
    }
    let unknown = IntentAnalysisRequest { call_id: 1, transcript: "x".to_string() };
    assert_eq!(
        analyze_intent(&mut state, &unknown, Ok(analysis(0.5))).err(),
        Some(ScreeningError::NotFound)
    );
}

#[test]
fn the_orchestrator_writes_at_the_time_it_is_given() {
    let mut state = AppState::new();
    state.calls.create_at(1, 7, "+15551234567".to_string(), None, at(0)).unwrap();
    let text = transcribe_and_store_at(&mut state.calls, 1, Ok("hi".to_string()), at(5)).unwrap();
    assert_eq!(text, "hi");
    let kept = state.calls.get(1).unwrap();
    assert_eq!(kept.transcription, Some("hi".to_string()));
    assert_eq!(kept.updated_at, at(5));
    let settled = classify_and_store_at(&mut state.calls, 1, Ok(analysis(-4.0)), at(8)).unwrap();
    assert_eq!(value(settled.spam_likelihood), 0.0);
    let kept = state.calls.get(1).unwrap();
    assert_eq!(value(kept.spam_score.unwrap()), 0.0);
    assert_eq!(kept.intent, Some("sales".to_string()));
    assert_eq!(kept.transcription, Some("hi".to_string()));
    assert_eq!(kept.updated_at, at(8));
    assert_eq!(
        transcribe_and_store_at(&mut state.calls, 1, Err(CollaboratorFailure::Failed), at(9)).err(),
        Some(ScreeningError::Transcription)
    );
    assert_eq!(
        transcribe_and_store_at(&mut state.calls, 2, Ok("x".to_string()), at(9)).err(),
        Some(ScreeningError::NotFound)
    );
    assert_eq!(state.calls.get(1).unwrap().updated_at, at(8));
}

#[test]
fn an_analysis_is_settled_before_it_is_handed_on() {
    let settled = settle_analysis(analysis(1.7)).unwrap();
    assert_eq!(value(settled.spam_likelihood), 1.0);
    assert_eq!(settled.intent, "sales");
    let settled = settle_analysis(analysis(0.42)).unwrap();
    assert_eq!(value(settled.spam_likelihood), 0.42);
    assert_eq!(settle_analysis(analysis(f32::NAN)).err(), Some(ScreeningError::MalformedResult));
}
