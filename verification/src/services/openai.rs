//! Classification: what to make of the classifier's answer.

use crate::error::ScreeningError;
use crate::models::voice::{IntentAnalysisResponse, IntentAnalysisResponseView};
use crate::text::{
    chars_of, drop_marks, drop_white_space, skip_marks, skip_white_space, strip_leading,
    strip_trailing, trim,
};
use vstd::prelude::*;
use vstd::string::*;

verus! {

/// The JSON document in what the classifier wrote: what is left when the
/// white space around it, every opening fence before it and every closing
/// fence after it, and the white space inside the fences are taken away.
pub open spec fn json_payload(content: Seq<char>) -> Seq<char> {
    trim(strip_trailing(strip_leading(trim(content), "```json"@), "```"@))
}

/// What the classifier wrote, as a mathematical value; nothing counts as
/// the empty text.
pub open spec fn content_view(content: Option<String>) -> Seq<char> {
    match content {
        Some(text) => text@,
        None => Seq::empty(),
    }
}

/// Takes the JSON document out of what the classifier wrote.
pub fn analysis_payload(content: Option<String>) -> (payload: String)
    ensures
        payload@ == json_payload(content_view(content)),
{
    let written = match content {
        Some(text) => text,
        None => String::new(),
    };
    let chars = chars_of(written.as_str());
    let opening = chars_of("```json");
    let closing = chars_of("```");
    let ghost all = chars@;
    proof {
        assert(all.subrange(0, all.len() as int) =~= all);
    }
    let start = skip_white_space(&chars, 0, chars.len());
    let end = drop_white_space(&chars, start, chars.len());
    let start = skip_marks(&chars, start, end, &opening);
    let end = drop_marks(&chars, start, end, &closing);
    let start = skip_white_space(&chars, start, end);
    let end = drop_white_space(&chars, start, end);
    String::from_str(written.as_str().substring_char(start, end))
}

/// Brings the spam likelihood of an analysis into the interval from 0.0 to
/// 1.0.
///
/// Refuses with `MalformedResult` if the spam likelihood is not a number.
pub fn settle_analysis(analysis: IntentAnalysisResponse) -> (r: Result<
    IntentAnalysisResponse,
    ScreeningError,
>)
    ensures
        match r {
            Ok(settled) => !analysis@.spam_likelihood.is_nan() && settled@ == (
            IntentAnalysisResponseView {
                spam_likelihood: analysis@.spam_likelihood.clamped(),
                ..analysis@
            }) && settled@.spam_likelihood.in_unit_interval(),
            Err(error) => analysis@.spam_likelihood.is_nan() && error
                == ScreeningError::MalformedResult,
        },
{
    if analysis.spam_likelihood.is_not_a_number() {
        return Err(ScreeningError::MalformedResult);
    }
    Ok(
        IntentAnalysisResponse {
            intent: analysis.intent,
            confidence: analysis.confidence,
            spam_likelihood: analysis.spam_likelihood.clamp_unit(),
            sentiment: analysis.sentiment,
            suggested_response: analysis.suggested_response,
            action_recommendation: analysis.action_recommendation,
        },
    )
}

} // verus!
