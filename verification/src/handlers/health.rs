//! The request for the state of the service.

use vstd::prelude::*;
use vstd::string::*;

verus! {

/// How the service and what it depends on are doing.
#[derive(Debug)]
pub struct HealthResponse {
    pub status: String,
    pub version: String,
    pub database: String,
    pub redis: String,
}

/// What is said of a dependency that was tried: that it is well, or what
/// went wrong.
pub open spec fn probe_text(failure: Option<Seq<char>>) -> Seq<char> {
    match failure {
        None => "ok"@,
        Some(reason) => "error: "@ + reason,
    }
}

/// What the optional reason of a failure is, as a mathematical value.
pub open spec fn failure_view(failure: Option<&str>) -> Option<Seq<char>> {
    match failure {
        Some(reason) => Some(reason@),
        None => None,
    }
}

fn describe_probe(failure: Option<&str>) -> (text: String)
    ensures
        text@ == probe_text(failure_view(failure)),
{
    match failure {
        None => String::from_str("ok"),
        Some(reason) => {
            let mut text = String::from_str("error: ");
            text.append(reason);
            text
        },
    }
}

/// Reports how the service is doing, given what went wrong, if anything,
/// when the database and the session index were tried. The service itself
/// is well whenever it can answer.
pub fn health_check(version: &str, database_failure: Option<&str>, redis_failure: Option<&str>)
    -> (response: HealthResponse)
    ensures
        response.status@ == "ok"@,
        response.version@ == version@,
        response.database@ == probe_text(failure_view(database_failure)),
        response.redis@ == probe_text(failure_view(redis_failure)),
{
    HealthResponse {
        status: String::from_str("ok"),
        version: String::from_str(version),
        database: describe_probe(database_failure),
        redis: describe_probe(redis_failure),
    }
}

} // verus!
