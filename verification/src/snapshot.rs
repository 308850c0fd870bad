//! The REST snapshot requests: their URLs, and what to do with each response
//! status.
use vstd::prelude::*;
use crate::text::{chars_of, decimal, is_u64_text, digits_value, unsigned_part, joined, parse_u64, push_decimal, push_joined, texts_of};

verus! {

/// The URL that lists the fixtures of one sport.
pub open spec fn fixtures_url_text(base: Seq<char>, sport_id: u8, api_key: Seq<char>) -> Seq<char> {
    base + "/fixtures?sportId="@ + decimal(sport_id as nat) + "&apiKey="@ + api_key
}

/// The URL that asks for the main odds of the given fixtures.
pub open spec fn odds_url_text(base: Seq<char>, fixture_ids: Seq<Seq<char>>, api_key: Seq<char>) -> Seq<char> {
    base + "/fixtures/odds/main?fixtureIds="@ + joined(fixture_ids, ","@) + "&apiKey="@ + api_key
}

/// The URL that lists the fixtures of one sport.
pub fn fixtures_url(base: &str, sport_id: u8, api_key: &str) -> (r: String)
    ensures
        r@ == fixtures_url_text(base@, sport_id, api_key@),
{
    let mut url = String::from_str(base);
    url.append("/fixtures?sportId=");
    push_decimal(&mut url, sport_id);
    url.append("&apiKey=");
    url.append(api_key);
    url
}

/// The URL that asks for the main odds of the given fixtures.
pub fn odds_url(base: &str, fixture_ids: &[String], api_key: &str) -> (r: String)
    ensures
        r@ == odds_url_text(base@, texts_of(fixture_ids@), api_key@),
{
    let mut url = String::from_str(base);
    url.append("/fixtures/odds/main?fixtureIds=");
    push_joined(&mut url, fixture_ids, ",");
    url.append("&apiKey=");
    url.append(api_key);
    url
}

/// The `Retry-After` header of a response: absent, not visible ASCII text,
/// or its text.
pub enum RetryAfter {
    Missing,
    NotText,
    Text(String),
}

/// Why a snapshot request failed.
pub enum RequestError {
    /// A 429 response without `Retry-After`.
    MissingRetryAfter,
    /// A 429 response whose `Retry-After` is not text.
    RetryAfterNotText,
    /// A 429 response whose `Retry-After` is not a number of seconds.
    RetryAfterNotSeconds,
    /// Any other status than 200 and 429.
    Status(u16),
}

/// What to do after a response.
pub enum RetryStep {
    /// The response is the answer.
    Done,
    /// Wait this many seconds, then ask again.
    Wait(u64),
    /// Give up.
    Fail(RequestError),
}

/// What to do after a response with the given status and `Retry-After`
/// header: a 200 is the answer; a 429 asks to wait the number of seconds
/// that the header gives and ask again; anything else fails.
pub fn retry_step(status: u16, retry_after: RetryAfter) -> (r: RetryStep)
    ensures
        status == 200 ==> r is Done,
        status != 200 && status != 429 ==> (r matches RetryStep::Fail(RequestError::Status(s)) && s == status),
        status == 429 ==> match retry_after {
            RetryAfter::Missing => r matches RetryStep::Fail(RequestError::MissingRetryAfter),
            RetryAfter::NotText => r matches RetryStep::Fail(RequestError::RetryAfterNotText),
            RetryAfter::Text(t) => if is_u64_text(t@) {
                r matches RetryStep::Wait(secs) && secs as int == digits_value(unsigned_part(t@))
            } else {
                r matches RetryStep::Fail(RequestError::RetryAfterNotSeconds)
            },
        },
{
    if status == 200 {
        return RetryStep::Done;
    }
    if status != 429 {
        return RetryStep::Fail(RequestError::Status(status));
    }
    match retry_after {
        RetryAfter::Missing => RetryStep::Fail(RequestError::MissingRetryAfter),
        RetryAfter::NotText => RetryStep::Fail(RequestError::RetryAfterNotText),
        RetryAfter::Text(t) => {
            let chars = chars_of(t.as_str());
            match parse_u64(&chars) {
                Some(secs) => RetryStep::Wait(secs),
                None => RetryStep::Fail(RequestError::RetryAfterNotSeconds),
            }
        },
    }
}

} // verus!
