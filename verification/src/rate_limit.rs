//! Rate-limit bucketing by API key, and the answer to a rejected request.

use vstd::prelude::*;

use crate::text::concat3;
use crate::text::decimal;
use crate::text::decimal_string;
use crate::text::owned;
use crate::text::str_eq;

verus! {

/// The bucket that every request without the valid key shares.
pub const INVALID_KEY_BUCKET: &'static str = "invalid";

/// Rate-limits by API key rather than by address. Requests with a missing or
/// wrong key all share the one `"invalid"` bucket, so that varying a bogus
/// key does not mint a fresh allowance on every request.
#[derive(Debug, Clone)]
pub struct ApiKeyExtractor {
    pub valid_key: String,
}

/// The bucket a request falls in: its own key when that is the valid key,
/// otherwise the shared invalid bucket.
pub open spec fn bucket_spec(valid_key: Seq<char>, provided: Option<Seq<char>>) -> Seq<char> {
    match provided {
        Some(k) => if k == valid_key {
            k
        } else {
            INVALID_KEY_BUCKET@
        },
        None => INVALID_KEY_BUCKET@,
    }
}

impl ApiKeyExtractor {
    /// The bucket key for a request whose `x-api-key` header holds
    /// `provided` (`None` when it is missing or not visible ASCII).
    pub fn extract(&self, provided: Option<&str>) -> (key: String)
        ensures
            key@ == bucket_spec(
                self.valid_key@,
                match provided {
                    Some(p) => Some(p@),
                    None => None,
                },
            ),
    {
        match provided {
            Some(k) => {
                if str_eq(k, self.valid_key.as_str()) {
                    owned(k)
                } else {
                    owned(INVALID_KEY_BUCKET)
                }
            },
            None => owned(INVALID_KEY_BUCKET),
        }
    }
}

/// Any two requests that do not carry the valid key, whatever they carry
/// instead, are counted in the same bucket, the invalid one; and a request
/// with the valid key has a bucket of its own, even when the key is spelled
/// like the invalid bucket.
pub proof fn lemma_bucket_by_key(valid_key: Seq<char>, a: Option<Seq<char>>, b: Option<Seq<char>>)
    ensures
        a != Some(valid_key) && b != Some(valid_key) ==> bucket_spec(valid_key, a) == bucket_spec(
            valid_key,
            b,
        ) && bucket_spec(valid_key, a) == INVALID_KEY_BUCKET@,
        bucket_spec(valid_key, Some(valid_key)) == valid_key,
{
}

/// Why the rate limiter refused a request.
#[derive(Debug, Clone, PartialEq, Eq)]
pub enum RateLimitRejection {
    /// The bucket is empty; another request may come after `wait_time`
    /// seconds.
    TooManyRequests { wait_time: u64 },
    /// No bucket key could be found for the request.
    UnableToExtractKey,
    /// Any other refusal, with its status code and text.
    Other { code: u16, msg: Option<String> },
}

/// The status code and the `error` text answered for a refusal.
pub open spec fn rejection_spec(r: RateLimitRejection) -> (u16, Seq<char>) {
    match r {
        RateLimitRejection::TooManyRequests { wait_time } => (
            429,
            "rate limit exceeded, retry after "@ + decimal(wait_time as nat) + "s"@,
        ),
        RateLimitRejection::UnableToExtractKey => (
            500,
            "rate limiter could not determine a key for this request"@,
        ),
        RateLimitRejection::Other { code, msg } => (
            code,
            match msg {
                Some(m) => m@,
                None => "rate limiting error"@,
            },
        ),
    }
}

impl RateLimitRejection {
    /// The status code and the `error` text answered for this refusal, in
    /// the same `{"error": ...}` shape as the rest of the API.
    pub fn response(&self) -> (r: (u16, String))
        ensures
            (r.0, r.1@) == rejection_spec(*self),
    {
        match self {
            RateLimitRejection::TooManyRequests { wait_time } => {
                let secs = decimal_string(*wait_time);
                (429, concat3("rate limit exceeded, retry after ", secs.as_str(), "s"))
            },
            RateLimitRejection::UnableToExtractKey => (
                500,
                owned("rate limiter could not determine a key for this request"),
            ),
            RateLimitRejection::Other { code, msg } => match msg {
                Some(m) => (*code, m.clone()),
                None => (*code, owned("rate limiting error")),
            },
        }
    }
}

} // verus!
