//! Service configuration, from the values of its environment variables.

use vstd::prelude::*;

use crate::text::parse_u16;
use crate::text::parse_u32;
use crate::text::parse_u64;
use crate::text::parse_unsigned_spec;
use crate::text::parse_usize;

verus! {

/// Port when `PORT` is missing or not a port number.
pub const DEFAULT_PORT: u16 = 3000;

/// Upload size limit when `MAX_UPLOAD_BYTES` is missing or not a number:
/// 100 MiB.
pub const DEFAULT_MAX_UPLOAD_BYTES: usize = 104857600;

/// Sustained requests per second when `RATE_LIMIT_PER_SECOND` is missing or
/// not a number.
pub const DEFAULT_RATE_LIMIT_PER_SECOND: u64 = 10;

/// Burst size when `RATE_LIMIT_BURST` is missing or not a number.
pub const DEFAULT_RATE_LIMIT_BURST: u32 = 20;

#[derive(Clone)]
pub struct Config {
    pub database_url: String,
    pub port: u16,
    pub max_upload_bytes: usize,
    pub api_key: String,
    pub rate_limit_per_second: u64,
    pub rate_limit_burst: u32,
}

/// The number an optional variable holds, when it is there and parses as an
/// unsigned integer no larger than `max`; otherwise `default`.
pub open spec fn number_or(var: Option<Seq<char>>, max: nat, default: nat) -> nat {
    match var {
        Some(v) => match parse_unsigned_spec(v, max) {
            Some(n) => n,
            None => default,
        },
        None => default,
    }
}

pub open spec fn opt_view(v: Option<&str>) -> Option<Seq<char>> {
    match v {
        Some(s) => Some(s@),
        None => None,
    }
}

impl Config {
    /// The configuration from the values of `DATABASE_URL`, `PORT`,
    /// `MAX_UPLOAD_BYTES`, `API_KEY`, `RATE_LIMIT_PER_SECOND` and
    /// `RATE_LIMIT_BURST`. The database URL and the API key are required;
    /// each of the others falls back to its default when it is missing or
    /// does not parse.
    pub fn from_values(
        database_url: String,
        port: Option<&str>,
        max_upload_bytes: Option<&str>,
        api_key: String,
        rate_limit_per_second: Option<&str>,
        rate_limit_burst: Option<&str>,
    ) -> (c: Config)
        ensures
            c.database_url == database_url,
            c.api_key == api_key,
            c.port as nat == number_or(opt_view(port), u16::MAX as nat, DEFAULT_PORT as nat),
            c.max_upload_bytes as nat == number_or(
                opt_view(max_upload_bytes),
                usize::MAX as nat,
                DEFAULT_MAX_UPLOAD_BYTES as nat,
            ),
            c.rate_limit_per_second as nat == number_or(
                opt_view(rate_limit_per_second),
                u64::MAX as nat,
                DEFAULT_RATE_LIMIT_PER_SECOND as nat,
            ),
            c.rate_limit_burst as nat == number_or(
                opt_view(rate_limit_burst),
                u32::MAX as nat,
                DEFAULT_RATE_LIMIT_BURST as nat,
            ),
    {
        let port = match port {
            Some(p) => match parse_u16(p) {
                Some(n) => n,
                None => DEFAULT_PORT,
            },
            None => DEFAULT_PORT,
        };
        let max_upload_bytes = match max_upload_bytes {
            Some(v) => match parse_usize(v) {
                Some(n) => n,
                None => DEFAULT_MAX_UPLOAD_BYTES,
            },
            None => DEFAULT_MAX_UPLOAD_BYTES,
        };
        let rate_limit_per_second = match rate_limit_per_second {
            Some(v) => match parse_u64(v) {
                Some(n) => n,
                None => DEFAULT_RATE_LIMIT_PER_SECOND,
            },
            None => DEFAULT_RATE_LIMIT_PER_SECOND,
        };
        let rate_limit_burst = match rate_limit_burst {
            Some(v) => match parse_u32(v) {
                Some(n) => n,
                None => DEFAULT_RATE_LIMIT_BURST,
            },
            None => DEFAULT_RATE_LIMIT_BURST,
        };
        Config { database_url, port, max_upload_bytes, api_key, rate_limit_per_second, rate_limit_burst }
    }
}

} // verus!
