//! Settings, read from the environment.

use crate::text::{
    decimal, i64_text, joined, lowercase, parse_u16, parse_u64, parse_usize,
    parsed_within, same_text, trim, trim_end, trim_end_has_no_edge, trim_end_of, trimmed,
};
use vstd::prelude::*;

verus! {

pub struct Settings {
    pub ente_api_url: String,
    pub ente_download_url: String,
    pub ente_timeout: u64,
    pub session_ttl: u64,
    pub host: String,
    pub port: u16,
    /// Whether to fetch detected faces and person names during a sync.
    pub fetch_faces: bool,
    /// How many files to ask for at a time when loading face data.
    pub faces_batch_size: usize,
}

impl Clone for Settings {
    fn clone(&self) -> (r: Settings)
        ensures
            r.ente_api_url@ == self.ente_api_url@,
            r.ente_download_url@ == self.ente_download_url@,
            r.ente_timeout == self.ente_timeout,
            r.session_ttl == self.session_ttl,
            r.host@ == self.host@,
            r.port == self.port,
            r.fetch_faces == self.fetch_faces,
            r.faces_batch_size == self.faces_batch_size,
    {
        Settings {
            ente_api_url: self.ente_api_url.clone(),
            ente_download_url: self.ente_download_url.clone(),
            ente_timeout: self.ente_timeout,
            session_ttl: self.session_ttl,
            host: self.host.clone(),
            port: self.port,
            fetch_faces: self.fetch_faces,
            faces_batch_size: self.faces_batch_size,
        }
    }
}

/// The value of the variable `key`.
pub open spec fn env_value(vars: Seq<(String, String)>, key: Seq<char>) -> Option<Seq<char>>
    decreases vars.len(),
{
    if vars.len() == 0 {
        None
    } else if vars[0].0@ == key {
        Some(vars[0].1@)
    } else {
        env_value(vars.drop_first(), key)
    }
}

/// The value of the variable `key`, or a default.
pub open spec fn env_text(vars: Seq<(String, String)>, key: Seq<char>, default: Seq<char>) -> Seq<
    char,
> {
    match env_value(vars, key) {
        Some(v) => v,
        None => default,
    }
}

/// The number that the variable `key` holds, or a default where there is none
/// or the range does not hold it.
pub open spec fn env_number(
    vars: Seq<(String, String)>,
    key: Seq<char>,
    max: int,
    default: int,
) -> int {
    match env_value(vars, key) {
        Some(v) => match parsed_within(v, false, 0, max) {
            Some(n) => n,
            None => default,
        },
        None => default,
    }
}

/// Whether a text says yes.
pub open spec fn says_yes(v: Seq<char>) -> bool {
    let word = lowercase(trimmed(v));
    word == "1"@ || word == "true"@ || word == "yes"@ || word == "on"@
}

/// Whether the variable `key` says yes, or a default where it is not set.
pub open spec fn env_flag(vars: Seq<(String, String)>, key: Seq<char>, default: bool) -> bool {
    match env_value(vars, key) {
        Some(v) => says_yes(v),
        None => default,
    }
}

fn env_var(vars: &Vec<(String, String)>, key: &str) -> (r: Option<String>)
    ensures
        match r {
            Some(v) => env_value(vars@, key@) == Some(v@),
            None => env_value(vars@, key@) is None,
        },
{
    let mut i: usize = 0;
    assert(vars@.skip(0) =~= vars@);
    while i < vars.len()
        invariant
            i <= vars@.len(),
            env_value(vars@, key@) == env_value(vars@.skip(i as int), key@),
        decreases vars@.len() - i,
    {
        if same_text(vars[i].0.as_str(), key) {
            return Some(vars[i].1.clone());
        }
        assert(vars@.skip(i as int).drop_first() =~= vars@.skip(i + 1));
        i += 1;
    }
    None
}

fn env_or(vars: &Vec<(String, String)>, key: &str, default: &str) -> (r: String)
    ensures
        r@ == env_text(vars@, key@, default@),
{
    match env_var(vars, key) {
        Some(v) => v,
        None => default.to_owned(),
    }
}

fn env_u64(vars: &Vec<(String, String)>, key: &str, default: u64) -> (r: u64)
    ensures
        r == env_number(vars@, key@, u64::MAX as int, default as int),
{
    match env_var(vars, key) {
        Some(v) => match parse_u64(v.as_str()) {
            Some(n) => n,
            None => default,
        },
        None => default,
    }
}

fn env_bool(vars: &Vec<(String, String)>, key: &str, default: bool) -> (r: bool)
    ensures
        r == env_flag(vars@, key@, default),
{
    match env_var(vars, key) {
        Some(v) => {
            let word = trim(v.as_str()).to_lowercase();
            let w = word.as_str();
            same_text(w, "1") || same_text(w, "true") || same_text(w, "yes") || same_text(w, "on")
        },
        None => default,
    }
}

impl Settings {
    /// The settings that the environment variables `vars` describe.
    pub fn from_env(vars: &Vec<(String, String)>) -> (r: Settings)
        ensures
            r.ente_api_url@ == env_text(vars@, "ENTE_API_URL"@, "http://localhost:8080"@),
            r.ente_download_url@ == env_text(vars@, "ENTE_DOWNLOAD_URL"@, ""@),
            r.ente_timeout == env_number(vars@, "ENTE_TIMEOUT"@, u64::MAX as int, 60),
            r.session_ttl == env_number(vars@, "SESSION_TTL"@, u64::MAX as int, 86400),
            r.host@ == env_text(vars@, "HOST"@, "0.0.0.0"@),
            r.port == env_number(vars@, "PORT"@, u16::MAX as int, 8000),
            r.fetch_faces == env_flag(vars@, "ENTE_FETCH_FACES"@, true),
            r.faces_batch_size == env_number(vars@, "ENTE_FACES_BATCH"@, usize::MAX as int, 200),
    {
        let port: u16 = match env_var(vars, "PORT") {
            Some(v) => match parse_u16(v.as_str()) {
                Some(n) => n,
                None => 8000,
            },
            None => 8000,
        };
        let faces_batch_size: usize = match env_var(vars, "ENTE_FACES_BATCH") {
            Some(v) => match parse_usize(v.as_str()) {
                Some(n) => n,
                None => 200,
            },
            None => 200,
        };
        Settings {
            ente_api_url: env_or(vars, "ENTE_API_URL", "http://localhost:8080"),
            ente_download_url: env_or(vars, "ENTE_DOWNLOAD_URL", ""),
            ente_timeout: env_u64(vars, "ENTE_TIMEOUT", 60),
            session_ttl: env_u64(vars, "SESSION_TTL", 86400),
            host: env_or(vars, "HOST", "0.0.0.0"),
            port,
            fetch_faces: env_bool(vars, "ENTE_FETCH_FACES", true),
            faces_batch_size,
        }
    }

    /// The base URL of the museum, without slashes at its end.
    pub open spec fn base(&self) -> Seq<char> {
        trim_end_of(self.ente_api_url@, '/')
    }

    /// Where the encrypted blob of a file can be had.
    pub open spec fn blob_url(&self, file_id: i64) -> Seq<char> {
        if self.ente_download_url@.len() > 0 {
            trim_end_of(self.ente_download_url@, '/') + "/"@ + decimal(file_id as int)
        } else {
            self.base() + "/files/download/"@ + decimal(file_id as int)
        }
    }

    pub fn api_base(&self) -> (r: String)
        ensures
            r@ == self.base(),
    {
        trim_end(self.ente_api_url.as_str(), '/')
    }

    pub fn download_url(&self, file_id: i64) -> (r: String)
        ensures
            r@ == self.blob_url(file_id),
    {
        let id = i64_text(file_id);
        if !self.ente_download_url.as_str().is_empty() {
            let host = trim_end(self.ente_download_url.as_str(), '/');
            joined(joined(host.as_str(), "/").as_str(), id.as_str())
        } else {
            joined(joined(self.api_base().as_str(), "/files/download/").as_str(), id.as_str())
        }
    }
}

/// The base URL does not end with a slash, however many were configured, so
/// that paths can be put behind it; the museum client uses it as it is.
pub proof fn base_has_no_slash_at_its_end(settings: Settings)
    ensures
        settings.base().len() > 0 ==> settings.base().last() != '/',
        trim_end_of(settings.base(), '/') == settings.base(),
{
    trim_end_has_no_edge(settings.ente_api_url@, '/');
}

} // verus!
