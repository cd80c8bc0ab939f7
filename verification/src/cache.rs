//! Content-addressed, disk-backed cache of the access token of one
//! session: a single slot, keyed by the hex SHA-1 digest of the
//! canonical session name, overwritten on every refresh.
//!
//! The cache holds the contents of its one file as data; the
//! surrounding application loads that entry from disk before use and
//! writes it back after a change, so a torn or corrupt file simply
//! reads as no cached token.
use sha1::Digest;
use vstd::prelude::*;

use crate::identity::has_dot;
use crate::identity::strip_scheme;
use crate::identity::SessionIdentity;
use crate::json::decode_record;
use crate::json::encode_record;
use crate::json::lemma_decode_encode;
use crate::json::spec_decode_record;
use crate::json::spec_encode_record;
use crate::text::chars_of;
use crate::text::hex_lower_of;
use crate::text::hex_lower_string;
use crate::text::string_of;
use crate::text::valid_chars;
use crate::token::AccessToken;

verus! {

/// The SHA-1 digest of the UTF-8 bytes of `s`: a function of `s`
/// alone, the same in every process.
pub uninterp spec fn sha1_digest_of(s: Seq<char>) -> Seq<u8>;

/// Relies on `sha1::Sha1` through the `Digest` trait: the SHA-1
/// digest of the UTF-8 bytes of `s`, always 20 bytes, depending on
/// `s` alone.
#[verifier::external_body]
fn sha1_of(s: &str) -> (r: Vec<u8>)
    ensures
        r@ == sha1_digest_of(s@),
        r@.len() == 20,
{
    let mut hasher = sha1::Sha1::new();
    hasher.update(s.as_bytes());
    hasher.finalize().to_vec()
}

/// The name of the session's cache file: the lower-case hex digest of
/// the session name, with the record suffix.
pub open spec fn spec_cache_file_name(name: Seq<char>) -> Seq<char> {
    hex_lower_of(sha1_digest_of(name)) + ".json"@
}

/// The single-slot token cache of one session.
pub struct AccessTokenCache {
    pub sso_session_name: String,
    pub cache_dir: String,
    pub entry: Option<String>,
}

impl AccessTokenCache {
    /// The record the slot holds, read back through the codec.
    pub open spec fn spec_cached_fields(self) -> Option<(Seq<char>, u64, Seq<char>)> {
        match self.entry {
            Some(e) => spec_decode_record(e@),
            None => None,
        }
    }

    /// A fresh cache for `sso_session_name` under `cache_dir`, with
    /// nothing loaded yet.
    pub fn new(sso_session_name: &str, cache_dir: &str) -> (r: Self)
        ensures
            r.sso_session_name@ == sso_session_name@,
            r.cache_dir@ == cache_dir@,
            r.entry is None,
    {
        AccessTokenCache {
            sso_session_name: sso_session_name.to_owned(),
            cache_dir: cache_dir.to_owned(),
            entry: None,
        }
    }

    /// Seeds the slot with the contents of the session's cache file,
    /// as read from disk by the surrounding application.
    pub fn load_entry(&mut self, contents: String)
        ensures
            final(self).sso_session_name == old(self).sso_session_name,
            final(self).cache_dir == old(self).cache_dir,
            final(self).entry == Some(contents),
    {
        self.entry = Some(contents);
    }

    /// The file name the session's record is stored under: forty hex
    /// digits and the suffix.
    pub fn cache_file_name(&self) -> (r: String)
        ensures
            r@ == spec_cache_file_name(self.sso_session_name@),
            r@.len() == 45,
    {
        let digest = sha1_of(self.sso_session_name.as_str());
        let hex = hex_lower_string(&digest);
        let mut v = chars_of(hex.as_str());
        let mut suffix = chars_of(".json");
        v.append(&mut suffix);
        proof {
            crate::text::lemma_hex_lower_len(digest@);
            reveal_strlit(".json");
        }
        string_of(&v)
    }

    /// The cached token, if the slot holds a readable record whose
    /// start URL derives an identity.  A missing or corrupt record
    /// reads as no token, never as an error.
    pub fn get_cached_token(&self) -> (r: Option<AccessToken>)
        ensures
            match r {
                Some(t) => {
                    &&& t.wf()
                    &&& match self.spec_cached_fields() {
                        Some((tv, ea, url)) => t.access_token@ == tv && t.expires_at == ea
                            && t.issuing_session.raw_start_url@ == url,
                        None => false,
                    }
                },
                None => match self.spec_cached_fields() {
                    Some((tv, ea, url)) => !has_dot(strip_scheme(url)),
                    None => true,
                },
            },
    {
        match &self.entry {
            None => None,
            Some(e) => match decode_record(e.as_str()) {
                None => None,
                Some((tv, ea, url)) => match SessionIdentity::derive(url.as_str()) {
                    Ok(id) => Some(
                        AccessToken { access_token: tv, expires_at: ea, issuing_session: id },
                    ),
                    Err(_) => None,
                },
            },
        }
    }

    /// Stores `access_token` in the slot, overwriting any previous
    /// record, and hands the token back to the caller.
    pub fn cache_token(&mut self, access_token: AccessToken) -> (r: AccessToken)
        ensures
            final(self).sso_session_name == old(self).sso_session_name,
            final(self).cache_dir == old(self).cache_dir,
            match final(self).entry {
                Some(e) => e@ == spec_encode_record(
                    access_token.access_token@,
                    access_token.expires_at,
                    access_token.issuing_session.raw_start_url@,
                ),
                None => false,
            },
            r == access_token,
            valid_chars(access_token.access_token@),
            valid_chars(access_token.issuing_session.raw_start_url@),
    {
        let contents = encode_record(
            access_token.access_token.as_str(),
            access_token.expires_at,
            access_token.issuing_session.raw_start_url.as_str(),
        );
        self.entry = Some(contents);
        access_token
    }
}

/// A written record reads back unchanged: a cache slot holding the
/// encoding of a token's fields yields exactly those fields, so a
/// write followed by a read returns the token that was written.
pub proof fn lemma_cache_round_trip(c: AccessTokenCache, t: AccessToken)
    requires
        valid_chars(t.access_token@),
        valid_chars(t.issuing_session.raw_start_url@),
        match c.entry {
            Some(e) => e@ == spec_encode_record(
                t.access_token@,
                t.expires_at,
                t.issuing_session.raw_start_url@,
            ),
            None => false,
        },
    ensures
        c.spec_cached_fields() == Some(
            (t.access_token@, t.expires_at, t.issuing_session.raw_start_url@),
        ),
{
    lemma_decode_encode(t.access_token@, t.expires_at, t.issuing_session.raw_start_url@);
}

} // verus!
