//! What the client of the cloud service decides: addresses, the set of
//! signatures after a fetch, and the records that the service answers
//! with. Sending and receiving is the caller's.

use vstd::prelude::*;
use vstd::string::*;
use crate::scanner::cloud_sigs::{merge_signatures, merged, CloudSignature, SignatureView};
use crate::text::{trim, trimmed};

verus! {

/// The service's address where none is given.
pub const DEFAULT_ENDPOINT: &'static str = "https://api.sigil.nomark.dev";

/// What the client says where the service cannot be reached.
pub const OFFLINE_MESSAGE: &'static str =
    "Sigil cloud is unreachable (running in offline mode). Local scanning will continue to work, but threat intelligence and signature updates are unavailable.";

/// Response from a scan submission.
#[derive(Debug)]
pub struct ScanResponse {
    pub id: String,
    pub status: String,
    pub message: Option<String>,
}

/// Response from a threat lookup.
#[derive(Debug)]
pub struct ThreatInfo {
    pub hash: String,
    pub known_malicious: bool,
    pub threat_type: Option<String>,
    pub description: Option<String>,
    pub first_seen: Option<String>,
    pub references: Vec<String>,
}

/// A threat detection signature as the service lists it.
#[derive(Debug)]
pub struct Signature {
    pub id: String,
    pub pattern: String,
    pub phase: String,
    pub severity: String,
    pub description: String,
}

/// Response from a threat report submission.
#[derive(Debug)]
pub struct ReportResponse {
    pub id: String,
    pub status: String,
}

/// The address to use: the one given, or the default.
pub fn endpoint_or_default(endpoint: Option<String>) -> (address: String)
    ensures
        address@ == match endpoint {
            Some(given) => given@,
            None => DEFAULT_ENDPOINT@,
        },
{
    match endpoint {
        Some(given) => given,
        None => DEFAULT_ENDPOINT.to_string(),
    }
}

/// The address of a route of the service.
pub fn route_url(endpoint: &str, route: &str) -> (url: String)
    ensures
        url@ == endpoint@ + route@,
{
    let mut url = endpoint.to_string();
    url.append(route);
    url
}

/// The address from which signatures are fetched. Unless the fetch is
/// forced, and where an earlier fetch is on record, only what changed since
/// then is asked for.
pub open spec fn signatures_address(
    endpoint: Seq<char>,
    force: bool,
    last_sync: Option<Seq<char>>,
) -> Seq<char> {
    match last_sync {
        Some(since) if !force => endpoint + "/v1/signatures"@ + "?since="@ + since,
        _ => endpoint + "/v1/signatures"@,
    }
}

/// The address from which signatures are fetched.
pub fn signatures_url(endpoint: &str, force: bool, last_sync: Option<&str>) -> (url: String)
    ensures
        url@ == signatures_address(
            endpoint@,
            force,
            match last_sync {
                Some(since) => Some(since@),
                None => None,
            },
        ),
{
    let mut url = route_url(endpoint, "/v1/signatures");
    if !force {
        match last_sync {
            Some(since) => {
                url.append("?since=");
                url.append(since);
            },
            None => {},
        }
    }
    url
}

/// The local set of signatures after a fetch: a forced fetch starts from
/// nothing, any other from what is stored; the fetched signatures are
/// merged in by identifier.
pub fn updated_signatures(stored: Vec<CloudSignature>, fetched: &Vec<CloudSignature>, force: bool) -> (all:
    Vec<CloudSignature>)
    ensures
        all.deep_view() == merged(
            if force {
                Seq::<SignatureView>::empty()
            } else {
                stored.deep_view()
            },
            fetched.deep_view(),
        ),
{
    if force {
        let none: Vec<CloudSignature> = Vec::new();
        proof {
            assert(none.deep_view() =~= Seq::<SignatureView>::empty());
        }
        merge_signatures(none, fetched)
    } else {
        merge_signatures(stored, fetched)
    }
}

/// What a lookup answers for a hash that the service does not know.
pub fn unknown_threat(hash: &str) -> (info: ThreatInfo)
    ensures
        info.hash@ == hash@,
        !info.known_malicious,
        info.threat_type is None,
        info.description is None,
        info.first_seen is None,
        info.references@.len() == 0,
{
    ThreatInfo {
        hash: hash.to_string(),
        known_malicious: false,
        threat_type: None,
        description: None,
        first_seen: None,
        references: Vec::new(),
    }
}

/// The token that a stored token file holds: its text without the
/// whitespace around it, or none where nothing is left.
pub fn stored_token(raw: &str) -> (token: Option<String>)
    ensures
        match token {
            Some(text) => text@ == trimmed(raw@) && text@.len() > 0,
            None => trimmed(raw@).len() == 0,
        },
{
    let text = trim(raw);
    if text.as_str().unicode_len() == 0 {
        None
    } else {
        Some(text)
    }
}

/// What is said of a request that failed: the offline message where the
/// service could not be reached or did not answer in time, else the error
/// itself.
pub fn offline_fallback_message(unreachable: bool, timed_out: bool, detail: &str) -> (text: String)
    ensures
        text@ == if unreachable || timed_out {
            OFFLINE_MESSAGE@
        } else {
            "network error: "@ + detail@
        },
{
    if unreachable || timed_out {
        OFFLINE_MESSAGE.to_string()
    } else {
        let mut text = "network error: ".to_string();
        text.append(detail);
        text
    }
}

} // verus!
