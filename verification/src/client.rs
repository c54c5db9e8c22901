//! The push client: token lifecycle, request preparation and response
//! classification.
//!
//! A client owns its identity, a cached bearer token and the moment the
//! token was signed. Signing reuses the cached token while it is younger
//! than the refresh threshold, and otherwise signs afresh and replaces the
//! cache as a pair. The transport itself stays outside this crate: callers
//! hand the response's status, header bytes and body bytes to
//! `interpret_response`, which classifies them exactly as the contracts say.
use vstd::prelude::*;

use crate::endpoint::Endpoint;
use vstd::string::StringSliceAdditionalSpecFns;

verus! {

/// How long a signed token is reused, in seconds: the issuing service
/// enforces a twenty-minute token lifetime.
pub const TOKEN_REFRESH_SECS: u64 = 1200;

/// Every failure the client surfaces; nothing is swallowed or retried.
#[derive(Debug)]
pub enum APNClientError {
    /// The private key could not be parsed, or the transport could not be
    /// built, at construction time.
    InitializeError { msg: String },
    /// The signing operation itself failed with a validly parsed key.
    SignError { msg: String },
    /// The system clock read before the epoch or behind the cache.
    SystemTimeError,
    /// The transport failed; the text describes the underlying cause.
    HTTPError { msg: String },
    /// An option value was not valid header content.
    HeaderError,
    /// A required response header was absent, or a failure body did not
    /// decode as the service's error shape.
    InvalidResponseError,
    /// A well-formed failure response from the service.
    APNError { response: APNResponse, status: u16, error: APNErrorResponse },
    /// A response header's bytes were not valid text.
    ToStrError,
}

/// What a successful push returns: the service-assigned identifiers.
#[derive(Debug)]
pub struct APNResponse {
    pub id: String,
    pub unique_id: Option<String>,
}

/// The service's error body: a reason and an optional timestamp.
#[derive(Debug)]
pub struct APNErrorResponse {
    pub reason: String,
    pub timestamp: Option<u64>,
}

/// The claims of the bearer token: the issuing team and the moment of
/// issue in Unix seconds.
#[derive(Debug)]
pub struct APNTokenClaims {
    pub issuer_team_id: String,
    pub issued_at: u64,
}

#[verifier::external_type_specification]
#[verifier::external_body]
pub struct ExEncodingKey(jsonwebtoken::EncodingKey);

/// Whether the given PEM bytes parse as an EC private key; the outcome
/// depends on the bytes alone.
pub uninterp spec fn ec_pem_ok(pem: Seq<u8>) -> bool;

/// Relies on jsonwebtoken::EncodingKey::from_ec_pem: parses a PEM-encoded
/// EC private key, and fails exactly when the bytes are not one.
#[verifier::external_body]
fn ec_key_from_pem(pem: &[u8]) -> (r: Option<jsonwebtoken::EncodingKey>)
    ensures
        r is Some <==> ec_pem_ok(pem@),
{
    jsonwebtoken::EncodingKey::from_ec_pem(pem).ok()
}

/// Relies on SystemTime::now and duration_since: the seconds since the Unix
/// epoch, or None when the clock reads before the epoch. The result depends
/// on the clock, so nothing is promised of it.
#[verifier::external_body]
fn unix_now() -> (r: Option<u64>)
{
    match std::time::SystemTime::now().duration_since(std::time::UNIX_EPOCH) {
        Ok(d) => Some(d.as_secs()),
        Err(_) => None,
    }
}

/// Relies on jsonwebtoken::encode: signs the claims `{iss, iat}` with
/// ES256, carrying the key identifier as `kid` and no `typ` in the
/// protected header. The token text depends on the process-global crypto
/// provider, which callers may replace at runtime, so nothing is promised
/// of it.
#[verifier::external_body]
fn es256_encode(key_id: &str, claims: &APNTokenClaims, key: &jsonwebtoken::EncodingKey) -> (r:
    Option<String>)
{
    let mut header = jsonwebtoken::Header::new(jsonwebtoken::Algorithm::ES256);
    header.kid = Some(key_id.to_string());
    header.typ = None;
    let mut map = serde_json::Map::new();
    map.insert("iss".to_string(), serde_json::Value::String(claims.issuer_team_id.clone()));
    map.insert("iat".to_string(), serde_json::Value::from(claims.issued_at));
    jsonwebtoken::encode(&header, &serde_json::Value::Object(map), key).ok()
}

/// What the service's error body decodes to: the reason string and the
/// optional timestamp, or None when the bytes are not that shape. The
/// outcome depends on the bytes alone.
pub uninterp spec fn error_body_of(body: Seq<u8>) -> Option<(Seq<char>, Option<u64>)>;

/// Relies on serde_json::from_slice: decodes a JSON object
/// `{"reason": string, "timestamp"?: integer}`, rejecting any other shape.
#[verifier::external_body]
fn decode_error_body(body: &[u8]) -> (r: Option<APNErrorResponse>)
    ensures
        r is Some <==> error_body_of(body@) is Some,
        r matches Some(e) ==> error_body_of(body@) == Some((e.reason@, e.timestamp)),
{
    let v: serde_json::Value = serde_json::from_slice(body).ok()?;
    let obj = match v {
        serde_json::Value::Object(m) => m,
        _ => return None,
    };
    let reason = match obj.get("reason") {
        Some(serde_json::Value::String(s)) => s.clone(),
        _ => return None,
    };
    let timestamp = match obj.get("timestamp") {
        Some(serde_json::Value::Number(n)) => Some(n.as_u64()?),
        Some(serde_json::Value::Null) | None => None,
        Some(_) => return None,
    };
    Some(APNErrorResponse { reason, timestamp })
}

/// The client's immutable identity: team, key, signing key and target.
pub struct APNClientConfig {
    pub team_id: String,
    pub key_id: String,
    pub key: jsonwebtoken::EncodingKey,
    pub endpoint: String,
}

impl APNClientConfig {
    /// Builds a configuration, parsing the private key once; a key that is
    /// not a PEM EC private key fails here, not at push time.
    pub fn new(team_id: &str, key_id: &str, key: &str, endpoint: Endpoint) -> (r: Result<
        APNClientConfig,
        APNClientError,
    >)
        ensures
            r is Ok <==> ec_pem_ok(key.spec_bytes()),
            r matches Ok(c) ==> c.team_id@ == team_id@ && c.key_id@ == key_id@ && c.endpoint@
                == crate::endpoint::endpoint_url_text(endpoint),
            r matches Err(e) ==> e matches APNClientError::InitializeError { .. },
    {
        match ec_key_from_pem(key.as_bytes()) {
            Some(k) => Ok(
                APNClientConfig {
                    team_id: team_id.to_owned(),
                    key_id: key_id.to_owned(),
                    key: k,
                    endpoint: endpoint.to_url(),
                },
            ),
            None => Err(
                APNClientError::InitializeError { msg: "Unable to parse private key".to_owned() },
            ),
        }
    }
}

/// The push client: its identity and the token cache it owns exclusively.
pub struct APNClient {
    pub config: APNClientConfig,
    pub token: Option<String>,
    pub signed_time: u64,
}

/// Whether the cache holds a token younger than the refresh threshold at
/// the given moment.
pub open spec fn cache_fresh(c: APNClient, now: u64) -> bool {
    c.token is Some && c.signed_time <= now && now - c.signed_time < TOKEN_REFRESH_SECS
}

/// How one sign call may change the client, as a relation between the state
/// before, the moment of the call, the result and the state after.
/// - A fresh cache is returned as it stands, untouched, with no signing.
/// - A cached token with a clock behind the cache's timestamp is a clock
///   error, and the state is untouched.
/// - Otherwise a fresh token is signed: on success the cache is replaced
///   with the new token and the moment of the call, as a pair; on failure
///   the call reports a signing error and the state is untouched.
pub open spec fn sign_step(
    pre: APNClient,
    now: u64,
    r: Result<String, APNClientError>,
    post: APNClient,
) -> bool {
    if cache_fresh(pre, now) {
        &&& r matches Ok(t) && t@ == pre.token->0@
        &&& post == pre
    } else if pre.token is Some && now < pre.signed_time {
        &&& r matches Err(e) && e is SystemTimeError
        &&& post == pre
    } else {
        match r {
            Ok(t) => {
                &&& post.token matches Some(ct) && ct@ == t@
                &&& post.signed_time == now
                &&& post.config == pre.config
            },
            Err(e) => {
                &&& e matches APNClientError::SignError { .. }
                &&& post == pre
            },
        }
    }
}

impl APNClient {
    /// Wraps a configuration into a client with an empty token cache.
    pub fn new(config: APNClientConfig) -> (r: Result<APNClient, APNClientError>)
        ensures
            r matches Ok(c) && c == (APNClient { config: config, token: None, signed_time: 0 }),
    {
        Ok(APNClient { config, token: None, signed_time: 0 })
    }

    /// Returns a bearer token for the given moment: the cached one while it
    /// is fresh, a freshly signed one otherwise.
    pub fn sign_at(&mut self, now: u64) -> (r: Result<String, APNClientError>)
        ensures
            sign_step(*old(self), now, r, *final(self)),
    {
        if let Some(tok) = &self.token {
            if now < self.signed_time {
                return Err(APNClientError::SystemTimeError);
            }
            if now - self.signed_time < TOKEN_REFRESH_SECS {
                return Ok(tok.clone());
            }
        }
        let claims = APNTokenClaims {
            issuer_team_id: self.config.team_id.clone(),
            issued_at: now,
        };
        match es256_encode(self.config.key_id.as_str(), &claims, &self.config.key) {
            Some(tok) => {
                self.token = Some(tok.clone());
                self.signed_time = now;
                Ok(tok)
            },
            None => Err(APNClientError::SignError { msg: "Unable to sign token".to_owned() }),
        }
    }

    /// Returns a bearer token for the present moment, read from the system
    /// clock; a clock before the epoch is an error and changes nothing.
    pub fn sign(&mut self) -> (r: Result<String, APNClientError>)
        ensures
            ({
                ||| exists|now: u64| sign_step(*old(self), now, r, *final(self))
                ||| (r matches Err(e) && e is SystemTimeError && *final(self) == *old(self))
            }),
    {
        match unix_now() {
            Some(now) => {
                let r = self.sign_at(now);
                proof {
                    assert(sign_step(*old(self), now, r, *final(self)));
                }
                r
            },
            None => Err(APNClientError::SystemTimeError),
        }
    }

    /// The request path for one device: the endpoint URL, the fixed segment
    /// and the device token.
    pub fn device_path(&self, device_token: &str) -> (p: String)
        ensures
            p@ == self.config.endpoint@ + "/3/device/"@ + device_token@,
    {
        let mut p = self.config.endpoint.clone();
        p.append("/3/device/");
        p.append(device_token);
        p
    }
}

/// Whether header bytes read back as text: each byte visible ASCII, space
/// or horizontal tab.
pub open spec fn header_bytes_ok(bytes: Seq<u8>) -> bool {
    forall|i: int| 0 <= i < bytes.len() ==> (32 <= #[trigger] bytes[i] < 127 || bytes[i] == 9)
}

/// The text that ASCII header bytes read back as.
pub open spec fn ascii_chars(bytes: Seq<u8>) -> Seq<char> {
    bytes.map_values(|b: u8| b as char)
}

/// Reads header bytes back as text, or nothing when a byte is not visible
/// ASCII, space or tab.
fn ascii_string(bytes: &[u8]) -> (r: Option<String>)
    ensures
        r is Some <==> header_bytes_ok(bytes@),
        r matches Some(s) ==> s@ == ascii_chars(bytes@),
{
    let n = bytes.len();
    let mut s = String::new();
    let mut j: usize = 0;
    while j < n
        invariant
            j <= n,
            n == bytes@.len(),
            s@.len() == j,
            forall|k: int| 0 <= k < j ==> (32 <= #[trigger] bytes@[k] < 127 || bytes@[k] == 9),
            forall|k: int| 0 <= k < j ==> #[trigger] s@[k] == bytes@[k] as char,
        decreases n - j,
    {
        let b = bytes[j];
        if !((32 <= b && b < 127) || b == 9) {
            return None;
        }
        crate::json::push_char(&mut s, b as char);
        j = j + 1;
    }
    proof {
        assert(s@ =~= ascii_chars(bytes@));
    }
    Some(s)
}

/// Whether the optional unique-id header reads back as text; an absent
/// header is fine.
pub open spec fn unique_id_ok(u: Option<&[u8]>) -> bool {
    match u {
        None => true,
        Some(b) => header_bytes_ok(b@),
    }
}

/// Whether the receipt's unique id mirrors the optional header.
pub open spec fn unique_id_matches(out: Option<String>, u: Option<&[u8]>) -> bool {
    match (out, u) {
        (None, None) => true,
        (Some(s), Some(b)) => s@ == ascii_chars(b@),
        _ => false,
    }
}

/// Classifies a response from its status, its two identifying headers and
/// its body bytes: a receipt on success, the decoded service error on a
/// well-formed failure, and a typed error on everything else.
pub fn interpret_response(
    status: u16,
    apns_id: Option<&[u8]>,
    apns_unique_id: Option<&[u8]>,
    body: &[u8],
) -> (r: Result<APNResponse, APNClientError>)
    ensures
        apns_id is None ==> (r matches Err(e) && e is InvalidResponseError),
        (apns_id matches Some(b) && !header_bytes_ok(b@)) ==> (r matches Err(e)
            && e is ToStrError),
        (apns_id matches Some(b) && header_bytes_ok(b@) && !unique_id_ok(apns_unique_id)) ==> (
        r matches Err(e) && e is ToStrError),
        apns_id matches Some(b) ==> ((header_bytes_ok(b@) && unique_id_ok(apns_unique_id)
            && status == 200) ==> (r matches Ok(resp) && resp.id@ == ascii_chars(b@)
            && unique_id_matches(resp.unique_id, apns_unique_id))),
        apns_id matches Some(b) ==> ((header_bytes_ok(b@) && unique_id_ok(apns_unique_id)
            && status != 200) ==> (error_body_of(body@) matches Some(eb) ==> (r matches Err(e)
            && e matches APNClientError::APNError { response, status: st, error } && st == status
            && response.id@ == ascii_chars(b@) && unique_id_matches(
            response.unique_id,
            apns_unique_id,
        ) && error.reason@ == eb.0 && error.timestamp == eb.1))),
        (apns_id matches Some(b) && header_bytes_ok(b@) && unique_id_ok(apns_unique_id) && status
            != 200 && error_body_of(body@) is None) ==> (r matches Err(e)
            && e is InvalidResponseError),
{
    let id_bytes = match apns_id {
        None => {
            return Err(APNClientError::InvalidResponseError);
        },
        Some(b) => b,
    };
    let id = match ascii_string(id_bytes) {
        Some(s) => s,
        None => {
            return Err(APNClientError::ToStrError);
        },
    };
    let unique_id = match apns_unique_id {
        None => None,
        Some(b) => match ascii_string(b) {
            Some(s) => Some(s),
            None => {
                return Err(APNClientError::ToStrError);
            },
        },
    };
    let resp = APNResponse { id, unique_id };
    if status == 200 {
        return Ok(resp);
    }
    match decode_error_body(body) {
        Some(err) => Err(APNClientError::APNError { response: resp, status, error: err }),
        None => Err(APNClientError::InvalidResponseError),
    }
}

/// Law: signing twice within the refresh threshold returns the identical
/// token both times and leaves the cache untouched after the first call;
/// the second call signs nothing.
pub proof fn lemma_sign_idempotent(
    pre: APNClient,
    now1: u64,
    t1: String,
    mid: APNClient,
    now2: u64,
    r2: Result<String, APNClientError>,
    post: APNClient,
)
    requires
        sign_step(pre, now1, Ok(t1), mid),
        sign_step(mid, now2, r2, post),
        mid.signed_time <= now2,
        now2 - mid.signed_time < TOKEN_REFRESH_SECS,
    ensures
        r2 matches Ok(t2) && t2@ == t1@,
        post == mid,
{
}

/// Law: a cache whose token is older than the refresh threshold is not
/// reused: signing at such a moment either replaces the cache with a fresh
/// token and the moment of the call, or reports a signing failure and
/// leaves the cache as it was.
pub proof fn lemma_sign_refreshes(
    pre: APNClient,
    now: u64,
    r: Result<String, APNClientError>,
    post: APNClient,
)
    requires
        pre.token is Some,
        pre.signed_time <= now,
        now - pre.signed_time >= TOKEN_REFRESH_SECS,
        sign_step(pre, now, r, post),
    ensures
        r matches Ok(t) ==> (post.token matches Some(ct) && ct@ == t@ && post.signed_time == now),
        r matches Err(e) ==> (e matches APNClientError::SignError { .. } && post == pre),
{
}

} // verus!
