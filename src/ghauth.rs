//! The OAuth device authorization flow: what to send, and what to do with
//! each answer while polling for the access token.
use vstd::prelude::*;

use crate::params::Pair;

verus! {

/// The OAuth application that asks for access.
pub const OAUTH_CLIENT_ID: &'static str = "71c898ad634b388e6614";

/// The scope that is asked for.
pub const OAUTH_SCOPE: &'static str = "repo";

/// Where device codes are issued.
pub const DEVICE_CODE_URL: &'static str = "https://github.com/login/device/code";

/// Where the access token is polled for.
pub const ACCESS_TOKEN_URL: &'static str = "https://github.com/login/oauth/access_token";

/// The grant type of a token request made with a device code.
pub const DEVICE_GRANT_TYPE: &'static str = "urn:ietf:params:oauth:grant-type:device_code";

/// The HTTP status that the provider answers with while the user has not
/// yet entered the code.
pub const STATUS_PENDING: u16 = 404;

/// An outstanding device authorization grant.
pub struct DeviceCode {
    /// Sent back to the provider only; never shown.
    pub device_code: String,
    /// The code the user types in.
    pub user_code: String,
    /// Where the user types it in.
    pub verification_uri: String,
    /// Seconds from issuance until the code is no longer valid.
    pub expires_in: u64,
    /// Least number of seconds between two polls.
    pub interval: u64,
    /// Local time of issuance, in seconds since the Unix epoch.
    pub time: u64,
}

/// The code has expired at time `now`.
pub open spec fn expired_at(code: DeviceCode, now: u64) -> bool {
    now - code.time >= code.expires_in
}

impl DeviceCode {
    /// A descriptor received from the provider, stamped with the local time
    /// `now` of its receipt.
    pub fn issued(
        device_code: String,
        user_code: String,
        verification_uri: String,
        expires_in: u64,
        interval: u64,
        now: u64,
    ) -> (r: DeviceCode)
        ensures
            r == (DeviceCode { device_code, user_code, verification_uri, expires_in, interval, time: now }),
    {
        DeviceCode { device_code, user_code, verification_uri, expires_in, interval, time: now }
    }

    /// Whether the code has expired at time `now`.
    pub fn expired(&self, now: u64) -> (r: bool)
        ensures
            r == expired_at(*self, now),
    {
        now >= self.time && now - self.time >= self.expires_in
    }
}

/// What the token endpoint hands out once the user has authorized.
pub struct AccessToken {
    pub access_token: String,
    pub token_type: String,
    pub scope: String,
}

/// An error body of the provider.
pub struct GithubError {
    pub error: String,
    pub error_description: String,
    pub error_uri: String,
}

/// Why polling for the access token ended without one.
pub enum AccessTokenPollError {
    /// The device code expired: the flow starts over with a new one.
    DeviceCodeExpired,
    /// The request failed in transport; the message describes it.
    Transport(String),
}

impl AccessTokenPollError {
    /// The message shown for the error.
    pub fn message(&self) -> (r: String)
        ensures
            match self {
                AccessTokenPollError::DeviceCodeExpired => r@ == "The device code has expired"@,
                AccessTokenPollError::Transport(m) => r@ == "Polling github failed. "@ + m@,
            },
    {
        match self {
            AccessTokenPollError::DeviceCodeExpired => "The device code has expired".to_owned(),
            AccessTokenPollError::Transport(m) => {
                let mut r = "Polling github failed. ".to_owned();
                r.append(m.as_str());
                r
            },
        }
    }
}

/// One answer of the token endpoint.
pub enum TokenResponse {
    /// A body that reads as an access token.
    Token(AccessToken),
    /// A body that does not read as an access token: the provider answers
    /// so while authorization is pending.
    Unreadable,
    /// The request failed, with the HTTP status where there was one.
    Failed { status: Option<u16>, message: String },
}

/// What the polling loop does next.
pub enum PollStep {
    /// Sleep this many seconds, then send a token request.
    Wait(u64),
    /// Polling is over: the token was obtained.
    Obtained(AccessToken),
    /// Polling is over without a token.
    Stopped(AccessTokenPollError),
}

/// The next step of polling at time `now`, after the answer `last` to the
/// previous request (`None` before the first one).
pub open spec fn poll_step_spec(code: DeviceCode, now: u64, last: Option<TokenResponse>) -> PollStep {
    match last {
        Some(TokenResponse::Token(t)) => PollStep::Obtained(t),
        Some(TokenResponse::Failed { status, message }) if status != Some(STATUS_PENDING) =>
            PollStep::Stopped(AccessTokenPollError::Transport(message)),
        _ => if expired_at(code, now) {
            PollStep::Stopped(AccessTokenPollError::DeviceCodeExpired)
        } else {
            PollStep::Wait(code.interval)
        },
    }
}

/// Decides the next step of polling for the access token: a token ends
/// the loop; a pending answer (status 404, or a body that is no token) is
/// followed, unless the code has expired, by a pause of the code's interval
/// and another request; any other failure ends the loop.
pub fn poll_step(code: &DeviceCode, now: u64, last: Option<TokenResponse>) -> (r: PollStep)
    ensures
        r == poll_step_spec(*code, now, last),
{
    match last {
        Some(TokenResponse::Token(t)) => PollStep::Obtained(t),
        Some(TokenResponse::Failed { status, message }) if status != Some(STATUS_PENDING) => {
            PollStep::Stopped(AccessTokenPollError::Transport(message))
        },
        _ => if code.expired(now) {
            PollStep::Stopped(AccessTokenPollError::DeviceCodeExpired)
        } else {
            PollStep::Wait(code.interval)
        },
    }
}


/// Relies on std::time::SystemTime::now: the wall clock in whole seconds
/// since the Unix epoch, `None` where the clock reads before the epoch.
#[verifier::external_body]
fn clock_seconds() -> (r: Option<u64>) {
    match std::time::SystemTime::now().duration_since(std::time::UNIX_EPOCH) {
        Ok(d) => Some(d.as_secs()),
        Err(_) => None,
    }
}

/// The local time in seconds since the Unix epoch; a clock set before the
/// epoch reads as 0.
pub fn epoch_time() -> (r: u64) {
    match clock_seconds() {
        Some(t) => t,
        None => 0,
    }
}

/// The fields of a form, as character sequences.
pub open spec fn form_view(form: Seq<(String, String)>) -> Seq<Pair> {
    form.map_values(|e: (String, String)| (e.0@, e.1@))
}

/// The form that asks for a device code.
pub fn device_code_form() -> (r: Vec<(String, String)>)
    ensures
        form_view(r@) == seq![("client_id"@, OAUTH_CLIENT_ID@), ("scope"@, OAUTH_SCOPE@)],
{
    let mut r: Vec<(String, String)> = Vec::new();
    r.push(("client_id".to_owned(), OAUTH_CLIENT_ID.to_owned()));
    r.push(("scope".to_owned(), OAUTH_SCOPE.to_owned()));
    assert(form_view(r@) =~= seq![("client_id"@, OAUTH_CLIENT_ID@), ("scope"@, OAUTH_SCOPE@)]);
    r
}

/// The form that polls for the access token of `code`.
pub fn token_form(code: &DeviceCode) -> (r: Vec<(String, String)>)
    ensures
        form_view(r@) == seq![
            ("client_id"@, OAUTH_CLIENT_ID@),
            ("scope"@, OAUTH_SCOPE@),
            ("device_code"@, code.device_code@),
            ("grant_type"@, DEVICE_GRANT_TYPE@),
        ],
{
    let mut r: Vec<(String, String)> = Vec::new();
    r.push(("client_id".to_owned(), OAUTH_CLIENT_ID.to_owned()));
    r.push(("scope".to_owned(), OAUTH_SCOPE.to_owned()));
    r.push(("device_code".to_owned(), code.device_code.clone()));
    r.push(("grant_type".to_owned(), DEVICE_GRANT_TYPE.to_owned()));
    assert(form_view(r@) =~= seq![
        ("client_id"@, OAUTH_CLIENT_ID@),
        ("scope"@, OAUTH_SCOPE@),
        ("device_code"@, code.device_code@),
        ("grant_type"@, DEVICE_GRANT_TYPE@),
    ]);
    r
}

} // verus!
