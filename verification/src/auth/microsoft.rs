//! Microsoft OAuth2 device-code sign-in → Xbox Live → XSTS → Minecraft.
//!
//! Flow:
//!  1. Request a device code from Microsoft.
//!  2. Show `user_code` and `verification_uri` to the user.
//!  3. Poll the token endpoint until the user has authorized.
//!  4. Exchange the Microsoft token for an Xbox Live token.
//!  5. Exchange the Xbox Live token for an XSTS token.
//!  6. Exchange the XSTS token for a Minecraft access token.
//!  7. Fetch the Minecraft profile.
//!
//! The HTTP exchanges happen outside; this module decides what is sent and
//! what each answer means. Steps 4 to 7 form a state machine: `AuthFlow`.
use vstd::prelude::*;
use crate::config::{Account, AccountType};
use crate::error::AppError;

verus! {

// ─── Endpoints and fixed values ──────────────────────────────────────────────

/// Public Azure client id used by many open-source Minecraft launchers.
pub const CLIENT_ID: &'static str = "00000000402b5328";

/// The scope asked for.
pub const SCOPE: &'static str = "XboxLive.signin offline_access";

/// Device-code endpoint.
pub const DEVICE_CODE_URL: &'static str = "https://login.microsoftonline.com/consumers/oauth2/v2.0/devicecode";

/// Token endpoint.
pub const TOKEN_URL: &'static str = "https://login.microsoftonline.com/consumers/oauth2/v2.0/token";

/// Xbox Live user authentication endpoint.
pub const XBL_URL: &'static str = "https://user.auth.xboxlive.com/user/authenticate";

/// XSTS authorization endpoint.
pub const XSTS_URL: &'static str = "https://xsts.auth.xboxlive.com/xsts/authorize";

/// Minecraft login endpoint.
pub const MC_LOGIN_URL: &'static str = "https://api.minecraftservices.com/authentication/login_with_xbox";

/// Minecraft profile endpoint.
pub const MC_PROFILE_URL: &'static str = "https://api.minecraftservices.com/minecraft/profile";

/// Grant type of a device-code poll.
pub const DEVICE_CODE_GRANT: &'static str = "urn:ietf:params:oauth:grant-type:device_code";

// ─── Request/response types ──────────────────────────────────────────────────

/// The answer to a device-code request.
#[derive(Debug)]
pub struct DeviceCodeResponse {
    pub device_code: String,
    pub user_code: String,
    pub verification_uri: String,
    pub expires_in: u64,
    pub interval: u64,
    pub message: String,
}

/// The answer of the token endpoint.
#[derive(Debug)]
pub struct MsTokenResponse {
    pub access_token: String,
    pub expires_in: u64,
    pub refresh_token: Option<String>,
    pub error: Option<String>,
    pub error_description: Option<String>,
}

/// A form field: name and value.
pub open spec fn field_view(f: (String, String)) -> (Seq<char>, Seq<char>) {
    (f.0@, f.1@)
}

/// The form fields as characters.
pub open spec fn form_view(v: Seq<(String, String)>) -> Seq<(Seq<char>, Seq<char>)> {
    v.map_values(|f: (String, String)| field_view(f))
}

fn field(name: &str, value: &str) -> (r: (String, String))
    ensures
        field_view(r) == (name@, value@),
{
    (String::from_str(name), String::from_str(value))
}

/// The form of a device-code request.
pub fn device_code_form() -> (r: Vec<(String, String)>)
    ensures
        form_view(r@) == seq![("client_id"@, CLIENT_ID@), ("scope"@, SCOPE@)],
{
    let mut v: Vec<(String, String)> = Vec::new();
    v.push(field("client_id", CLIENT_ID));
    v.push(field("scope", SCOPE));
    assert(form_view(v@) == seq![("client_id"@, CLIENT_ID@), ("scope"@, SCOPE@)]);
    v
}

/// The form of a poll for the token of `device_code`.
pub fn poll_form(device_code: &str) -> (r: Vec<(String, String)>)
    ensures
        form_view(r@) == seq![
            ("client_id"@, CLIENT_ID@),
            ("grant_type"@, DEVICE_CODE_GRANT@),
            ("device_code"@, device_code@),
        ],
{
    let mut v: Vec<(String, String)> = Vec::new();
    v.push(field("client_id", CLIENT_ID));
    v.push(field("grant_type", DEVICE_CODE_GRANT));
    v.push(field("device_code", device_code));
    assert(form_view(v@) == seq![
        ("client_id"@, CLIENT_ID@),
        ("grant_type"@, DEVICE_CODE_GRANT@),
        ("device_code"@, device_code@),
    ]);
    v
}

/// The form of a refresh with `refresh_token`.
pub fn refresh_form(refresh_token: &str) -> (r: Vec<(String, String)>)
    ensures
        form_view(r@) == seq![
            ("client_id"@, CLIENT_ID@),
            ("grant_type"@, "refresh_token"@),
            ("refresh_token"@, refresh_token@),
            ("scope"@, SCOPE@),
        ],
{
    let mut v: Vec<(String, String)> = Vec::new();
    v.push(field("client_id", CLIENT_ID));
    v.push(field("grant_type", "refresh_token"));
    v.push(field("refresh_token", refresh_token));
    v.push(field("scope", SCOPE));
    assert(form_view(v@) == seq![
        ("client_id"@, CLIENT_ID@),
        ("grant_type"@, "refresh_token"@),
        ("refresh_token"@, refresh_token@),
        ("scope"@, SCOPE@),
    ]);
    v
}

// ─── Token answers ───────────────────────────────────────────────────────────

/// What a poll of the token endpoint yielded.
#[derive(Debug)]
pub enum PollOutcome {
    /// The user has not authorized yet: poll again.
    Pending,
    /// The user authorized: these are the Microsoft tokens.
    Authorized { access_token: String, refresh_token: Option<String> },
}

/// The error codes that mean "not yet": keep polling.
pub open spec fn is_pending_code(e: Seq<char>) -> bool {
    e == "authorization_pending"@ || e == "slow_down"@
}

/// The message of an error answer: its description, or its code when it has none.
pub open spec fn error_message(code: String, description: Option<String>) -> Seq<char> {
    match description {
        Some(d) => d@,
        None => code@,
    }
}

/// Reads a poll answer: pending, authorized, or a sign-in error.
pub fn poll_outcome(resp: MsTokenResponse) -> (r: Result<PollOutcome, AppError>)
    ensures
        match resp.error {
            Some(e) => if is_pending_code(e@) {
                r matches Ok(PollOutcome::Pending)
            } else {
                r matches Err(AppError::Auth(m)) && m@ == error_message(e, resp.error_description)
            },
            None => r matches Ok(PollOutcome::Authorized { access_token, refresh_token })
                && access_token == resp.access_token && refresh_token == resp.refresh_token,
        },
{
    match resp.error {
        Some(e) => {
            if crate::text::str_eq(e.as_str(), "authorization_pending") || crate::text::str_eq(
                e.as_str(),
                "slow_down",
            ) {
                Ok(PollOutcome::Pending)
            } else {
                match resp.error_description {
                    Some(d) => Err(AppError::Auth(d)),
                    None => Err(AppError::Auth(e)),
                }
            }
        },
        None => Ok(
            PollOutcome::Authorized {
                access_token: resp.access_token,
                refresh_token: resp.refresh_token,
            },
        ),
    }
}

/// Reads a refresh answer: the new Microsoft tokens, or a sign-in error.
pub fn refresh_outcome(resp: MsTokenResponse) -> (r: Result<(String, Option<String>), AppError>)
    ensures
        match resp.error {
            Some(e) => r matches Err(AppError::Auth(m)) && m@ == error_message(
                e,
                resp.error_description,
            ),
            None => r == Ok::<(String, Option<String>), AppError>(
                (resp.access_token, resp.refresh_token),
            ),
        },
{
    match resp.error {
        Some(e) => match resp.error_description {
            Some(d) => Err(AppError::Auth(d)),
            None => Err(AppError::Auth(e)),
        },
        None => Ok((resp.access_token, resp.refresh_token)),
    }
}

/// The refresh token stored with an account; a sign-in error when there is none.
pub fn stored_refresh_token(account: &Account) -> (r: Result<String, AppError>)
    ensures
        match account.refresh_token {
            Some(t) => r == Ok::<String, AppError>(t),
            None => r matches Err(AppError::Auth(m)) && m@ == "No refresh token stored"@,
        },
{
    match &account.refresh_token {
        Some(t) => Ok(t.clone()),
        None => Err(AppError::Auth(String::from_str("No refresh token stored"))),
    }
}

// ─── From a Microsoft token to an account ────────────────────────────────────

/// Where the exchange of a Microsoft token for a Minecraft account stands.
#[derive(Debug)]
pub enum AuthStage {
    /// Waiting for the Xbox Live answer.
    AwaitXbl,
    /// Waiting for the XSTS answer; `uhs` is the user hash from Xbox Live.
    AwaitXsts { uhs: String },
    /// Waiting for the Minecraft token.
    AwaitMcToken,
    /// Waiting for the Minecraft profile; `mc_token` is the Minecraft token.
    AwaitProfile { mc_token: String },
    /// The exchange ended, with an account or an error.
    Finished,
}

/// The exchange of a Microsoft token for a Minecraft account.
#[derive(Debug)]
pub struct AuthFlow {
    pub stage: AuthStage,
    /// The Microsoft refresh token, stored with the account at the end.
    pub refresh_token: Option<String>,
}

/// A request the exchange needs made.
#[derive(Debug)]
pub enum AuthRequest {
    /// Authenticate with Xbox Live, sending this `RpsTicket`.
    XboxLive { rps_ticket: String },
    /// Authorize with XSTS, sending this Xbox Live user token.
    Xsts { user_token: String },
    /// Log in to Minecraft, sending this identity token.
    MinecraftLogin { identity_token: String },
    /// Fetch the Minecraft profile, with this bearer token.
    Profile { bearer_token: String },
}

/// An answer to a request.
#[derive(Debug)]
pub enum AuthEvent {
    /// The Xbox Live token and the user hashes (`xui[].uhs`) of its claims.
    XboxLive { token: String, user_hashes: Vec<String> },
    /// The XSTS token.
    Xsts { token: String },
    /// The Minecraft access token.
    MinecraftToken { access_token: String },
    /// The Minecraft profile.
    Profile { id: String, name: String },
}

/// What follows an answer.
#[derive(Debug)]
pub enum AuthStep {
    /// Make this request next.
    Request(AuthRequest),
    /// The exchange gave this account.
    Done(Account),
    /// The exchange failed.
    Failed(AppError),
}

/// The `RpsTicket` sent to Xbox Live for a Microsoft token.
pub open spec fn rps_ticket_spec(ms_access_token: Seq<char>) -> Seq<char> {
    "d="@ + ms_access_token
}

/// The identity token sent to Minecraft for a user hash and an XSTS token.
pub open spec fn identity_token_spec(uhs: Seq<char>, xsts_token: Seq<char>) -> Seq<char> {
    "XBL3.0 x="@ + uhs + ";"@ + xsts_token
}

/// `event` is the kind of answer the service gives to `request`.
pub open spec fn answers(request: AuthRequest, event: AuthEvent) -> bool {
    match request {
        AuthRequest::XboxLive { .. } => event is XboxLive,
        AuthRequest::Xsts { .. } => event is Xsts,
        AuthRequest::MinecraftLogin { .. } => event is MinecraftToken,
        AuthRequest::Profile { .. } => event is Profile,
    }
}

/// The answer `event` is the one the flow waits for.
pub open spec fn expects_spec(flow: AuthFlow, event: AuthEvent) -> bool {
    match (flow.stage, event) {
        (AuthStage::AwaitXbl, AuthEvent::XboxLive { .. }) => true,
        (AuthStage::AwaitXsts { .. }, AuthEvent::Xsts { .. }) => true,
        (AuthStage::AwaitMcToken, AuthEvent::MinecraftToken { .. }) => true,
        (AuthStage::AwaitProfile { .. }, AuthEvent::Profile { .. }) => true,
        _ => false,
    }
}

/// How the flow moves on an answer it waits for.
pub open spec fn advance_relation(
    before: AuthFlow,
    event: AuthEvent,
    after: AuthFlow,
    step: AuthStep,
) -> bool {
    match (before.stage, event) {
        (AuthStage::AwaitXbl, AuthEvent::XboxLive { token, user_hashes }) => if user_hashes@.len()
            == 0 {
            &&& after.stage is Finished
            &&& after.refresh_token == before.refresh_token
            &&& step matches AuthStep::Failed(AppError::Auth(m))
            &&& m@ == "Missing UHS in XBL response"@
        } else {
            &&& after.stage == AuthStage::AwaitXsts { uhs: user_hashes@[0] }
            &&& after.refresh_token == before.refresh_token
            &&& step == AuthStep::Request(AuthRequest::Xsts { user_token: token })
        },
        (AuthStage::AwaitXsts { uhs }, AuthEvent::Xsts { token }) => {
            &&& after.stage is AwaitMcToken
            &&& after.refresh_token == before.refresh_token
            &&& step matches AuthStep::Request(AuthRequest::MinecraftLogin { identity_token })
            &&& identity_token@ == identity_token_spec(uhs@, token@)
        },
        (AuthStage::AwaitMcToken, AuthEvent::MinecraftToken { access_token }) => {
            &&& after.stage == AuthStage::AwaitProfile { mc_token: access_token }
            &&& after.refresh_token == before.refresh_token
            &&& step == AuthStep::Request(AuthRequest::Profile { bearer_token: access_token })
        },
        (AuthStage::AwaitProfile { mc_token }, AuthEvent::Profile { id, name }) => {
            &&& after.stage is Finished
            &&& after.refresh_token is None
            &&& step == AuthStep::Done(
                Account {
                    id: id,
                    username: name,
                    account_type: AccountType::Microsoft,
                    access_token: Some(mc_token),
                    refresh_token: before.refresh_token,
                    xbox_uid: None,
                },
            )
        },
        _ => false,
    }
}

impl AuthFlow {
    /// Starts the exchange of a Microsoft access token; the first request goes
    /// to Xbox Live.
    pub fn start(ms_access_token: &str, refresh_token: Option<String>) -> (r: (AuthFlow, AuthRequest))
        ensures
            r.0.stage is AwaitXbl,
            r.0.refresh_token == refresh_token,
            r.1 matches AuthRequest::XboxLive { rps_ticket } && rps_ticket@ == rps_ticket_spec(
                ms_access_token@,
            ),
            forall|e: AuthEvent| answers(r.1, e) ==> expects_spec(r.0, e),
    {
        let ticket = crate::text::str_concat("d=", ms_access_token);
        (AuthFlow { stage: AuthStage::AwaitXbl, refresh_token }, AuthRequest::XboxLive {
            rps_ticket: ticket,
        })
    }

    /// Whether `event` is the answer the flow waits for.
    pub fn expects(&self, event: &AuthEvent) -> (r: bool)
        ensures
            r == expects_spec(*self, *event),
    {
        match (&self.stage, event) {
            (AuthStage::AwaitXbl, AuthEvent::XboxLive { .. }) => true,
            (AuthStage::AwaitXsts { .. }, AuthEvent::Xsts { .. }) => true,
            (AuthStage::AwaitMcToken, AuthEvent::MinecraftToken { .. }) => true,
            (AuthStage::AwaitProfile { .. }, AuthEvent::Profile { .. }) => true,
            _ => false,
        }
    }

    /// Moves on an answer: the next request, the account, or the error.
    pub fn advance(self, event: AuthEvent) -> (r: (AuthFlow, AuthStep))
        requires
            expects_spec(self, event),
        ensures
            advance_relation(self, event, r.0, r.1),
    {
        let refresh_token = self.refresh_token;
        match (self.stage, event) {
            (AuthStage::AwaitXbl, AuthEvent::XboxLive { token, user_hashes }) => {
                let mut hashes = user_hashes;
                if hashes.len() == 0 {
                    (
                        AuthFlow { stage: AuthStage::Finished, refresh_token },
                        AuthStep::Failed(
                            AppError::Auth(String::from_str("Missing UHS in XBL response")),
                        ),
                    )
                } else {
                    let uhs = hashes.remove(0);
                    (
                        AuthFlow { stage: AuthStage::AwaitXsts { uhs }, refresh_token },
                        AuthStep::Request(AuthRequest::Xsts { user_token: token }),
                    )
                }
            },
            (AuthStage::AwaitXsts { uhs }, AuthEvent::Xsts { token }) => {
                let a = crate::text::str_concat("XBL3.0 x=", uhs.as_str());
                let b = crate::text::str_concat(a.as_str(), ";");
                let identity_token = crate::text::str_concat(b.as_str(), token.as_str());
                (
                    AuthFlow { stage: AuthStage::AwaitMcToken, refresh_token },
                    AuthStep::Request(AuthRequest::MinecraftLogin { identity_token }),
                )
            },
            (AuthStage::AwaitMcToken, AuthEvent::MinecraftToken { access_token }) => {
                let bearer_token = access_token.clone();
                (
                    AuthFlow { stage: AuthStage::AwaitProfile { mc_token: access_token }, refresh_token },
                    AuthStep::Request(AuthRequest::Profile { bearer_token }),
                )
            },
            (AuthStage::AwaitProfile { mc_token }, AuthEvent::Profile { id, name }) => {
                let account = Account {
                    id,
                    username: name,
                    account_type: AccountType::Microsoft,
                    access_token: Some(mc_token),
                    refresh_token,
                    xbox_uid: None,
                };
                (AuthFlow { stage: AuthStage::Finished, refresh_token: None }, AuthStep::Done(account))
            },
            (stage, _) => {
                proof {
                    assert(false);
                }
                (AuthFlow { stage, refresh_token }, AuthStep::Failed(AppError::Auth(String::new())))
            },
        }
    }
}

/// A complete exchange: starting from the Xbox Live stage, the four answers
/// (Xbox Live with at least one user hash, XSTS, Minecraft token, profile)
/// lead to the Minecraft login with the identity token made of the first user
/// hash and the XSTS token, and end with a Microsoft account that carries the
/// profile's id and name, the Minecraft token and the flow's refresh token.
pub proof fn lemma_exchange_yields_account(
    f0: AuthFlow,
    e1: AuthEvent,
    f1: AuthFlow,
    s1: AuthStep,
    e2: AuthEvent,
    f2: AuthFlow,
    s2: AuthStep,
    e3: AuthEvent,
    f3: AuthFlow,
    s3: AuthStep,
    e4: AuthEvent,
    f4: AuthFlow,
    s4: AuthStep,
)
    requires
        f0.stage is AwaitXbl,
        e1 matches AuthEvent::XboxLive { user_hashes, .. } && user_hashes@.len() > 0,
        e2 is Xsts,
        e3 is MinecraftToken,
        e4 is Profile,
        advance_relation(f0, e1, f1, s1),
        advance_relation(f1, e2, f2, s2),
        advance_relation(f2, e3, f3, s3),
        advance_relation(f3, e4, f4, s4),
    ensures
        f4.stage is Finished,
        match (e1, e2, s2) {
            (
                AuthEvent::XboxLive { user_hashes, .. },
                AuthEvent::Xsts { token },
                AuthStep::Request(AuthRequest::MinecraftLogin { identity_token }),
            ) => identity_token@ == identity_token_spec(user_hashes@[0]@, token@),
            _ => false,
        },
        match (e3, e4, s4) {
            (
                AuthEvent::MinecraftToken { access_token },
                AuthEvent::Profile { id, name },
                AuthStep::Done(a),
            ) => {
                &&& a.id == id
                &&& a.username == name
                &&& a.account_type == AccountType::Microsoft
                &&& a.access_token == Some(access_token)
                &&& a.refresh_token == f0.refresh_token
                &&& a.xbox_uid is None
            },
            _ => false,
        },
{
}

/// The flow moves only on an answer it waits for.
pub proof fn lemma_moves_only_on_expected(before: AuthFlow, event: AuthEvent, after: AuthFlow, step: AuthStep)
    requires
        advance_relation(before, event, after, step),
    ensures
        expects_spec(before, event),
{
}

/// Whenever the flow asks for a request, it then waits for exactly the answer
/// to that request: the answers of an exchange (Xbox Live, XSTS, Minecraft
/// token, profile) are each taken in turn.
pub proof fn lemma_answer_to_request_is_expected(
    before: AuthFlow,
    event: AuthEvent,
    after: AuthFlow,
    request: AuthRequest,
    answer: AuthEvent,
)
    requires
        advance_relation(before, event, after, AuthStep::Request(request)),
    ensures
        answers(request, answer) <==> expects_spec(after, answer),
{
}

} // verus!
