//! The HTTP server's settings and decisions: which origins may call it, who
//! may log in, who is authorised, and the answers of its resources. The
//! listener, the CORS layer and the HTTP calls are set up by the caller.
use vstd::prelude::*;

use crate::clock::{is_uuid_v4_text, new_uuid_v4, now_utc, Timestamp};
use crate::text::{push_str, seq_starts_with, starts_with, str_eq, string_views, to_owned_string, u64_to_decimal, nat_decimal};

verus! {

/// Where the server listens.
#[derive(Debug)]
pub struct ServerConfig {
    pub host: String,
    pub port: u16,
}

/// Which origins may call the server from a browser.
#[derive(Debug)]
pub struct CorsConfig {
    pub allowed_origins: Vec<String>,
    pub allow_all_localhost: Option<bool>,
}

/// The server's configuration.
#[derive(Debug)]
pub struct Config {
    pub server: ServerConfig,
    pub cors: CorsConfig,
    pub password: String,
    pub jwt_secret: String,
}

impl Default for CorsConfig {
    fn default() -> (res: Self)
        ensures
            res.allowed_origins@.len() == 0,
            res.allow_all_localhost == Some(true),
    {
        CorsConfig { allowed_origins: Vec::new(), allow_all_localhost: Some(true) }
    }
}

/// An origin of a local development server.
pub open spec fn local_origin(origin: Seq<char>) -> bool {
    seq_starts_with(origin, "http://localhost:"@) || seq_starts_with(origin, "http://127.0.0.1:"@)
}

/// The origin may call the server: a local one when those are all allowed
/// (they are not unless said), or one of the allowed origins.
pub open spec fn origin_allowed(c: CorsConfig, origin: Seq<char>) -> bool {
    ((match c.allow_all_localhost { Some(b) => b, None => false }) && local_origin(origin))
        || string_views(c.allowed_origins@).contains(origin)
}

/// With no listed origins and local origins allowed (the default), exactly
/// the local development origins may call the server.
pub proof fn lemma_default_cors_allows_local_only(c: CorsConfig, origin: Seq<char>)
    requires
        c.allowed_origins@.len() == 0,
        c.allow_all_localhost == Some(true),
    ensures
        origin_allowed(c, origin) == local_origin(origin),
{
    assert(string_views(c.allowed_origins@) =~= Seq::<Seq<char>>::empty());
}

/// When local origins are not allowed as such, exactly the listed origins may
/// call the server.
pub proof fn lemma_cors_listed_only(c: CorsConfig, origin: Seq<char>)
    requires
        c.allow_all_localhost != Some(true),
    ensures
        origin_allowed(c, origin) == string_views(c.allowed_origins@).contains(origin),
{
}

/// A listed origin may always call the server.
pub proof fn lemma_listed_origin_allowed(c: CorsConfig, i: int)
    requires
        0 <= i < c.allowed_origins@.len(),
    ensures
        origin_allowed(c, c.allowed_origins@[i]@),
{
    assert(string_views(c.allowed_origins@)[i] == c.allowed_origins@[i]@);
}

impl CorsConfig {
    /// Whether a request from `origin` may be answered (an origin header that
    /// is not text counts as empty).
    pub fn allows_origin(&self, origin: &str) -> (res: bool)
        ensures
            res == origin_allowed(*self, origin@),
    {
        let all_local = match self.allow_all_localhost {
            Some(b) => b,
            None => false,
        };
        if all_local && (starts_with(origin, "http://localhost:") || starts_with(origin, "http://127.0.0.1:")) {
            return true;
        }
        let ghost views = string_views(self.allowed_origins@);
        for i in 0..self.allowed_origins.len()
            invariant
                views == string_views(self.allowed_origins@),
                forall|k: int| 0 <= k < i ==> views[k] != origin@,
        {
            if str_eq(self.allowed_origins[i].as_str(), origin) {
                assert(views[i as int] == origin@);
                return true;
            }
        }
        false
    }
}

/// A login attempt.
#[derive(Debug)]
pub struct LoginRequest {
    pub password: String,
}

/// The token given on login.
#[derive(Debug)]
pub struct LoginResponse {
    pub token: String,
}

/// What a token claims: when it expires and when it was issued, in seconds
/// since the epoch.
#[derive(Debug, Clone, Copy, PartialEq, Eq, Structural)]
pub struct Claims {
    pub exp: i64,
    pub iat: i64,
}

/// A caller that presented a valid token.
#[derive(Debug)]
pub struct AuthUser;

/// The token `jsonwebtoken` signs for the claims with the secret (HS256,
/// default header).
pub uninterp spec fn jwt_for(exp: i64, iat: i64, secret: Seq<char>) -> Seq<char>;

/// `jsonwebtoken::encode` with the default header and an HMAC key from the
/// secret, over the claims `{"exp", "iat"}` (a sorted map serialises as the
/// claims do). The token is named, not stated. It always comes back: the
/// default header asks for HS256, which matches an HMAC key; the header and
/// a map of text keys to integers always serialise to JSON; and HMAC signing
/// returns its digest without a failure case.
#[verifier::external_body]
fn sign_token(exp: i64, iat: i64, secret: &str) -> (res: Option<String>)
    ensures
        res is Some,
        res matches Some(t) ==> t@ == jwt_for(exp, iat, secret@),
{
    let mut claims = std::collections::BTreeMap::new();
    claims.insert("exp", exp);
    claims.insert("iat", iat);
    jsonwebtoken::encode(&jsonwebtoken::Header::default(), &claims, &jsonwebtoken::EncodingKey::from_secret(secret.as_bytes())).ok()
}

/// Seconds in a day.
pub const TOKEN_LIFETIME_SECS: i64 = 86400;

/// The claims of a token issued at `now`: valid for a day.
pub open spec fn claims_at(now: i64) -> Claims {
    Claims { exp: (now + TOKEN_LIFETIME_SECS) as i64, iat: now }
}

/// Logs in: a wrong password is refused (401); the right one gets a token,
/// signed with the configured secret, valid for a day from now.
pub fn login(config: &Config, request: &LoginRequest) -> (res: Result<LoginResponse, u16>)
    ensures
        request.password@ != config.password@ ==> res == Err::<LoginResponse, u16>(401),
        request.password@ == config.password@ ==> (res matches Ok(r)
            && exists|now: i64| now >= 0 && now + TOKEN_LIFETIME_SECS <= i64::MAX
                && r.token@ == #[trigger] jwt_for(claims_at(now).exp, claims_at(now).iat, config.jwt_secret@)),
{
    if !str_eq(request.password.as_str(), config.password.as_str()) {
        return Err(401);
    }
    let now = now_utc().secs;
    let claims = Claims { exp: now + TOKEN_LIFETIME_SECS, iat: now };
    match sign_token(claims.exp, claims.iat, config.jwt_secret.as_str()) {
        Some(token) => {
            assert(token@ == jwt_for(claims_at(now).exp, claims_at(now).iat, config.jwt_secret@));
            Ok(LoginResponse { token })
        },
        None => Err(500),
    }
}

/// The token of an `Authorization` header: what follows `Bearer `.
pub open spec fn bearer(header: Seq<char>) -> Option<Seq<char>> {
    if seq_starts_with(header, "Bearer "@) {
        Some(header.skip(7))
    } else {
        None
    }
}

impl AuthUser {
    /// The token a request presents (the `Authorization` header, `None` when
    /// it is missing or not text); a request without one is refused (401).
    pub fn bearer_token(header: Option<&str>) -> (res: Result<String, u16>)
        ensures
            match header {
                None => res == Err::<String, u16>(401),
                Some(h) => match bearer(h@) {
                    Some(t) => res matches Ok(s) && s@ == t,
                    None => res == Err::<String, u16>(401),
                },
            },
    {
        let h = match header {
            Some(h) => h,
            None => { return Err(401); },
        };
        if !starts_with(h, "Bearer ") {
            return Err(401);
        }
        proof {
            reveal_strlit("Bearer ");
        }
        let cs = crate::text::chars_of(h);
        let mut out: Vec<char> = Vec::new();
        for i in 7..cs.len()
            invariant
                cs@ == h@,
                7 <= cs.len(),
                out@ == cs@.subrange(7, i as int),
        {
            out.push(cs[i]);
            assert(cs@.subrange(7, i + 1) =~= cs@.subrange(7, i as int).push(cs@[i as int]));
        }
        assert(out@ =~= h@.skip(7));
        Ok(crate::text::string_from_chars(&out))
    }

    /// The request is let in when its token checks out (`valid`: the token
    /// decodes with the server's secret and has not expired).
    pub fn from_request_parts(token: Result<String, u16>, valid: bool) -> (res: Result<AuthUser, u16>)
        ensures
            match token {
                Ok(_) => if valid { res is Ok } else { res == Err::<AuthUser, u16>(401) },
                Err(code) => res == Err::<AuthUser, u16>(code),
            },
    {
        match token {
            Ok(_) => if valid { Ok(AuthUser) } else { Err(401) },
            Err(code) => Err(code),
        }
    }
}

/// A query to run after a delay.
#[derive(Debug)]
pub struct ExecutionRequest {
    pub seconds: u32,
    pub query: String,
}

/// Whether the request was passed on.
#[derive(Debug)]
pub struct ExecutionResponse {
    pub success: bool,
    pub message: String,
}

/// The URL an execution for `key` is posted to on the Restate server at `base`.
pub fn execution_url(base: &str, key: &str) -> (res: String)
    ensures
        res@ == base@ + "/ScheduledSession/"@ + key@ + "/run/send/"@,
{
    let mut u = to_owned_string(base);
    push_str(&mut u, "/ScheduledSession/");
    push_str(&mut u, key);
    push_str(&mut u, "/run/send/");
    u
}

/// The answer once the execution was posted (`None`: unreachable, 500;
/// `Some(false)`: refused, 502).
pub fn run_execution(outcome: Option<bool>) -> (res: Result<ExecutionResponse, u16>)
    ensures
        outcome is None ==> res == Err::<ExecutionResponse, u16>(500),
        outcome == Some(false) ==> res == Err::<ExecutionResponse, u16>(502),
        outcome == Some(true) ==> (res matches Ok(r) && r.success && r.message@ == "Execution request sent successfully"@),
{
    match outcome {
        None => Err(500),
        Some(false) => Err(502),
        Some(true) => Ok(ExecutionResponse { success: true, message: to_owned_string("Execution request sent successfully") }),
    }
}

/// A scheduled job as the server lists it.
#[derive(Debug)]
pub struct Schedule {
    pub id: String,
    pub name: String,
    pub description: String,
    pub schedule: String,
    pub is_active: bool,
    pub created_at: Timestamp,
    pub updated_at: Timestamp,
}

/// A request for a new schedule.
#[derive(Debug)]
pub struct CreateScheduleRequest {
    pub name: String,
    pub description: String,
    pub schedule: String,
    pub is_active: Option<bool>,
}

/// The schedule created for a request: a fresh id, active unless said
/// otherwise, created and updated now (answered with 201).
pub fn create_schedule(request: CreateScheduleRequest) -> (res: (u16, Schedule))
    ensures
        res.0 == 201,
        is_uuid_v4_text(res.1.id@),
        res.1.name == request.name && res.1.description == request.description && res.1.schedule == request.schedule,
        res.1.is_active == match request.is_active { Some(b) => b, None => true },
        res.1.created_at == res.1.updated_at,
{
    let now = now_utc();
    let schedule = Schedule {
        id: new_uuid_v4(),
        name: request.name,
        description: request.description,
        schedule: request.schedule,
        is_active: match request.is_active { Some(b) => b, None => true },
        created_at: now,
        updated_at: now,
    };
    (201, schedule)
}

fn sample(name: &str, description: &str, schedule: &str) -> (res: Schedule)
    ensures
        is_uuid_v4_text(res.id@),
        res.name@ == name@ && res.description@ == description@ && res.schedule@ == schedule@,
        res.is_active,
{
    let created = now_utc();
    let updated = now_utc();
    Schedule {
        id: new_uuid_v4(),
        name: to_owned_string(name),
        description: to_owned_string(description),
        schedule: to_owned_string(schedule),
        is_active: true,
        created_at: created,
        updated_at: updated,
    }
}

/// The schedules the server lists: two active samples.
pub fn get_schedules() -> (res: Vec<Schedule>)
    ensures
        res@.len() == 2,
        res@[0].name@ == "Morning Email Check"@,
        res@[0].description@ == "Check emails every morning and notify if important"@,
        res@[0].schedule@ == "0 8 * * 1-5"@,
        res@[1].name@ == "Weather Update"@,
        res@[1].description@ == "Get weather forecast for the day"@,
        res@[1].schedule@ == "0 7 * * *"@,
        forall|i: int| 0 <= i < 2 ==> (#[trigger] res@[i]).is_active && is_uuid_v4_text(res@[i].id@),
{
    let mut v: Vec<Schedule> = Vec::new();
    v.push(sample("Morning Email Check", "Check emails every morning and notify if important", "0 8 * * 1-5"));
    v.push(sample("Weather Update", "Get weather forecast for the day", "0 7 * * *"));
    v
}

/// The address the server binds: `<host>:<port>`.
pub fn bind_address(config: &ServerConfig) -> (res: String)
    ensures
        res@ == config.host@ + ":"@ + nat_decimal(config.port as nat),
{
    let mut a = to_owned_string(config.host.as_str());
    push_str(&mut a, ":");
    let p = u64_to_decimal(config.port as u64);
    push_str(&mut a, p.as_str());
    a
}

} // verus!
