use vstd::prelude::*;

use crate::ids::CharacterId;
use crate::strutil::{
    chars_of, push_char, spec_trim, spec_u64_dec, str_eq, string_of_chars,
    trim_chars, append_u64_dec,
};
use crate::signatures::{digit_val, is_digit_char, lemma_digits_value_nonneg, spec_all_digits, spec_digit_val, spec_digits_value, spec_is_digit};
use crate::time::{Timestamp, MAX_EPOCH_MILLIS};

verus! {

/// Why an auth or API operation failed.
#[derive(Clone, Debug, PartialEq, Eq)]
pub enum EsiError {
    /// A required configuration option is missing or empty.
    InvalidConfig(String),
    /// The API client library reported a transport or protocol failure.
    Esi(String),
    /// The credential vault reported a failure.
    Vault(String),
    /// A stored session could not be serialized or deserialized.
    SessionSerialization(String),
    /// A code exchange was attempted with no login flow pending.
    LoginNotStarted,
    /// The callback state does not match the pending login flow.
    StateMismatch { expected: String, got: String },
    /// The authentication response carried no token claims.
    MissingClaims,
    /// The API client holds no access token.
    MissingAccessToken,
    /// The API client holds no access token expiration.
    MissingAccessExpiration,
    /// The API client holds no refresh token.
    MissingRefreshToken,
    /// The token subject claim is not of the form `CHARACTER:EVE:{id}`.
    InvalidTokenSubject(String),
    /// The token scope claim is neither a string nor a list of strings.
    InvalidScopeClaim(String),
    /// The character id does not fit the endpoint's integer bounds.
    InvalidCharacterId(CharacterId),
    /// The granted scopes do not cover the required ones.
    MissingRequiredScopes { missing: Vec<String> },
    /// The session cannot be made valid without a new interactive login.
    NeedsReauth { reason: String },
    /// A failure described only by its text.
    Message(String),
}

pub type EsiResult<T> = Result<T, EsiError>;

/// Mathematical image of an [`EsiError`].
pub enum EsiErrorV {
    InvalidConfig(Seq<char>),
    Esi(Seq<char>),
    Vault(Seq<char>),
    SessionSerialization(Seq<char>),
    LoginNotStarted,
    StateMismatch { expected: Seq<char>, got: Seq<char> },
    MissingClaims,
    MissingAccessToken,
    MissingAccessExpiration,
    MissingRefreshToken,
    InvalidTokenSubject(Seq<char>),
    InvalidScopeClaim(Seq<char>),
    InvalidCharacterId(CharacterId),
    MissingRequiredScopes { missing: Seq<Seq<char>> },
    NeedsReauth { reason: Seq<char> },
    Message(Seq<char>),
}

/// The view of a list of scope strings.
pub open spec fn scopes_view(scopes: Seq<String>) -> Seq<Seq<char>> {
    scopes.map_values(|s: String| s@)
}

impl View for EsiError {
    type V = EsiErrorV;

    open spec fn view(&self) -> EsiErrorV {
        match self {
            EsiError::InvalidConfig(s) => EsiErrorV::InvalidConfig(s@),
            EsiError::Esi(s) => EsiErrorV::Esi(s@),
            EsiError::Vault(s) => EsiErrorV::Vault(s@),
            EsiError::SessionSerialization(s) => EsiErrorV::SessionSerialization(s@),
            EsiError::LoginNotStarted => EsiErrorV::LoginNotStarted,
            EsiError::StateMismatch { expected, got } => EsiErrorV::StateMismatch {
                expected: expected@,
                got: got@,
            },
            EsiError::MissingClaims => EsiErrorV::MissingClaims,
            EsiError::MissingAccessToken => EsiErrorV::MissingAccessToken,
            EsiError::MissingAccessExpiration => EsiErrorV::MissingAccessExpiration,
            EsiError::MissingRefreshToken => EsiErrorV::MissingRefreshToken,
            EsiError::InvalidTokenSubject(s) => EsiErrorV::InvalidTokenSubject(s@),
            EsiError::InvalidScopeClaim(s) => EsiErrorV::InvalidScopeClaim(s@),
            EsiError::InvalidCharacterId(c) => EsiErrorV::InvalidCharacterId(*c),
            EsiError::MissingRequiredScopes { missing } => EsiErrorV::MissingRequiredScopes {
                missing: scopes_view(missing@),
            },
            EsiError::NeedsReauth { reason } => EsiErrorV::NeedsReauth { reason: reason@ },
            EsiError::Message(s) => EsiErrorV::Message(s@),
        }
    }
}

impl EsiError {
    /// A failure described only by its text.
    pub fn message(msg: &str) -> (r: EsiError)
        ensures
            r@ == EsiErrorV::Message(msg@),
    {
        EsiError::Message(String::from_str(msg))
    }
}

/// The quoted, comma-separated rendering of a scope list, in brackets.
pub open spec fn spec_scope_list_text(scopes: Seq<Seq<char>>) -> Seq<char>
    decreases scopes.len(),
{
    if scopes.len() == 0 {
        Seq::empty()
    } else if scopes.len() == 1 {
        seq!['"'] + scopes[0] + seq!['"']
    } else {
        spec_scope_list_text(scopes.drop_last()) + seq![',', ' ', '"'] + scopes.last() + seq!['"']
    }
}

/// The one-line description of an error, as the operator sees it.
pub open spec fn spec_esi_error_text(e: EsiErrorV) -> Seq<char> {
    match e {
        EsiErrorV::InvalidConfig(s) => "invalid config: "@ + s,
        EsiErrorV::Esi(_) => "esi operation failed"@,
        EsiErrorV::Vault(_) => "keyring operation failed"@,
        EsiErrorV::SessionSerialization(_) => "session serialization failed"@,
        EsiErrorV::LoginNotStarted => "login was not started before code exchange"@,
        EsiErrorV::StateMismatch { expected, got } =>
            "state mismatch: expected "@ + expected + ", got "@ + got,
        EsiErrorV::MissingClaims => "token claims are missing from the authentication response"@,
        EsiErrorV::MissingAccessToken => "esi did not provide an access token"@,
        EsiErrorV::MissingAccessExpiration => "esi did not provide access token expiration"@,
        EsiErrorV::MissingRefreshToken => "esi did not provide a refresh token"@,
        EsiErrorV::InvalidTokenSubject(s) => "invalid token subject format: "@ + s,
        EsiErrorV::InvalidScopeClaim(s) => "invalid token scope claim format: "@ + s,
        EsiErrorV::InvalidCharacterId(c) => "character id CharacterId("@
            + spec_u64_dec(c.0 as nat) + ") does not fit ESI integer bounds"@,
        EsiErrorV::MissingRequiredScopes { missing } =>
            "missing required scopes: ["@ + spec_scope_list_text(missing) + "]"@,
        EsiErrorV::NeedsReauth { reason } => "reauthentication required: "@ + reason,
        EsiErrorV::Message(s) => s,
    }
}

fn scope_list_text(scopes: &Vec<String>) -> (r: String)
    ensures
        r@ == spec_scope_list_text(scopes_view(scopes@)),
{
    let ghost sv = scopes_view(scopes@);
    let mut out = String::new();
    let n: usize = scopes.len();
    let mut i: usize = 0;
    proof {
        assert(sv.subrange(0, 0) =~= Seq::<Seq<char>>::empty());
        assert(out@ =~= spec_scope_list_text(sv.subrange(0, 0)));
    }
    while i < n
        invariant
            0 <= i <= n,
            n == scopes@.len(),
            sv == scopes_view(scopes@),
            out@ == spec_scope_list_text(sv.subrange(0, i as int)),
        decreases n - i,
    {
        proof {
            assert(sv[i as int] == scopes@[i as int]@);
            assert(sv.subrange(0, i + 1).drop_last() =~= sv.subrange(0, i as int));
            assert(sv.subrange(0, i + 1).last() == sv[i as int]);
        }
        if i > 0 {
            out.append(", ");
        }
        push_char(&mut out, '"');
        out.append(scopes[i].as_str());
        push_char(&mut out, '"');
        proof {
            if i == 0 {
                assert(out@ =~= spec_scope_list_text(sv.subrange(0, 1)));
            } else {
                reveal_strlit(", ");
                assert(", "@ =~= seq![',', ' ']);
                assert(out@ =~= spec_scope_list_text(sv.subrange(0, i + 1)));
            }
        }
        i = i + 1;
    }
    proof {
        assert(sv.subrange(0, n as int) =~= sv);
    }
    out
}

impl EsiError {
    /// The one-line description of the error, as the operator sees it.
    pub fn describe(&self) -> (r: String)
        ensures
            r@ == spec_esi_error_text(self@),
    {
        match self {
            EsiError::InvalidConfig(s) => {
                let mut out = String::from_str("invalid config: ");
                out.append(s.as_str());
                out
            },
            EsiError::Esi(_) => String::from_str("esi operation failed"),
            EsiError::Vault(_) => String::from_str("keyring operation failed"),
            EsiError::SessionSerialization(_) => String::from_str(
                "session serialization failed",
            ),
            EsiError::LoginNotStarted => String::from_str(
                "login was not started before code exchange",
            ),
            EsiError::StateMismatch { expected, got } => {
                let mut out = String::from_str("state mismatch: expected ");
                out.append(expected.as_str());
                out.append(", got ");
                out.append(got.as_str());
                out
            },
            EsiError::MissingClaims => String::from_str(
                "token claims are missing from the authentication response",
            ),
            EsiError::MissingAccessToken => String::from_str(
                "esi did not provide an access token",
            ),
            EsiError::MissingAccessExpiration => String::from_str(
                "esi did not provide access token expiration",
            ),
            EsiError::MissingRefreshToken => String::from_str(
                "esi did not provide a refresh token",
            ),
            EsiError::InvalidTokenSubject(s) => {
                let mut out = String::from_str("invalid token subject format: ");
                out.append(s.as_str());
                out
            },
            EsiError::InvalidScopeClaim(s) => {
                let mut out = String::from_str("invalid token scope claim format: ");
                out.append(s.as_str());
                out
            },
            EsiError::InvalidCharacterId(c) => {
                let mut out = String::from_str("character id CharacterId(");
                append_u64_dec(&mut out, c.0);
                out.append(") does not fit ESI integer bounds");
                out
            },
            EsiError::MissingRequiredScopes { missing } => {
                let mut out = String::from_str("missing required scopes: [");
                let list = scope_list_text(missing);
                out.append(list.as_str());
                out.append("]");
                out
            },
            EsiError::NeedsReauth { reason } => {
                let mut out = String::from_str("reauthentication required: ");
                out.append(reason.as_str());
                out
            },
            EsiError::Message(s) => s.clone(),
        }
    }
}

/// A pending interactive login: the URL to visit and the state token the
/// callback must echo.
#[derive(Clone, Debug, PartialEq, Eq)]
pub struct LoginRequest {
    pub authorization_url: String,
    pub state: String,
}

/// Mathematical image of an [`AuthSession`].
pub struct AuthSessionV {
    pub character_id: CharacterId,
    pub character_name: Option<Seq<char>>,
    pub scopes: Seq<Seq<char>>,
    pub access_token: Seq<char>,
    pub access_expires_at: Timestamp,
    pub refresh_token: Seq<char>,
    pub updated_at: Timestamp,
}

/// One character's authenticated session as the vault stores it.
#[derive(Clone, Debug, PartialEq, Eq)]
pub struct AuthSession {
    pub character_id: CharacterId,
    pub character_name: Option<String>,
    pub scopes: Vec<String>,
    pub access_token: String,
    pub access_expires_at: Timestamp,
    pub refresh_token: String,
    pub updated_at: Timestamp,
}

impl View for AuthSession {
    type V = AuthSessionV;

    open spec fn view(&self) -> AuthSessionV {
        AuthSessionV {
            character_id: self.character_id,
            character_name: crate::events::view_opt_string(self.character_name),
            scopes: scopes_view(self.scopes@),
            access_token: self.access_token@,
            access_expires_at: self.access_expires_at,
            refresh_token: self.refresh_token@,
            updated_at: self.updated_at,
        }
    }
}

/// A copy of a scope list with the same views.
pub fn clone_scopes(scopes: &Vec<String>) -> (r: Vec<String>)
    ensures
        scopes_view(r@) == scopes_view(scopes@),
        r@.len() == scopes@.len(),
{
    let mut out: Vec<String> = Vec::new();
    let n: usize = scopes.len();
    let mut i: usize = 0;
    while i < n
        invariant
            0 <= i <= n,
            n == scopes@.len(),
            out@.len() == i,
            forall|j: int| 0 <= j < i ==> #[trigger] out@[j]@ == scopes@[j]@,
        decreases n - i,
    {
        out.push(scopes[i].clone());
        i = i + 1;
    }
    proof {
        assert(scopes_view(out@) =~= scopes_view(scopes@));
    }
    out
}

impl AuthSession {
    /// Every stored session carries representable timestamps.
    pub open spec fn wf(&self) -> bool {
        self.access_expires_at.wf() && self.updated_at.wf()
    }

    /// A copy with the same mathematical image.
    pub fn duplicate(&self) -> (r: AuthSession)
        ensures
            r@ == self@,
    {
        let r = AuthSession {
            character_id: self.character_id,
            character_name: crate::events::clone_opt_string(&self.character_name),
            scopes: clone_scopes(&self.scopes),
            access_token: self.access_token.clone(),
            access_expires_at: self.access_expires_at,
            refresh_token: self.refresh_token.clone(),
            updated_at: self.updated_at,
        };
        r
    }

    /// Whether the access token must be refreshed now: true exactly when
    /// it expires at or before `now` plus the skew.
    pub fn should_refresh(&self, now: Timestamp, refresh_skew_millis: u64) -> (r: bool)
        requires
            self.wf(),
            now.wf(),
        ensures
            r == (self.access_expires_at.spec_millis()
                <= now.spec_millis() + refresh_skew_millis),
    {
        match now.checked_add_millis(refresh_skew_millis) {
            Some(deadline) => self.access_expires_at.le(deadline),
            None => {
                proof {
                    assert(self.access_expires_at.spec_millis() <= MAX_EPOCH_MILLIS);
                }
                true
            },
        }
    }
}

/// The tokens an interactive login hands back.
#[derive(Clone, Debug, PartialEq, Eq)]
pub struct InitialAuthTokens {
    pub character_id: CharacterId,
    pub character_name: Option<String>,
    pub scopes: Vec<String>,
    pub access_token: String,
    pub access_expires_at: Timestamp,
    pub refresh_token: String,
}

/// The tokens a refresh hands back.
#[derive(Clone, Debug, PartialEq, Eq)]
pub struct RefreshTokens {
    pub access_token: String,
    pub access_expires_at: Timestamp,
    pub refresh_token: String,
}

/// What holds of one character's session after a validity check.
#[derive(Clone, Debug, PartialEq, Eq)]
pub enum EnsureSessionResult {
    Missing,
    Ready(AuthSession),
    NeedsReauth { reason: String },
}

/// When the background refresh task should act next.
#[derive(Clone, Debug, PartialEq, Eq)]
pub enum NextRefreshDelay {
    ReadyNow,
    Wait(u64),
    NeedsReauth { reason: String },
}

/// The required scopes the granted ones do not cover, in required order.
pub open spec fn spec_missing_scopes(
    granted: Seq<Seq<char>>,
    required: Seq<Seq<char>>,
) -> Seq<Seq<char>>
    decreases required.len(),
{
    if required.len() == 0 {
        Seq::empty()
    } else {
        let head: Seq<Seq<char>> = if granted.contains(required[0]) {
            Seq::empty()
        } else {
            seq![required[0]]
        };
        head + spec_missing_scopes(granted, required.drop_first())
    }
}

fn scopes_contain(granted: &Vec<String>, scope: &String) -> (r: bool)
    ensures
        r == scopes_view(granted@).contains(scope@),
{
    let n: usize = granted.len();
    let mut i: usize = 0;
    while i < n
        invariant
            0 <= i <= n,
            n == granted@.len(),
            forall|j: int| 0 <= j < i ==> #[trigger] granted@[j]@ != scope@,
        decreases n - i,
    {
        if str_eq(granted[i].as_str(), scope.as_str()) {
            proof {
                assert(scopes_view(granted@)[i as int] == scope@);
            }
            return true;
        }
        i = i + 1;
    }
    proof {
        assert(!scopes_view(granted@).contains(scope@)) by {
            if scopes_view(granted@).contains(scope@) {
                let j = choose|j: int| 0 <= j < scopes_view(granted@).len()
                    && scopes_view(granted@)[j] == scope@;
                assert(granted@[j]@ == scope@);
            }
        }
    }
    false
}

/// The required scopes the granted ones do not cover, in required order.
pub fn missing_required_scopes(granted: &Vec<String>, required: &Vec<String>) -> (r: Vec<String>)
    ensures
        scopes_view(r@) == spec_missing_scopes(scopes_view(granted@), scopes_view(required@)),
{
    let ghost gv = scopes_view(granted@);
    let ghost rv = scopes_view(required@);
    let n: usize = required.len();
    let mut out: Vec<String> = Vec::new();
    let mut i: usize = 0;
    proof {
        assert(rv.subrange(0, n as int) =~= rv);
        assert(scopes_view(out@) + spec_missing_scopes(gv, rv) =~= spec_missing_scopes(gv, rv));
    }
    while i < n
        invariant
            0 <= i <= n,
            n == required@.len(),
            gv == scopes_view(granted@),
            rv == scopes_view(required@),
            spec_missing_scopes(gv, rv) == scopes_view(out@)
                + spec_missing_scopes(gv, rv.subrange(i as int, n as int)),
        decreases n - i,
    {
        let ghost suffix = rv.subrange(i as int, n as int);
        let ghost prev = scopes_view(out@);
        proof {
            assert(suffix[0] == rv[i as int]);
            assert(rv[i as int] == required@[i as int]@);
            assert(suffix.drop_first() =~= rv.subrange(i + 1, n as int));
        }
        if !scopes_contain(granted, &required[i]) {
            out.push(required[i].clone());
            proof {
                assert(scopes_view(out@) =~= prev.push(rv[i as int]));
                assert(prev + (seq![rv[i as int]]
                    + spec_missing_scopes(gv, suffix.drop_first()))
                    =~= scopes_view(out@) + spec_missing_scopes(gv, suffix.drop_first()));
            }
        } else {
            proof {
                assert(Seq::<Seq<char>>::empty()
                    + spec_missing_scopes(gv, suffix.drop_first())
                    =~= spec_missing_scopes(gv, suffix.drop_first()));
            }
        }
        i = i + 1;
    }
    proof {
        assert(rv.subrange(n as int, n as int) =~= Seq::<Seq<char>>::empty());
        assert(scopes_view(out@) + Seq::<Seq<char>>::empty() =~= scopes_view(out@));
    }
    out
}

} // verus!

verus! {

/// What a validity check decides before any network or vault write.
#[derive(Clone, Debug, PartialEq, Eq)]
pub enum SessionEvaluation {
    /// No session is stored for the character.
    Missing,
    /// The stored session no longer covers the required scopes; it must be
    /// cleared and the character logged in again.
    ScopeGated { missing: Vec<String> },
    /// The access token is fresh enough to use as it stands.
    Fresh(AuthSession),
    /// The access token expires within the skew; a refresh is due.
    NeedsRefresh,
}

/// Decides what to do with a loaded session: nothing to do when none is
/// stored; a scope gate when the granted scopes no longer cover the
/// required ones; otherwise use it as is or refresh it, by the skew rule.
pub fn evaluate_session(
    session: &Option<AuthSession>,
    required_scopes: &Vec<String>,
    now: Timestamp,
    refresh_skew_millis: u64,
) -> (r: SessionEvaluation)
    requires
        now.wf(),
        match session {
            Some(s) => s.wf(),
            None => true,
        },
    ensures
        match session {
            None => r == SessionEvaluation::Missing,
            Some(s) => {
                let missing = spec_missing_scopes(
                    scopes_view(s.scopes@),
                    scopes_view(required_scopes@),
                );
                if missing.len() > 0 {
                    match r {
                        SessionEvaluation::ScopeGated { missing: m } =>
                            scopes_view(m@) == missing,
                        _ => false,
                    }
                } else if s.access_expires_at.spec_millis()
                    > now.spec_millis() + refresh_skew_millis {
                    match r {
                        SessionEvaluation::Fresh(out) => out@ == s@,
                        _ => false,
                    }
                } else {
                    r == SessionEvaluation::NeedsRefresh
                }
            },
        },
{
    match session {
        None => SessionEvaluation::Missing,
        Some(s) => {
            let missing = missing_required_scopes(&s.scopes, required_scopes);
            if missing.len() > 0 {
                proof {
                    assert(scopes_view(missing@).len() == missing@.len());
                }
                SessionEvaluation::ScopeGated { missing }
            } else if !s.should_refresh(now, refresh_skew_millis) {
                SessionEvaluation::Fresh(s.duplicate())
            } else {
                proof {
                    assert(scopes_view(missing@).len() == 0);
                }
                SessionEvaluation::NeedsRefresh
            }
        },
    }
}

/// Folds freshly refreshed tokens into a session: the tokens replace the
/// old ones, the update time becomes `now`, and the scopes are checked
/// against the required ones once more.
pub fn apply_refresh_tokens(
    session: &AuthSession,
    tokens: &RefreshTokens,
    required_scopes: &Vec<String>,
    now: Timestamp,
) -> (r: Result<AuthSession, EsiError>)
    ensures
        ({
            let missing = spec_missing_scopes(
                scopes_view(session.scopes@),
                scopes_view(required_scopes@),
            );
            match r {
                Ok(updated) => missing.len() == 0 && updated@ == (AuthSessionV {
                    access_token: tokens.access_token@,
                    access_expires_at: tokens.access_expires_at,
                    refresh_token: tokens.refresh_token@,
                    updated_at: now,
                    ..session@
                }),
                Err(e) => missing.len() > 0 && match e@ {
                    EsiErrorV::MissingRequiredScopes { missing: m } => m == missing,
                    _ => false,
                },
            }
        }),
{
    let missing = missing_required_scopes(&session.scopes, required_scopes);
    if missing.len() > 0 {
        proof {
            assert(scopes_view(missing@).len() == missing@.len());
        }
        return Err(EsiError::MissingRequiredScopes { missing });
    }
    proof {
        assert(scopes_view(missing@).len() == 0);
    }
    let mut updated = session.duplicate();
    updated.access_token = tokens.access_token.clone();
    updated.access_expires_at = tokens.access_expires_at;
    updated.refresh_token = tokens.refresh_token.clone();
    updated.updated_at = now;
    Ok(updated)
}

/// What to do with the stored session once a refresh attempt has returned.
#[derive(Clone, Debug, PartialEq, Eq)]
pub enum RefreshSettlement {
    /// Persist this updated session and report the character ready.
    Persist(AuthSession),
    /// Clear the stored session and demand a new interactive login.
    ClearAndReauth { reason: String },
    /// Keep the stored session untouched and demand reauthentication: the
    /// refresh token may still be honoured on a later try.
    KeepAndReauth { reason: String },
}

/// Settles a refresh attempt against the stored session: fresh tokens fold
/// in and are persisted; a scope regression clears the session; a failed
/// refresh keeps the stored session exactly as it is, so the refresh token
/// can be tried again later.
pub fn settle_refresh_outcome(
    session: &AuthSession,
    outcome: &Result<RefreshTokens, EsiError>,
    required_scopes: &Vec<String>,
    now: Timestamp,
) -> (r: RefreshSettlement)
    ensures
        match outcome {
            Ok(tokens) => {
                let missing = spec_missing_scopes(
                    scopes_view(session.scopes@),
                    scopes_view(required_scopes@),
                );
                if missing.len() == 0 {
                    match r {
                        RefreshSettlement::Persist(updated) => updated@ == (AuthSessionV {
                            access_token: tokens.access_token@,
                            access_expires_at: tokens.access_expires_at,
                            refresh_token: tokens.refresh_token@,
                            updated_at: now,
                            ..session@
                        }),
                        _ => false,
                    }
                } else {
                    match r {
                        RefreshSettlement::ClearAndReauth { reason } => reason@
                            == spec_esi_error_text(
                                EsiErrorV::MissingRequiredScopes { missing },
                            ),
                        _ => false,
                    }
                }
            },
            Err(e) => match r {
                RefreshSettlement::KeepAndReauth { reason } => reason@
                    == spec_esi_error_text(e@),
                _ => false,
            },
        },
{
    match outcome {
        Ok(tokens) => match apply_refresh_tokens(session, tokens, required_scopes, now) {
            Ok(updated) => RefreshSettlement::Persist(updated),
            Err(err) => RefreshSettlement::ClearAndReauth { reason: err.describe() },
        },
        Err(err) => RefreshSettlement::KeepAndReauth { reason: err.describe() },
    }
}

/// Builds the session an interactive login establishes, failing with the
/// missing scopes when the granted ones do not cover the required ones.
pub fn complete_login_session(
    tokens: &InitialAuthTokens,
    required_scopes: &Vec<String>,
    now: Timestamp,
) -> (r: Result<AuthSession, EsiError>)
    ensures
        ({
            let missing = spec_missing_scopes(
                scopes_view(tokens.scopes@),
                scopes_view(required_scopes@),
            );
            match r {
                Ok(session) => missing.len() == 0 && session@ == (AuthSessionV {
                    character_id: tokens.character_id,
                    character_name: crate::events::view_opt_string(tokens.character_name),
                    scopes: scopes_view(tokens.scopes@),
                    access_token: tokens.access_token@,
                    access_expires_at: tokens.access_expires_at,
                    refresh_token: tokens.refresh_token@,
                    updated_at: now,
                }),
                Err(e) => missing.len() > 0 && match e@ {
                    EsiErrorV::MissingRequiredScopes { missing: m } => m == missing,
                    _ => false,
                },
            }
        }),
{
    let missing = missing_required_scopes(&tokens.scopes, required_scopes);
    if missing.len() > 0 {
        proof {
            assert(scopes_view(missing@).len() == missing@.len());
        }
        return Err(EsiError::MissingRequiredScopes { missing });
    }
    proof {
        assert(scopes_view(missing@).len() == 0);
    }
    Ok(AuthSession {
        character_id: tokens.character_id,
        character_name: crate::events::clone_opt_string(&tokens.character_name),
        scopes: clone_scopes(&tokens.scopes),
        access_token: tokens.access_token.clone(),
        access_expires_at: tokens.access_expires_at,
        refresh_token: tokens.refresh_token.clone(),
        updated_at: now,
    })
}

/// What the deterministic refresh schedule decides, and whether the stored
/// session must be cleared first.
#[derive(Clone, Debug, PartialEq, Eq)]
pub struct RefreshScheduleDecision {
    pub delay: NextRefreshDelay,
    pub clear_session: bool,
}

/// The reason reported when no session is stored for the character.
pub fn session_missing_reason() -> (r: String)
    ensures
        r@ == "session missing for selected character"@,
{
    String::from_str("session missing for selected character")
}

/// Computes when the refresh task should act next, without any network
/// call: reauth when the session is missing or scope-gated (clearing it in
/// the latter case), now when the token is within the skew, and otherwise
/// a wait until the token enters the skew window, no shorter than the
/// floor.
pub fn next_refresh_delay(
    session: &Option<AuthSession>,
    required_scopes: &Vec<String>,
    now: Timestamp,
    refresh_skew_millis: u64,
    floor_millis: u64,
) -> (r: RefreshScheduleDecision)
    requires
        now.wf(),
        match session {
            Some(s) => s.wf(),
            None => true,
        },
        refresh_skew_millis <= u64::MAX - floor_millis,
    ensures
        match session {
            None => !r.clear_session && match r.delay {
                NextRefreshDelay::NeedsReauth { reason } =>
                    reason@ == "session missing for selected character"@,
                _ => false,
            },
            Some(s) => {
                let missing = spec_missing_scopes(
                    scopes_view(s.scopes@),
                    scopes_view(required_scopes@),
                );
                if missing.len() > 0 {
                    r.clear_session && match r.delay {
                        NextRefreshDelay::NeedsReauth { reason } => reason@
                            == spec_esi_error_text(
                                EsiErrorV::MissingRequiredScopes { missing },
                            ),
                        _ => false,
                    }
                } else if s.access_expires_at.spec_millis()
                    <= now.spec_millis() + refresh_skew_millis {
                    !r.clear_session && r.delay == NextRefreshDelay::ReadyNow
                } else {
                    !r.clear_session && match r.delay {
                        NextRefreshDelay::Wait(w) => {
                            let exact = s.access_expires_at.spec_millis() - now.spec_millis()
                                - refresh_skew_millis;
                            w == if exact >= floor_millis { exact } else { floor_millis as int }
                        },
                        _ => false,
                    }
                }
            },
        },
{
    match session {
        None => RefreshScheduleDecision {
            delay: NextRefreshDelay::NeedsReauth { reason: session_missing_reason() },
            clear_session: false,
        },
        Some(s) => {
            let missing = missing_required_scopes(&s.scopes, required_scopes);
            if missing.len() > 0 {
                proof {
                    assert(scopes_view(missing@).len() == missing@.len());
                }
                let err = EsiError::MissingRequiredScopes { missing };
                let reason = err.describe();
                RefreshScheduleDecision {
                    delay: NextRefreshDelay::NeedsReauth { reason },
                    clear_session: true,
                }
            } else if s.should_refresh(now, refresh_skew_millis) {
                proof {
                    assert(scopes_view(missing@).len() == 0);
                }
                RefreshScheduleDecision {
                    delay: NextRefreshDelay::ReadyNow,
                    clear_session: false,
                }
            } else {
                proof {
                    assert(scopes_view(missing@).len() == 0);
                }
                let gap: i64 = s.access_expires_at.millis_since(now);
                proof {
                    assert(gap > refresh_skew_millis);
                }
                let exact: u64 = (gap as u64) - refresh_skew_millis;
                let wait: u64 = if exact >= floor_millis {
                    exact
                } else {
                    floor_millis
                };
                RefreshScheduleDecision {
                    delay: NextRefreshDelay::Wait(wait),
                    clear_session: false,
                }
            }
        },
    }
}

/// Decides whether a managed client may come up from a validity check:
/// only a ready session lets it; anything else demands reauthentication.
pub fn connect_session_gate(result: &EnsureSessionResult) -> (r: Result<(), EsiError>)
    ensures
        match result {
            EnsureSessionResult::Ready(_) => r is Ok,
            EnsureSessionResult::Missing => match r {
                Err(e) => match e@ {
                    EsiErrorV::NeedsReauth { reason } =>
                        reason == "session missing for selected character"@,
                    _ => false,
                },
                _ => false,
            },
            EnsureSessionResult::NeedsReauth { reason } => match r {
                Err(e) => e@ == EsiErrorV::NeedsReauth { reason: reason@ },
                _ => false,
            },
        },
{
    match result {
        EnsureSessionResult::Ready(_) => Ok(()),
        EnsureSessionResult::Missing => Err(EsiError::NeedsReauth {
            reason: session_missing_reason(),
        }),
        EnsureSessionResult::NeedsReauth { reason } => Err(EsiError::NeedsReauth {
            reason: reason.clone(),
        }),
    }
}

} // verus!

verus! {

/// Whether the sequence is a decimal `u64`: optional `+` sign, then at
/// least one digit, with a value no greater than the type's maximum.
pub open spec fn spec_parse_u64(s: Seq<char>) -> Option<u64> {
    let body = if s.len() > 0 && s[0] == '+' {
        s.drop_first()
    } else {
        s
    };
    if body.len() >= 1 && spec_all_digits(body) && spec_digits_value(body) <= u64::MAX {
        Some(spec_digits_value(body) as u64)
    } else {
        None
    }
}

fn parse_u64_chars(cs: &Vec<char>, from: usize) -> (r: Option<u64>)
    requires
        from <= cs@.len(),
    ensures
        ({
            let body = cs@.subrange(from as int, cs@.len() as int);
            match r {
                Some(v) => body.len() >= 1 && spec_all_digits(body)
                    && v == spec_digits_value(body),
                None => !(body.len() >= 1 && spec_all_digits(body)
                    && spec_digits_value(body) <= u64::MAX),
            }
        }),
{
    let n: usize = cs.len();
    let ghost body = cs@.subrange(from as int, n as int);
    if from == n {
        return None;
    }
    let mut v: u64 = 0;
    let mut i: usize = from;
    proof {
        assert(body.subrange(0, 0) =~= Seq::<char>::empty());
    }
    while i < n
        invariant
            from <= i <= n,
            n == cs@.len(),
            body == cs@.subrange(from as int, n as int),
            spec_all_digits(body.subrange(0, i - from)),
            v == spec_digits_value(body.subrange(0, i - from)),
        decreases n - i,
    {
        proof {
            assert(body[i - from] == cs@[i as int]);
        }
        if !is_digit_char(cs[i]) {
            proof {
                let sub = body;
                assert(sub[i - from] == cs@[i as int]);
                assert(!spec_all_digits(body));
            }
            return None;
        }
        let d: u32 = digit_val(cs[i]);
        let ghost prefix = body.subrange(0, i - from);
        proof {
            assert(body.subrange(0, i - from + 1).drop_last() =~= prefix);
            assert(body.subrange(0, i - from + 1).last() == body[i - from]);
            lemma_digits_value_nonneg(prefix);
        }
        // guard the accumulator against overflow before multiplying
        if v > 1_844_674_407_370_955_161u64
            || (v == 1_844_674_407_370_955_161u64 && d > 5) {
            proof {
                let ext = body.subrange(0, i - from + 1);
                assert(spec_digits_value(ext) == v * 10 + d > u64::MAX);
                if spec_all_digits(body) {
                    lemma_digits_prefix_monotonic(body, (i - from + 1) as int);
                }
            }
            return None;
        }
        v = v * 10 + (d as u64);
        i = i + 1;
    }
    proof {
        assert(body.subrange(0, n - from) =~= body);
    }
    Some(v)
}

/// A digit prefix never exceeds the value of the whole digit sequence.
proof fn lemma_digits_prefix_monotonic(s: Seq<char>, k: int)
    requires
        0 <= k <= s.len(),
        spec_all_digits(s),
    ensures
        spec_digits_value(s) >= spec_digits_value(s.subrange(0, k)),
    decreases s.len() - k,
{
    if k < s.len() {
        lemma_digits_prefix_monotonic(s, k + 1);
        let a = s.subrange(0, k);
        let b = s.subrange(0, k + 1);
        assert(b.drop_last() =~= a);
        assert(spec_is_digit(b.last()));
        lemma_digits_value_nonneg(a);
        assert(spec_digits_value(b) == spec_digits_value(a) * 10 + spec_digit_val(b.last()));
        assert(spec_digits_value(a) * 10 >= spec_digits_value(a)) by (nonlinear_arith)
            requires
                spec_digits_value(a) >= 0,
        ;
    } else {
        assert(s.subrange(0, k) =~= s);
    }
}

/// The character id a token subject of the form `CHARACTER:EVE:{id}`
/// names; anything else is an invalid subject.
pub open spec fn spec_parse_token_subject(sub: Seq<char>) -> Option<CharacterId> {
    let parts = crate::strutil::spec_split_on(sub, ':');
    if parts.len() == 3 && parts[0] == "CHARACTER"@ && parts[1] == "EVE"@ {
        match spec_parse_u64(parts[2]) {
            Some(v) => Some(CharacterId(v)),
            None => None,
        }
    } else {
        None
    }
}

/// Reads the character id out of a token subject claim.
pub fn parse_character_token_subject(sub: &str) -> (r: Result<CharacterId, EsiError>)
    ensures
        match r {
            Ok(c) => spec_parse_token_subject(sub@) == Some(c),
            Err(e) => spec_parse_token_subject(sub@) is None
                && e@ == EsiErrorV::InvalidTokenSubject(sub@),
        },
{
    let cs = chars_of(sub);
    let parts = crate::strutil::split_on(&cs, ':');
    let ghost partsv = crate::strutil::spec_split_on(sub@, ':');
    proof {
        assert(parts@.map_values(|v: Vec<char>| v@)[0] == parts@[0]@);
    }
    if parts.len() != 3 {
        return Err(EsiError::InvalidTokenSubject(String::from_str(sub)));
    }
    proof {
        assert(parts@[0]@ == partsv[0]);
        assert(parts@[1]@ == partsv[1]);
        assert(parts@[2]@ == partsv[2]);
    }
    let head = string_of_chars(&parts[0]);
    let realm = string_of_chars(&parts[1]);
    if !str_eq(head.as_str(), "CHARACTER") || !str_eq(realm.as_str(), "EVE") {
        return Err(EsiError::InvalidTokenSubject(String::from_str(sub)));
    }
    let digits = &parts[2];
    let start: usize = if digits.len() > 0 && digits[0] == '+' {
        1
    } else {
        0
    };
    proof {
        let body = if partsv[2].len() > 0 && partsv[2][0] == '+' {
            partsv[2].drop_first()
        } else {
            partsv[2]
        };
        assert(body =~= digits@.subrange(start as int, digits@.len() as int));
    }
    match parse_u64_chars(digits, start) {
        Some(v) => Ok(CharacterId(v)),
        None => Err(EsiError::InvalidTokenSubject(String::from_str(sub))),
    }
}

/// A token's scope claim as plain data: absent, one scope string, a list
/// of scope strings, or anything else (carried as its serialized text).
#[derive(Clone, Debug, PartialEq, Eq)]
pub enum ScopeClaimValue {
    Absent,
    One(String),
    Many(Vec<String>),
    Other(String),
}

/// The granted scopes a scope claim names: none when absent, the one
/// string, or the list; any other claim shape is invalid.
pub fn scopes_from_claim(claim: &ScopeClaimValue) -> (r: Result<Vec<String>, EsiError>)
    ensures
        match claim {
            ScopeClaimValue::Absent => match r {
                Ok(v) => v@.len() == 0,
                _ => false,
            },
            ScopeClaimValue::One(s) => match r {
                Ok(v) => scopes_view(v@) == seq![s@],
                _ => false,
            },
            ScopeClaimValue::Many(list) => match r {
                Ok(v) => scopes_view(v@) == scopes_view(list@),
                _ => false,
            },
            ScopeClaimValue::Other(raw) => match r {
                Err(e) => e@ == EsiErrorV::InvalidScopeClaim(raw@),
                _ => false,
            },
        },
{
    match claim {
        ScopeClaimValue::Absent => Ok(Vec::new()),
        ScopeClaimValue::One(s) => {
            let mut out: Vec<String> = Vec::new();
            out.push(s.clone());
            proof {
                assert(scopes_view(out@) =~= seq![s@]);
            }
            Ok(out)
        },
        ScopeClaimValue::Many(list) => Ok(clone_scopes(list)),
        ScopeClaimValue::Other(raw) => Err(EsiError::InvalidScopeClaim(raw.clone())),
    }
}

/// The client configuration an operator supplies.
#[derive(Clone, Debug, PartialEq, Eq)]
pub struct EsiConfig {
    pub client_id: String,
    pub callback_url: String,
    pub scopes: Vec<String>,
    pub user_agent: String,
}

/// The scope list joined by single spaces, as the authorization request
/// carries it.
pub open spec fn spec_join_spaces(scopes: Seq<Seq<char>>) -> Seq<char>
    decreases scopes.len(),
{
    if scopes.len() == 0 {
        Seq::empty()
    } else if scopes.len() == 1 {
        scopes[0]
    } else {
        spec_join_spaces(scopes.drop_last()) + seq![' '] + scopes.last()
    }
}

impl EsiConfig {
    /// Checks that every required option is present and non-blank: client
    /// id, callback URL, at least one scope, and a user agent.
    pub fn validate(&self) -> (r: Result<(), EsiError>)
        ensures
            match r {
                Ok(_) => spec_trim(self.client_id@).len() > 0
                    && spec_trim(self.callback_url@).len() > 0
                    && self.scopes@.len() > 0
                    && spec_trim(self.user_agent@).len() > 0,
                Err(e) => match e@ {
                    EsiErrorV::InvalidConfig(msg) => {
                        if spec_trim(self.client_id@).len() == 0 {
                            msg == "EVE_CLIENT_ID must be set"@
                        } else if spec_trim(self.callback_url@).len() == 0 {
                            msg == "EVE_CALLBACK_URL must be set"@
                        } else if self.scopes@.len() == 0 {
                            msg == "at least one ESI scope must be configured"@
                        } else {
                            spec_trim(self.user_agent@).len() == 0
                                && msg == "user_agent must be set"@
                        }
                    },
                    _ => false,
                },
            },
    {
        if is_blank(self.client_id.as_str()) {
            return Err(EsiError::InvalidConfig(String::from_str("EVE_CLIENT_ID must be set")));
        }
        if is_blank(self.callback_url.as_str()) {
            return Err(EsiError::InvalidConfig(String::from_str(
                "EVE_CALLBACK_URL must be set",
            )));
        }
        if self.scopes.len() == 0 {
            return Err(EsiError::InvalidConfig(String::from_str(
                "at least one ESI scope must be configured",
            )));
        }
        if is_blank(self.user_agent.as_str()) {
            return Err(EsiError::InvalidConfig(String::from_str("user_agent must be set")));
        }
        Ok(())
    }

    /// The configured scopes joined by single spaces.
    pub fn scopes_for_esi(&self) -> (r: String)
        ensures
            r@ == spec_join_spaces(scopes_view(self.scopes@)),
    {
        let ghost sv = scopes_view(self.scopes@);
        let mut out = String::new();
        let n: usize = self.scopes.len();
        let mut i: usize = 0;
        proof {
            assert(sv.subrange(0, 0) =~= Seq::<Seq<char>>::empty());
            assert(out@ =~= spec_join_spaces(sv.subrange(0, 0)));
        }
        while i < n
            invariant
                0 <= i <= n,
                n == self.scopes@.len(),
                sv == scopes_view(self.scopes@),
                out@ == spec_join_spaces(sv.subrange(0, i as int)),
            decreases n - i,
        {
            proof {
                assert(sv[i as int] == self.scopes@[i as int]@);
                assert(sv.subrange(0, i + 1).drop_last() =~= sv.subrange(0, i as int));
                assert(sv.subrange(0, i + 1).last() == sv[i as int]);
            }
            if i > 0 {
                push_char(&mut out, ' ');
            }
            out.append(self.scopes[i].as_str());
            proof {
                if i == 0 {
                    assert(out@ =~= spec_join_spaces(sv.subrange(0, 1)));
                } else {
                    assert(out@ =~= spec_join_spaces(sv.subrange(0, i + 1)));
                }
            }
            i = i + 1;
        }
        proof {
            assert(sv.subrange(0, n as int) =~= sv);
        }
        out
    }
}

/// Whether a string trims to nothing.
fn is_blank(s: &str) -> (r: bool)
    ensures
        r == (spec_trim(s@).len() == 0),
{
    let cs = chars_of(s);
    let trimmed = trim_chars(&cs);
    trimmed.len() == 0
}

/// Names the account a character's session lives under in the OS
/// credential vault.
#[derive(Clone, Debug, PartialEq, Eq)]
pub struct KeyringTokenStore {
    service: String,
    account_prefix: String,
}

impl KeyringTokenStore {
    pub closed spec fn spec_service(&self) -> Seq<char> {
        self.service@
    }

    pub closed spec fn spec_account_prefix(&self) -> Seq<char> {
        self.account_prefix@
    }

    pub fn new(service: &str, account_prefix: &str) -> (r: KeyringTokenStore)
        ensures
            r.spec_service() == service@,
            r.spec_account_prefix() == account_prefix@,
    {
        KeyringTokenStore {
            service: String::from_str(service),
            account_prefix: String::from_str(account_prefix),
        }
    }

    /// The vault service name.
    pub fn service(&self) -> (r: &String)
        ensures
            r@ == self.spec_service(),
    {
        &self.service
    }

    /// The vault account key for one character:
    /// `{prefix}:character:{character_id}`.
    pub fn account_for_character(&self, character_id: CharacterId) -> (r: String)
        ensures
            r@ == self.spec_account_prefix() + ":character:"@
                + spec_u64_dec(character_id.0 as nat),
    {
        let mut out = self.account_prefix.clone();
        out.append(":character:");
        append_u64_dec(&mut out, character_id.0);
        out
    }
}

/// The wall clock as the auth service reads it.
#[derive(Clone, Copy, Debug, Default)]
pub struct SystemClock;

impl SystemClock {
    /// The wall clock now, when it reads within the representable range.
    pub fn now(&self) -> (r: Option<Timestamp>)
        ensures
            match r {
                Some(t) => t.wf() && t.spec_millis() >= 0,
                None => true,
            },
    {
        Timestamp::now()
    }
}

} // verus!
