//! Wallet-address authentication around the dashboard: a daily login
//! challenge, and session tokens. The cryptographic pieces — signature
//! recovery and the token encoding itself — are outside collaborators;
//! everything decided here (who is allowed, which nonce is current, what
//! the challenge says, when a token is honored) is verified.

use vstd::prelude::*;
use crate::strutil::{ascii_lower, spec_lower, str_eq, str_contains, spec_contains};
use crate::timeutil::{unix_secs_now, civil_from_days, format_date, spec_civil_from_days,
    spec_date_string};
use vstd::string::StringExecFns;

verus! {

/// Authentication configuration.
#[derive(Debug, Clone)]
pub struct AuthConfig {
    pub enabled: bool,
    pub allowed_address: String,
    pub jwt_secret: String,
    pub session_duration: i64,
}

/// Claims carried by a session token.
#[derive(Debug, Clone)]
pub struct Claims {
    pub address: String,
    pub exp: i64,
    pub iat: i64,
}

/// Login challenge request.
#[derive(Debug)]
pub struct ChallengeRequest {
    pub address: String,
}

/// Login challenge response.
#[derive(Debug)]
pub struct ChallengeResponse {
    pub message: String,
    pub nonce: String,
}

/// Login verification request.
#[derive(Debug)]
pub struct VerifyRequest {
    pub address: String,
    pub signature: String,
    pub message: String,
}

/// Login verification response.
#[derive(Debug)]
pub struct VerifyResponse {
    pub success: bool,
    pub token: Option<String>,
    pub expires_at: Option<String>,
    pub error: Option<String>,
}

/// Why a token was not honored.
#[derive(Debug, Clone, Copy, PartialEq, Eq, Structural)]
pub enum AuthError {
    /// The token failed to decode or validate.
    InvalidToken,
    /// The token's address is not the allowed one.
    NotAuthorized,
}

/// What the session token of given claims and secret is. Relies on the
/// token encoding being a function of its inputs alone.
pub uninterp spec fn jwt_token_of(address: Seq<char>, iat: int, exp: int, secret: Seq<char>) -> Seq<
    char,
>;

/// Relies on `jsonwebtoken::encode` with the HS256 algorithm: encodes
/// the claims object under the secret; the result depends on the
/// arguments alone.
#[verifier::external_body]
fn jwt_encode(address: &str, iat: i64, exp: i64, secret: &str) -> (r: Option<String>)
    ensures
        r matches Some(t) ==> t@ == jwt_token_of(address@, iat as int, exp as int, secret@),
{
    let mut m = serde_json::Map::new();
    m.insert("address".to_string(), serde_json::Value::String(address.to_string()));
    m.insert("iat".to_string(), serde_json::Value::from(iat));
    m.insert("exp".to_string(), serde_json::Value::from(exp));
    jsonwebtoken::encode(
        &jsonwebtoken::Header::new(jsonwebtoken::Algorithm::HS256),
        &serde_json::Value::Object(m),
        &jsonwebtoken::EncodingKey::from_secret(secret.as_bytes()),
    ).ok()
}

/// Relies on `jsonwebtoken::decode` with HS256 validation: checks the
/// signature and the expiry against the clock, and hands the claims
/// back. The outcome depends on the clock, so nothing is promised of
/// it; the caller decides from whatever came back.
#[verifier::external_body]
fn jwt_decode(token: &str, secret: &str) -> (r: Option<(String, i64, i64)>)
    ensures
        true,
{
    let data = jsonwebtoken::decode::<serde_json::Value>(
        token,
        &jsonwebtoken::DecodingKey::from_secret(secret.as_bytes()),
        &jsonwebtoken::Validation::new(jsonwebtoken::Algorithm::HS256),
    ).ok()?;
    let c = data.claims;
    Some(
        (
            c.get("address")?.as_str()?.to_string(),
            c.get("iat")?.as_i64()?,
            c.get("exp")?.as_i64()?,
        ),
    )
}

/// The daily nonce of a day count: the civil date written out.
pub open spec fn spec_nonce_of_day(z: nat) -> Seq<char> {
    spec_date_string(
        spec_civil_from_days(z).0,
        spec_civil_from_days(z).1,
        spec_civil_from_days(z).2,
    )
}

/// The challenge message of an address and nonce.
pub open spec fn spec_challenge_message(address: Seq<char>, nonce: Seq<char>) -> Seq<char> {
    "Sign this message to authenticate with MeCP Dashboard\n\nAddress: "@ + address + "\nNonce: "@
        + nonce
        + "\n\nThis signature will not trigger any blockchain transaction or cost any gas fees."@
}

/// Authentication service.
pub struct AuthService {
    pub config: AuthConfig,
}

impl AuthService {
    /// Wraps the given configuration.
    pub fn new(config: AuthConfig) -> (r: Self)
        ensures
            r.config.enabled == config.enabled,
            r.config.allowed_address@ == config.allowed_address@,
            r.config.jwt_secret@ == config.jwt_secret@,
            r.config.session_duration == config.session_duration,
    {
        AuthService { config }
    }

    /// Whether authentication is switched on.
    pub fn is_enabled(&self) -> (r: bool)
        ensures
            r == self.config.enabled,
    {
        self.config.enabled
    }

    /// The nonce of a given day since the epoch.
    pub fn nonce_of_day(days: u64) -> (r: String)
        requires
            days < 0x1_0000_0000,
        ensures
            r@ == spec_nonce_of_day(days as nat),
    {
        let (y, m, d) = civil_from_days(days);
        format_date(y, m, d)
    }

    /// Today's nonce: the current civil date. The value follows the
    /// clock; it is some day's nonce.
    pub fn get_daily_nonce() -> (r: String)
        ensures
            exists|z: nat| z < 0x1_0000_0000 && r@ == spec_nonce_of_day(z),
    {
        let secs = unix_secs_now();
        let days = (secs / 86400) % 0x1_0000_0000;
        let r = Self::nonce_of_day(days);
        proof {
            assert(r@ == spec_nonce_of_day(days as nat));
        }
        r
    }

    /// Builds the login challenge for an address: the fixed wording
    /// around the address and today's nonce.
    pub fn generate_challenge(&self, address: &str) -> (r: ChallengeResponse)
        ensures
            r.message@ == spec_challenge_message(address@, r.nonce@),
            exists|z: nat| z < 0x1_0000_0000 && r.nonce@ == spec_nonce_of_day(z),
    {
        let nonce = Self::get_daily_nonce();
        let message = "Sign this message to authenticate with MeCP Dashboard\n\nAddress: "
            .to_owned().concat(address).concat("\nNonce: ").concat(nonce.as_str()).concat(
            "\n\nThis signature will not trigger any blockchain transaction or cost any gas fees.",
        );
        proof {
            assert(message@ =~= spec_challenge_message(address@, nonce@));
        }
        ChallengeResponse { message, nonce }
    }

    /// Whether an address is the allowed one, compared without case.
    pub fn address_authorized(&self, address: &str) -> (r: bool)
        ensures
            r == (spec_lower(address@) == spec_lower(self.config.allowed_address@)),
    {
        let a = ascii_lower(address);
        let b = ascii_lower(self.config.allowed_address.as_str());
        str_eq(a.as_str(), b.as_str())
    }

    /// Whether a signed message carries the current nonce.
    pub fn message_has_nonce(message: &str, nonce: &str) -> (r: bool)
        ensures
            r == spec_contains(message@, nonce@),
    {
        str_contains(message, nonce)
    }

    /// Issues the session token of an address for a given issue time:
    /// the address is stored lower-cased, and the expiry follows the
    /// configured session duration, saturating rather than wrapping.
    pub fn token_for(&self, address: &str, iat: i64) -> (r: Option<String>)
        ensures
            r matches Some(t) ==> t@ == jwt_token_of(
                spec_lower(address@),
                iat as int,
                (if iat + self.config.session_duration > i64::MAX {
                    i64::MAX as int
                } else if iat + self.config.session_duration < i64::MIN {
                    i64::MIN as int
                } else {
                    iat + self.config.session_duration
                }),
                self.config.jwt_secret@,
            ),
    {
        let lower = ascii_lower(address);
        let d = self.config.session_duration;
        let exp: i64 = if d >= 0 {
            if iat > i64::MAX - d {
                i64::MAX
            } else {
                iat + d
            }
        } else {
            if iat < i64::MIN - d {
                i64::MIN
            } else {
                iat + d
            }
        };
        jwt_encode(lower.as_str(), iat, exp, self.config.jwt_secret.as_str())
    }

    /// Issues a session token for the address, stamped with the clock.
    pub fn generate_token(&self, address: &str) -> (r: Option<String>)
        ensures
            r matches Some(t) ==> exists|iat: int, exp: int|
                t@ == jwt_token_of(spec_lower(address@), iat, exp, self.config.jwt_secret@),
    {
        let secs = unix_secs_now();
        let iat: i64 = if secs > 0x7FFF_FFFF_FFFF_FFFF {
            i64::MAX
        } else {
            secs as i64
        };
        self.token_for(address, iat)
    }

    /// Validates a session token: the decoder checks the signature and
    /// the expiry; what it hands back is honored only when its address
    /// is the allowed one, compared without case.
    pub fn validate_token(&self, token: &str) -> (r: Result<Claims, AuthError>)
        ensures
            r matches Ok(c) ==> spec_lower(c.address@) == spec_lower(
                self.config.allowed_address@,
            ),
    {
        match jwt_decode(token, self.config.jwt_secret.as_str()) {
            Option::None => Err(AuthError::InvalidToken),
            Option::Some((address, iat, exp)) => {
                if self.address_authorized(address.as_str()) {
                    proof {
                        assert(spec_lower(address@) == spec_lower(self.config.allowed_address@));
                    }
                    Ok(Claims { address, exp, iat })
                } else {
                    Err(AuthError::NotAuthorized)
                }
            },
        }
    }
}

} // verus!
