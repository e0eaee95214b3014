use vstd::prelude::*;
use vstd::string::StrSliceExecFns;
use vstd::string::StringExecFns;
use crate::text::chars_of;
use crate::text::same_text;
use crate::text::starts_with;

verus! {

/// Why a token was refused or could not be made.
#[derive(Clone, Copy, Debug, PartialEq, Eq, Structural)]
pub enum AuthError {
    EncodingError,
    DecodingError,
    InvalidTokenError,
    Unknown,
}

impl AuthError {
    /// The text of the error.
    pub open spec fn spec_message(&self) -> Seq<char> {
        match self {
            AuthError::EncodingError => "Unable to Encode"@,
            AuthError::DecodingError => "Unable to Decode"@,
            AuthError::InvalidTokenError => "Invalid Token"@,
            AuthError::Unknown => "Unknown Security error"@,
        }
    }

    /// The text of the error.
    pub fn message(&self) -> (text: String)
        ensures
            text@ == self.spec_message(),
    {
        match self {
            AuthError::EncodingError => String::from_str("Unable to Encode"),
            AuthError::DecodingError => String::from_str("Unable to Decode"),
            AuthError::InvalidTokenError => String::from_str("Invalid Token"),
            AuthError::Unknown => String::from_str("Unknown Security error"),
        }
    }
}

/// The lifetime of a token, in seconds, where none is configured.
pub const DEFAULT_EXPIRATION: usize = 3600;

/// How tokens are signed and what they must say.
#[derive(Debug, PartialEq, Eq)]
pub struct JwtConfig {
    pub secret: String,
    /// The lifetime of a token, in seconds.
    pub expiration: usize,
    pub issuer: String,
    pub audience: String,
}

impl JwtConfig {
    /// The configuration from the settings that are there: the secret must
    /// be; the lifetime is an hour, the issuer "nano_image_server" and the
    /// audience "nano_image_client" where the settings say nothing else.
    pub fn new(
        secret: String,
        expiration: Option<usize>,
        issuer: Option<String>,
        audience: Option<String>,
    ) -> (config: JwtConfig)
        ensures
            config.secret == secret,
            config.expiration == match expiration {
                Some(seconds) => seconds,
                None => DEFAULT_EXPIRATION,
            },
            config.issuer@ == match issuer {
                Some(name) => name@,
                None => "nano_image_server"@,
            },
            config.audience@ == match audience {
                Some(name) => name@,
                None => "nano_image_client"@,
            },
    {
        JwtConfig {
            secret,
            expiration: match expiration {
                Some(seconds) => seconds,
                None => DEFAULT_EXPIRATION,
            },
            issuer: match issuer {
                Some(name) => name,
                None => String::from_str("nano_image_server"),
            },
            audience: match audience {
                Some(name) => name,
                None => String::from_str("nano_image_client"),
            },
        }
    }
}

/// What a token says: for whom it is (`aud`), who issued it (`iss`), whom
/// it names (`sub`), and from when (`nbf`) until when (`exp`) it holds;
/// `iat` is when it was issued. Times are seconds since the epoch.
#[derive(Debug, PartialEq, Eq)]
pub struct Claims {
    pub aud: String,
    pub exp: usize,
    pub iat: usize,
    pub iss: String,
    pub nbf: usize,
    pub sub: String,
}

impl Claims {
    /// The claims of a token issued at `now` for `subject`, good from `now`
    /// on for `expiration` seconds.
    pub fn new(subject: String, now: usize, expiration: usize) -> (claims: Claims)
        requires
            now + expiration <= usize::MAX,
        ensures
            claims.sub == subject,
            claims.iss@ == "nano_image_server"@,
            claims.aud@ == "nano_image_client"@,
            claims.iat == now,
            claims.nbf == now,
            claims.exp == now + expiration,
    {
        Claims {
            sub: subject,
            iss: String::from_str("nano_image_server"),
            aud: String::from_str("nano_image_client"),
            iat: now,
            nbf: now,
            exp: now + expiration,
        }
    }

    /// The claims of a token issued at `now`, unless the end of its
    /// lifetime is past what the machine can count.
    pub fn issue(subject: String, now: usize, expiration: usize) -> (claims: Option<Claims>)
        ensures
            claims.is_some() == (now + expiration <= usize::MAX),
            claims matches Some(c) ==> c.sub == subject && c.iss@ == "nano_image_server"@ && c.aud@
                == "nano_image_client"@ && c.iat == now && c.nbf == now && c.exp == now
                + expiration,
    {
        if expiration <= usize::MAX - now {
            Some(Claims::new(subject, now, expiration))
        } else {
            None
        }
    }

    /// The token holds at `now`: it has not run out, its time has come, and
    /// issuer and audience are the ones this server uses.
    pub open spec fn holds_at(&self, now: usize) -> bool {
        &&& self.exp > now
        &&& self.nbf <= now
        &&& self.iss@ == "nano_image_server"@
        &&& self.aud@ == "nano_image_client"@
    }

    /// Accepts the claims if they hold at `now` and refuses them as an
    /// invalid token if not.
    pub fn check(&self, now: usize) -> (verdict: Result<(), AuthError>)
        ensures
            verdict == if self.holds_at(now) {
                Ok::<(), AuthError>(())
            } else {
                Err(AuthError::InvalidTokenError)
            },
    {
        if self.exp <= now {
            return Err(AuthError::InvalidTokenError);
        }
        if self.nbf > now {
            return Err(AuthError::InvalidTokenError);
        }
        if !same_text(self.iss.as_str(), "nano_image_server") {
            return Err(AuthError::InvalidTokenError);
        }
        if !same_text(self.aud.as_str(), "nano_image_client") {
            return Err(AuthError::InvalidTokenError);
        }
        Ok(())
    }
}

/// The token of an authorization header: what follows "Bearer ".
pub open spec fn spec_token(header: Seq<char>) -> Option<Seq<char>> {
    if "Bearer "@.is_prefix_of(header) {
        Some(header.subrange("Bearer "@.len() as int, header.len() as int))
    } else {
        None
    }
}

/// The token of an authorization header. A header that does not begin with
/// "Bearer " is refused as an invalid token.
pub fn extract_token(header: &str) -> (token: Result<String, AuthError>)
    ensures
        match token {
            Ok(text) => spec_token(header@) == Some(text@),
            Err(e) => spec_token(header@).is_none() && e == AuthError::InvalidTokenError,
        },
{
    let chars = chars_of(header);
    let scheme = chars_of("Bearer ");
    if !starts_with(&chars, &scheme) {
        return Err(AuthError::InvalidTokenError);
    }
    Ok(String::from_str(header.substring_char(scheme.len(), chars.len())))
}

} // verus!
