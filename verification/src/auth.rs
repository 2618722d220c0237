//! Authentication helpers: password hashing and checking, reset
//! tokens, token hashing for the revocation list, and the typed
//! identity handed to the core after the boundary has authenticated a
//! request.
//!
//! Issuing and verifying the signed session tokens themselves is the
//! caller's: it runs through a serializer the verifier does not read.

use crate::config::JwtConfig;
use crate::crypto::{
    argon2_hash_password, argon2_verify_password, hex_encode, hex_of, random_below, sha256,
    sha256_of,
};
use crate::errors::AppError;
use crate::status::UserRole;
use crate::text::{push_char, str_eq, contains_char};
use crate::validation::byte_len;
use vstd::prelude::*;
use vstd::utf8::encode_utf8;

verus! {

/// The claims carried in a session token.
pub struct Claims {
    pub sub: String,
    pub email: String,
    pub role: String,
    pub exp: i64,
    pub iat: i64,
}

/// Signs and checks credentials.
pub struct AuthService {
    pub jwt_secret: String,
    pub jwt_expiry_hours: i64,
}

impl AuthService {
    /// Builds the service from the token settings.
    pub fn new(config: &JwtConfig) -> (r: AuthService)
        ensures
            r.jwt_secret@ == config.secret@,
            r.jwt_expiry_hours == config.expiry_hours,
    {
        AuthService { jwt_secret: config.secret.clone(), jwt_expiry_hours: config.expiry_hours }
    }

    /// Hashes a password with a fresh random salt. The salt is drawn
    /// anew on every call, so nothing is promised of the value; a
    /// failure inside the hasher is an internal error.
    pub fn hash_password(&self, password: &str) -> (r: Result<String, AppError>)
        ensures
            r matches Err(e) ==> e matches AppError::Internal(m) && m@
                == "Password hashing failed"@,
    {
        match argon2_hash_password(password.as_bytes()) {
            Some(hash) => Ok(hash),
            None => Err(AppError::Internal("Password hashing failed".to_owned())),
        }
    }

    /// Checks a password against a stored hash; a stored hash that
    /// cannot be parsed is an internal error.
    pub fn verify_password(&self, password: &str, hash: &str) -> (r: Result<bool, AppError>)
        ensures
            r matches Err(e) ==> e matches AppError::Internal(m) && m@
                == "Invalid password hash"@,
    {
        match argon2_verify_password(password.as_bytes(), hash) {
            Some(ok) => Ok(ok),
            None => Err(AppError::Internal("Invalid password hash".to_owned())),
        }
    }

    /// The role a claim names: `writer`, `sponsor` or `admin`;
    /// anything else is an internal error.
    pub fn get_user_role(&self, claims: &Claims) -> (r: Result<UserRole, AppError>)
        ensures
            match r {
                Ok(role) => {
                    &&& (claims.role@ == "writer"@ ==> role == UserRole::Writer)
                    &&& (claims.role@ == "sponsor"@ ==> role == UserRole::Sponsor)
                    &&& (claims.role@ == "admin"@ ==> role == UserRole::Admin)
                    &&& (claims.role@ == "writer"@ || claims.role@ == "sponsor"@ || claims.role@
                        == "admin"@)
                },
                Err(AppError::Internal(m)) => {
                    &&& claims.role@ != "writer"@
                    &&& claims.role@ != "sponsor"@
                    &&& claims.role@ != "admin"@
                    &&& m@ == "Invalid role in token"@
                },
                Err(_) => false,
            },
    {
        proof {
            broadcast use vstd::string::group_string_axioms;

            reveal_strlit("writer");
            reveal_strlit("sponsor");
            reveal_strlit("admin");
            assert("writer"@.len() == 6);
            assert("sponsor"@.len() == 7);
            assert("admin"@.len() == 5);
        }
        if str_eq(claims.role.as_str(), "writer") {
            Ok(UserRole::Writer)
        } else if str_eq(claims.role.as_str(), "sponsor") {
            Ok(UserRole::Sponsor)
        } else if str_eq(claims.role.as_str(), "admin") {
            Ok(UserRole::Admin)
        } else {
            Err(AppError::Internal("Invalid role in token".to_owned()))
        }
    }

    /// Draws a fresh thirty-two character reset token over the digits
    /// and lowercase letters. The characters are random: nothing more
    /// is promised of them.
    pub fn generate_reset_token(&self) -> (r: String)
        ensures
            r@.len() == 32,
            forall|i: int|
                0 <= i < 32 ==> 48 <= (#[trigger] r@[i]) as u32 <= 57 || 97 <= r@[i] as u32 <= 122,
    {
        let mut s = String::new();
        let mut i: usize = 0;
        while i < 32
            invariant
                i <= 32,
                s@.len() == i,
                forall|j: int|
                    0 <= j < i ==> 48 <= (#[trigger] s@[j]) as u32 <= 57 || 97 <= s@[j] as u32
                        <= 122,
            decreases 32 - i,
        {
            let idx = random_below(36);
            let c = base36_char(idx);
            push_char(&mut s, c);
            i += 1;
        }
        s
    }

    /// The revocation-list key of a token: the hex form of its
    /// SHA-256 digest.
    pub fn hash_token(&self, token: &str) -> (r: String)
        ensures
            r@ == hex_of(sha256_of(encode_utf8(token@))),
    {
        let digest = sha256(token.as_bytes());
        hex_encode(digest.as_slice())
    }
}

/// The digit or lowercase letter at one position of the base
/// thirty-six alphabet.
fn base36_char(d: u32) -> (c: char)
    requires
        d < 36,
    ensures
        d < 10 ==> c as u32 == 48 + d,
        d >= 10 ==> c as u32 == 97 + d - 10,
{
    if d < 10 {
        (48 + d as u8) as char
    } else {
        (97 + (d - 10) as u8) as char
    }
}

/// A request's caller, as typed identity: checked once at the
/// boundary and then passed into the core.
pub struct AuthenticatedUser {
    pub id: u64,
    pub email: String,
    pub role: UserRole,
}

impl AuthenticatedUser {
    /// The caller acts as a writer.
    pub fn is_writer(&self) -> (r: bool)
        ensures
            r == (self.role == UserRole::Writer),
    {
        match self.role {
            UserRole::Writer => true,
            _ => false,
        }
    }

    /// The caller acts as a sponsor.
    pub fn is_sponsor(&self) -> (r: bool)
        ensures
            r == (self.role == UserRole::Sponsor),
    {
        match self.role {
            UserRole::Sponsor => true,
            _ => false,
        }
    }

    /// The caller acts as an administrator.
    pub fn is_admin(&self) -> (r: bool)
        ensures
            r == (self.role == UserRole::Admin),
    {
        match self.role {
            UserRole::Admin => true,
            _ => false,
        }
    }
}

/// A shallow email shape check: an at sign, a dot, and at least five
/// bytes.
pub fn is_valid_email(email: &str) -> (r: bool)
    ensures
        r == (email@.contains('@') && email@.contains('.') && byte_len(email@) >= 5),
{
    contains_char(email, '@') && contains_char(email, '.') && email.len() >= 5
}

/// A signup request as it arrives at the boundary.
pub struct SignupRequest {
    pub email: String,
    pub first_name: String,
    pub last_name: String,
    pub password: String,
    pub role: UserRole,
}

/// A bare message acknowledgement.
pub struct MessageResponse {
    pub message: String,
}

/// A logout request naming the token to revoke.
pub struct LogoutRequest {
    pub token: String,
}

} // verus!
