//! Configuration records. Reading the environment, files and sockets
//! belongs to the caller; what stands here are the shapes, the
//! defaults the engine owns, and the pure derivations such as the
//! listen address and the storage endpoints.

use crate::text::{dec_str_of, lower_of, push_char, str_eq, to_lowercase, u64_to_string};
use vstd::prelude::*;
use vstd::string::StringExecFns;

verus! {

/// Which environment the system runs in.
#[derive(Debug, Clone, Copy, PartialEq, Eq, Structural)]
pub enum Environment {
    Development,
    Production,
}

/// The environment a lowercased name denotes; anything unrecognised
/// is development.
pub open spec fn environment_of(s: Seq<char>) -> Environment {
    if s == "production"@ || s == "prod"@ {
        Environment::Production
    } else {
        Environment::Development
    }
}

impl Environment {
    /// Parses an environment name, case-insensitively; anything but
    /// `production` or `prod` is development.
    pub fn from_str(s: &str) -> (r: Environment)
        ensures
            r == environment_of(lower_of(s@)),
    {
        let lower = to_lowercase(s);
        let l = lower.as_str();
        if str_eq(l, "production") || str_eq(l, "prod") {
            Environment::Production
        } else {
            Environment::Development
        }
    }

    /// Whether this is the development environment.
    pub fn is_dev(&self) -> (r: bool)
        ensures
            r == (*self == Environment::Development),
    {
        match self {
            Environment::Development => true,
            Environment::Production => false,
        }
    }
}

/// Database connection settings.
pub struct DatabaseConfig {
    pub url: String,
    pub max_connections: u32,
    pub min_connections: u32,
    pub acquire_timeout_secs: u64,
}

/// HTTP server settings.
pub struct ServerConfig {
    pub host: String,
    pub port: u16,
    pub frontend_url: String,
}

impl ServerConfig {
    /// The listen address: `host:port`.
    pub fn addr(&self) -> (r: String)
        ensures
            r@ == self.host@ + seq![':'] + dec_str_of(self.port as nat),
    {
        let mut s = self.host.clone();
        push_char(&mut s, ':');
        let digits = u64_to_string(self.port as u64);
        s.append(digits.as_str());
        proof {
            assert(s@ =~= self.host@ + seq![':'] + dec_str_of(self.port as nat));
        }
        s
    }
}

/// Cross-origin settings.
pub struct CorsConfig {
    pub allowed_origins: Vec<String>,
    pub allow_credentials: bool,
}

/// Token signing settings.
pub struct JwtConfig {
    pub secret: String,
    pub expiry_hours: i64,
}

/// The whole application configuration.
pub struct Config {
    pub env: Environment,
    pub database: DatabaseConfig,
    pub server: ServerConfig,
    pub cors: CorsConfig,
    pub jwt: JwtConfig,
}

/// Request-rate limits, per second, for the general, authentication
/// and payment routes.
pub struct RateLimitConfig {
    pub general_rps: u32,
    pub auth_rps: u32,
    pub payment_rps: u32,
    pub burst_multiplier: u32,
}

impl Default for RateLimitConfig {
    /// One hundred general requests a second, five on authentication
    /// routes, ten on payment routes, with double bursts.
    fn default() -> (r: RateLimitConfig)
        ensures
            r.general_rps == 100,
            r.auth_rps == 5,
            r.payment_rps == 10,
            r.burst_multiplier == 2,
    {
        RateLimitConfig { general_rps: 100, auth_rps: 5, payment_rps: 10, burst_multiplier: 2 }
    }
}

/// Outgoing mail settings.
pub struct EmailConfig {
    pub smtp_host: String,
    pub smtp_port: u16,
    pub smtp_username: String,
    pub smtp_password: String,
    pub from_email: String,
    pub from_name: String,
}

/// Image storage settings.
pub struct CloudinaryConfig {
    pub cloud_name: String,
    pub api_key: String,
    pub api_secret: String,
    pub folder: Option<String>,
}

impl CloudinaryConfig {
    /// The endpoint uploads go to.
    pub fn upload_url(&self) -> (r: String)
        ensures
            r@ == "https://api.cloudinary.com/v1_1/"@ + self.cloud_name@ + "/image/upload"@,
    {
        let mut s = String::from_str("https://api.cloudinary.com/v1_1/");
        s.append(self.cloud_name.as_str());
        s.append("/image/upload");
        proof {
            assert(s@ =~= "https://api.cloudinary.com/v1_1/"@ + self.cloud_name@
                + "/image/upload"@);
        }
        s
    }

    /// The endpoint deletions go to.
    pub fn delete_url(&self) -> (r: String)
        ensures
            r@ == "https://api.cloudinary.com/v1_1/"@ + self.cloud_name@ + "/image/destroy"@,
    {
        let mut s = String::from_str("https://api.cloudinary.com/v1_1/");
        s.append(self.cloud_name.as_str());
        s.append("/image/destroy");
        proof {
            assert(s@ =~= "https://api.cloudinary.com/v1_1/"@ + self.cloud_name@
                + "/image/destroy"@);
        }
        s
    }
}

} // verus!
