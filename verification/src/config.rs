//! Service configuration, with a default for every setting so that the
//! service starts even when optional providers (M-Pesa, SMS) are not set up.

use vstd::prelude::*;
use crate::text::{concat, str_eq, lowercase_of, to_lowercase};

verus! {

/// The configuration the service runs with.
#[derive(Debug, Clone)]
pub struct AppConfig {
    pub jwt_secret: String,
    pub sms_api_key: String,
    pub sms_username: String,
    pub sms_from: String,
    /// `"sandbox"` or `"production"`.
    pub mpesa_environment: String,
    pub mpesa_consumer_key: String,
    pub mpesa_consumer_secret: String,
    pub mpesa_short_code: String,
    pub mpesa_passkey: String,
    pub mpesa_initiator_name: String,
    pub mpesa_security_credential: String,
    pub mpesa_confirmation_url: String,
    pub mpesa_validation_url: String,
    pub mpesa_b2c_result_url: String,
    pub mpesa_b2c_queue_timeout_url: String,
}

/// The raw settings as found in the environment; `None` where a variable
/// is not set.
#[derive(Debug, Clone)]
pub struct EnvValues {
    pub jwt_secret: Option<String>,
    pub sms_api_key: Option<String>,
    pub sms_username: Option<String>,
    pub sms_from: Option<String>,
    pub mpesa_environment: Option<String>,
    pub mpesa_consumer_key: Option<String>,
    pub mpesa_consumer_secret: Option<String>,
    pub mpesa_short_code: Option<String>,
    pub mpesa_passkey: Option<String>,
    pub mpesa_initiator_name: Option<String>,
    pub mpesa_security_credential: Option<String>,
    pub api_base_url: Option<String>,
    pub mpesa_confirmation_url: Option<String>,
    pub mpesa_validation_url: Option<String>,
    pub mpesa_b2c_result_url: Option<String>,
    pub mpesa_b2c_queue_timeout_url: Option<String>,
}

/// A setting, or its default when it is not set.
pub open spec fn or_default(v: Option<String>, d: Seq<char>) -> Seq<char> {
    match v {
        Some(s) => s@,
        None => d,
    }
}

/// The base URL callback URLs are derived from.
pub open spec fn base_url_of(v: EnvValues) -> Seq<char> {
    or_default(v.api_base_url, "https://fanclash-api.onrender.com"@)
}

fn value_or(v: Option<String>, d: &str) -> (r: String)
    ensures
        r@ == or_default(v, d@),
{
    match v {
        Some(s) => s,
        None => String::from_str(d),
    }
}

fn url_or(v: Option<String>, base: &str, suffix: &str) -> (r: String)
    ensures
        r@ == or_default(v, base@ + suffix@),
{
    match v {
        Some(s) => s,
        None => concat(base, suffix),
    }
}

impl AppConfig {
    /// Builds the configuration from the environment's settings: each
    /// setting is taken as given, or else its default; the four callback
    /// URLs default to the base URL followed by their route.
    pub fn from_values(v: EnvValues) -> (cfg: AppConfig)
        ensures
            cfg.jwt_secret@ == or_default(v.jwt_secret, "insecure-default-change-me-in-production"@),
            cfg.sms_api_key@ == or_default(v.sms_api_key, ""@),
            cfg.sms_username@ == or_default(v.sms_username, "sandbox"@),
            cfg.sms_from@ == or_default(v.sms_from, "FanClash"@),
            cfg.mpesa_environment@ == or_default(v.mpesa_environment, "sandbox"@),
            cfg.mpesa_consumer_key@ == or_default(v.mpesa_consumer_key, ""@),
            cfg.mpesa_consumer_secret@ == or_default(v.mpesa_consumer_secret, ""@),
            cfg.mpesa_short_code@ == or_default(v.mpesa_short_code, "174379"@),
            cfg.mpesa_passkey@ == or_default(v.mpesa_passkey, ""@),
            cfg.mpesa_initiator_name@ == or_default(v.mpesa_initiator_name, "testapi"@),
            cfg.mpesa_security_credential@ == or_default(v.mpesa_security_credential, ""@),
            cfg.mpesa_confirmation_url@ == or_default(
                v.mpesa_confirmation_url,
                base_url_of(v) + "/api/mpesa/confirmation"@,
            ),
            cfg.mpesa_validation_url@ == or_default(
                v.mpesa_validation_url,
                base_url_of(v) + "/api/mpesa/validation"@,
            ),
            cfg.mpesa_b2c_result_url@ == or_default(
                v.mpesa_b2c_result_url,
                base_url_of(v) + "/api/mpesa/b2c/result"@,
            ),
            cfg.mpesa_b2c_queue_timeout_url@ == or_default(
                v.mpesa_b2c_queue_timeout_url,
                base_url_of(v) + "/api/mpesa/b2c/timeout"@,
            ),
    {
        let base = value_or(v.api_base_url, "https://fanclash-api.onrender.com");
        AppConfig {
            jwt_secret: value_or(v.jwt_secret, "insecure-default-change-me-in-production"),
            sms_api_key: value_or(v.sms_api_key, ""),
            sms_username: value_or(v.sms_username, "sandbox"),
            sms_from: value_or(v.sms_from, "FanClash"),
            mpesa_environment: value_or(v.mpesa_environment, "sandbox"),
            mpesa_consumer_key: value_or(v.mpesa_consumer_key, ""),
            mpesa_consumer_secret: value_or(v.mpesa_consumer_secret, ""),
            mpesa_short_code: value_or(v.mpesa_short_code, "174379"),
            mpesa_passkey: value_or(v.mpesa_passkey, ""),
            mpesa_initiator_name: value_or(v.mpesa_initiator_name, "testapi"),
            mpesa_security_credential: value_or(v.mpesa_security_credential, ""),
            mpesa_confirmation_url: url_or(
                v.mpesa_confirmation_url,
                base.as_str(),
                "/api/mpesa/confirmation",
            ),
            mpesa_validation_url: url_or(v.mpesa_validation_url, base.as_str(), "/api/mpesa/validation"),
            mpesa_b2c_result_url: url_or(v.mpesa_b2c_result_url, base.as_str(), "/api/mpesa/b2c/result"),
            mpesa_b2c_queue_timeout_url: url_or(
                v.mpesa_b2c_queue_timeout_url,
                base.as_str(),
                "/api/mpesa/b2c/timeout",
            ),
        }
    }

    /// True when the service talks to the live M-Pesa API: the environment
    /// setting, lower-cased, reads `production`.
    pub fn is_production(&self) -> (r: bool)
        ensures
            r == (lowercase_of(self.mpesa_environment@) == "production"@),
    {
        let lower = to_lowercase(self.mpesa_environment.as_str());
        str_eq(lower.as_str(), "production")
    }

    /// True when the M-Pesa consumer key, consumer secret and passkey are
    /// all set (non-empty).
    pub fn is_mpesa_configured(&self) -> (r: bool)
        ensures
            r == (self.mpesa_consumer_key@.len() > 0 && self.mpesa_consumer_secret@.len() > 0
                && self.mpesa_passkey@.len() > 0),
    {
        !self.mpesa_consumer_key.as_str().is_empty() && !self.mpesa_consumer_secret.as_str().is_empty()
            && !self.mpesa_passkey.as_str().is_empty()
    }

    /// True when the SMS API key is set.
    pub fn is_sms_configured(&self) -> (r: bool)
        ensures
            r == (self.sms_api_key@.len() > 0),
    {
        !self.sms_api_key.as_str().is_empty()
    }

    /// The M-Pesa (auth, STK push, B2C) URLs: the production hosts when
    /// `is_production`, the sandbox hosts otherwise.
    pub fn get_mpesa_urls(&self) -> (urls: (String, String, String))
        ensures
            lowercase_of(self.mpesa_environment@) == "production"@ ==> {
                &&& urls.0@
                    == "https://api.safaricom.co.ke/oauth/v1/generate?grant_type=client_credentials"@
                &&& urls.1@ == "https://api.safaricom.co.ke/mpesa/stkpush/v1/processrequest"@
                &&& urls.2@ == "https://api.safaricom.co.ke/mpesa/b2c/v1/paymentrequest"@
            },
            lowercase_of(self.mpesa_environment@) != "production"@ ==> {
                &&& urls.0@
                    == "https://sandbox.safaricom.co.ke/oauth/v1/generate?grant_type=client_credentials"@
                &&& urls.1@ == "https://sandbox.safaricom.co.ke/mpesa/stkpush/v1/processrequest"@
                &&& urls.2@ == "https://sandbox.safaricom.co.ke/mpesa/b2c/v1/paymentrequest"@
            },
    {
        if self.is_production() {
            (
                String::from_str(
                    "https://api.safaricom.co.ke/oauth/v1/generate?grant_type=client_credentials",
                ),
                String::from_str("https://api.safaricom.co.ke/mpesa/stkpush/v1/processrequest"),
                String::from_str("https://api.safaricom.co.ke/mpesa/b2c/v1/paymentrequest"),
            )
        } else {
            (
                String::from_str(
                    "https://sandbox.safaricom.co.ke/oauth/v1/generate?grant_type=client_credentials",
                ),
                String::from_str("https://sandbox.safaricom.co.ke/mpesa/stkpush/v1/processrequest"),
                String::from_str("https://sandbox.safaricom.co.ke/mpesa/b2c/v1/paymentrequest"),
            )
        }
    }
}

} // verus!
