use fanclash::auth::{
    decide_account_found, decide_phone_update, decide_pin_login, decide_registration, decide_set_pin,
    decide_user_by_id, digits_only, hash_pin, normalize_phone, phone_pattern, to_lower_hex,
    set_pin_record, token_claims, valid_pin, ForgotPasswordRequest, PinAccount, ResetPasswordRequest, VerifyOTPRequest,
};
use fanclash::config::{AppConfig, EnvValues};
use fanclash::errors::AppError;
use fanclash::ids::{check_object_id, same_object_id};
use fanclash::money::{amount_2dp, amount_short, nat_to_string};
use fanclash::text::{concat4, contains_str, distinct_strings, str_eq};

const USER: &str = "507f1f77bcf86cd799439011";

fn no_env() -> EnvValues {
    EnvValues {
        jwt_secret: None,
        sms_api_key: None,
        sms_username: None,
        sms_from: None,
        mpesa_environment: None,
        mpesa_consumer_key: None,
        mpesa_consumer_secret: None,
        mpesa_short_code: None,
        mpesa_passkey: None,
        mpesa_initiator_name: None,
        mpesa_security_credential: None,
        api_base_url: None,
        mpesa_confirmation_url: None,
        mpesa_validation_url: None,
        mpesa_b2c_result_url: None,
        mpesa_b2c_queue_timeout_url: None,
    }
}

#[test]
fn config_defaults_when_nothing_is_set() {
    let cfg = AppConfig::from_values(no_env());
    assert_eq!(cfg.jwt_secret, "insecure-default-change-me-in-production");
    assert_eq!(cfg.sms_username, "sandbox");
    assert_eq!(cfg.sms_from, "FanClash");
    assert_eq!(cfg.mpesa_environment, "sandbox");
    assert_eq!(cfg.mpesa_short_code, "174379");
    assert_eq!(cfg.mpesa_initiator_name, "testapi");
    assert_eq!(cfg.mpesa_confirmation_url, "https://fanclash-api.onrender.com/api/mpesa/confirmation");
    assert_eq!(cfg.mpesa_validation_url, "https://fanclash-api.onrender.com/api/mpesa/validation");
    assert_eq!(cfg.mpesa_b2c_result_url, "https://fanclash-api.onrender.com/api/mpesa/b2c/result");
    assert_eq!(cfg.mpesa_b2c_queue_timeout_url, "https://fanclash-api.onrender.com/api/mpesa/b2c/timeout");
    assert!(!cfg.is_production());
    assert!(!cfg.is_mpesa_configured());
    assert!(!cfg.is_sms_configured());
}

#[test]
fn config_callback_urls_follow_the_base_url() {
    let mut env = no_env();
    env.api_base_url = Some("http://localhost:8080".to_string());
    env.mpesa_validation_url = Some("https://example.org/v".to_string());
    let cfg = AppConfig::from_values(env);
    assert_eq!(cfg.mpesa_confirmation_url, "http://localhost:8080/api/mpesa/confirmation");
    assert_eq!(cfg.mpesa_validation_url, "https://example.org/v");
}

#[test]
fn config_production_is_case_insensitive() {
    let mut env = no_env();
    env.mpesa_environment = Some("Production".to_string());
    env.mpesa_consumer_key = Some("k".to_string());
    env.mpesa_consumer_secret = Some("s".to_string());
    env.mpesa_passkey = Some("p".to_string());
    env.sms_api_key = Some("a".to_string());
    let cfg = AppConfig::from_values(env);
    assert!(cfg.is_production());
    assert!(cfg.is_mpesa_configured());
    assert!(cfg.is_sms_configured());
    let (auth, stk, b2c) = cfg.get_mpesa_urls();
    assert_eq!(auth, "https://api.safaricom.co.ke/oauth/v1/generate?grant_type=client_credentials");
    assert_eq!(stk, "https://api.safaricom.co.ke/mpesa/stkpush/v1/processrequest");
    assert_eq!(b2c, "https://api.safaricom.co.ke/mpesa/b2c/v1/paymentrequest");
}

#[test]
fn config_sandbox_urls() {
    let cfg = AppConfig::from_values(no_env());
    let (auth, stk, b2c) = cfg.get_mpesa_urls();
    assert_eq!(auth, "https://sandbox.safaricom.co.ke/oauth/v1/generate?grant_type=client_credentials");
    assert_eq!(stk, "https://sandbox.safaricom.co.ke/mpesa/stkpush/v1/processrequest");
    assert_eq!(b2c, "https://sandbox.safaricom.co.ke/mpesa/b2c/v1/paymentrequest");
}

#[test]
fn mpesa_needs_all_three_secrets() {
    let mut env = no_env();
    env.mpesa_consumer_key = Some("k".to_string());
    env.mpesa_consumer_secret = Some("s".to_string());
    let cfg = AppConfig::from_values(env);
    assert!(!cfg.is_mpesa_configured());
}

#[test]
fn error_statuses_and_texts() {
    let e = AppError::MissingRequiredField("user_id".to_string());
    assert_eq!(e.status_code(), 400);
    assert_eq!(e.summary(), "Missing required field: user_id");
    assert_eq!(AppError::UserNotFound.status_code(), 404);
    assert_eq!(AppError::InvalidPassword.status_code(), 401);
    assert_eq!(AppError::UserAlreadyExists.status_code(), 409);
    assert_eq!(AppError::PhoneNotVerified.status_code(), 403);
    assert_eq!(AppError::MpesaError("x".to_string()).status_code(), 502);
    assert_eq!(AppError::RateLimitExceeded.status_code(), 429);
    assert_eq!(AppError::ServiceUnavailable("x".to_string()).status_code(), 503);
    assert_eq!(AppError::MongoDB("x".to_string()).status_code(), 500);
    assert_eq!(AppError::DocumentNotFound.summary(), "Document not found");
    assert_eq!(AppError::ValidationError("bad".to_string()).summary(), "Validation failed");
}

#[test]
fn error_constructors() {
    assert_eq!(AppError::invalid_data("x"), AppError::ValidationError("x".to_string()));
    assert_eq!(AppError::missing_field("f"), AppError::MissingRequiredField("f".to_string()));
    assert_eq!(AppError::mpesa("m"), AppError::MpesaError("m".to_string()));
    assert_eq!(AppError::external_api("m"), AppError::ExternalApi("m".to_string()));
    assert_eq!(AppError::cloudinary("m"), AppError::CloudinaryError("m".to_string()));
    assert_eq!(AppError::configuration("m"), AppError::ConfigurationError("m".to_string()));
    assert_eq!(AppError::service("m"), AppError::ServiceError("m".to_string()));
    assert_eq!(AppError::redis("m"), AppError::RedisError("m".to_string()));
    assert_eq!(AppError::internal_server_error("m"), AppError::InternalServerError("m".to_string()));
}

#[test]
fn object_ids_are_24_hex_characters() {
    assert!(check_object_id(USER).is_ok());
    assert!(check_object_id("507F1F77BCF86CD799439011").is_ok());
    match check_object_id("not-an-id") {
        Err(AppError::InvalidObjectId(m)) => assert!(!m.is_empty()),
        other => panic!("unexpected {:?}", other),
    }
    assert!(check_object_id("507f1f77bcf86cd79943901").is_err());
    assert!(check_object_id("507f1f77bcf86cd79943901z").is_err());
}

#[test]
fn object_ids_compare_without_case() {
    assert!(same_object_id("507F1F77BCF86CD799439011", USER));
    assert!(!same_object_id("507f1f77bcf86cd799439012", USER));
    assert!(!same_object_id("507f", USER));
}

#[test]
fn amounts_in_text() {
    assert_eq!(amount_2dp(1250), "12.50");
    assert_eq!(amount_2dp(-5), "-0.05");
    assert_eq!(amount_2dp(0), "0.00");
    assert_eq!(amount_short(10000), "100");
    assert_eq!(amount_short(1250), "12.5");
    assert_eq!(amount_short(1205), "12.05");
    assert_eq!(amount_short(-1250), "-12.5");
    assert_eq!(nat_to_string(0), "0");
    assert_eq!(nat_to_string(9876543210), "9876543210");
}

#[test]
fn text_helpers() {
    assert!(str_eq("abc", "abc"));
    assert!(!str_eq("abc", "abd"));
    assert_eq!(fanclash::text::concat("ab", "cd"), "abcd");
    assert_eq!(concat4("a", "b", "c", "d"), "abcd");
    let v = vec!["x".to_string(), "y".to_string(), "x".to_string()];
    assert!(contains_str(&v, "y"));
    assert!(!contains_str(&v, "z"));
    assert_eq!(distinct_strings(&v), vec!["x".to_string(), "y".to_string()]);
}

#[test]
fn phone_numbers_normalize_to_their_last_nine_digits() {
    assert_eq!(normalize_phone("+254705306867"), "705306867");
    assert_eq!(normalize_phone("254705306867"), "705306867");
    assert_eq!(normalize_phone("0705306867"), "705306867");
    assert_eq!(normalize_phone("0705 306-867"), "705306867");
    assert_eq!(normalize_phone("12345"), "12345");
    assert_eq!(normalize_phone(""), "");
    assert_eq!(phone_pattern("+254705306867"), "705306867$");
    assert_eq!(digits_only("+(254) 70-5"), "254705");
}

#[test]
fn normalizing_twice_changes_nothing() {
    for p in ["+254705306867", "0705306867", "712", "254 7 1"] {
        let once = normalize_phone(p);
        assert_eq!(normalize_phone(&once), once);
    }
    // a number whose normal form starts with 0 is where the rule stops
    let once = normalize_phone("00123");
    assert_eq!(once, "0123");
    assert_eq!(normalize_phone(&once), "123");
}

#[test]
fn pins_are_four_digits() {
    assert!(valid_pin("1234"));
    assert!(!valid_pin("123"));
    assert!(!valid_pin("12345"));
    assert!(!valid_pin("12a4"));
}

#[test]
fn pin_hash_is_sha256_hex_of_pin_and_salt() {
    assert_eq!(hash_pin("1234", "salt"), "4b3bed8af7b7612e8c1e25f63ba24496f5b16b2df44efb2db7ce3cb24b7e96f7");
    assert_eq!(hash_pin("", ""), "e3b0c44298fc1c149afbf4c8996fb92427ae41e4649b934ca495991b7852b855");
    assert_eq!(to_lower_hex(&vec![0u8, 15, 171, 255]), "000fabff");
}

#[test]
fn pins_are_stored_with_fresh_salts() {
    let rec = set_pin_record(USER, "2468").ok().unwrap();
    assert_eq!(rec.pin_salt.chars().count(), 16);
    assert!(rec.pin_salt.chars().all(|c| c.is_ascii_alphanumeric()));
    assert_eq!(rec.pin_hash, hash_pin("2468", &rec.pin_salt));
    let again = set_pin_record(USER, "2468").ok().unwrap();
    assert_ne!(rec.pin_salt, again.pin_salt);
    assert_eq!(set_pin_record(USER, "24").err().unwrap().message, "PIN must be exactly 4 digits");
    assert_eq!(set_pin_record("u", "2468").err().unwrap().message, "Invalid user ID format");
}

#[test]
fn set_pin_refusals_and_record() {
    let r = decide_set_pin("bad", "1234", "salt");
    let e = r.err().unwrap();
    assert_eq!((e.status, e.message.as_str()), (400, "Invalid user ID format"));
    let e = decide_set_pin(USER, "12", "salt").err().unwrap();
    assert_eq!((e.status, e.message.as_str()), (400, "PIN must be exactly 4 digits"));
    let rec = decide_set_pin(USER, "1234", "salt").ok().unwrap();
    assert_eq!(rec.pin_salt, "salt");
    assert_eq!(rec.pin_hash, hash_pin("1234", "salt"));
}

#[test]
fn a_pin_that_was_set_logs_in() {
    let rec = decide_set_pin(USER, "4321", "pepper").ok().unwrap();
    let account = PinAccount { is_pin_enabled: true, pin_hash: Some(rec.pin_hash), pin_salt: Some(rec.pin_salt) };
    assert!(decide_pin_login(&Some(account.clone()), "4321").is_ok());
    let e = decide_pin_login(&Some(account), "4320").err().unwrap();
    assert_eq!((e.status, e.message.as_str()), (401, "Invalid PIN"));
}

#[test]
fn pin_login_refusals() {
    let e = decide_pin_login(&None, "1234").err().unwrap();
    assert_eq!((e.status, e.message.as_str()), (404, "User not found"));
    let off = PinAccount { is_pin_enabled: false, pin_hash: None, pin_salt: None };
    let e = decide_pin_login(&Some(off), "1234").err().unwrap();
    assert_eq!((e.status, e.message.as_str()), (400, "PIN not set for this account"));
}

#[test]
fn registration_refusals() {
    let e = decide_registration(true, true).err().unwrap();
    assert_eq!((e.status, e.message.as_str()), (409, "Phone number already registered"));
    let e = decide_registration(false, true).err().unwrap();
    assert_eq!((e.status, e.message.as_str()), (409, "Username already taken"));
    assert!(decide_registration(false, false).is_ok());
}

#[test]
fn phone_updates() {
    let e = decide_phone_update("   ", USER).err().unwrap();
    assert_eq!(e.message, "Phone number is required");
    let e = decide_phone_update("0705306867", "nope").err().unwrap();
    assert_eq!(e.message, "Invalid user ID format");
    let e = decide_phone_update("12345", USER).err().unwrap();
    assert_eq!(e.message, "Phone number must contain between 9 and 15 digits");
    let e = decide_phone_update("0705306867x", USER).err().unwrap();
    assert_eq!(e.message, "Phone number contains invalid characters");
    assert_eq!(decide_phone_update(" +254 (705) 306-867", USER).ok().unwrap(), "+254705306867");
    assert_eq!(decide_phone_update("0705306867", USER).ok().unwrap(), "0705306867");
}

#[test]
fn tokens_expire_a_day_later() {
    let c = token_claims(USER, "fan", "705306867", 1_700_000_000);
    assert_eq!(c.sub, USER);
    assert_eq!(c.username, "fan");
    assert_eq!(c.phone, "705306867");
    assert_eq!(c.exp, 1_700_086_400);
}

#[test]
fn user_lookups() {
    assert_eq!(decide_user_by_id("x", true).err().unwrap().status, 400);
    assert_eq!(decide_user_by_id(USER, false).err().unwrap().status, 404);
    assert!(decide_user_by_id(USER, true).is_ok());
    assert_eq!(decide_account_found(false).err().unwrap().message, "User not found");
    assert!(decide_account_found(true).is_ok());
}

#[test]
fn password_reset_requests_validate() {
    assert!(ForgotPasswordRequest { username: "ab".to_string() }.validate().is_err());
    assert!(ForgotPasswordRequest { username: "abc".to_string() }.validate().is_ok());
    let otp = |s: &str| VerifyOTPRequest { user_id: USER.to_string(), otp: s.to_string(), reset_token: "t".to_string() };
    assert_eq!(otp("12345").validate().err().unwrap(), "OTP must be 6 digits");
    assert!(otp("123456").validate().is_ok());
    let pw = |s: &str| ResetPasswordRequest { user_id: USER.to_string(), reset_token: "t".to_string(), new_password: s.to_string() };
    assert_eq!(pw("12345").validate().err().unwrap(), "Password must be at least 6 characters");
    assert!(pw("123456").validate().is_ok());
}

#[test]
fn every_error_has_its_status_summary_and_message() {
    let m = || "x".to_string();
    let cases: Vec<(AppError, u16, &str, &str)> = vec![
        (AppError::MongoDB(m()), 500, "Database error", "MongoDB error: x"),
        (AppError::Multipart(m()), 400, "Invalid multipart data", "Multipart error: x"),
        (AppError::Io(m()), 500, "IO error", "IO error: x"),
        (AppError::InvalidImageFormat, 400, "Invalid image format", "Invalid image format"),
        (AppError::ImageTooLarge, 400, "Image too large", "Image too large"),
        (AppError::NoImageProvided, 400, "No image provided", "No image provided"),
        (AppError::InvalidUserData, 400, "Invalid user data", "Invalid user data"),
        (AppError::UserNotFound, 404, "User not found", "User not found"),
        (AppError::InvalidPassword, 401, "Invalid password", "Invalid password"),
        (AppError::UserAlreadyExists, 409, "User already exists", "User already exists"),
        (AppError::MissingRequiredField(m()), 400, "Missing required field: x", "Missing required field: x"),
        (AppError::PhoneNotVerified, 403, "Phone number not verified", "Phone not verified"),
        (AppError::InvalidOtp, 400, "Invalid or expired OTP", "Invalid or expired OTP"),
        (AppError::OtpExpired, 400, "OTP has expired. Please request a new one", "OTP session expired"),
        (AppError::PostNotFound, 404, "Post not found", "Post not found"),
        (AppError::InvalidObjectId(m()), 400, "Invalid ID format", "Invalid ObjectId: x"),
        (AppError::DocumentNotFound, 404, "Document not found", "Document not found"),
        (AppError::DuplicateKey, 409, "Duplicate entry", "Duplicate key error"),
        (AppError::MpesaError(m()), 502, "M-Pesa error", "M-Pesa error: x"),
        (AppError::AuthError, 401, "Authentication failed", "Authentication error"),
        (AppError::Unauthorized, 403, "Unauthorized access", "Unauthorized access"),
        (AppError::ValidationError(m()), 400, "Validation failed", "Validation error: x"),
        (AppError::RateLimitExceeded, 429, "Rate limit exceeded", "Rate limit exceeded"),
        (AppError::ServiceUnavailable(m()), 503, "Service unavailable", "Service unavailable: x"),
        (AppError::ExternalApi(m()), 502, "External API error", "External API error: x"),
        (AppError::CloudinaryError(m()), 502, "Cloudinary error", "Cloudinary error: x"),
        (AppError::ConfigurationError(m()), 500, "Configuration error", "Configuration error: x"),
        (AppError::ServiceError(m()), 500, "Service error", "Service error: x"),
        (AppError::RedisError(m()), 500, "Redis error", "Redis error: x"),
        (AppError::HttpClientError(m()), 500, "HTTP client error", "HTTP client error: x"),
        (AppError::InternalServerError(m()), 500, "Internal server error", "Internal server error: x"),
    ];
    for (e, status, summary, message) in cases {
        assert_eq!(e.status_code(), status, "{:?}", e);
        assert_eq!(e.summary(), summary, "{:?}", e);
        assert_eq!(e.message(), message, "{:?}", e);
    }
}
