//! The service's errors, the HTTP status each is answered with, and the
//! text it is reported under.

use vstd::prelude::*;
use crate::text::concat;

verus! {

/// An error of the service. Errors of the storage, I/O and HTTP layers are
/// carried as their message text.
#[derive(Debug, Clone, PartialEq, Eq)]
pub enum AppError {
    MongoDB(String),
    Multipart(String),
    Io(String),
    InvalidImageFormat,
    ImageTooLarge,
    NoImageProvided,
    InvalidUserData,
    UserNotFound,
    InvalidPassword,
    UserAlreadyExists,
    MissingRequiredField(String),
    PhoneNotVerified,
    InvalidOtp,
    OtpExpired,
    PostNotFound,
    InvalidObjectId(String),
    DocumentNotFound,
    DuplicateKey,
    MpesaError(String),
    AuthError,
    Unauthorized,
    ValidationError(String),
    RateLimitExceeded,
    ServiceUnavailable(String),
    ExternalApi(String),
    CloudinaryError(String),
    ConfigurationError(String),
    ServiceError(String),
    RedisError(String),
    HttpClientError(String),
    InternalServerError(String),
}

/// The HTTP status an error is answered with.
pub open spec fn spec_status(e: AppError) -> u16 {
    match e {
        AppError::MongoDB(_) => 500,
        AppError::Multipart(_) => 400,
        AppError::Io(_) => 500,
        AppError::InvalidImageFormat => 400,
        AppError::ImageTooLarge => 400,
        AppError::NoImageProvided => 400,
        AppError::InvalidUserData => 400,
        AppError::UserNotFound => 404,
        AppError::InvalidPassword => 401,
        AppError::UserAlreadyExists => 409,
        AppError::MissingRequiredField(_) => 400,
        AppError::PhoneNotVerified => 403,
        AppError::InvalidOtp => 400,
        AppError::OtpExpired => 400,
        AppError::PostNotFound => 404,
        AppError::InvalidObjectId(_) => 400,
        AppError::DocumentNotFound => 404,
        AppError::DuplicateKey => 409,
        AppError::MpesaError(_) => 502,
        AppError::AuthError => 401,
        AppError::Unauthorized => 403,
        AppError::ValidationError(_) => 400,
        AppError::RateLimitExceeded => 429,
        AppError::ServiceUnavailable(_) => 503,
        AppError::ExternalApi(_) => 502,
        AppError::CloudinaryError(_) => 502,
        AppError::ConfigurationError(_) => 500,
        AppError::ServiceError(_) => 500,
        AppError::RedisError(_) => 500,
        AppError::HttpClientError(_) => 500,
        AppError::InternalServerError(_) => 500,
    }
}

/// The short description an error is answered with (the `error` field).
pub open spec fn spec_summary(e: AppError) -> Seq<char> {
    match e {
        AppError::MongoDB(_) => "Database error"@,
        AppError::Multipart(_) => "Invalid multipart data"@,
        AppError::Io(_) => "IO error"@,
        AppError::InvalidImageFormat => "Invalid image format"@,
        AppError::ImageTooLarge => "Image too large"@,
        AppError::NoImageProvided => "No image provided"@,
        AppError::InvalidUserData => "Invalid user data"@,
        AppError::UserNotFound => "User not found"@,
        AppError::InvalidPassword => "Invalid password"@,
        AppError::UserAlreadyExists => "User already exists"@,
        AppError::MissingRequiredField(f) => "Missing required field: "@ + f@,
        AppError::PhoneNotVerified => "Phone number not verified"@,
        AppError::InvalidOtp => "Invalid or expired OTP"@,
        AppError::OtpExpired => "OTP has expired. Please request a new one"@,
        AppError::PostNotFound => "Post not found"@,
        AppError::InvalidObjectId(_) => "Invalid ID format"@,
        AppError::DocumentNotFound => "Document not found"@,
        AppError::DuplicateKey => "Duplicate entry"@,
        AppError::MpesaError(_) => "M-Pesa error"@,
        AppError::AuthError => "Authentication failed"@,
        AppError::Unauthorized => "Unauthorized access"@,
        AppError::ValidationError(_) => "Validation failed"@,
        AppError::RateLimitExceeded => "Rate limit exceeded"@,
        AppError::ServiceUnavailable(_) => "Service unavailable"@,
        AppError::ExternalApi(_) => "External API error"@,
        AppError::CloudinaryError(_) => "Cloudinary error"@,
        AppError::ConfigurationError(_) => "Configuration error"@,
        AppError::ServiceError(_) => "Service error"@,
        AppError::RedisError(_) => "Redis error"@,
        AppError::HttpClientError(_) => "HTTP client error"@,
        AppError::InternalServerError(_) => "Internal server error"@,
    }
}

/// The full message of an error (the `message` field).
pub open spec fn spec_message(e: AppError) -> Seq<char> {
    match e {
        AppError::MongoDB(m) => "MongoDB error: "@ + m@,
        AppError::Multipart(m) => "Multipart error: "@ + m@,
        AppError::Io(m) => "IO error: "@ + m@,
        AppError::InvalidImageFormat => "Invalid image format"@,
        AppError::ImageTooLarge => "Image too large"@,
        AppError::NoImageProvided => "No image provided"@,
        AppError::InvalidUserData => "Invalid user data"@,
        AppError::UserNotFound => "User not found"@,
        AppError::InvalidPassword => "Invalid password"@,
        AppError::UserAlreadyExists => "User already exists"@,
        AppError::MissingRequiredField(f) => "Missing required field: "@ + f@,
        AppError::PhoneNotVerified => "Phone not verified"@,
        AppError::InvalidOtp => "Invalid or expired OTP"@,
        AppError::OtpExpired => "OTP session expired"@,
        AppError::PostNotFound => "Post not found"@,
        AppError::InvalidObjectId(m) => "Invalid ObjectId: "@ + m@,
        AppError::DocumentNotFound => "Document not found"@,
        AppError::DuplicateKey => "Duplicate key error"@,
        AppError::MpesaError(m) => "M-Pesa error: "@ + m@,
        AppError::AuthError => "Authentication error"@,
        AppError::Unauthorized => "Unauthorized access"@,
        AppError::ValidationError(m) => "Validation error: "@ + m@,
        AppError::RateLimitExceeded => "Rate limit exceeded"@,
        AppError::ServiceUnavailable(m) => "Service unavailable: "@ + m@,
        AppError::ExternalApi(m) => "External API error: "@ + m@,
        AppError::CloudinaryError(m) => "Cloudinary error: "@ + m@,
        AppError::ConfigurationError(m) => "Configuration error: "@ + m@,
        AppError::ServiceError(m) => "Service error: "@ + m@,
        AppError::RedisError(m) => "Redis error: "@ + m@,
        AppError::HttpClientError(m) => "HTTP client error: "@ + m@,
        AppError::InternalServerError(m) => "Internal server error: "@ + m@,
    }
}

fn text(s: &str) -> (r: String)
    ensures
        r@ == s@,
{
    String::from_str(s)
}

impl AppError {
    /// The HTTP status the error is answered with.
    pub fn status_code(&self) -> (s: u16)
        ensures
            s == spec_status(*self),
    {
        match self {
            AppError::MongoDB(_) => 500,
            AppError::Multipart(_) => 400,
            AppError::Io(_) => 500,
            AppError::InvalidImageFormat => 400,
            AppError::ImageTooLarge => 400,
            AppError::NoImageProvided => 400,
            AppError::InvalidUserData => 400,
            AppError::UserNotFound => 404,
            AppError::InvalidPassword => 401,
            AppError::UserAlreadyExists => 409,
            AppError::MissingRequiredField(_) => 400,
            AppError::PhoneNotVerified => 403,
            AppError::InvalidOtp => 400,
            AppError::OtpExpired => 400,
            AppError::PostNotFound => 404,
            AppError::InvalidObjectId(_) => 400,
            AppError::DocumentNotFound => 404,
            AppError::DuplicateKey => 409,
            AppError::MpesaError(_) => 502,
            AppError::AuthError => 401,
            AppError::Unauthorized => 403,
            AppError::ValidationError(_) => 400,
            AppError::RateLimitExceeded => 429,
            AppError::ServiceUnavailable(_) => 503,
            AppError::ExternalApi(_) => 502,
            AppError::CloudinaryError(_) => 502,
            AppError::ConfigurationError(_) => 500,
            AppError::ServiceError(_) => 500,
            AppError::RedisError(_) => 500,
            AppError::HttpClientError(_) => 500,
            AppError::InternalServerError(_) => 500,
        }
    }

    /// The short description of the error.
    pub fn summary(&self) -> (s: String)
        ensures
            s@ == spec_summary(*self),
    {
        match self {
            AppError::MongoDB(_) => text("Database error"),
            AppError::Multipart(_) => text("Invalid multipart data"),
            AppError::Io(_) => text("IO error"),
            AppError::InvalidImageFormat => text("Invalid image format"),
            AppError::ImageTooLarge => text("Image too large"),
            AppError::NoImageProvided => text("No image provided"),
            AppError::InvalidUserData => text("Invalid user data"),
            AppError::UserNotFound => text("User not found"),
            AppError::InvalidPassword => text("Invalid password"),
            AppError::UserAlreadyExists => text("User already exists"),
            AppError::MissingRequiredField(f) => concat("Missing required field: ", f.as_str()),
            AppError::PhoneNotVerified => text("Phone number not verified"),
            AppError::InvalidOtp => text("Invalid or expired OTP"),
            AppError::OtpExpired => text("OTP has expired. Please request a new one"),
            AppError::PostNotFound => text("Post not found"),
            AppError::InvalidObjectId(_) => text("Invalid ID format"),
            AppError::DocumentNotFound => text("Document not found"),
            AppError::DuplicateKey => text("Duplicate entry"),
            AppError::MpesaError(_) => text("M-Pesa error"),
            AppError::AuthError => text("Authentication failed"),
            AppError::Unauthorized => text("Unauthorized access"),
            AppError::ValidationError(_) => text("Validation failed"),
            AppError::RateLimitExceeded => text("Rate limit exceeded"),
            AppError::ServiceUnavailable(_) => text("Service unavailable"),
            AppError::ExternalApi(_) => text("External API error"),
            AppError::CloudinaryError(_) => text("Cloudinary error"),
            AppError::ConfigurationError(_) => text("Configuration error"),
            AppError::ServiceError(_) => text("Service error"),
            AppError::RedisError(_) => text("Redis error"),
            AppError::HttpClientError(_) => text("HTTP client error"),
            AppError::InternalServerError(_) => text("Internal server error"),
        }
    }

    /// The full message of the error.
    pub fn message(&self) -> (s: String)
        ensures
            s@ == spec_message(*self),
    {
        match self {
            AppError::MongoDB(m) => concat("MongoDB error: ", m.as_str()),
            AppError::Multipart(m) => concat("Multipart error: ", m.as_str()),
            AppError::Io(m) => concat("IO error: ", m.as_str()),
            AppError::InvalidImageFormat => text("Invalid image format"),
            AppError::ImageTooLarge => text("Image too large"),
            AppError::NoImageProvided => text("No image provided"),
            AppError::InvalidUserData => text("Invalid user data"),
            AppError::UserNotFound => text("User not found"),
            AppError::InvalidPassword => text("Invalid password"),
            AppError::UserAlreadyExists => text("User already exists"),
            AppError::MissingRequiredField(f) => concat("Missing required field: ", f.as_str()),
            AppError::PhoneNotVerified => text("Phone not verified"),
            AppError::InvalidOtp => text("Invalid or expired OTP"),
            AppError::OtpExpired => text("OTP session expired"),
            AppError::PostNotFound => text("Post not found"),
            AppError::InvalidObjectId(m) => concat("Invalid ObjectId: ", m.as_str()),
            AppError::DocumentNotFound => text("Document not found"),
            AppError::DuplicateKey => text("Duplicate key error"),
            AppError::MpesaError(m) => concat("M-Pesa error: ", m.as_str()),
            AppError::AuthError => text("Authentication error"),
            AppError::Unauthorized => text("Unauthorized access"),
            AppError::ValidationError(m) => concat("Validation error: ", m.as_str()),
            AppError::RateLimitExceeded => text("Rate limit exceeded"),
            AppError::ServiceUnavailable(m) => concat("Service unavailable: ", m.as_str()),
            AppError::ExternalApi(m) => concat("External API error: ", m.as_str()),
            AppError::CloudinaryError(m) => concat("Cloudinary error: ", m.as_str()),
            AppError::ConfigurationError(m) => concat("Configuration error: ", m.as_str()),
            AppError::ServiceError(m) => concat("Service error: ", m.as_str()),
            AppError::RedisError(m) => concat("Redis error: ", m.as_str()),
            AppError::HttpClientError(m) => concat("HTTP client error: ", m.as_str()),
            AppError::InternalServerError(m) => concat("Internal server error: ", m.as_str()),
        }
    }

    /// A validation error with the given message.
    pub fn invalid_data(msg: &str) -> (e: AppError)
        ensures
            e matches AppError::ValidationError(m) && m@ == msg@,
    {
        AppError::ValidationError(text(msg))
    }

    /// A missing-field error naming the field.
    pub fn missing_field(field: &str) -> (e: AppError)
        ensures
            e matches AppError::MissingRequiredField(m) && m@ == field@,
    {
        AppError::MissingRequiredField(text(field))
    }

    /// An M-Pesa error with the given message.
    pub fn mpesa(msg: &str) -> (e: AppError)
        ensures
            e matches AppError::MpesaError(m) && m@ == msg@,
    {
        AppError::MpesaError(text(msg))
    }

    /// An external-API error with the given message.
    pub fn external_api(msg: &str) -> (e: AppError)
        ensures
            e matches AppError::ExternalApi(m) && m@ == msg@,
    {
        AppError::ExternalApi(text(msg))
    }

    /// A Cloudinary error with the given message.
    pub fn cloudinary(msg: &str) -> (e: AppError)
        ensures
            e matches AppError::CloudinaryError(m) && m@ == msg@,
    {
        AppError::CloudinaryError(text(msg))
    }

    /// A configuration error with the given message.
    pub fn configuration(msg: &str) -> (e: AppError)
        ensures
            e matches AppError::ConfigurationError(m) && m@ == msg@,
    {
        AppError::ConfigurationError(text(msg))
    }

    /// A service error with the given message.
    pub fn service(msg: &str) -> (e: AppError)
        ensures
            e matches AppError::ServiceError(m) && m@ == msg@,
    {
        AppError::ServiceError(text(msg))
    }

    /// A Redis error with the given message.
    pub fn redis(msg: &str) -> (e: AppError)
        ensures
            e matches AppError::RedisError(m) && m@ == msg@,
    {
        AppError::RedisError(text(msg))
    }

    /// The error an integer that does not parse is reported with, given the
    /// parse error's text: a validation error `Integer parsing error: ...`.
    pub fn integer_parsing(detail: &str) -> (e: AppError)
        ensures
            is_validation_error(e, "Integer parsing error: "@ + detail@),
    {
        AppError::ValidationError(concat("Integer parsing error: ", detail))
    }

    /// The error a number that does not parse is reported with, given the
    /// parse error's text: a validation error `Number parsing error: ...`.
    pub fn number_parsing(detail: &str) -> (e: AppError)
        ensures
            is_validation_error(e, "Number parsing error: "@ + detail@),
    {
        AppError::ValidationError(concat("Number parsing error: ", detail))
    }

    /// The error a JSON body that does not parse is reported with, given the
    /// parser's text: a validation error `JSON parsing error: ...`.
    pub fn json_parsing(detail: &str) -> (e: AppError)
        ensures
            is_validation_error(e, "JSON parsing error: "@ + detail@),
    {
        AppError::ValidationError(concat("JSON parsing error: ", detail))
    }

    /// The error a failed outgoing request is reported with, given the
    /// client's text: an external-API error `HTTP request failed: ...`.
    pub fn http_request_failed(detail: &str) -> (e: AppError)
        ensures
            e matches AppError::ExternalApi(m) && m@ == "HTTP request failed: "@ + detail@,
    {
        AppError::ExternalApi(concat("HTTP request failed: ", detail))
    }

    /// The error a malformed multipart body is reported with, given its text.
    pub fn multipart(detail: &str) -> (e: AppError)
        ensures
            e matches AppError::Multipart(m) && m@ == detail@,
    {
        AppError::Multipart(text(detail))
    }

    /// An internal error with the given message.
    pub fn internal_server_error(msg: &str) -> (e: AppError)
        ensures
            e matches AppError::InternalServerError(m) && m@ == msg@,
    {
        AppError::InternalServerError(text(msg))
    }
}

} // verus!

verus! {

/// `e` is a validation error with message `msg`.
pub open spec fn is_validation_error(e: AppError, msg: Seq<char>) -> bool {
    e matches AppError::ValidationError(m) && m@ == msg
}

/// `e` reports the missing field `field`.
pub open spec fn is_missing_field(e: AppError, field: Seq<char>) -> bool {
    e matches AppError::MissingRequiredField(m) && m@ == field
}

/// `e` reports a malformed object id with message `msg`.
pub open spec fn is_invalid_object_id(e: AppError, msg: Seq<char>) -> bool {
    e matches AppError::InvalidObjectId(m) && m@ == msg
}

} // verus!
