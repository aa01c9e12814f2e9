//! The errors that the service reports, with the status code and the message
//! that a response carries for each.

use crate::path_guard::SafeFsError;
use crate::text::concat_str;
use crate::transactionalfs::TransactionalFsError;
use vstd::prelude::*;
use vstd::std_specs::convert::FromSpecImpl;
use vstd::string::StringExecFns;

verus! {

/// An error of the service. A variant that stems from another component
/// carries that component's message.
#[derive(Debug)]
pub enum AppError {
    DbError(String),
    SerdeError(String),
    JwtError(String),
    BcryptError(String),
    IoError(String),
    FileNotFound,
    Unauthorized,
    Forbidden,
    LicenseExpired,
    LicenseNotFound,
    UserNotFound,
    InvalidCredentials,
    UserExists,
    AdminCheckFailed,
    ConfigError(String),
    InvalidData(String),
    CacheError(String),
    MissingExtension(String),
    Unknown,
    InternalServerError(String),
    BadRequest(String),
    /// A table file could not be parsed.
    ParseError(String),
}

/// The HTTP status code that an error is answered with.
pub open spec fn status_of(error: AppError) -> u16 {
    match error {
        AppError::Unauthorized => 401,
        AppError::Forbidden => 403,
        AppError::LicenseExpired => 403,
        AppError::LicenseNotFound => 403,
        AppError::UserNotFound => 404,
        AppError::InvalidCredentials => 401,
        AppError::UserExists => 409,
        AppError::AdminCheckFailed => 404,
        AppError::FileNotFound => 404,
        AppError::InvalidData(_) => 400,
        _ => 500,
    }
}

/// The text that an error shows.
pub open spec fn message_of(error: AppError) -> Seq<char> {
    match error {
        AppError::DbError(_) => "Database error"@,
        AppError::SerdeError(_) => "Serialization/Deserialization error"@,
        AppError::JwtError(_) => "JWT error"@,
        AppError::BcryptError(_) => "Password hashing error"@,
        AppError::IoError(detail) => "I/O error: "@ + detail@,
        AppError::FileNotFound => "File not found"@,
        AppError::Unauthorized => "Unauthorized"@,
        AppError::Forbidden => "Forbidden"@,
        AppError::LicenseExpired => "License expired"@,
        AppError::LicenseNotFound => "License not found"@,
        AppError::UserNotFound => "User not found"@,
        AppError::InvalidCredentials => "Invalid credentials"@,
        AppError::UserExists => "User already exists"@,
        AppError::AdminCheckFailed => "Admin check failed"@,
        AppError::ConfigError(detail) => "Configuration error: "@ + detail@,
        AppError::InvalidData(detail) => "Invalid data: "@ + detail@,
        AppError::CacheError(detail) => "Cache error: "@ + detail@,
        AppError::MissingExtension(detail) => "Missing expected extension: "@ + detail@,
        AppError::Unknown => "Unknown error"@,
        AppError::InternalServerError(detail) => "Internal server error: "@ + detail@,
        AppError::BadRequest(detail) => "Bad request: "@ + detail@,
        AppError::ParseError(detail) => "Parse error: "@ + detail@,
    }
}

impl AppError {
    /// The HTTP status code that this error is answered with.
    pub fn status_code(&self) -> (code: u16)
        ensures
            code == status_of(*self),
    {
        match self {
            AppError::Unauthorized => 401,
            AppError::Forbidden => 403,
            AppError::LicenseExpired => 403,
            AppError::LicenseNotFound => 403,
            AppError::UserNotFound => 404,
            AppError::InvalidCredentials => 401,
            AppError::UserExists => 409,
            AppError::AdminCheckFailed => 404,
            AppError::FileNotFound => 404,
            AppError::InvalidData(_) => 400,
            _ => 500,
        }
    }

    /// The text that this error shows.
    pub fn message(&self) -> (s: String)
        ensures
            s@ == message_of(*self),
    {
        match self {
            AppError::DbError(_) => String::from_str("Database error"),
            AppError::SerdeError(_) => String::from_str("Serialization/Deserialization error"),
            AppError::JwtError(_) => String::from_str("JWT error"),
            AppError::BcryptError(_) => String::from_str("Password hashing error"),
            AppError::IoError(detail) => concat_str("I/O error: ", detail.as_str()),
            AppError::FileNotFound => String::from_str("File not found"),
            AppError::Unauthorized => String::from_str("Unauthorized"),
            AppError::Forbidden => String::from_str("Forbidden"),
            AppError::LicenseExpired => String::from_str("License expired"),
            AppError::LicenseNotFound => String::from_str("License not found"),
            AppError::UserNotFound => String::from_str("User not found"),
            AppError::InvalidCredentials => String::from_str("Invalid credentials"),
            AppError::UserExists => String::from_str("User already exists"),
            AppError::AdminCheckFailed => String::from_str("Admin check failed"),
            AppError::ConfigError(detail) => concat_str("Configuration error: ", detail.as_str()),
            AppError::InvalidData(detail) => concat_str("Invalid data: ", detail.as_str()),
            AppError::CacheError(detail) => concat_str("Cache error: ", detail.as_str()),
            AppError::MissingExtension(detail) => concat_str(
                "Missing expected extension: ",
                detail.as_str(),
            ),
            AppError::Unknown => String::from_str("Unknown error"),
            AppError::InternalServerError(detail) => concat_str(
                "Internal server error: ",
                detail.as_str(),
            ),
            AppError::BadRequest(detail) => concat_str("Bad request: ", detail.as_str()),
            AppError::ParseError(detail) => concat_str("Parse error: ", detail.as_str()),
        }
    }
}

/// The error of the service that stands for a failed containment check. A
/// traversal attempt is answered as forbidden, without the path.
pub open spec fn safety_error_of(err: SafeFsError) -> AppError {
    match err {
        SafeFsError::PathTraversalDetected => AppError::Forbidden,
        SafeFsError::Io(detail) => AppError::IoError(detail),
    }
}

impl From<SafeFsError> for AppError {
    fn from(err: SafeFsError) -> (r: AppError) {
        match err {
            SafeFsError::PathTraversalDetected => AppError::Forbidden,
            SafeFsError::Io(detail) => AppError::IoError(detail),
        }
    }
}

impl FromSpecImpl<SafeFsError> for AppError {
    open spec fn obeys_from_spec() -> bool {
        true
    }

    open spec fn from_spec(err: SafeFsError) -> AppError {
        safety_error_of(err)
    }
}

/// The error of the service that stands for a failure of the file store: the
/// view of `AppError::from`, up to the texts it builds.
pub open spec fn store_error_matches(err: TransactionalFsError, r: AppError) -> bool {
    match err {
        TransactionalFsError::Io(detail) => r == AppError::IoError(detail),
        TransactionalFsError::SafetyError(inner) => r == safety_error_of(inner),
        TransactionalFsError::FileNotFound(_) => r == AppError::FileNotFound,
        TransactionalFsError::GitCommand(detail) => r matches AppError::InternalServerError(text)
            && text@ == "Git command failed: "@ + detail@,
        TransactionalFsError::CommitNotFound(hash) => r matches AppError::BadRequest(text) && text@
            == "Git commit not found: "@ + hash@,
        TransactionalFsError::GitLogParseError(detail) => r matches AppError::InternalServerError(
            text,
        ) && text@ == "Git log parsing error: "@ + detail@,
    }
}

/// Turns a failure of the file store into an error of the service.
pub fn app_error_from_store(err: TransactionalFsError) -> (r: AppError)
    ensures
        store_error_matches(err, r),
{
    match err {
        TransactionalFsError::Io(detail) => AppError::IoError(detail),
        TransactionalFsError::SafetyError(inner) => match inner {
            SafeFsError::PathTraversalDetected => AppError::Forbidden,
            SafeFsError::Io(detail) => AppError::IoError(detail),
        },
        TransactionalFsError::FileNotFound(_) => AppError::FileNotFound,
        TransactionalFsError::GitCommand(detail) => AppError::InternalServerError(
            concat_str("Git command failed: ", detail.as_str()),
        ),
        TransactionalFsError::CommitNotFound(hash) => AppError::BadRequest(
            concat_str("Git commit not found: ", hash.as_str()),
        ),
        TransactionalFsError::GitLogParseError(detail) => AppError::InternalServerError(
            concat_str("Git log parsing error: ", detail.as_str()),
        ),
    }
}

} // verus!
