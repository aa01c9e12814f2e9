use backend_service::cars::{body_type_into_t1_entry, t1_entry_into_body_type};
use backend_service::errors::{app_error_from_store, AppError};
use backend_service::exlogging::{format_frontend_failure, format_log_entry, LogLevel};
use backend_service::invite::{grants_license, should_archive, UsagePolicy};
use backend_service::license_manager::{
    days_between, default_license_level, requested_level, LicenseClaims, LicenseData,
};
use backend_service::models::{default_empty_string, default_lang, PricingPreferences, RevertCommit};
use backend_service::path_guard::SafeFsError;
use backend_service::transactionalfs::{Request, TransactionalFsError};

#[test]
fn body_types_in_both_vocabularies() {
    assert_eq!(body_type_into_t1_entry("wagon"), "УНИВЕРСАЛ");
    assert_eq!(body_type_into_t1_entry("pickup"), "ПИКАП");
    assert_eq!(body_type_into_t1_entry("sedan"), "СЕДАН");
    assert_eq!(body_type_into_t1_entry("liftback"), "ЛИФТБЭК 5 дверей");
    assert_eq!(body_type_into_t1_entry("hatchback 5 doors"), "ХЕТЧБЕК 5 дверей");
    assert_eq!(body_type_into_t1_entry("hatchback 3 doors"), "ХЕТЧБЕК 3 двери");
    assert_eq!(body_type_into_t1_entry("suv 3 doors"), "ВНЕДОРОЖНИК 3 дверный");
    assert_eq!(body_type_into_t1_entry("suv 5 doors"), "ВНЕДОРОЖНИК 5 дверный");
    assert_eq!(body_type_into_t1_entry("coupe"), "КУПЕ");
    assert_eq!(body_type_into_t1_entry("tank"), "tank");
    assert_eq!(t1_entry_into_body_type("УНИВЕРСАЛ"), "wagon");
    assert_eq!(t1_entry_into_body_type("ЛИФТБЭК 5 дверей"), "liftback");
    assert_eq!(t1_entry_into_body_type("КУПЕ"), "coupe");
    assert_eq!(t1_entry_into_body_type("Купе"), "Купе");
}

#[test]
fn body_types_go_there_and_back() {
    for body_type in [
        "wagon", "pickup", "sedan", "liftback", "hatchback 5 doors", "hatchback 3 doors",
        "suv 3 doors", "suv 5 doors", "coupe",
    ] {
        assert_eq!(t1_entry_into_body_type(&body_type_into_t1_entry(body_type)), body_type);
    }
}

#[test]
fn status_codes_of_errors() {
    assert_eq!(AppError::Unauthorized.status_code(), 401);
    assert_eq!(AppError::InvalidCredentials.status_code(), 401);
    assert_eq!(AppError::Forbidden.status_code(), 403);
    assert_eq!(AppError::LicenseExpired.status_code(), 403);
    assert_eq!(AppError::LicenseNotFound.status_code(), 403);
    assert_eq!(AppError::UserNotFound.status_code(), 404);
    assert_eq!(AppError::AdminCheckFailed.status_code(), 404);
    assert_eq!(AppError::FileNotFound.status_code(), 404);
    assert_eq!(AppError::UserExists.status_code(), 409);
    assert_eq!(AppError::InvalidData("x".to_string()).status_code(), 400);
    assert_eq!(AppError::ConfigError("x".to_string()).status_code(), 500);
    assert_eq!(AppError::BadRequest("x".to_string()).status_code(), 500);
    assert_eq!(AppError::Unknown.status_code(), 500);
    assert_eq!(AppError::ParseError("x".to_string()).status_code(), 500);
}

#[test]
fn messages_of_errors() {
    assert_eq!(AppError::DbError("inner".to_string()).message(), "Database error");
    assert_eq!(AppError::IoError("gone".to_string()).message(), "I/O error: gone");
    assert_eq!(AppError::FileNotFound.message(), "File not found");
    assert_eq!(AppError::InvalidData("Empty file".to_string()).message(), "Invalid data: Empty file");
    assert_eq!(AppError::BadRequest("b".to_string()).message(), "Bad request: b");
    assert_eq!(AppError::InternalServerError("e".to_string()).message(), "Internal server error: e");
    assert_eq!(AppError::MissingExtension("m".to_string()).message(), "Missing expected extension: m");
    assert_eq!(AppError::Unknown.message(), "Unknown error");
}

#[test]
fn a_traversal_is_answered_as_forbidden_without_a_path() {
    let error = AppError::from(SafeFsError::PathTraversalDetected);
    assert!(matches!(error, AppError::Forbidden));
    assert_eq!(error.message(), "Forbidden");
    assert!(matches!(
        app_error_from_store(TransactionalFsError::SafetyError(SafeFsError::PathTraversalDetected)),
        AppError::Forbidden
    ));
    assert!(matches!(
        AppError::from(SafeFsError::Io("e".to_string())),
        AppError::IoError(text) if text == "e"
    ));
}

#[test]
fn store_errors_as_errors_of_the_service() {
    assert!(matches!(
        app_error_from_store(TransactionalFsError::Io("e".to_string())),
        AppError::IoError(text) if text == "e"
    ));
    assert!(matches!(
        app_error_from_store(TransactionalFsError::FileNotFound("/a".to_string())),
        AppError::FileNotFound
    ));
    assert!(matches!(
        app_error_from_store(TransactionalFsError::GitCommand("g".to_string())),
        AppError::InternalServerError(text) if text == "Git command failed: g"
    ));
    assert!(matches!(
        app_error_from_store(TransactionalFsError::CommitNotFound("abc".to_string())),
        AppError::BadRequest(text) if text == "Git commit not found: abc"
    ));
    assert!(matches!(
        app_error_from_store(TransactionalFsError::GitLogParseError("p".to_string())),
        AppError::InternalServerError(text) if text == "Git log parsing error: p"
    ));
}

#[test]
fn the_word_last_reverts_the_last_commit() {
    let last = RevertCommit { commit_hash: "last".to_string() };
    assert!(matches!(last.request(), Request::RevertLast));
    let named = RevertCommit { commit_hash: "abc123".to_string() };
    assert!(matches!(named.request(), Request::RevertCommit { hash } if hash == "abc123"));
    let other = RevertCommit { commit_hash: "Last".to_string() };
    assert!(matches!(other.request(), Request::RevertCommit { hash } if hash == "Last"));
}

#[test]
fn defaults_of_the_models() {
    assert_eq!(default_lang(), "ua");
    assert_eq!(default_empty_string(), "");
    let preferences = PricingPreferences::default_in(None);
    assert_eq!(preferences.preferred_currency, "грн");
    assert_eq!(preferences.norm_price.currency, "грн");
    assert_eq!(preferences.norm_price.amount.as_cents(), 0);
    assert_eq!(PricingPreferences::default_in(Some("USD".to_string())).preferred_currency, "USD");
}

#[test]
fn invitations_are_used_up_by_their_policy() {
    assert_eq!(UsagePolicy::default(), UsagePolicy::UseOnce);
    assert!(!should_archive(UsagePolicy::UseOnce, 0));
    assert!(should_archive(UsagePolicy::UseOnce, 1));
    assert!(!should_archive(UsagePolicy::UseForever, 1000));
    assert!(!should_archive(UsagePolicy::UseUpToCertainLimit(3), 2));
    assert!(should_archive(UsagePolicy::UseUpToCertainLimit(3), 3));
    assert!(should_archive(UsagePolicy::UseUpToCertainLimit(0), 0));
    assert!(grants_license(1, "Basic"));
    assert!(!grants_license(0, "Basic"));
    assert!(!grants_license(30, ""));
}

#[test]
fn licences_expire() {
    let claims = LicenseClaims { sub: "a@b.c".to_string(), exp: 1_000_000, level: "Pro".to_string() };
    let license =
        LicenseData::from_claims(claims.clone(), "1970-01-12T13:46:40+00:00".to_string(), 0).unwrap();
    assert_eq!(license.days_left, 11);
    assert_eq!(license.level, "Pro");
    assert!(!license.is_expired());
    let mut late = LicenseData::from_claims(claims, "x".to_string(), 1_000_000 + 86_400).unwrap();
    assert_eq!(late.days_left, -1);
    assert!(late.is_expired());
    late.refresh_days_left(1_000_000, 1_000_000 + 86_399);
    assert_eq!(late.days_left, 0);
    assert!(!late.is_expired());
    assert_eq!(days_between(86_400 * 3, 0), 3);
    assert_eq!(days_between(0, 86_400 * 3 + 5), -3);
    assert_eq!(days_between(i64::MAX, i64::MIN), 213503982334601);
    assert_eq!(default_license_level(), "Basic");
    assert_eq!(requested_level(None), "Basic");
    assert_eq!(requested_level(Some("Pro".to_string())), "Pro");
}

#[test]
fn lines_of_the_log() {
    assert_eq!(LogLevel::Error.as_str(), "ERROR");
    assert_eq!(LogLevel::Warn.as_str(), "WARN");
    assert_eq!(LogLevel::Info.as_str(), "INFO");
    assert_eq!(LogLevel::Debug.as_str(), "DEBUG");
    assert_eq!(LogLevel::Trace.as_str(), "TRACE");
    assert_eq!(
        format_log_entry("2026-01-02 03:04:05.006 UTC", LogLevel::Info, "started", Some("root")),
        "[2026-01-02 03:04:05.006 UTC] [INFO] [User: root] started\n"
    );
    assert_eq!(
        format_log_entry("t", LogLevel::Warn, "Path traversal detected: /r <- /x", None),
        "[t] [WARN] Path traversal detected: /r <- /x\n"
    );
    assert_eq!(
        format_frontend_failure("t", "editor", "1.2.3", "boom"),
        "[t] [editor] 1.2.3 | boom\n"
    );
}
