//! Licences: what a token claims, and what is kept of it.

use crate::errors::AppError;
use crate::text::{concat_str, ends_with, has_prefix, has_suffix, starts_with};
use vstd::prelude::*;
use vstd::string::StringExecFns;

verus! {

/// What a licence token claims.
#[derive(Debug, Clone)]
pub struct LicenseClaims {
    /// The e-mail address of the user.
    pub sub: String,
    /// When the licence expires, in seconds since the epoch.
    pub exp: usize,
    pub level: String,
}

/// A licence with its expiry worked out.
#[derive(Debug, Clone)]
pub struct LicenseData {
    pub claims: LicenseClaims,
    /// The expiry as a date in ISO 8601.
    pub expiration_date: String,
    /// The whole days until the expiry; negative once it has passed.
    pub days_left: i64,
    pub level: String,
}

/// A request for a licence that lasts a number of days.
#[derive(Debug)]
pub struct GenerateLicenseByDaysRequest {
    pub email: String,
    pub days: i64,
    pub level: Option<String>,
}

/// The number of seconds in a day.
pub const SECONDS_PER_DAY: i64 = 86400;

/// The whole days from `now` to `expiry`, both in seconds; towards zero.
pub open spec fn whole_days(expiry: int, now: int) -> int {
    if expiry >= now {
        (expiry - now) / 86400
    } else {
        -((now - expiry) / 86400)
    }
}

/// The whole days from `now` to `expiry`, both in seconds since the epoch.
pub fn days_between(expiry: i64, now: i64) -> (days: i64)
    ensures
        days == whole_days(expiry as int, now as int),
{
    if expiry >= now {
        let span: i128 = (expiry as i128) - (now as i128);
        (span / 86400) as i64
    } else {
        let span: i128 = (now as i128) - (expiry as i128);
        (-(span / 86400)) as i64
    }
}

impl LicenseData {
    /// The licence for the claims, `expiration_date` being their expiry as a
    /// date and `now` the present time in seconds since the epoch.
    pub fn from_claims(claims: LicenseClaims, expiration_date: String, now: i64) -> (license: Option<
        Self,
    >)
        ensures
            match license {
                Some(data) => data.claims == claims && data.expiration_date == expiration_date
                    && data.level@ == claims.level@ && claims.exp <= i64::MAX && data.days_left
                    == whole_days(claims.exp as int, now as int),
                None => claims.exp > i64::MAX,
            },
    {
        if (claims.exp as u128) > (i64::MAX as u128) {
            return None;
        }
        let days_left = days_between(claims.exp as i64, now);
        let level = claims.level.clone();
        Some(Self { claims, expiration_date, days_left, level })
    }

    /// Works the days that are left out anew for the present time.
    pub fn refresh_days_left(&mut self, expiry: i64, now: i64)
        ensures
            final(self).days_left == whole_days(expiry as int, now as int),
            final(self).claims == old(self).claims,
            final(self).expiration_date == old(self).expiration_date,
            final(self).level == old(self).level,
    {
        self.days_left = days_between(expiry, now);
    }

    /// Whether the licence has expired.
    pub fn is_expired(&self) -> (expired: bool)
        ensures
            expired == (self.days_left < 0),
    {
        self.days_left < 0
    }
}

/// The level of a licence that names none.
pub fn default_license_level() -> (level: String)
    ensures
        level@ == "Basic"@,
{
    String::from_str("Basic")
}

/// The level of a licence that is asked for: the one named, or the default.
pub fn requested_level(level: Option<String>) -> (chosen: String)
    ensures
        chosen@ == (match level {
            Some(name) => name@,
            None => "Basic"@,
        }),
{
    match level {
        Some(name) => name,
        None => default_license_level(),
    }
}

/// Whether a file of this name is listed as a licence: its name ends in
/// `.jwt` or in `.license`.
pub fn is_license_file_name(name: &str) -> (r: bool)
    ensures
        r == (has_suffix(name@, ".jwt"@) || has_suffix(name@, ".license"@)),
{
    ends_with(name, ".jwt") || ends_with(name, ".license")
}

/// Whether a name is that of a licence token file: `license_`, anything, and
/// `.jwt`.
pub open spec fn is_token_name(name: Seq<char>) -> bool {
    has_prefix(name, "license_"@) && has_suffix(name, ".jwt"@)
}

/// The name of the licence token file that is saved at the given time.
pub fn license_file_name(timestamp: &str) -> (name: String)
    ensures
        name@ == "license_"@ + timestamp@ + ".jwt"@,
{
    let head = concat_str("license_", timestamp);
    concat_str(head.as_str(), ".jwt")
}

/// The position of the latest licence token file among the first `n` files,
/// each given by its name and the time of its last change; -1 where none of
/// them is a token file. Of files changed at the same time the first counts.
pub open spec fn latest_token(files: Seq<(Seq<char>, int)>, n: nat) -> int
    decreases n,
{
    if n == 0 || n > files.len() {
        -1
    } else {
        let before = latest_token(files, (n - 1) as nat);
        if is_token_name(files[n - 1].0) && (before < 0 || files[n - 1].1 > files[before].1) {
            n - 1
        } else {
            before
        }
    }
}

/// The names and times of the files.
pub open spec fn timed_names(files: Seq<(String, u64)>) -> Seq<(Seq<char>, int)> {
    files.map_values(|file: (String, u64)| (file.0@, file.1 as int))
}

/// The latest licence token file among the files of a directory, each given
/// by its name and the time of its last change.
pub fn find_latest_license_file(files: &Vec<(String, u64)>) -> (r: Result<String, AppError>)
    ensures
        ({
            let latest = latest_token(timed_names(files@), files@.len());
            match r {
                Ok(name) => 0 <= latest < files@.len() && name@ == files@[latest].0@,
                Err(error) => latest < 0 && error is LicenseNotFound,
            }
        }),
{
    let mut best: Option<usize> = None;
    let mut i: usize = 0;
    let ghost names = timed_names(files@);
    while i < files.len()
        invariant
            i <= files.len(),
            names == timed_names(files@),
            match best {
                Some(b) => b < i && latest_token(names, i as nat) == b,
                None => latest_token(names, i as nat) == -1,
            },
        decreases files.len() - i,
    {
        let name = files[i].0.as_str();
        assert(names[i as int] == (files@[i as int].0@, files@[i as int].1 as int));
        if starts_with(name, "license_") && ends_with(name, ".jwt") {
            match best {
                None => {
                    best = Some(i);
                },
                Some(b) => {
                    assert(names[b as int] == (files@[b as int].0@, files@[b as int].1 as int));
                    if files[i].1 > files[b].1 {
                        best = Some(i);
                    }
                },
            }
        }
        i += 1;
    }
    match best {
        Some(b) => Ok(files[b].0.clone()),
        None => Err(AppError::LicenseNotFound),
    }
}


} // verus!
