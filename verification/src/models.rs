//! What the requests of the service carry.

use crate::money::{fallback_currency, MoneyWithCurrency};
use crate::text::str_eq;
use crate::transactionalfs::{Request, RequestView};
use vstd::prelude::*;
use vstd::string::StringExecFns;

verus! {

/// A request to revert: the hash of a commit, or the word `last`.
#[derive(Debug)]
pub struct RevertCommit {
    pub commit_hash: String,
}

/// The operation that a revert request stands for: the word `last` drops the
/// most recent commit, anything else names the commit to undo.
pub open spec fn revert_request(commit_hash: Seq<char>) -> RequestView {
    if commit_hash == "last"@ {
        RequestView::RevertLast
    } else {
        RequestView::RevertCommit { hash: commit_hash }
    }
}

impl RevertCommit {
    /// The operation that the request stands for.
    pub fn request(&self) -> (request: Request)
        ensures
            request@ == revert_request(self.commit_hash@),
    {
        if str_eq(self.commit_hash.as_str(), "last") {
            Request::RevertLast
        } else {
            Request::RevertCommit { hash: self.commit_hash.clone() }
        }
    }
}

/// A request to register.
#[derive(Debug)]
pub struct RegisterRequest {
    pub email: String,
    pub password: String,
    pub invite: String,
}

/// A request to log in.
#[derive(Debug)]
pub struct LoginRequest {
    pub email: String,
    pub password: String,
}

/// The answer to a login.
#[derive(Debug)]
pub struct LoginResponse {
    pub token: String,
}

/// What a session token claims.
#[derive(Debug)]
pub struct Claims {
    pub sub: String,
    pub exp: usize,
}

/// Whether the user is an administrator.
#[derive(Debug)]
pub struct AdminStatus {
    pub is_admin: bool,
}

/// How a company wants its prices shown.
#[derive(Debug)]
pub struct PricingPreferences {
    pub preferred_currency: String,
    pub norm_price: MoneyWithCurrency,
}

impl PricingPreferences {
    /// The preferences of a company that has stated none: no norm price, in
    /// the configured currency, or in hryvnias where none is configured.
    pub fn default_in(configured: Option<String>) -> (preferences: Self)
        ensures
            preferences.norm_price.amount.cents() == 0,
            preferences.preferred_currency@ == preferences.norm_price.currency@,
            preferences.preferred_currency@ == (match configured {
                Some(currency) => currency@,
                None => fallback_currency(),
            }),
    {
        let norm_price = MoneyWithCurrency::default_in(configured);
        let preferred_currency = norm_price.currency.clone();
        PricingPreferences { preferred_currency, norm_price }
    }
}

/// The currency of a company that has stated none: the configured one, or
/// hryvnias where none is configured.
pub fn default_currency(configured: Option<String>) -> (currency: String)
    ensures
        currency@ == (match configured {
            Some(name) => name@,
            None => fallback_currency(),
        }),
{
    MoneyWithCurrency::default_in(configured).currency
}

/// The language of a company that has stated none.
pub fn default_lang() -> (lang: String)
    ensures
        lang@ == "ua"@,
{
    String::from_str("ua")
}

/// The empty text.
pub fn default_empty_string() -> (text: String)
    ensures
        text@ == Seq::<char>::empty(),
{
    String::new()
}

} // verus!
