//! The decision of the site's index page.
use vstd::prelude::*;

verus! {

/// The path of the lecture list.
pub open spec fn leclist_path() -> Seq<char> {
    "/leclist"@
}

/// The path of the login page.
pub open spec fn login_path() -> Seq<char> {
    "/login"@
}

/// What the index page does with the cookies it got.
pub enum IndexStep {
    /// Check this API key and anonymous key, then redirect by the outcome.
    CheckKey(String, String),
    /// Redirect to this path.
    Redirect(String),
}

/// The first step of the index page: with both an `apikey` and an `anonkey`
/// cookie, check them; without either, redirect to the login page.
pub fn index_step(apikey: Option<String>, anonkey: Option<String>) -> (step: IndexStep)
    ensures
        match (apikey, anonkey) {
            (Some(a), Some(b)) => step matches IndexStep::CheckKey(x, y) && x@ == a@ && y@ == b@,
            _ => step matches IndexStep::Redirect(p) && p@ == login_path(),
        },
{
    match apikey {
        Some(a) => match anonkey {
            Some(b) => IndexStep::CheckKey(a, b),
            None => IndexStep::Redirect("/login".to_string()),
        },
        None => IndexStep::Redirect("/login".to_string()),
    }
}

/// Where the index page redirects once the keys were checked: to the
/// lecture list when they are valid, else to the login page.
pub fn index_redirect(keys_valid: bool) -> (path: String)
    ensures
        path@ == if keys_valid { leclist_path() } else { login_path() },
{
    if keys_valid {
        "/leclist".to_string()
    } else {
        "/login".to_string()
    }
}

} // verus!
