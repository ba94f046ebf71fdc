//! What the wiki's forms carry, and what is decided of them before the
//! store is touched.

use crate::cache::CaptchaId;
use crate::text::same_text;
use vstd::prelude::*;

verus! {

/// An edit: the text of the new revision and, if the article is to be
/// renamed, its new title.
#[derive(Debug)]
pub struct AddRevRequest {
    pub title: Option<String>,
    pub content: String,
}

/// The settings that an administrator can change.
#[derive(Debug, Clone, Copy)]
pub struct AdminSettings {
    pub registration_enabled: bool,
}

/// A request to register an account.
#[derive(Debug)]
pub struct RegisterRequest {
    pub username: String,
    pub password: String,
    pub pwd_confirm: String,
    pub captcha_id: CaptchaId,
    pub captcha_solution: String,
}

/// A request to log in.
#[derive(Debug)]
pub struct LoginRequest {
    pub username: String,
    pub password: String,
}

/// What is wrong with a request to register, point by point.
#[derive(Debug, Clone, Copy, PartialEq, Eq, Structural)]
pub struct RegistrationCheck {
    pub pwds_dont_match: bool,
    pub username_taken: bool,
    pub no_username: bool,
    pub failed_captcha: bool,
}

impl RegistrationCheck {
    /// Whether anything is wrong.
    pub open spec fn is_rejected(self) -> bool {
        self.pwds_dont_match || self.username_taken || self.no_username || self.failed_captcha
    }

    /// Whether anything is wrong.
    pub fn rejected(&self) -> (r: bool)
        ensures
            r == self.is_rejected(),
    {
        self.pwds_dont_match || self.username_taken || self.no_username || self.failed_captcha
    }
}

/// The title that an edit asks for where it differs from the article's
/// name.
pub open spec fn requested_title(title: Option<Seq<char>>, article_name: Seq<char>) -> Option<Seq<char>> {
    match title {
        Some(title) => if title != article_name {
            Some(title)
        } else {
            None
        },
        None => None,
    }
}

impl AddRevRequest {
    /// The new title that the edit asks for, if it asks for one that is not
    /// the article's name already.
    pub fn new_title(&self, article_name: &str) -> (r: Option<&str>)
        ensures
            match requested_title(
                match self.title {
                    Some(title) => Some(title@),
                    None => None,
                },
                article_name@,
            ) {
                Some(title) => r is Some && r->Some_0@ == title,
                None => r is None,
            },
    {
        match &self.title {
            Some(title) => {
                if same_text(title.as_str(), article_name) {
                    None
                } else {
                    Some(title.as_str())
                }
            },
            None => None,
        }
    }
}

/// Checks a request to register. `name_exists` says whether the store knows
/// the user name, `captcha_ok` whether the captcha was solved.
pub fn check_registration(request: &RegisterRequest, name_exists: bool, captcha_ok: bool) -> (r:
    RegistrationCheck)
    ensures
        r.pwds_dont_match == (request.password@ != request.pwd_confirm@ || request.password@.len()
            == 0),
        r.username_taken == (request.username@ == "register"@ || request.username@ == "login"@
            || name_exists),
        r.no_username == (request.username@.len() == 0),
        r.failed_captcha == !captcha_ok,
{
    let username = request.username.as_str();
    let password = request.password.as_str();
    RegistrationCheck {
        pwds_dont_match: !same_text(password, request.pwd_confirm.as_str()) || password.is_empty(),
        username_taken: same_text(username, "register") || same_text(username, "login")
            || name_exists,
        no_username: username.is_empty(),
        failed_captcha: !captcha_ok,
    }
}

} // verus!
