//! Signing in and out, and changing a password.

use crate::schema::accounts::bcrypt_verdict;
use crate::schema::accounts::Account;
use crate::schema::accounts::DatabaseError;
use crate::schema::accounts::PasswordError;
use crate::text::same_text;
use crate::text::trim;
use crate::text::trimmed;
use crate::time::Timestamp;
use crate::time::SECONDS_PER_DAY;
use vstd::prelude::*;

verus! {

/// What the sign-in form sends.
#[derive(Debug, PartialEq, Eq)]
pub struct SignInForm {
    pub username: String,
    pub password: String,
    pub rememberme: bool,
    pub redirecttarget: Option<String>,
}

/// What the form for a new password sends.
#[derive(Debug, PartialEq, Eq)]
pub struct ChangePasswordForm {
    pub current_password: String,
    pub new_password: String,
    pub confirm_password: String,
}

/// The 128 bits of the UUID of a session, as a browser presents it.
#[derive(Clone, Copy, Debug, PartialEq, Eq, Structural)]
pub struct SessionId(pub u128);

/// A session that was found valid, and the account it belongs to.
#[derive(Debug, PartialEq, Eq)]
pub struct SessionData {
    pub session_id: u128,
    pub account: Account,
}

/// The page from which a visitor came.
#[derive(Debug, PartialEq, Eq)]
pub struct Referer(pub String);

/// Why a visitor could not sign in.
#[derive(Clone, Copy, Debug, PartialEq, Eq, Structural)]
pub enum SignInError {
    UserNotFound,
    InternalError,
}

/// The cookie that carries a session.
#[derive(Debug, PartialEq, Eq)]
pub struct SessionCookie {
    pub name: String,
    pub value: String,
    pub http_only: bool,
    pub same_site_strict: bool,
    /// Whether the browser keeps the cookie when it is closed. The session
    /// itself still ends on the side of the site.
    pub permanent: bool,
    pub path: String,
}

/// What `Uuid::parse_str` reads from a text: the 128 bits of the UUID, or
/// nothing where the text is none.
pub uninterp spec fn uuid_parsed(text: Seq<char>) -> Option<u128>;

/// How `Uuid` writes its 128 bits out: in hexadecimal with hyphens.
pub uninterp spec fn uuid_text(bits: u128) -> Seq<char>;

/// What `passwords::analyzer::analyze` finds of whether a password is
/// common: it looks the password up in a list of passwords that many people
/// use.
pub uninterp spec fn password_is_common(password: Seq<char>) -> bool;

/// The bits of a UUID that say which version and variant it is of.
pub const UUID_KIND_MASK: u128 = 0x0000_0000_0000_f000_c000_0000_0000_0000;

/// What those bits are in a random UUID: version 4, in the variant of
/// RFC 9562.
pub const UUID_RANDOM_KIND: u128 = 0x0000_0000_0000_4000_8000_0000_0000_0000;

/// Whether `bits` are those of a random UUID: the four bits of the version
/// say 4 and the two of the variant say binary 10. The other 122 bits are
/// left to chance.
pub open spec fn is_random_uuid(bits: u128) -> bool {
    bits & UUID_KIND_MASK == UUID_RANDOM_KIND
}

/// `Uuid::new_v4` makes a random UUID: it takes 128 random bits and sets
/// those of the version and the variant. Nothing is claimed of the rest.
#[verifier::external_body]
fn uuid_new_v4() -> (bits: u128)
    ensures
        is_random_uuid(bits),
{
    uuid::Uuid::new_v4().as_u128()
}

/// `Uuid::parse_str`: the same text is always read as the same UUID.
#[verifier::external_body]
fn uuid_parse(text: &str) -> (bits: Option<u128>)
    ensures
        bits == uuid_parsed(text@),
{
    match uuid::Uuid::parse_str(text) {
        Ok(id) => Some(id.as_u128()),
        Err(_) => None,
    }
}

/// `Uuid::to_string`: the same bits are always written the same way.
#[verifier::external_body]
fn uuid_to_string(bits: u128) -> (text: String)
    ensures
        text@ == uuid_text(bits),
{
    uuid::Uuid::from_u128(bits).to_string()
}

/// A control character as Unicode defines it, which the analysis of a
/// password passes over.
pub open spec fn is_control(c: char) -> bool {
    (c as u32) < 0x20 || (0x7f <= (c as u32) < 0xa0)
}

/// `s` without its control characters.
pub open spec fn without_controls(s: Seq<char>) -> Seq<char> {
    s.filter(|c: char| !is_control(c))
}

/// `passwords::analyzer::analyze`: the number of characters of the password
/// that are no control characters, and whether the password without them
/// is a common one.
#[verifier::external_body]
fn analyze_password(password: &str) -> (analysis: (usize, bool))
    ensures
        analysis.0 == without_controls(password@).len(),
        analysis.1 == password_is_common(without_controls(password@)),
{
    let analyzed = passwords::analyzer::analyze(password);
    (analyzed.length(), analyzed.is_common())
}

impl SignInError {
    /// The key of the message for the visitor.
    pub fn to_string(&self) -> (key: String)
        ensures
            key@ == match self {
                SignInError::UserNotFound => "sign-in-error-user-not-found"@,
                SignInError::InternalError => "sign-in-error-internal-error"@,
            },
    {
        match self {
            SignInError::UserNotFound => "sign-in-error-user-not-found".to_owned(),
            SignInError::InternalError => "sign-in-error-internal-error".to_owned(),
        }
    }

    /// Why a visitor whose account the database did not give cannot sign
    /// in: there is no such account, or something went wrong.
    pub fn from_database(error: &DatabaseError) -> (reason: SignInError)
        ensures
            reason == match error {
                DatabaseError::RowNotFound => SignInError::UserNotFound,
                _ => SignInError::InternalError,
            },
    {
        match error {
            DatabaseError::RowNotFound => SignInError::UserNotFound,
            _ => SignInError::InternalError,
        }
    }
}

/// What the check of a password means for signing in: a wrong password
/// reads like an unknown user, so that nobody learns which names exist.
pub fn password_outcome(verdict: Result<bool, PasswordError>) -> (outcome: Result<(), SignInError>)
    ensures
        outcome == match verdict {
            Ok(true) => Ok::<(), SignInError>(()),
            Ok(false) => Err(SignInError::UserNotFound),
            Err(_) => Err(SignInError::InternalError),
        },
{
    match verdict {
        Ok(true) => Ok(()),
        Ok(false) => Err(SignInError::UserNotFound),
        Err(_) => Err(SignInError::InternalError),
    }
}

/// The moment at which the session of a visitor who signs in at `now` ends
/// by itself: `maximum_days` days later where the visitor asked to be
/// remembered, and never otherwise.
pub fn session_expiry(remember: bool, maximum_days: i64, now: Timestamp) -> (expires_at: Option<
    Timestamp,
>)
    requires
        remember ==> i64::MIN <= now.seconds + maximum_days * SECONDS_PER_DAY <= i64::MAX,
    ensures
        expires_at == if remember {
            Some(
                Timestamp {
                    seconds: (now.seconds + maximum_days * SECONDS_PER_DAY) as i64,
                    nanos: now.nanos,
                },
            )
        } else {
            None
        },
{
    if remember {
        now.plus_days(maximum_days)
    } else {
        None
    }
}

/// Whether a session of `maximum_days` days that starts at `now` ends at a
/// moment that can be told.
pub fn session_fits(maximum_days: i64, now: Timestamp) -> (fits: bool)
    ensures
        fits == (i64::MIN <= now.seconds + maximum_days * SECONDS_PER_DAY <= i64::MAX),
{
    now.plus_days(maximum_days).is_some()
}

/// The address that a visitor goes to after signing in: the one the form
/// names, or the home page.
pub fn redirect_target(target: &Option<String>) -> (address: String)
    ensures
        address@ == match target {
            Some(given) => given@,
            None => "/"@,
        },
{
    match target {
        Some(given) => given.clone(),
        None => "/".to_owned(),
    }
}

impl SessionId {
    /// A new random session number: the bits of a random UUID, of which
    /// all but those of its version and variant are left to chance.
    pub fn random() -> (id: SessionId)
        ensures
            is_random_uuid(id.0),
    {
        SessionId(uuid_new_v4())
    }

    /// The session number that the value of a cookie spells, if it spells
    /// one.
    pub fn parse(value: &str) -> (id: Option<SessionId>)
        ensures
            match id {
                Some(found) => uuid_parsed(value@) == Some(found.0),
                None => uuid_parsed(value@) is None,
            },
    {
        match uuid_parse(value) {
            Some(bits) => Some(SessionId(bits)),
            None => None,
        }
    }
}

impl SessionCookie {
    /// The cookie for the session `session_id`: not readable by scripts,
    /// sent to this site only, for every path, and kept by the browser only
    /// where the visitor asked to be remembered.
    pub fn new(session_id: u128, remember: bool) -> (cookie: SessionCookie)
        ensures
            cookie.name@ == "session_id"@,
            cookie.value@ == uuid_text(session_id),
            cookie.http_only,
            cookie.same_site_strict,
            cookie.permanent == remember,
            cookie.path@ == "/"@,
    {
        SessionCookie {
            name: "session_id".to_owned(),
            value: uuid_to_string(session_id),
            http_only: true,
            same_site_strict: true,
            permanent: remember,
            path: "/".to_owned(),
        }
    }
}

/// Whether a password is good enough, for a password of `length`
/// characters that is common or not: at least eight characters, and not
/// one that many people use.
pub fn password_requirements(length: usize, is_common: bool) -> (met: Result<(), &'static str>)
    ensures
        match met {
            Ok(_) => length >= 8 && !is_common,
            Err(key) => if length < 8 {
                key@ == "change-password-error-too-short"@
            } else {
                is_common && key@ == "change-password-error-is-common"@
            },
        },
{
    if length < 8 {
        return Err("change-password-error-too-short");
    }
    if is_common {
        return Err("change-password-error-is-common");
    }
    Ok(())
}

/// Whether `password` is good enough to be a password.
pub fn check_password_meets_requirements(password: &str) -> (met: Result<(), &'static str>)
    ensures
        match met {
            Ok(_) => without_controls(password@).len() >= 8 && !password_is_common(
                without_controls(password@),
            ),
            Err(key) => if without_controls(password@).len() < 8 {
                key@ == "change-password-error-too-short"@
            } else {
                password_is_common(without_controls(password@)) && key@
                    == "change-password-error-is-common"@
            },
        },
{
    let (length, is_common) = analyze_password(password);
    password_requirements(length, is_common)
}

/// What is wrong with a request for a new password, for the outcomes of
/// the three checks: whether the new password is good enough, whether it
/// was typed the same twice, and whether the current password is right.
/// The first check that fails decides.
pub open spec fn password_change_outcome(
    requirements: Result<(), &'static str>,
    confirmed: bool,
    verdict: Option<bool>,
) -> Result<(), Seq<char>> {
    match requirements {
        Err(key) => Err(key@),
        Ok(_) => if !confirmed {
            Err("change-password-error-password-mismatch"@)
        } else {
            match verdict {
                None => Err("internal-error-saving"@),
                Some(false) => Err("change-password-error-existing-password-incorrect"@),
                Some(true) => Ok(()),
            }
        },
    }
}

impl ChangePasswordForm {
    /// Whether the new password was typed the same twice, whitespace at the
    /// ends aside.
    pub fn is_confirmed(&self) -> (confirmed: bool)
        ensures
            confirmed == (trimmed(self.new_password@) == trimmed(self.confirm_password@)),
    {
        let new_password = trim(self.new_password.as_str());
        let confirm_password = trim(self.confirm_password.as_str());
        same_text(new_password.as_str(), confirm_password.as_str())
    }

    /// Whether the password of `account` may be changed as the form asks:
    /// the new password must be good enough and typed the same twice, and
    /// the current password must be right. The first of these that fails
    /// gives the key of the message for the visitor.
    pub fn validate(&self, account: &Account) -> (valid: Result<(), &'static str>)
        ensures
            ({
                let outcome = password_change_outcome(
                    if without_controls(self.new_password@).len() < 8 {
                        Err("change-password-error-too-short")
                    } else if password_is_common(without_controls(self.new_password@)) {
                        Err("change-password-error-is-common")
                    } else {
                        Ok(())
                    },
                    trimmed(self.new_password@) == trimmed(self.confirm_password@),
                    bcrypt_verdict(self.current_password@, account.password_hash@),
                );
                match valid {
                    Ok(_) => outcome is Ok,
                    Err(key) => outcome == Err::<(), Seq<char>>(key@),
                }
            }),
    {
        match check_password_meets_requirements(self.new_password.as_str()) {
            Err(key) => {
                return Err(key);
            },
            Ok(_) => {},
        }
        if !self.is_confirmed() {
            return Err("change-password-error-password-mismatch");
        }
        match account.verify_password(self.current_password.as_str()) {
            Err(_) => Err("internal-error-saving"),
            Ok(false) => Err("change-password-error-existing-password-incorrect"),
            Ok(true) => Ok(()),
        }
    }
}

/// The address that a visitor goes to after signing out: the one asked for,
/// or the home page.
pub fn signout_target(origin: Option<String>) -> (address: String)
    ensures
        address@ == match origin {
            Some(given) => given@,
            None => "/"@,
        },
{
    match origin {
        Some(given) => given,
        None => "/".to_owned(),
    }
}

} // verus!
