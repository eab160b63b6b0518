//! Accounts, the users behind them, and their sessions.

use crate::text::ascii_lower;
use crate::text::char_is_alphanumeric;
use crate::text::char_to_ascii_lower;
use crate::text::is_alphanumeric;
use crate::text::lemma_trim_bounds;
use crate::text::to_chars;
use crate::text::trim_range;
use crate::text::trimmed;
use crate::time::Timestamp;
use vstd::prelude::*;
use vstd::string::StringExecFns;
use vstd::string::StrSliceExecFns;

verus! {

/// What the database says of a statement that failed.
#[derive(Debug, PartialEq, Eq)]
pub enum DatabaseError {
    /// The statement found no row.
    RowNotFound,
    /// The statement would have stored a value twice that may be stored once.
    Conflict,
    /// Anything else, with the words of the database.
    Other(String),
}

/// Why an account cannot be stored.
#[derive(Debug, PartialEq, Eq)]
pub enum AccountError {
    UsernameTooShort,
    UsernameInvalidCharacter(char),
    UsernameConflict,
    /// The database failed, with its words.
    Sql(String),
}

/// Why a password cannot be hashed or checked.
#[derive(Clone, Copy, Debug, PartialEq, Eq, Structural)]
pub enum PasswordError {
    /// The hashing itself failed: no random salt could be had, or the stored
    /// hash is not one.
    Hashing,
}

/// An account with what it takes to sign in.
#[derive(Debug, PartialEq, Eq)]
pub struct Account {
    /// The number of the account; 0 until it is stored.
    pub id: i64,
    pub username: String,
    pub administrator: bool,
    pub display_name: Option<String>,
    pub password_hash: String,
    pub created_at: Timestamp,
}

/// What everybody may know of an account.
#[derive(Debug, PartialEq, Eq)]
pub struct User {
    pub id: i64,
    pub username: String,
    pub display_name: Option<String>,
}

/// A signed-in browser.
#[derive(Debug, PartialEq, Eq)]
pub struct Session {
    /// The 128 bits of the session's UUID.
    pub id: u128,
    pub account_id: i64,
    pub created_at: Timestamp,
    pub last_accessed_at: Timestamp,
    pub expires_at: Option<Timestamp>,
}

/// Whether a record with this number is stored already, or has to be
/// inserted first.
#[derive(Clone, Copy, Debug, PartialEq, Eq, Structural)]
pub enum SaveAction {
    Insert,
    Update,
}

/// `bcrypt::BcryptError`, whatever went wrong inside bcrypt.
#[verifier::external_type_specification]
#[verifier::external_body]
pub struct ExBcryptError(bcrypt::BcryptError);

/// What `bcrypt::verify` says of a password and a hash: whether the hash is
/// one of the password, or nothing where the hash cannot be read.
pub uninterp spec fn bcrypt_verdict(password: Seq<char>, hash: Seq<char>) -> Option<bool>;

/// `bcrypt::hash` at the default cost. The salt is random, so the hash is
/// another one each time, and it fails where no random salt can be had.
/// What it gives is a hash of the password: it writes the cost, the salt
/// and the hash of the password under them, and `bcrypt::verify` reads the
/// cost and the salt back, hashes the password it is given under them and
/// compares.
#[verifier::external_body]
fn bcrypt_hash(password: &str) -> (hash: Result<String, bcrypt::BcryptError>)
    ensures
        hash matches Ok(text) ==> bcrypt_verdict(password@, text@) == Some(true),
{
    bcrypt::hash(password.as_bytes(), bcrypt::DEFAULT_COST)
}

/// `bcrypt::verify`: for the same password and hash always the same answer.
#[verifier::external_body]
fn bcrypt_verify(password: &str, hash: &str) -> (verdict: Result<bool, bcrypt::BcryptError>)
    ensures
        match verdict {
            Ok(matches) => bcrypt_verdict(password@, hash@) == Some(matches),
            Err(_) => bcrypt_verdict(password@, hash@) is None,
        },
{
    bcrypt::verify(password, hash)
}

/// The first position at or after `pos` that holds a character a username
/// cannot hold, or the length of the text.
pub open spec fn first_unfit(s: Seq<char>, pos: int, allow_dash: bool) -> int
    decreases s.len() - pos,
{
    if 0 <= pos < s.len() && is_name_character(s[pos], allow_dash) {
        first_unfit(s, pos + 1, allow_dash)
    } else {
        pos
    }
}

/// A character of a name: an ASCII letter or digit, and `-` where
/// `allow_dash`.
pub open spec fn is_name_character(c: char, allow_dash: bool) -> bool {
    is_alphanumeric(c) || (allow_dash && c == '-')
}

/// `s` in lower case.
pub open spec fn lowered(s: Seq<char>) -> Seq<char> {
    Seq::new(s.len(), |i: int| ascii_lower(s[i]))
}

/// The clean form of a name: trimmed and in lower case; or the first
/// character after trimming that a name cannot hold.
pub open spec fn cleaned_name(s: Seq<char>, allow_dash: bool) -> Result<Seq<char>, char> {
    let name = trimmed(s);
    let unfit = first_unfit(name, 0, allow_dash);
    if unfit < name.len() {
        Err(name[unfit])
    } else {
        Ok(lowered(name))
    }
}

/// The clean form of a username: trimmed, of ASCII letters and digits only,
/// at least three of them, in lower case.
pub open spec fn cleaned_username(s: Seq<char>) -> Result<Seq<char>, AccountError> {
    match cleaned_name(s, false) {
        Err(c) => Err(AccountError::UsernameInvalidCharacter(c)),
        Ok(name) => if name.len() < 3 {
            Err(AccountError::UsernameTooShort)
        } else {
            Ok(name)
        },
    }
}

/// Trims a name and puts it in lower case, or finds the first character in
/// it that a name cannot hold.
pub fn clean_name(source: &str, allow_dash: bool) -> (name: Result<String, char>)
    ensures
        match name {
            Ok(clean) => cleaned_name(source@, allow_dash) == Ok::<Seq<char>, char>(clean@),
            Err(c) => cleaned_name(source@, allow_dash) == Err::<Seq<char>, char>(c),
        },
{
    let chars = to_chars(source);
    let (start, end) = trim_range(chars.as_slice());
    let ghost name = trimmed(source@);
    proof {
        lemma_trim_bounds(source@);
    }
    let mut clean = String::new();
    let mut i: usize = start;
    while i < end
        invariant
            start <= i <= end <= chars@.len(),
            chars@ == source@,
            name == chars@.subrange(start as int, end as int),
            name == trimmed(source@),
            first_unfit(name, i - start, allow_dash) == first_unfit(name, 0, allow_dash),
            clean@ == lowered(name.take(i - start)),
        decreases end - i,
    {
        let c = chars[i];
        assert(name[i - start] == c);
        if !(char_is_alphanumeric(c) || (allow_dash && c == '-')) {
            return Err(c);
        }
        clean.push(char_to_ascii_lower(c));
        i += 1;
        assert(clean@ =~= lowered(name.take(i - start)));
    }
    assert(name.take(end - start) =~= name);
    Ok(clean)
}

impl Account {
    /// The clean form of a username, or why it has none.
    pub fn clean_username(username: &str) -> (clean: Result<String, AccountError>)
        ensures
            match clean {
                Ok(name) => cleaned_username(username@) == Ok::<Seq<char>, AccountError>(name@),
                Err(error) => cleaned_username(username@) == Err::<Seq<char>, AccountError>(error),
            },
    {
        match clean_name(username, false) {
            Err(c) => Err(AccountError::UsernameInvalidCharacter(c)),
            Ok(name) => {
                let length = name.as_str().unicode_len();
                if length < 3 {
                    Err(AccountError::UsernameTooShort)
                } else {
                    Ok(name)
                }
            },
        }
    }

    /// A new account for which hashing the password gave `hash`: not stored
    /// yet, without a display name, made at `now`.
    pub fn with_hash(
        username: &str,
        hash: Result<String, bcrypt::BcryptError>,
        administrator: bool,
        now: Timestamp,
    ) -> (account: Result<Account, PasswordError>)
        ensures
            match account {
                Ok(made) => hash matches Ok(text) && made.password_hash@ == text@ && made.id == 0
                    && made.username@ == username@ && made.administrator == administrator
                    && made.display_name is None && made.created_at == now,
                Err(_) => hash is Err,
            },
    {
        match hash {
            Ok(password_hash) => Ok(
                Account {
                    id: 0,
                    username: username.to_owned(),
                    administrator,
                    display_name: None,
                    password_hash,
                    created_at: now,
                },
            ),
            Err(_) => Err(PasswordError::Hashing),
        }
    }

    /// A new account with the hash of `password`: not stored yet, without
    /// a display name, made now, and with a hash that `password` matches.
    /// Fails only where the password cannot be hashed.
    pub fn new(username: &str, password: &str, administrator: bool) -> (account: Result<
        Account,
        PasswordError,
    >)
        ensures
            account matches Ok(made) ==> {
                &&& made.id == 0
                &&& made.username@ == username@
                &&& made.administrator == administrator
                &&& made.display_name is None
                &&& made.created_at.is_clock_reading()
                &&& bcrypt_verdict(password@, made.password_hash@) == Some(true)
            },
    {
        Account::with_hash(username, bcrypt_hash(password), administrator, Timestamp::now())
    }

    /// Takes `hash`, the outcome of hashing a new password, as the hash of
    /// this account; a failed hashing changes nothing.
    pub fn take_password_hash(&mut self, hash: Result<String, bcrypt::BcryptError>) -> (done:
        Result<(), PasswordError>)
        ensures
            match done {
                Ok(_) => hash matches Ok(text) && final(self).password_hash@ == text@,
                Err(_) => hash is Err && final(self).password_hash == old(self).password_hash,
            },
            final(self).id == old(self).id,
            final(self).username == old(self).username,
            final(self).administrator == old(self).administrator,
            final(self).display_name == old(self).display_name,
            final(self).created_at == old(self).created_at,
    {
        match hash {
            Ok(password_hash) => {
                self.password_hash = password_hash;
                Ok(())
            },
            Err(_) => Err(PasswordError::Hashing),
        }
    }

    /// Replaces the password of the account by `new_password`: afterwards
    /// the account holds a hash that `new_password` matches. Nothing but
    /// the hash changes, and a failed hashing changes nothing.
    pub fn set_password_hash(&mut self, new_password: &str) -> (done: Result<(), PasswordError>)
        ensures
            match done {
                Ok(_) => bcrypt_verdict(new_password@, final(self).password_hash@) == Some(true),
                Err(_) => final(self).password_hash == old(self).password_hash,
            },
            final(self).id == old(self).id,
            final(self).username == old(self).username,
            final(self).administrator == old(self).administrator,
            final(self).display_name == old(self).display_name,
            final(self).created_at == old(self).created_at,
    {
        self.take_password_hash(bcrypt_hash(new_password))
    }

    /// Whether `check_password` is the password of the account.
    pub fn verify_password(&self, check_password: &str) -> (verdict: Result<bool, PasswordError>)
        ensures
            match verdict {
                Ok(matches) => bcrypt_verdict(check_password@, self.password_hash@) == Some(
                    matches,
                ),
                Err(_) => bcrypt_verdict(check_password@, self.password_hash@) is None,
            },
    {
        match bcrypt_verify(check_password, self.password_hash.as_str()) {
            Ok(matches) => Ok(matches),
            Err(_) => Err(PasswordError::Hashing),
        }
    }

    /// Makes the account ready to be stored: cleans its username, and says
    /// whether it has to be inserted or updated. An account that cannot be
    /// stored is left as it was.
    pub fn prepare_save(&mut self) -> (action: Result<SaveAction, AccountError>)
        ensures
            match action {
                Ok(what) => cleaned_username(old(self).username@) == Ok::<
                    Seq<char>,
                    AccountError,
                >(final(self).username@) && (what == SaveAction::Insert) == (old(self).id == 0),
                Err(error) => cleaned_username(old(self).username@) == Err::<
                    Seq<char>,
                    AccountError,
                >(error) && final(self).username == old(self).username,
            },
            final(self).id == old(self).id,
            final(self).administrator == old(self).administrator,
            final(self).display_name == old(self).display_name,
            final(self).password_hash == old(self).password_hash,
            final(self).created_at == old(self).created_at,
    {
        match Account::clean_username(self.username.as_str()) {
            Ok(name) => {
                self.username = name;
                if self.id == 0 {
                    Ok(SaveAction::Insert)
                } else {
                    Ok(SaveAction::Update)
                }
            },
            Err(error) => Err(error),
        }
    }

    /// Takes the number and the moment that the database gave the account
    /// when it was inserted.
    pub fn stored_as(&mut self, id: i64, created_at: Timestamp)
        ensures
            final(self).id == id,
            final(self).created_at == created_at,
            final(self).username == old(self).username,
            final(self).administrator == old(self).administrator,
            final(self).display_name == old(self).display_name,
            final(self).password_hash == old(self).password_hash,
    {
        self.id = id;
        self.created_at = created_at;
    }
}

impl AccountError {
    /// Why the database would not store a user: the username is taken, or
    /// something else went wrong. A user is never inserted, so a missing row
    /// is something else too.
    pub fn from_database(error: DatabaseError) -> (reason: AccountError)
        ensures
            match error {
                DatabaseError::Conflict => reason == AccountError::UsernameConflict,
                DatabaseError::Other(words) => reason matches AccountError::Sql(said) && said@
                    == words@,
                DatabaseError::RowNotFound => reason matches AccountError::Sql(said) && said@
                    == "no rows returned"@,
            },
    {
        match error {
            DatabaseError::Conflict => AccountError::UsernameConflict,
            DatabaseError::Other(words) => AccountError::Sql(words),
            DatabaseError::RowNotFound => AccountError::Sql("no rows returned".to_owned()),
        }
    }

    /// What to tell the user.
    pub fn to_string(&self) -> (message: String)
        ensures
            match self {
                AccountError::UsernameTooShort => message@ == "username too short"@,
                AccountError::UsernameInvalidCharacter(c) => message@ == "invalid character '"@.push(
                    *c,
                ).push('\''),
                AccountError::UsernameConflict => message@ == "username already taken"@,
                AccountError::Sql(words) => message@ == "sql error: "@ + words@,
            },
    {
        match self {
            AccountError::UsernameTooShort => "username too short".to_owned(),
            AccountError::UsernameInvalidCharacter(c) => {
                let mut message = "invalid character '".to_owned();
                message.push(*c);
                message.push('\'');
                message
            },
            AccountError::UsernameConflict => "username already taken".to_owned(),
            AccountError::Sql(words) => {
                let mut message = "sql error: ".to_owned();
                message.append(words.as_str());
                message
            },
        }
    }
}

impl User {
    /// Makes the user ready to be stored: cleans the username. A user that
    /// cannot be stored is left as it was.
    pub fn prepare_save(&mut self) -> (ready: Result<(), AccountError>)
        ensures
            match ready {
                Ok(_) => cleaned_username(old(self).username@) == Ok::<Seq<char>, AccountError>(
                    final(self).username@,
                ),
                Err(error) => cleaned_username(old(self).username@) == Err::<
                    Seq<char>,
                    AccountError,
                >(error) && final(self).username == old(self).username,
            },
            final(self).id == old(self).id,
            final(self).display_name == old(self).display_name,
    {
        match Account::clean_username(self.username.as_str()) {
            Ok(name) => {
                self.username = name;
                Ok(())
            },
            Err(error) => Err(error),
        }
    }
}

} // verus!
