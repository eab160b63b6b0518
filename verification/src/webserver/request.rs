//! What every page knows of the request it answers, and how a request ends
//! that gets no page.

use crate::schema::accounts::DatabaseError;
use crate::text::collect_string;
use crate::text::to_chars;
use crate::text::trim_range;
use crate::text::trimmed;
use crate::webserver::auth::SessionData;
use vstd::prelude::*;
use vstd::string::StringExecFns;
use vstd::string::StringSliceAdditionalSpecFns;

verus! {

/// The language in which a visitor is answered.
#[derive(Debug, PartialEq, Eq)]
pub struct UserLanguage(pub String);

/// The path of a request and what follows its `?`, if anything does.
#[derive(Debug, PartialEq, Eq)]
pub struct FullPathAndQuery {
    pub path: String,
    pub query: Option<String>,
}

/// What every page knows of its request.
#[derive(Debug, PartialEq, Eq)]
pub struct RequestData {
    pub language: String,
    pub current_path: String,
    pub current_query: Option<String>,
    pub current_path_and_query: String,
    pub session: Option<SessionData>,
}

/// How a request ends that gets no page: with a status, or at another
/// address.
#[derive(Debug, PartialEq, Eq)]
pub enum Failure {
    Status(u16),
    Redirect(String),
}

/// The status of what is not there.
pub const NOT_FOUND: u16 = 404;

/// The status of what is not allowed.
pub const FORBIDDEN: u16 = 403;

/// The status of what went wrong on this side.
pub const INTERNAL_SERVER_ERROR: u16 = 500;

/// A path and its query as one text: with `?` between them where there is a
/// query.
pub open spec fn path_and_query(path: Seq<char>, query: Option<Seq<char>>) -> Seq<char> {
    match query {
        Some(q) => path + seq!['?'] + q,
        None => path,
    }
}

/// The upper-case hexadecimal digit of `value`, for `value` below 16.
pub open spec fn hex_digit(value: int) -> char {
    if value < 10 {
        (('0' as u8) + value) as u8 as char
    } else {
        (('A' as u8) + value - 10) as u8 as char
    }
}

/// Whether a byte of an address to come back to is written as `%` and its
/// two hexadecimal digits: every byte that is not ASCII, every control
/// character, and space, `"`, `<`, `>` and `` ` ``.
pub open spec fn is_encoded_in_query(byte: u8) -> bool {
    byte >= 0x80 || byte < 0x20 || byte == 0x7f || byte == 0x20 || byte == 0x22 || byte == 0x3c
        || byte == 0x3e || byte == 0x60
}

/// The bytes `bytes` as they are written in the query of an address.
pub open spec fn query_encoded(bytes: Seq<u8>) -> Seq<char>
    decreases bytes.len(),
{
    if bytes.len() == 0 {
        Seq::empty()
    } else if is_encoded_in_query(bytes.last()) {
        query_encoded(bytes.drop_last()) + seq![
            '%',
            hex_digit(bytes.last() as int / 16),
            hex_digit(bytes.last() as int % 16),
        ]
    } else {
        query_encoded(bytes.drop_last()).push(bytes.last() as char)
    }
}

/// The address of the sign-in page for a visitor who is to come back to
/// `origin` afterwards.
pub open spec fn signin_address(origin: Option<Seq<char>>) -> Seq<char> {
    match origin {
        Some(from) => "/signin?origin="@ + query_encoded(vstd::utf8::encode_utf8(from)),
        None => "/signin"@,
    }
}

/// `percent_encoding::percent_encode_byte`: `%` and the two upper-case
/// hexadecimal digits of the byte.
#[verifier::external_body]
fn percent_encode_byte(byte: u8) -> (text: &'static str)
    ensures
        text@ == seq!['%', hex_digit(byte as int / 16), hex_digit(byte as int % 16)],
{
    percent_encoding::percent_encode_byte(byte)
}

/// `text` as it is written in the query of an address.
pub fn encode_query(text: &str) -> (encoded: String)
    ensures
        encoded@ == query_encoded(vstd::utf8::encode_utf8(text@)),
{
    let bytes = text.as_bytes();
    let mut encoded = String::new();
    let mut i: usize = 0;
    assert(bytes@.take(0) =~= Seq::<u8>::empty());
    while i < bytes.len()
        invariant
            i <= bytes@.len(),
            bytes@ == vstd::utf8::encode_utf8(text@),
            encoded@ == query_encoded(bytes@.take(i as int)),
        decreases bytes@.len() - i,
    {
        let byte = bytes[i];
        proof {
            let longer = bytes@.take(i as int + 1);
            assert(longer.drop_last() =~= bytes@.take(i as int));
            assert(longer.last() == byte);
        }
        if byte >= 0x80 || byte < 0x20 || byte == 0x7f || byte == 0x20 || byte == 0x22 || byte
            == 0x3c || byte == 0x3e || byte == 0x60 {
            encoded.append(percent_encode_byte(byte));
        } else {
            encoded.push(byte as char);
        }
        i += 1;
    }
    assert(bytes@.take(bytes@.len() as int) =~= bytes@);
    encoded
}

impl FullPathAndQuery {
    /// The path and the query as one text.
    pub fn path_and_query(&self) -> (whole: String)
        ensures
            whole@ == path_and_query(
                self.path@,
                match self.query {
                    Some(q) => Some(q@),
                    None => None,
                },
            ),
    {
        let mut whole = self.path.clone();
        match &self.query {
            Some(query) => {
                whole.push('?');
                whole.append(query.as_str());
            },
            None => {},
        }
        whole
    }
}

impl RequestData {
    /// What a page knows of a request in `language` for `path`, made within
    /// `session` where the visitor is signed in.
    pub fn new(language: UserLanguage, path: FullPathAndQuery, session: Option<SessionData>) -> (data:
        RequestData)
        ensures
            data.language == language.0,
            data.current_path == path.path,
            data.current_query == path.query,
            data.session == session,
            data.current_path_and_query@ == path_and_query(
                path.path@,
                match path.query {
                    Some(q) => Some(q@),
                    None => None,
                },
            ),
    {
        let current_path_and_query = path.path_and_query();
        RequestData {
            language: language.0,
            current_path: path.path,
            current_query: path.query,
            current_path_and_query,
            session,
        }
    }

    /// Whether the visitor is signed in.
    pub fn logged_in(&self) -> (signed_in: bool)
        ensures
            signed_in == self.session is Some,
    {
        self.session.is_some()
    }
}

impl Failure {
    /// Another address to go to.
    pub fn redirect(destination: String) -> (failure: Failure)
        ensures
            failure == Failure::Redirect(destination),
    {
        Failure::Redirect(destination)
    }

    /// The sign-in page, and `origin` to come back to afterwards.
    pub fn redirect_to_signin(origin: Option<&str>) -> (failure: Failure)
        ensures
            failure matches Failure::Redirect(address) && address@ == signin_address(
                match origin {
                    Some(from) => Some(from@),
                    None => None,
                },
            ),
    {
        match origin {
            Some(from) => {
                let encoded = encode_query(from);
                Failure::Redirect(String::from_str("/signin?origin=").concat(encoded.as_str()))
            },
            None => Failure::Redirect(String::from_str("/signin")),
        }
    }

    /// What was asked for is not there.
    pub fn not_found() -> (failure: Failure)
        ensures
            failure == Failure::Status(NOT_FOUND),
    {
        Failure::Status(NOT_FOUND)
    }

    /// What was asked for is not allowed.
    pub fn forbidden() -> (failure: Failure)
        ensures
            failure == Failure::Status(FORBIDDEN),
    {
        Failure::Status(FORBIDDEN)
    }

    /// What a failure of the database means for the visitor: a missing row
    /// is a page that is not there, and all else went wrong on this side.
    pub fn from_database(error: &DatabaseError) -> (failure: Failure)
        ensures
            failure == Failure::Status(status_of(*error)),
    {
        Failure::Status(map_sql_to_http(error))
    }
}

/// The status that a failure of the database is answered with.
pub open spec fn status_of(error: DatabaseError) -> u16 {
    match error {
        DatabaseError::RowNotFound => NOT_FOUND,
        _ => INTERNAL_SERVER_ERROR,
    }
}

/// The status that a failure of the database is answered with.
pub fn map_sql_to_http(error: &DatabaseError) -> (status: u16)
    ensures
        status == status_of(*error),
{
    match error {
        DatabaseError::RowNotFound => NOT_FOUND,
        _ => INTERNAL_SERVER_ERROR,
    }
}

/// Whether `s` holds nothing but whitespace.
pub open spec fn is_blank(s: Seq<char>) -> bool {
    trimmed(s).len() == 0
}

/// `text`, unless it holds nothing but whitespace.
pub fn into_option(text: String) -> (kept: Option<String>)
    ensures
        match kept {
            Some(same) => same == text && !is_blank(text@),
            None => is_blank(text@),
        },
{
    let chars = to_chars(text.as_str());
    let (start, end) = trim_range(chars.as_slice());
    if start == end {
        None
    } else {
        Some(text)
    }
}

/// `text` without the whitespace at its ends, unless nothing is left of it.
pub fn trimmed_option(text: &str) -> (kept: Option<String>)
    ensures
        match kept {
            Some(rest) => rest@ == trimmed(text@) && !is_blank(text@),
            None => is_blank(text@),
        },
{
    let chars = to_chars(text);
    let (start, end) = trim_range(chars.as_slice());
    if start == end {
        None
    } else {
        Some(collect_string(chars.as_slice(), start, end))
    }
}

/// `text`, unless it is empty.
pub fn non_empty(text: Option<String>) -> (kept: Option<String>)
    ensures
        match text {
            Some(given) => if given@.len() == 0 {
                kept is None
            } else {
                kept == Some(given)
            },
            None => kept is None,
        },
{
    match text {
        Some(given) => {
            if given.as_str().is_empty() {
                None
            } else {
                Some(given)
            }
        },
        None => None,
    }
}

} // verus!
