//! The rules of showing and changing users.

use crate::schema::accounts::AccountError;
use crate::schema::accounts::User;
use crate::text::decimal_text;
use crate::text::i64_to_string;
use crate::webserver::issues::text_of;
use crate::webserver::projects::meant;
use crate::webserver::projects::meant_text;
use vstd::prelude::*;
use vstd::string::StringExecFns;

verus! {

/// What the form of a user sends.
#[derive(Debug, PartialEq, Eq)]
pub struct EditUserForm {
    pub user_id: i64,
    pub username: String,
    pub displayname: Option<String>,
}

/// How large the picture of a user is drawn, in pixels: the picture itself
/// and the border on each of its sides.
#[derive(Clone, Copy, Debug, PartialEq, Eq, Structural)]
pub struct AvatarGeometry {
    pub scale: u32,
    pub border: u32,
}

/// The size of a picture that is asked for without a size.
pub const DEFAULT_AVATAR_SIZE: usize = 64;

/// How a picture of `size` pixels is drawn: three quarters of it are the
/// picture and an eighth on each side is border. Only the powers of two
/// from 16 to 512 can be asked for.
pub open spec fn avatar_geometry_of(size: usize) -> Option<AvatarGeometry> {
    if size == 512 || size == 256 || size == 128 || size == 64 || size == 32 || size == 16 {
        Some(AvatarGeometry { scale: (size / 4 * 3) as u32, border: (size / 8) as u32 })
    } else {
        None
    }
}

/// How the picture of a user is drawn that is asked for in `size`, or in
/// the default size where none is given.
pub fn avatar_geometry(size: Option<usize>) -> (geometry: Option<AvatarGeometry>)
    ensures
        geometry == avatar_geometry_of(
            match size {
                Some(given) => given,
                None => DEFAULT_AVATAR_SIZE,
            },
        ),
{
    let size = match size {
        Some(given) => given,
        None => DEFAULT_AVATAR_SIZE,
    };
    if size == 512 {
        Some(AvatarGeometry { scale: 384, border: 64 })
    } else if size == 256 {
        Some(AvatarGeometry { scale: 192, border: 32 })
    } else if size == 128 {
        Some(AvatarGeometry { scale: 96, border: 16 })
    } else if size == 64 {
        Some(AvatarGeometry { scale: 48, border: 8 })
    } else if size == 32 {
        Some(AvatarGeometry { scale: 24, border: 4 })
    } else if size == 16 {
        Some(AvatarGeometry { scale: 12, border: 2 })
    } else {
        None
    }
}

/// The JPEG picture that `identicon_rs` draws of a name: eight blocks to
/// a side, the picture `scale` pixels wide and the border `border` pixels
/// on each side; nothing where it cannot draw or encode the picture.
pub uninterp spec fn identicon_jpeg(name: Seq<char>, scale: u32, border: u32) -> Option<Seq<u8>>;

/// `identicon_rs::Identicon` with the size 8 and the given scale and
/// border, exported by `export_jpeg_data`: the same name and geometry
/// always give the same picture.
#[verifier::external_body]
fn draw_identicon(name: &str, scale: u32, border: u32) -> (picture: Option<Vec<u8>>)
    requires
        8 <= scale <= 384,
        border <= 64,
    ensures
        match picture {
            Some(bytes) => identicon_jpeg(name@, scale, border) == Some(bytes@),
            None => identicon_jpeg(name@, scale, border) is None,
        },
{
    let mut identicon = identicon_rs::new(name);
    identicon.set_border(border);
    match identicon.set_size(8) {
        Ok(sized) => match sized.set_scale(scale) {
            Ok(scaled) => match scaled.export_jpeg_data() {
                Ok(bytes) => Some(bytes),
                Err(_) => None,
            },
            Err(_) => None,
        },
        Err(_) => None,
    }
}

/// The picture of the user `username` in `size` pixels, as a JPEG file; or
/// the status that the request ends with: the size cannot be asked for, or
/// the picture could not be drawn.
pub fn user_avatar(username: &str, size: Option<usize>) -> (picture: Result<Vec<u8>, u16>)
    ensures
        ({
            let geometry = avatar_geometry_of(
                match size {
                    Some(given) => given,
                    None => DEFAULT_AVATAR_SIZE,
                },
            );
            match picture {
                Ok(bytes) => geometry matches Some(g) && identicon_jpeg(
                    username@,
                    g.scale,
                    g.border,
                ) == Some(bytes@),
                Err(status) => status == crate::webserver::request::INTERNAL_SERVER_ERROR && (
                geometry matches Some(g) ==> identicon_jpeg(username@, g.scale, g.border) is None),
            }
        }),
{
    match avatar_geometry(size) {
        Some(geometry) => match draw_identicon(username, geometry.scale, geometry.border) {
            Some(bytes) => Ok(bytes),
            None => Err(crate::webserver::request::INTERNAL_SERVER_ERROR),
        },
        None => Err(crate::webserver::request::INTERNAL_SERVER_ERROR),
    }
}

impl EditUserForm {
    /// Changes `user` as the form asks: its username, and its display name,
    /// which an empty one takes away.
    pub fn apply(&self, user: &mut User)
        ensures
            final(user).id == old(user).id,
            final(user).username@ == self.username@,
            text_of(final(user).display_name) == meant_text(self.displayname),
    {
        user.username = self.username.clone();
        user.display_name = meant(&self.displayname);
    }
}

/// The key of the message that tells a visitor why a user could not be
/// stored.
pub fn save_failure(error: &AccountError) -> (key: &'static str)
    ensures
        key@ == match error {
            AccountError::UsernameTooShort => "user-error-invalid-username"@,
            AccountError::UsernameInvalidCharacter(_) => "user-error-invalid-username"@,
            AccountError::UsernameConflict => "user-error-username-conflict"@,
            AccountError::Sql(_) => "internal-error-saving"@,
        },
{
    match error {
        AccountError::UsernameTooShort => "user-error-invalid-username",
        AccountError::UsernameInvalidCharacter(_) => "user-error-invalid-username",
        AccountError::UsernameConflict => "user-error-username-conflict",
        AccountError::Sql(_) => "internal-error-saving",
    }
}

/// The address of the page of the user `user_id`.
pub fn user_address(user_id: i64) -> (address: String)
    ensures
        address@ == "/user/"@ + decimal_text(user_id as int),
{
    String::from_str("/user/").concat(i64_to_string(user_id).as_str())
}

/// The address of the sign-in page for a visitor who wants to change the
/// user `user_id`.
pub fn edit_signin_address(user_id: i64) -> (address: String)
    ensures
        address@ == "/signin?origin=/user/"@ + decimal_text(user_id as int) + "/edit"@,
{
    String::from_str("/signin?origin=/user/").concat(i64_to_string(user_id).as_str()).concat(
        "/edit",
    )
}

/// Whether the account `account_id` may change the user `user_id`: only
/// the user itself may.
pub fn can_edit_user(account_id: i64, user_id: i64) -> (allowed: bool)
    ensures
        allowed == (account_id == user_id),
{
    account_id == user_id
}

} // verus!
