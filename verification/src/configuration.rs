//! The settings of a site and what each is where nobody has set it.

use vstd::prelude::*;

verus! {

/// A setting: the name it is stored under, and its value where it is not set.
pub trait Configuration {
    type Type;

    /// Whether `value` is the value of the setting where it is not set.
    spec fn is_default(value: Option<Self::Type>) -> bool;

    /// The value where the setting is not set, if it has one.
    fn default() -> (value: Option<Self::Type>)
        ensures
            Self::is_default(value),
    ;

    /// The name that the setting is stored under.
    fn key() -> &'static str;
}

/// The value of the setting `C` where the store of settings holds `stored`
/// for it: what is stored where something readable is stored, also where
/// that is "nothing"; else the value of the setting where it is not set.
pub fn configured<C: Configuration>(stored: Option<Option<C::Type>>) -> (value: Option<C::Type>)
    ensures
        match stored {
            Some(set) => value == set,
            None => C::is_default(value),
        },
{
    match stored {
        Some(set) => set,
        None => C::default(),
    }
}

/// For how many days a session that asked to be remembered lasts.
pub struct SessionMaximumDays;

/// The time zone in which times are shown.
pub struct SiteDefaultTimezone;

/// What stands before the number of an issue where a text mentions one.
pub struct SiteIssuePrefix;

/// The name of the site.
pub struct SiteName;

/// The language of a visitor who asks for none that the site has.
pub struct SitePrimaryLocale;

impl Configuration for SessionMaximumDays {
    type Type = i64;

    open spec fn is_default(value: Option<i64>) -> bool {
        value == Some(7i64)
    }

    fn default() -> (value: Option<i64>) {
        Some(7)
    }

    fn key() -> (name: &'static str)
        ensures
            name@ == "session-maximum-days"@,
    {
        "session-maximum-days"
    }
}

impl Configuration for SiteDefaultTimezone {
    type Type = String;

    open spec fn is_default(value: Option<String>) -> bool {
        value matches Some(zone) && zone@ == "US/Pacific"@
    }

    fn default() -> (value: Option<String>) {
        Some("US/Pacific".to_owned())
    }

    fn key() -> (name: &'static str)
        ensures
            name@ == "site-default-timezone"@,
    {
        "site-default-timezone"
    }
}

impl Configuration for SiteIssuePrefix {
    type Type = String;

    open spec fn is_default(value: Option<String>) -> bool {
        value matches Some(prefix) && prefix@ == "KB-"@
    }

    fn default() -> (value: Option<String>) {
        Some("KB-".to_owned())
    }

    fn key() -> (name: &'static str)
        ensures
            name@ == "site-issue-prefix"@,
    {
        "site-issue-prefix"
    }
}

impl Configuration for SiteName {
    type Type = String;

    open spec fn is_default(value: Option<String>) -> bool {
        value matches Some(name) && name@ == "Khonsubase"@
    }

    fn default() -> (value: Option<String>) {
        Some("Khonsubase".to_owned())
    }

    fn key() -> (name: &'static str)
        ensures
            name@ == "site-name"@,
    {
        "site-name"
    }
}

impl Configuration for SitePrimaryLocale {
    type Type = String;

    open spec fn is_default(value: Option<String>) -> bool {
        value matches Some(locale) && locale@ == "en-US"@
    }

    fn default() -> (value: Option<String>) {
        Some("en-US".to_owned())
    }

    fn key() -> (name: &'static str)
        ensures
            name@ == "site-primary-locale"@,
    {
        "site-primary-locale"
    }
}

} // verus!
