//! The settings that the front-end reads from git's configuration: where
//! they are found in it, and what the text of a configuration gives for them.

use vstd::prelude::*;
use crate::text::{decimal, decimal_text, glue, text_eq};

verus! {

/// The place of a value in git's configuration.
#[derive(Debug, PartialEq, Eq)]
pub struct GitLocation {
    pub section: String,
    pub subsection: Option<String>,
    pub key: String,
}

/// The mathematical value of a [`GitLocation`].
pub struct LocationModel {
    pub section: Seq<char>,
    pub subsection: Option<Seq<char>>,
    pub key: Seq<char>,
}

impl View for GitLocation {
    type V = LocationModel;

    open spec fn view(&self) -> LocationModel {
        LocationModel {
            section: self.section@,
            subsection: match self.subsection {
                Some(s) => Some(s@),
                None => None,
            },
            key: self.key@,
        }
    }
}

/// Where the setting `key` lies: the user's name and address under
/// `user`, the repository's address under the remote `origin`. Other
/// settings have no place.
pub open spec fn location_of(key: Seq<char>) -> Option<LocationModel> {
    if key == "user.name"@ {
        Some(LocationModel { section: "user"@, subsection: None, key: "name"@ })
    } else if key == "user.email"@ {
        Some(LocationModel { section: "user"@, subsection: None, key: "email"@ })
    } else if key == "repository.url"@ {
        Some(LocationModel { section: "remote"@, subsection: Some("origin"@), key: "url"@ })
    } else {
        None
    }
}

/// Where the setting `key` lies in git's configuration, if it is one of
/// the settings the front-end knows.
pub fn git_config_location(key: &str) -> (location: Option<GitLocation>)
    ensures
        match location {
            Some(l) => location_of(key@) == Some(l@),
            None => location_of(key@) is None,
        },
{
    if text_eq(key, "user.name") {
        Some(
            GitLocation {
                section: String::from_str("user"),
                subsection: None,
                key: String::from_str("name"),
            },
        )
    } else if text_eq(key, "user.email") {
        Some(
            GitLocation {
                section: String::from_str("user"),
                subsection: None,
                key: String::from_str("email"),
            },
        )
    } else if text_eq(key, "repository.url") {
        Some(
            GitLocation {
                section: String::from_str("remote"),
                subsection: Some(String::from_str("origin")),
                key: String::from_str("url"),
            },
        )
    } else {
        None
    }
}

/// The text of a git configuration could not be parsed.
#[derive(Debug, PartialEq, Eq)]
pub struct GitConfigParseError {
    /// The line at which the parser gave up, counted from one.
    pub line_number: usize,
    /// What was left of the text at that point.
    pub remaining_data: Vec<u8>,
}

/// The view of a subsection that may be absent.
pub open spec fn subsection_view(subsection: Option<&str>) -> Option<Seq<char>> {
    match subsection {
        Some(s) => Some(s@),
        None => None,
    }
}

/// The view of a value that may be absent.
pub open spec fn value_view(value: Option<String>) -> Option<Seq<char>> {
    match value {
        Some(v) => Some(v@),
        None => None,
    }
}

/// What the words of a parse error say: the line at which parsing ended.
pub open spec fn parse_error_text(line_number: nat) -> Seq<char> {
    "the git configuration cannot be parsed at line "@ + decimal_text(line_number)
}

impl GitConfigParseError {
    /// The error in words.
    pub fn message(&self) -> (text: String)
        ensures
            text@ == parse_error_text(self.line_number as nat),
    {
        let line = decimal(self.line_number);
        glue("the git configuration cannot be parsed at line ", line.as_str())
    }
}

/// What the crate `git-config` reads from the text of a configuration for
/// a key of a section. Where the text is a valid configuration, this is
/// the value of the key, if the section holds one. Where it is not, this
/// is the line at which the parser gave up, counted from one, and the
/// bytes it left unparsed.
pub uninterp spec fn git_value(
    text: Seq<char>,
    section: Seq<char>,
    subsection: Option<Seq<char>>,
    key: Seq<char>,
) -> Result<Option<Seq<char>>, (nat, Seq<u8>)>;

/// Parses `text` with `git_config::parser::parse_from_str`, builds a
/// `git_config::file::GitConfig` from it and looks the key up with
/// `get_raw_value`; the bytes of a value are read as UTF-8, with the
/// replacement character for what is not. Of a parse error only its
/// `line_number` and `remaining_data` are taken, as plain values; the
/// error is never printed. The outcome depends on the four arguments
/// alone.
#[verifier::external_body]
fn read_git_value(text: &str, section: &str, subsection: Option<&str>, key: &str) -> (r: Result<
    Option<String>,
    (usize, Vec<u8>),
>)
    ensures
        match r {
            Ok(value) => git_value(text@, section@, subsection_view(subsection), key@) == Ok::<
                Option<Seq<char>>,
                (nat, Seq<u8>),
            >(value_view(value)),
            Err((line, rest)) => git_value(text@, section@, subsection_view(subsection), key@)
                == Err::<Option<Seq<char>>, (nat, Seq<u8>)>((line as nat, rest@)),
        },
{
    let parser = match git_config::parser::parse_from_str(text) {
        Ok(parser) => parser,
        Err(e) => return Err((e.line_number(), e.remaining_data().to_vec())),
    };
    let config = git_config::file::GitConfig::from(parser);
    let value = config.get_raw_value(section, subsection, key).ok();
    Ok(value.map(|v| String::from_utf8_lossy(&v).into_owned()))
}

/// Decides what a lookup in a configuration is worth: the value where the
/// text could be parsed, and a parse error with the line and the unparsed
/// rest where it could not.
pub fn settle_git_value(read: Result<Option<String>, (usize, Vec<u8>)>) -> (r: Result<
    Option<String>,
    GitConfigParseError,
>)
    ensures
        match read {
            Ok(value) => r == Ok::<Option<String>, GitConfigParseError>(value),
            Err((line, rest)) => r == Err::<Option<String>, GitConfigParseError>(
                GitConfigParseError { line_number: line, remaining_data: rest },
            ),
        },
{
    match read {
        Ok(value) => Ok(value),
        Err((line, rest)) => Err(GitConfigParseError { line_number: line, remaining_data: rest }),
    }
}

/// What a configuration gives for the setting `key`, where `text` is the
/// text of the user's configuration file, if the file exists.
pub open spec fn setting_of(text: Option<Seq<char>>, key: Seq<char>) -> Result<
    Option<Seq<char>>,
    (nat, Seq<u8>),
> {
    match (location_of(key), text) {
        (Some(location), Some(text)) => git_value(
            text,
            location.section,
            location.subsection,
            location.key,
        ),
        _ => Ok(None),
    }
}

/// Gets a setting from the text of the user's git configuration. A
/// setting that the front-end does not know, and every setting where
/// there is no configuration file, has no value. Otherwise the answer is
/// the value that the configuration holds for the setting's key, if it
/// holds one; where the text is no valid configuration, it is a parse
/// error with the line at which parsing ended and the rest of the text.
pub fn get_git_config(text: Option<&str>, key: &str) -> (r: Result<
    Option<String>,
    GitConfigParseError,
>)
    ensures
        match setting_of(subsection_view(text), key@) {
            Ok(value) => r is Ok && value_view(r->Ok_0) == value,
            Err((line, rest)) => {
                &&& r is Err
                &&& r->Err_0.line_number == line
                &&& r->Err_0.remaining_data@ == rest
            },
        },
{
    let location = match git_config_location(key) {
        Some(location) => location,
        None => {
            return Ok(None);
        },
    };
    let text = match text {
        Some(text) => text,
        None => {
            return Ok(None);
        },
    };
    let read = match &location.subsection {
        Some(subsection) => read_git_value(
            text,
            location.section.as_str(),
            Some(subsection.as_str()),
            location.key.as_str(),
        ),
        None => read_git_value(text, location.section.as_str(), None, location.key.as_str()),
    };
    settle_git_value(read)
}

} // verus!
