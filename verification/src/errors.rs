//! Errors of the field maps, messages, dictionaries and data dictionary.

use vstd::prelude::*;
use crate::text::{decimal_digits, push_str, u32_to_decimal};

verus! {

/// What can go wrong when reading, writing or checking FIX data.
#[derive(Debug)]
pub enum NativeError {
    FieldConvertError(String),
    FieldNotFound(String),
    InvalidMessage(String),
    SessionNotFound(String),
    NetworkError(String),
    ConfigError(String),
    UnsupportedVersion,
    TagOutOfOrder(u32),
    InvalidTagNumber(u32),
    InvalidMessageType,
    IncorrectDataFormat(u32, String),
    IncorrectTagValue(u32),
    NoTagValue(u32),
    TagNotDefinedforMessage(u32),
    RepeatingGroupCountMismatch(u32),
    MissingTag(u32),
    RepeatedTag(u32),
    DataDictionaryNotFound,
    XMLError(String),
}

/// The content of a [`NativeError`], its texts as character sequences.
pub enum NativeErrorView {
    FieldConvertError(Seq<char>),
    FieldNotFound(Seq<char>),
    InvalidMessage(Seq<char>),
    SessionNotFound(Seq<char>),
    NetworkError(Seq<char>),
    ConfigError(Seq<char>),
    UnsupportedVersion,
    TagOutOfOrder(u32),
    InvalidTagNumber(u32),
    InvalidMessageType,
    IncorrectDataFormat(u32, Seq<char>),
    IncorrectTagValue(u32),
    NoTagValue(u32),
    TagNotDefinedforMessage(u32),
    RepeatingGroupCountMismatch(u32),
    MissingTag(u32),
    RepeatedTag(u32),
    DataDictionaryNotFound,
    XMLError(Seq<char>),
}

impl View for NativeError {
    type V = NativeErrorView;

    open spec fn view(&self) -> NativeErrorView {
        match self {
            NativeError::FieldConvertError(s) => NativeErrorView::FieldConvertError(s@),
            NativeError::FieldNotFound(s) => NativeErrorView::FieldNotFound(s@),
            NativeError::InvalidMessage(s) => NativeErrorView::InvalidMessage(s@),
            NativeError::SessionNotFound(s) => NativeErrorView::SessionNotFound(s@),
            NativeError::NetworkError(s) => NativeErrorView::NetworkError(s@),
            NativeError::ConfigError(s) => NativeErrorView::ConfigError(s@),
            NativeError::UnsupportedVersion => NativeErrorView::UnsupportedVersion,
            NativeError::TagOutOfOrder(t) => NativeErrorView::TagOutOfOrder(*t),
            NativeError::InvalidTagNumber(t) => NativeErrorView::InvalidTagNumber(*t),
            NativeError::InvalidMessageType => NativeErrorView::InvalidMessageType,
            NativeError::IncorrectDataFormat(t, s) => NativeErrorView::IncorrectDataFormat(*t, s@),
            NativeError::IncorrectTagValue(t) => NativeErrorView::IncorrectTagValue(*t),
            NativeError::NoTagValue(t) => NativeErrorView::NoTagValue(*t),
            NativeError::TagNotDefinedforMessage(t) => NativeErrorView::TagNotDefinedforMessage(*t),
            NativeError::RepeatingGroupCountMismatch(t) => NativeErrorView::RepeatingGroupCountMismatch(*t),
            NativeError::MissingTag(t) => NativeErrorView::MissingTag(*t),
            NativeError::RepeatedTag(t) => NativeErrorView::RepeatedTag(*t),
            NativeError::DataDictionaryNotFound => NativeErrorView::DataDictionaryNotFound,
            NativeError::XMLError(s) => NativeErrorView::XMLError(s@),
        }
    }
}

/// The human readable text of an error.
pub open spec fn native_error_text(e: NativeErrorView) -> Seq<char> {
    match e {
        NativeErrorView::FieldConvertError(s) => "Field conversion error: "@ + s,
        NativeErrorView::FieldNotFound(s) => "Field not found: "@ + s,
        NativeErrorView::InvalidMessage(s) => "Invalid message: "@ + s,
        NativeErrorView::SessionNotFound(s) => "Session not found: "@ + s,
        NativeErrorView::NetworkError(s) => "Network error: "@ + s,
        NativeErrorView::ConfigError(s) => "Configuration error: "@ + s,
        NativeErrorView::UnsupportedVersion => "Unsupported version"@,
        NativeErrorView::TagOutOfOrder(t) => "Tag out of order: "@ + decimal_digits(t as nat),
        NativeErrorView::InvalidTagNumber(t) => "Invalid tag number: "@ + decimal_digits(t as nat),
        NativeErrorView::InvalidMessageType => "Invalid message type"@,
        NativeErrorView::IncorrectDataFormat(t, s) => "Incorrect data format for field "@
            + decimal_digits(t as nat) + ": "@ + s,
        NativeErrorView::IncorrectTagValue(t) => "Incorrect tag value for field "@ + decimal_digits(
            t as nat,
        ),
        NativeErrorView::NoTagValue(t) => "No tag value for field "@ + decimal_digits(t as nat),
        NativeErrorView::TagNotDefinedforMessage(t) => "Tag not defined for message: "@
            + decimal_digits(t as nat),
        NativeErrorView::RepeatingGroupCountMismatch(t) => "Repeating group count mismatch for field "@
            + decimal_digits(t as nat),
        NativeErrorView::MissingTag(t) => "Required tag missing: "@ + decimal_digits(t as nat),
        NativeErrorView::RepeatedTag(t) => "Repeated tag: "@ + decimal_digits(t as nat),
        NativeErrorView::DataDictionaryNotFound => "Data dictionary not found"@,
        NativeErrorView::XMLError(s) => "XML parsing error: "@ + s,
    }
}

fn text_with_tag(prefix: &str, tag: u32) -> (r: String)
    ensures
        r@ == prefix@ + decimal_digits(tag as nat),
{
    let mut r = String::new();
    push_str(&mut r, prefix);
    let d = u32_to_decimal(tag);
    push_str(&mut r, d.as_str());
    r
}

fn text_with_suffix(prefix: &str, s: &str) -> (r: String)
    ensures
        r@ == prefix@ + s@,
{
    let mut r = String::new();
    push_str(&mut r, prefix);
    push_str(&mut r, s);
    r
}

impl NativeError {
    /// The human readable text of the error.
    pub fn message(&self) -> (r: String)
        ensures
            r@ == native_error_text(self@),
    {
        match self {
            NativeError::FieldConvertError(s) => text_with_suffix("Field conversion error: ", s.as_str()),
            NativeError::FieldNotFound(s) => text_with_suffix("Field not found: ", s.as_str()),
            NativeError::InvalidMessage(s) => text_with_suffix("Invalid message: ", s.as_str()),
            NativeError::SessionNotFound(s) => text_with_suffix("Session not found: ", s.as_str()),
            NativeError::NetworkError(s) => text_with_suffix("Network error: ", s.as_str()),
            NativeError::ConfigError(s) => text_with_suffix("Configuration error: ", s.as_str()),
            NativeError::UnsupportedVersion => String::from_str("Unsupported version"),
            NativeError::TagOutOfOrder(t) => text_with_tag("Tag out of order: ", *t),
            NativeError::InvalidTagNumber(t) => text_with_tag("Invalid tag number: ", *t),
            NativeError::InvalidMessageType => String::from_str("Invalid message type"),
            NativeError::IncorrectDataFormat(t, s) => {
                let mut r = text_with_tag("Incorrect data format for field ", *t);
                push_str(&mut r, ": ");
                push_str(&mut r, s.as_str());
                r
            },
            NativeError::IncorrectTagValue(t) => text_with_tag("Incorrect tag value for field ", *t),
            NativeError::NoTagValue(t) => text_with_tag("No tag value for field ", *t),
            NativeError::TagNotDefinedforMessage(t) => text_with_tag("Tag not defined for message: ", *t),
            NativeError::RepeatingGroupCountMismatch(t) => text_with_tag(
                "Repeating group count mismatch for field ",
                *t,
            ),
            NativeError::MissingTag(t) => text_with_tag("Required tag missing: ", *t),
            NativeError::RepeatedTag(t) => text_with_tag("Repeated tag: ", *t),
            NativeError::DataDictionaryNotFound => String::from_str("Data dictionary not found"),
            NativeError::XMLError(s) => text_with_suffix("XML parsing error: ", s.as_str()),
        }
    }
}

/// The result of the fallible operations of this crate.
pub type Result<T> = std::result::Result<T, NativeError>;

} // verus!
