//! The model of a FIX XML dictionary: field types, message categories,
//! fields, groups, components, messages and the whole specification.

use vstd::prelude::*;
use crate::text::{push_str, text_eq};

verus! {

/// Errors met while reading a FIX XML dictionary.
#[derive(Debug, PartialEq, Eq, Clone)]
pub enum FixSpecError {
    /// The document is not a FIX dictionary.
    InvalidDocument(&'static str),
    /// A required attribute is missing.
    InvalidAttribute(String),
    /// An attribute or a text has a value that cannot be used.
    InvalidContent(String),
    /// The XML reader failed.
    Xml(String),
}

/// The content of a [`FixSpecError`], as plain text.
pub enum FixSpecErrorView {
    InvalidDocument(Seq<char>),
    InvalidAttribute(Seq<char>),
    InvalidContent(Seq<char>),
    Xml(Seq<char>),
}

impl View for FixSpecError {
    type V = FixSpecErrorView;

    open spec fn view(&self) -> FixSpecErrorView {
        match self {
            FixSpecError::InvalidDocument(s) => FixSpecErrorView::InvalidDocument(s@),
            FixSpecError::InvalidAttribute(s) => FixSpecErrorView::InvalidAttribute(s@),
            FixSpecError::InvalidContent(s) => FixSpecErrorView::InvalidContent(s@),
            FixSpecError::Xml(s) => FixSpecErrorView::Xml(s@),
        }
    }
}

/// The human readable text of an error.
pub open spec fn fix_spec_error_text(e: FixSpecErrorView) -> Seq<char> {
    match e {
        FixSpecErrorView::InvalidDocument(s) => "invalid document: "@ + s,
        FixSpecErrorView::InvalidAttribute(s) => "invalid attribute: "@ + s,
        FixSpecErrorView::InvalidContent(s) => "invalid content: "@ + s,
        FixSpecErrorView::Xml(s) => "xml error: "@ + s,
    }
}

impl FixSpecError {
    /// The human readable text of the error.
    pub fn message(&self) -> (r: String)
        ensures
            r@ == fix_spec_error_text(self@),
    {
        let mut r = String::new();
        match self {
            FixSpecError::InvalidDocument(s) => {
                push_str(&mut r, "invalid document: ");
                push_str(&mut r, s);
            },
            FixSpecError::InvalidAttribute(s) => {
                push_str(&mut r, "invalid attribute: ");
                push_str(&mut r, s.as_str());
            },
            FixSpecError::InvalidContent(s) => {
                push_str(&mut r, "invalid content: ");
                push_str(&mut r, s.as_str());
            },
            FixSpecError::Xml(s) => {
                push_str(&mut r, "xml error: ");
                push_str(&mut r, s.as_str());
            },
        }
        r
    }
}

/// The type of the values of a field.
#[derive(Debug, Clone, Copy, PartialEq, Eq)]
#[non_exhaustive]
pub enum FieldType {
    Char,
    Int,
    Float,
    Time,
    Date,
    Length,
    Data,
    MonthYear,
    DayOfMonth,
    String,
    Price,
    Amount,
    Quantity,
    Currency,
    MultipleValueString,
    Exchange,
    UtcTimeStamp,
    Boolean,
    LocalMarketDate,
    PriceOffset,
    UtcDate,
    UtcTimeOnly,
    SequenceNumber,
    NumberInGroup,
    Percentage,
    Country,
    UtcDateOnly,
    MultipleCharValue,
    MultipleStringValue,
    TzTimeOnly,
    TzTimestamp,
    XmlData,
    Language,
    TagNumber,
    XidRef,
    Xid,
    LocalMarketTime,
}

/// The dictionary name of a field type.
pub open spec fn field_type_name(t: FieldType) -> Seq<char> {
    match t {
        FieldType::Char => "CHAR"@,
        FieldType::Int => "INT"@,
        FieldType::Float => "FLOAT"@,
        FieldType::Time => "TIME"@,
        FieldType::Date => "DATE"@,
        FieldType::Length => "LENGTH"@,
        FieldType::Data => "DATA"@,
        FieldType::MonthYear => "MONTHYEAR"@,
        FieldType::DayOfMonth => "DAYOFMONTH"@,
        FieldType::String => "STRING"@,
        FieldType::Price => "PRICE"@,
        FieldType::Amount => "AMT"@,
        FieldType::Quantity => "QTY"@,
        FieldType::Currency => "CURRENCY"@,
        FieldType::MultipleValueString => "MULTIPLEVALUESTRING"@,
        FieldType::Exchange => "EXCHANGE"@,
        FieldType::UtcTimeStamp => "UTCTIMESTAMP"@,
        FieldType::Boolean => "BOOLEAN"@,
        FieldType::LocalMarketDate => "LOCALMKTDATE"@,
        FieldType::PriceOffset => "PRICEOFFSET"@,
        FieldType::UtcDate => "UTCDATE"@,
        FieldType::UtcTimeOnly => "UTCTIMEONLY"@,
        FieldType::SequenceNumber => "SEQNUM"@,
        FieldType::NumberInGroup => "NUMINGROUP"@,
        FieldType::Percentage => "PERCENTAGE"@,
        FieldType::Country => "COUNTRY"@,
        FieldType::UtcDateOnly => "UTCDATEONLY"@,
        FieldType::MultipleCharValue => "MULTIPLECHARVALUE"@,
        FieldType::MultipleStringValue => "MULTIPLESTRINGVALUE"@,
        FieldType::TzTimeOnly => "TZTIMEONLY"@,
        FieldType::TzTimestamp => "TZTIMESTAMP"@,
        FieldType::XmlData => "XMLDATA"@,
        FieldType::Language => "LANGUAGE"@,
        FieldType::TagNumber => "TAGNUM"@,
        FieldType::XidRef => "XIDREF"@,
        FieldType::Xid => "XID"@,
        FieldType::LocalMarketTime => "LOCALMKTTIME"@,
    }
}

/// The field type that a dictionary name stands for.
pub open spec fn field_type_from_name(s: Seq<char>) -> Option<FieldType> {
    if s == "CHAR"@ {
        Some(FieldType::Char)
    }     else if s == "INT"@ {
        Some(FieldType::Int)
    }     else if s == "FLOAT"@ {
        Some(FieldType::Float)
    }     else if s == "TIME"@ {
        Some(FieldType::Time)
    }     else if s == "DATE"@ {
        Some(FieldType::Date)
    }     else if s == "LENGTH"@ {
        Some(FieldType::Length)
    }     else if s == "DATA"@ {
        Some(FieldType::Data)
    }     else if s == "MONTHYEAR"@ {
        Some(FieldType::MonthYear)
    }     else if s == "DAYOFMONTH"@ {
        Some(FieldType::DayOfMonth)
    }     else if s == "STRING"@ {
        Some(FieldType::String)
    }     else if s == "PRICE"@ {
        Some(FieldType::Price)
    }     else if s == "AMT"@ {
        Some(FieldType::Amount)
    }     else if s == "QTY"@ {
        Some(FieldType::Quantity)
    }     else if s == "CURRENCY"@ {
        Some(FieldType::Currency)
    }     else if s == "MULTIPLEVALUESTRING"@ {
        Some(FieldType::MultipleValueString)
    }     else if s == "EXCHANGE"@ {
        Some(FieldType::Exchange)
    }     else if s == "UTCTIMESTAMP"@ {
        Some(FieldType::UtcTimeStamp)
    }     else if s == "BOOLEAN"@ {
        Some(FieldType::Boolean)
    }     else if s == "LOCALMKTDATE"@ {
        Some(FieldType::LocalMarketDate)
    }     else if s == "PRICEOFFSET"@ {
        Some(FieldType::PriceOffset)
    }     else if s == "UTCDATE"@ {
        Some(FieldType::UtcDate)
    }     else if s == "UTCTIMEONLY"@ {
        Some(FieldType::UtcTimeOnly)
    }     else if s == "SEQNUM"@ {
        Some(FieldType::SequenceNumber)
    }     else if s == "NUMINGROUP"@ {
        Some(FieldType::NumberInGroup)
    }     else if s == "PERCENTAGE"@ {
        Some(FieldType::Percentage)
    }     else if s == "COUNTRY"@ {
        Some(FieldType::Country)
    }     else if s == "UTCDATEONLY"@ {
        Some(FieldType::UtcDateOnly)
    }     else if s == "MULTIPLECHARVALUE"@ {
        Some(FieldType::MultipleCharValue)
    }     else if s == "MULTIPLESTRINGVALUE"@ {
        Some(FieldType::MultipleStringValue)
    }     else if s == "TZTIMEONLY"@ {
        Some(FieldType::TzTimeOnly)
    }     else if s == "TZTIMESTAMP"@ {
        Some(FieldType::TzTimestamp)
    }     else if s == "XMLDATA"@ {
        Some(FieldType::XmlData)
    }     else if s == "LANGUAGE"@ {
        Some(FieldType::Language)
    }     else if s == "TAGNUM"@ {
        Some(FieldType::TagNumber)
    }     else if s == "XIDREF"@ {
        Some(FieldType::XidRef)
    }     else if s == "XID"@ {
        Some(FieldType::Xid)
    }     else if s == "LOCALMKTTIME"@ {
        Some(FieldType::LocalMarketTime)
    } else {
        None
    }
}

impl FieldType {
    /// The dictionary name of the type.
    pub fn as_static_str(&self) -> (r: &'static str)
        ensures
            r@ == field_type_name(*self),
    {
        match self {
            FieldType::Char => "CHAR",
            FieldType::Int => "INT",
            FieldType::Float => "FLOAT",
            FieldType::Time => "TIME",
            FieldType::Date => "DATE",
            FieldType::Length => "LENGTH",
            FieldType::Data => "DATA",
            FieldType::MonthYear => "MONTHYEAR",
            FieldType::DayOfMonth => "DAYOFMONTH",
            FieldType::String => "STRING",
            FieldType::Price => "PRICE",
            FieldType::Amount => "AMT",
            FieldType::Quantity => "QTY",
            FieldType::Currency => "CURRENCY",
            FieldType::MultipleValueString => "MULTIPLEVALUESTRING",
            FieldType::Exchange => "EXCHANGE",
            FieldType::UtcTimeStamp => "UTCTIMESTAMP",
            FieldType::Boolean => "BOOLEAN",
            FieldType::LocalMarketDate => "LOCALMKTDATE",
            FieldType::PriceOffset => "PRICEOFFSET",
            FieldType::UtcDate => "UTCDATE",
            FieldType::UtcTimeOnly => "UTCTIMEONLY",
            FieldType::SequenceNumber => "SEQNUM",
            FieldType::NumberInGroup => "NUMINGROUP",
            FieldType::Percentage => "PERCENTAGE",
            FieldType::Country => "COUNTRY",
            FieldType::UtcDateOnly => "UTCDATEONLY",
            FieldType::MultipleCharValue => "MULTIPLECHARVALUE",
            FieldType::MultipleStringValue => "MULTIPLESTRINGVALUE",
            FieldType::TzTimeOnly => "TZTIMEONLY",
            FieldType::TzTimestamp => "TZTIMESTAMP",
            FieldType::XmlData => "XMLDATA",
            FieldType::Language => "LANGUAGE",
            FieldType::TagNumber => "TAGNUM",
            FieldType::XidRef => "XIDREF",
            FieldType::Xid => "XID",
            FieldType::LocalMarketTime => "LOCALMKTTIME",
        }
    }
}

/// Reads a field type from its dictionary name.
pub fn parse_field_type(input: &str) -> (r: Result<FieldType, FixSpecError>)
    ensures
        match field_type_from_name(input@) {
            Some(t) => r == Ok::<FieldType, FixSpecError>(t),
            None => r is Err && r->Err_0@ == FixSpecErrorView::InvalidContent(
                "unknown field type: "@ + input@,
            ),
        },
{
    if text_eq(input, "CHAR") {
        return Ok(FieldType::Char);
    }
    if text_eq(input, "INT") {
        return Ok(FieldType::Int);
    }
    if text_eq(input, "FLOAT") {
        return Ok(FieldType::Float);
    }
    if text_eq(input, "TIME") {
        return Ok(FieldType::Time);
    }
    if text_eq(input, "DATE") {
        return Ok(FieldType::Date);
    }
    if text_eq(input, "LENGTH") {
        return Ok(FieldType::Length);
    }
    if text_eq(input, "DATA") {
        return Ok(FieldType::Data);
    }
    if text_eq(input, "MONTHYEAR") {
        return Ok(FieldType::MonthYear);
    }
    if text_eq(input, "DAYOFMONTH") {
        return Ok(FieldType::DayOfMonth);
    }
    if text_eq(input, "STRING") {
        return Ok(FieldType::String);
    }
    if text_eq(input, "PRICE") {
        return Ok(FieldType::Price);
    }
    if text_eq(input, "AMT") {
        return Ok(FieldType::Amount);
    }
    if text_eq(input, "QTY") {
        return Ok(FieldType::Quantity);
    }
    if text_eq(input, "CURRENCY") {
        return Ok(FieldType::Currency);
    }
    if text_eq(input, "MULTIPLEVALUESTRING") {
        return Ok(FieldType::MultipleValueString);
    }
    if text_eq(input, "EXCHANGE") {
        return Ok(FieldType::Exchange);
    }
    if text_eq(input, "UTCTIMESTAMP") {
        return Ok(FieldType::UtcTimeStamp);
    }
    if text_eq(input, "BOOLEAN") {
        return Ok(FieldType::Boolean);
    }
    if text_eq(input, "LOCALMKTDATE") {
        return Ok(FieldType::LocalMarketDate);
    }
    if text_eq(input, "PRICEOFFSET") {
        return Ok(FieldType::PriceOffset);
    }
    if text_eq(input, "UTCDATE") {
        return Ok(FieldType::UtcDate);
    }
    if text_eq(input, "UTCTIMEONLY") {
        return Ok(FieldType::UtcTimeOnly);
    }
    if text_eq(input, "SEQNUM") {
        return Ok(FieldType::SequenceNumber);
    }
    if text_eq(input, "NUMINGROUP") {
        return Ok(FieldType::NumberInGroup);
    }
    if text_eq(input, "PERCENTAGE") {
        return Ok(FieldType::Percentage);
    }
    if text_eq(input, "COUNTRY") {
        return Ok(FieldType::Country);
    }
    if text_eq(input, "UTCDATEONLY") {
        return Ok(FieldType::UtcDateOnly);
    }
    if text_eq(input, "MULTIPLECHARVALUE") {
        return Ok(FieldType::MultipleCharValue);
    }
    if text_eq(input, "MULTIPLESTRINGVALUE") {
        return Ok(FieldType::MultipleStringValue);
    }
    if text_eq(input, "TZTIMEONLY") {
        return Ok(FieldType::TzTimeOnly);
    }
    if text_eq(input, "TZTIMESTAMP") {
        return Ok(FieldType::TzTimestamp);
    }
    if text_eq(input, "XMLDATA") {
        return Ok(FieldType::XmlData);
    }
    if text_eq(input, "LANGUAGE") {
        return Ok(FieldType::Language);
    }
    if text_eq(input, "TAGNUM") {
        return Ok(FieldType::TagNumber);
    }
    if text_eq(input, "XIDREF") {
        return Ok(FieldType::XidRef);
    }
    if text_eq(input, "XID") {
        return Ok(FieldType::Xid);
    }
    if text_eq(input, "LOCALMKTTIME") {
        return Ok(FieldType::LocalMarketTime);
    }
    let mut msg = String::new();
    push_str(&mut msg, "unknown field type: ");
    push_str(&mut msg, input);
    Err(FixSpecError::InvalidContent(msg))
}

impl std::str::FromStr for FieldType {
    type Err = FixSpecError;

    fn from_str(input: &str) -> (r: Result<Self, Self::Err>)
        ensures
            match field_type_from_name(input@) {
                Some(t) => r == Ok::<FieldType, FixSpecError>(t),
                None => r is Err && r->Err_0@ == FixSpecErrorView::InvalidContent(
                    "unknown field type: "@ + input@,
                ),
            },
    {
        parse_field_type(input)
    }
}

/// Reading back the name of a field type gives the type.
pub proof fn field_type_name_round_trip(t: FieldType)
    ensures
        field_type_from_name(field_type_name(t)) == Some(t),
{
    match t {
        FieldType::Char => {
            reveal_strlit("CHAR");
        },
        FieldType::Int => {
            reveal_strlit("INT");
            reveal_strlit("CHAR");
            assert("INT"@.len() != "CHAR"@.len());
        },
        FieldType::Float => {
            reveal_strlit("FLOAT");
            reveal_strlit("CHAR");
            assert("FLOAT"@.len() != "CHAR"@.len());
            reveal_strlit("INT");
            assert("FLOAT"@.len() != "INT"@.len());
        },
        FieldType::Time => {
            reveal_strlit("TIME");
            reveal_strlit("CHAR");
            assert("TIME"@[0] != "CHAR"@[0]);
            reveal_strlit("INT");
            assert("TIME"@.len() != "INT"@.len());
            reveal_strlit("FLOAT");
            assert("TIME"@.len() != "FLOAT"@.len());
        },
        FieldType::Date => {
            reveal_strlit("DATE");
            reveal_strlit("CHAR");
            assert("DATE"@[0] != "CHAR"@[0]);
            reveal_strlit("INT");
            assert("DATE"@.len() != "INT"@.len());
            reveal_strlit("FLOAT");
            assert("DATE"@.len() != "FLOAT"@.len());
            reveal_strlit("TIME");
            assert("DATE"@[0] != "TIME"@[0]);
        },
        FieldType::Length => {
            reveal_strlit("LENGTH");
            reveal_strlit("CHAR");
            assert("LENGTH"@.len() != "CHAR"@.len());
            reveal_strlit("INT");
            assert("LENGTH"@.len() != "INT"@.len());
            reveal_strlit("FLOAT");
            assert("LENGTH"@.len() != "FLOAT"@.len());
            reveal_strlit("TIME");
            assert("LENGTH"@.len() != "TIME"@.len());
            reveal_strlit("DATE");
            assert("LENGTH"@.len() != "DATE"@.len());
        },
        FieldType::Data => {
            reveal_strlit("DATA");
            reveal_strlit("CHAR");
            assert("DATA"@[0] != "CHAR"@[0]);
            reveal_strlit("INT");
            assert("DATA"@.len() != "INT"@.len());
            reveal_strlit("FLOAT");
            assert("DATA"@.len() != "FLOAT"@.len());
            reveal_strlit("TIME");
            assert("DATA"@[0] != "TIME"@[0]);
            reveal_strlit("DATE");
            assert("DATA"@[3] != "DATE"@[3]);
            reveal_strlit("LENGTH");
            assert("DATA"@.len() != "LENGTH"@.len());
        },
        FieldType::MonthYear => {
            reveal_strlit("MONTHYEAR");
            reveal_strlit("CHAR");
            assert("MONTHYEAR"@.len() != "CHAR"@.len());
            reveal_strlit("INT");
            assert("MONTHYEAR"@.len() != "INT"@.len());
            reveal_strlit("FLOAT");
            assert("MONTHYEAR"@.len() != "FLOAT"@.len());
            reveal_strlit("TIME");
            assert("MONTHYEAR"@.len() != "TIME"@.len());
            reveal_strlit("DATE");
            assert("MONTHYEAR"@.len() != "DATE"@.len());
            reveal_strlit("LENGTH");
            assert("MONTHYEAR"@.len() != "LENGTH"@.len());
            reveal_strlit("DATA");
            assert("MONTHYEAR"@.len() != "DATA"@.len());
        },
        FieldType::DayOfMonth => {
            reveal_strlit("DAYOFMONTH");
            reveal_strlit("CHAR");
            assert("DAYOFMONTH"@.len() != "CHAR"@.len());
            reveal_strlit("INT");
            assert("DAYOFMONTH"@.len() != "INT"@.len());
            reveal_strlit("FLOAT");
            assert("DAYOFMONTH"@.len() != "FLOAT"@.len());
            reveal_strlit("TIME");
            assert("DAYOFMONTH"@.len() != "TIME"@.len());
            reveal_strlit("DATE");
            assert("DAYOFMONTH"@.len() != "DATE"@.len());
            reveal_strlit("LENGTH");
            assert("DAYOFMONTH"@.len() != "LENGTH"@.len());
            reveal_strlit("DATA");
            assert("DAYOFMONTH"@.len() != "DATA"@.len());
            reveal_strlit("MONTHYEAR");
            assert("DAYOFMONTH"@.len() != "MONTHYEAR"@.len());
        },
        FieldType::String => {
            reveal_strlit("STRING");
            reveal_strlit("CHAR");
            assert("STRING"@.len() != "CHAR"@.len());
            reveal_strlit("INT");
            assert("STRING"@.len() != "INT"@.len());
            reveal_strlit("FLOAT");
            assert("STRING"@.len() != "FLOAT"@.len());
            reveal_strlit("TIME");
            assert("STRING"@.len() != "TIME"@.len());
            reveal_strlit("DATE");
            assert("STRING"@.len() != "DATE"@.len());
            reveal_strlit("LENGTH");
            assert("STRING"@[0] != "LENGTH"@[0]);
            reveal_strlit("DATA");
            assert("STRING"@.len() != "DATA"@.len());
            reveal_strlit("MONTHYEAR");
            assert("STRING"@.len() != "MONTHYEAR"@.len());
            reveal_strlit("DAYOFMONTH");
            assert("STRING"@.len() != "DAYOFMONTH"@.len());
        },
        FieldType::Price => {
            reveal_strlit("PRICE");
            reveal_strlit("CHAR");
            assert("PRICE"@.len() != "CHAR"@.len());
            reveal_strlit("INT");
            assert("PRICE"@.len() != "INT"@.len());
            reveal_strlit("FLOAT");
            assert("PRICE"@[0] != "FLOAT"@[0]);
            reveal_strlit("TIME");
            assert("PRICE"@.len() != "TIME"@.len());
            reveal_strlit("DATE");
            assert("PRICE"@.len() != "DATE"@.len());
            reveal_strlit("LENGTH");
            assert("PRICE"@.len() != "LENGTH"@.len());
            reveal_strlit("DATA");
            assert("PRICE"@.len() != "DATA"@.len());
            reveal_strlit("MONTHYEAR");
            assert("PRICE"@.len() != "MONTHYEAR"@.len());
            reveal_strlit("DAYOFMONTH");
            assert("PRICE"@.len() != "DAYOFMONTH"@.len());
            reveal_strlit("STRING");
            assert("PRICE"@.len() != "STRING"@.len());
        },
        FieldType::Amount => {
            reveal_strlit("AMT");
            reveal_strlit("CHAR");
            assert("AMT"@.len() != "CHAR"@.len());
            reveal_strlit("INT");
            assert("AMT"@[0] != "INT"@[0]);
            reveal_strlit("FLOAT");
            assert("AMT"@.len() != "FLOAT"@.len());
            reveal_strlit("TIME");
            assert("AMT"@.len() != "TIME"@.len());
            reveal_strlit("DATE");
            assert("AMT"@.len() != "DATE"@.len());
            reveal_strlit("LENGTH");
            assert("AMT"@.len() != "LENGTH"@.len());
            reveal_strlit("DATA");
            assert("AMT"@.len() != "DATA"@.len());
            reveal_strlit("MONTHYEAR");
            assert("AMT"@.len() != "MONTHYEAR"@.len());
            reveal_strlit("DAYOFMONTH");
            assert("AMT"@.len() != "DAYOFMONTH"@.len());
            reveal_strlit("STRING");
            assert("AMT"@.len() != "STRING"@.len());
            reveal_strlit("PRICE");
            assert("AMT"@.len() != "PRICE"@.len());
        },
        FieldType::Quantity => {
            reveal_strlit("QTY");
            reveal_strlit("CHAR");
            assert("QTY"@.len() != "CHAR"@.len());
            reveal_strlit("INT");
            assert("QTY"@[0] != "INT"@[0]);
            reveal_strlit("FLOAT");
            assert("QTY"@.len() != "FLOAT"@.len());
            reveal_strlit("TIME");
            assert("QTY"@.len() != "TIME"@.len());
            reveal_strlit("DATE");
            assert("QTY"@.len() != "DATE"@.len());
            reveal_strlit("LENGTH");
            assert("QTY"@.len() != "LENGTH"@.len());
            reveal_strlit("DATA");
            assert("QTY"@.len() != "DATA"@.len());
            reveal_strlit("MONTHYEAR");
            assert("QTY"@.len() != "MONTHYEAR"@.len());
            reveal_strlit("DAYOFMONTH");
            assert("QTY"@.len() != "DAYOFMONTH"@.len());
            reveal_strlit("STRING");
            assert("QTY"@.len() != "STRING"@.len());
            reveal_strlit("PRICE");
            assert("QTY"@.len() != "PRICE"@.len());
            reveal_strlit("AMT");
            assert("QTY"@[0] != "AMT"@[0]);
        },
        FieldType::Currency => {
            reveal_strlit("CURRENCY");
            reveal_strlit("CHAR");
            assert("CURRENCY"@.len() != "CHAR"@.len());
            reveal_strlit("INT");
            assert("CURRENCY"@.len() != "INT"@.len());
            reveal_strlit("FLOAT");
            assert("CURRENCY"@.len() != "FLOAT"@.len());
            reveal_strlit("TIME");
            assert("CURRENCY"@.len() != "TIME"@.len());
            reveal_strlit("DATE");
            assert("CURRENCY"@.len() != "DATE"@.len());
            reveal_strlit("LENGTH");
            assert("CURRENCY"@.len() != "LENGTH"@.len());
            reveal_strlit("DATA");
            assert("CURRENCY"@.len() != "DATA"@.len());
            reveal_strlit("MONTHYEAR");
            assert("CURRENCY"@.len() != "MONTHYEAR"@.len());
            reveal_strlit("DAYOFMONTH");
            assert("CURRENCY"@.len() != "DAYOFMONTH"@.len());
            reveal_strlit("STRING");
            assert("CURRENCY"@.len() != "STRING"@.len());
            reveal_strlit("PRICE");
            assert("CURRENCY"@.len() != "PRICE"@.len());
            reveal_strlit("AMT");
            assert("CURRENCY"@.len() != "AMT"@.len());
            reveal_strlit("QTY");
            assert("CURRENCY"@.len() != "QTY"@.len());
        },
        FieldType::MultipleValueString => {
            reveal_strlit("MULTIPLEVALUESTRING");
            reveal_strlit("CHAR");
            assert("MULTIPLEVALUESTRING"@.len() != "CHAR"@.len());
            reveal_strlit("INT");
            assert("MULTIPLEVALUESTRING"@.len() != "INT"@.len());
            reveal_strlit("FLOAT");
            assert("MULTIPLEVALUESTRING"@.len() != "FLOAT"@.len());
            reveal_strlit("TIME");
            assert("MULTIPLEVALUESTRING"@.len() != "TIME"@.len());
            reveal_strlit("DATE");
            assert("MULTIPLEVALUESTRING"@.len() != "DATE"@.len());
            reveal_strlit("LENGTH");
            assert("MULTIPLEVALUESTRING"@.len() != "LENGTH"@.len());
            reveal_strlit("DATA");
            assert("MULTIPLEVALUESTRING"@.len() != "DATA"@.len());
            reveal_strlit("MONTHYEAR");
            assert("MULTIPLEVALUESTRING"@.len() != "MONTHYEAR"@.len());
            reveal_strlit("DAYOFMONTH");
            assert("MULTIPLEVALUESTRING"@.len() != "DAYOFMONTH"@.len());
            reveal_strlit("STRING");
            assert("MULTIPLEVALUESTRING"@.len() != "STRING"@.len());
            reveal_strlit("PRICE");
            assert("MULTIPLEVALUESTRING"@.len() != "PRICE"@.len());
            reveal_strlit("AMT");
            assert("MULTIPLEVALUESTRING"@.len() != "AMT"@.len());
            reveal_strlit("QTY");
            assert("MULTIPLEVALUESTRING"@.len() != "QTY"@.len());
            reveal_strlit("CURRENCY");
            assert("MULTIPLEVALUESTRING"@.len() != "CURRENCY"@.len());
        },
        FieldType::Exchange => {
            reveal_strlit("EXCHANGE");
            reveal_strlit("CHAR");
            assert("EXCHANGE"@.len() != "CHAR"@.len());
            reveal_strlit("INT");
            assert("EXCHANGE"@.len() != "INT"@.len());
            reveal_strlit("FLOAT");
            assert("EXCHANGE"@.len() != "FLOAT"@.len());
            reveal_strlit("TIME");
            assert("EXCHANGE"@.len() != "TIME"@.len());
            reveal_strlit("DATE");
            assert("EXCHANGE"@.len() != "DATE"@.len());
            reveal_strlit("LENGTH");
            assert("EXCHANGE"@.len() != "LENGTH"@.len());
            reveal_strlit("DATA");
            assert("EXCHANGE"@.len() != "DATA"@.len());
            reveal_strlit("MONTHYEAR");
            assert("EXCHANGE"@.len() != "MONTHYEAR"@.len());
            reveal_strlit("DAYOFMONTH");
            assert("EXCHANGE"@.len() != "DAYOFMONTH"@.len());
            reveal_strlit("STRING");
            assert("EXCHANGE"@.len() != "STRING"@.len());
            reveal_strlit("PRICE");
            assert("EXCHANGE"@.len() != "PRICE"@.len());
            reveal_strlit("AMT");
            assert("EXCHANGE"@.len() != "AMT"@.len());
            reveal_strlit("QTY");
            assert("EXCHANGE"@.len() != "QTY"@.len());
            reveal_strlit("CURRENCY");
            assert("EXCHANGE"@[0] != "CURRENCY"@[0]);
            reveal_strlit("MULTIPLEVALUESTRING");
            assert("EXCHANGE"@.len() != "MULTIPLEVALUESTRING"@.len());
        },
        FieldType::UtcTimeStamp => {
            reveal_strlit("UTCTIMESTAMP");
            reveal_strlit("CHAR");
            assert("UTCTIMESTAMP"@.len() != "CHAR"@.len());
            reveal_strlit("INT");
            assert("UTCTIMESTAMP"@.len() != "INT"@.len());
            reveal_strlit("FLOAT");
            assert("UTCTIMESTAMP"@.len() != "FLOAT"@.len());
            reveal_strlit("TIME");
            assert("UTCTIMESTAMP"@.len() != "TIME"@.len());
            reveal_strlit("DATE");
            assert("UTCTIMESTAMP"@.len() != "DATE"@.len());
            reveal_strlit("LENGTH");
            assert("UTCTIMESTAMP"@.len() != "LENGTH"@.len());
            reveal_strlit("DATA");
            assert("UTCTIMESTAMP"@.len() != "DATA"@.len());
            reveal_strlit("MONTHYEAR");
            assert("UTCTIMESTAMP"@.len() != "MONTHYEAR"@.len());
            reveal_strlit("DAYOFMONTH");
            assert("UTCTIMESTAMP"@.len() != "DAYOFMONTH"@.len());
            reveal_strlit("STRING");
            assert("UTCTIMESTAMP"@.len() != "STRING"@.len());
            reveal_strlit("PRICE");
            assert("UTCTIMESTAMP"@.len() != "PRICE"@.len());
            reveal_strlit("AMT");
            assert("UTCTIMESTAMP"@.len() != "AMT"@.len());
            reveal_strlit("QTY");
            assert("UTCTIMESTAMP"@.len() != "QTY"@.len());
            reveal_strlit("CURRENCY");
            assert("UTCTIMESTAMP"@.len() != "CURRENCY"@.len());
            reveal_strlit("MULTIPLEVALUESTRING");
            assert("UTCTIMESTAMP"@.len() != "MULTIPLEVALUESTRING"@.len());
            reveal_strlit("EXCHANGE");
            assert("UTCTIMESTAMP"@.len() != "EXCHANGE"@.len());
        },
        FieldType::Boolean => {
            reveal_strlit("BOOLEAN");
            reveal_strlit("CHAR");
            assert("BOOLEAN"@.len() != "CHAR"@.len());
            reveal_strlit("INT");
            assert("BOOLEAN"@.len() != "INT"@.len());
            reveal_strlit("FLOAT");
            assert("BOOLEAN"@.len() != "FLOAT"@.len());
            reveal_strlit("TIME");
            assert("BOOLEAN"@.len() != "TIME"@.len());
            reveal_strlit("DATE");
            assert("BOOLEAN"@.len() != "DATE"@.len());
            reveal_strlit("LENGTH");
            assert("BOOLEAN"@.len() != "LENGTH"@.len());
            reveal_strlit("DATA");
            assert("BOOLEAN"@.len() != "DATA"@.len());
            reveal_strlit("MONTHYEAR");
            assert("BOOLEAN"@.len() != "MONTHYEAR"@.len());
            reveal_strlit("DAYOFMONTH");
            assert("BOOLEAN"@.len() != "DAYOFMONTH"@.len());
            reveal_strlit("STRING");
            assert("BOOLEAN"@.len() != "STRING"@.len());
            reveal_strlit("PRICE");
            assert("BOOLEAN"@.len() != "PRICE"@.len());
            reveal_strlit("AMT");
            assert("BOOLEAN"@.len() != "AMT"@.len());
            reveal_strlit("QTY");
            assert("BOOLEAN"@.len() != "QTY"@.len());
            reveal_strlit("CURRENCY");
            assert("BOOLEAN"@.len() != "CURRENCY"@.len());
            reveal_strlit("MULTIPLEVALUESTRING");
            assert("BOOLEAN"@.len() != "MULTIPLEVALUESTRING"@.len());
            reveal_strlit("EXCHANGE");
            assert("BOOLEAN"@.len() != "EXCHANGE"@.len());
            reveal_strlit("UTCTIMESTAMP");
            assert("BOOLEAN"@.len() != "UTCTIMESTAMP"@.len());
        },
        FieldType::LocalMarketDate => {
            reveal_strlit("LOCALMKTDATE");
            reveal_strlit("CHAR");
            assert("LOCALMKTDATE"@.len() != "CHAR"@.len());
            reveal_strlit("INT");
            assert("LOCALMKTDATE"@.len() != "INT"@.len());
            reveal_strlit("FLOAT");
            assert("LOCALMKTDATE"@.len() != "FLOAT"@.len());
            reveal_strlit("TIME");
            assert("LOCALMKTDATE"@.len() != "TIME"@.len());
            reveal_strlit("DATE");
            assert("LOCALMKTDATE"@.len() != "DATE"@.len());
            reveal_strlit("LENGTH");
            assert("LOCALMKTDATE"@.len() != "LENGTH"@.len());
            reveal_strlit("DATA");
            assert("LOCALMKTDATE"@.len() != "DATA"@.len());
            reveal_strlit("MONTHYEAR");
            assert("LOCALMKTDATE"@.len() != "MONTHYEAR"@.len());
            reveal_strlit("DAYOFMONTH");
            assert("LOCALMKTDATE"@.len() != "DAYOFMONTH"@.len());
            reveal_strlit("STRING");
            assert("LOCALMKTDATE"@.len() != "STRING"@.len());
            reveal_strlit("PRICE");
            assert("LOCALMKTDATE"@.len() != "PRICE"@.len());
            reveal_strlit("AMT");
            assert("LOCALMKTDATE"@.len() != "AMT"@.len());
            reveal_strlit("QTY");
            assert("LOCALMKTDATE"@.len() != "QTY"@.len());
            reveal_strlit("CURRENCY");
            assert("LOCALMKTDATE"@.len() != "CURRENCY"@.len());
            reveal_strlit("MULTIPLEVALUESTRING");
            assert("LOCALMKTDATE"@.len() != "MULTIPLEVALUESTRING"@.len());
            reveal_strlit("EXCHANGE");
            assert("LOCALMKTDATE"@.len() != "EXCHANGE"@.len());
            reveal_strlit("UTCTIMESTAMP");
            assert("LOCALMKTDATE"@[0] != "UTCTIMESTAMP"@[0]);
            reveal_strlit("BOOLEAN");
            assert("LOCALMKTDATE"@.len() != "BOOLEAN"@.len());
        },
        FieldType::PriceOffset => {
            reveal_strlit("PRICEOFFSET");
            reveal_strlit("CHAR");
            assert("PRICEOFFSET"@.len() != "CHAR"@.len());
            reveal_strlit("INT");
            assert("PRICEOFFSET"@.len() != "INT"@.len());
            reveal_strlit("FLOAT");
            assert("PRICEOFFSET"@.len() != "FLOAT"@.len());
            reveal_strlit("TIME");
            assert("PRICEOFFSET"@.len() != "TIME"@.len());
            reveal_strlit("DATE");
            assert("PRICEOFFSET"@.len() != "DATE"@.len());
            reveal_strlit("LENGTH");
            assert("PRICEOFFSET"@.len() != "LENGTH"@.len());
            reveal_strlit("DATA");
            assert("PRICEOFFSET"@.len() != "DATA"@.len());
            reveal_strlit("MONTHYEAR");
            assert("PRICEOFFSET"@.len() != "MONTHYEAR"@.len());
            reveal_strlit("DAYOFMONTH");
            assert("PRICEOFFSET"@.len() != "DAYOFMONTH"@.len());
            reveal_strlit("STRING");
            assert("PRICEOFFSET"@.len() != "STRING"@.len());
            reveal_strlit("PRICE");
            assert("PRICEOFFSET"@.len() != "PRICE"@.len());
            reveal_strlit("AMT");
            assert("PRICEOFFSET"@.len() != "AMT"@.len());
            reveal_strlit("QTY");
            assert("PRICEOFFSET"@.len() != "QTY"@.len());
            reveal_strlit("CURRENCY");
            assert("PRICEOFFSET"@.len() != "CURRENCY"@.len());
            reveal_strlit("MULTIPLEVALUESTRING");
            assert("PRICEOFFSET"@.len() != "MULTIPLEVALUESTRING"@.len());
            reveal_strlit("EXCHANGE");
            assert("PRICEOFFSET"@.len() != "EXCHANGE"@.len());
            reveal_strlit("UTCTIMESTAMP");
            assert("PRICEOFFSET"@.len() != "UTCTIMESTAMP"@.len());
            reveal_strlit("BOOLEAN");
            assert("PRICEOFFSET"@.len() != "BOOLEAN"@.len());
            reveal_strlit("LOCALMKTDATE");
            assert("PRICEOFFSET"@.len() != "LOCALMKTDATE"@.len());
        },
        FieldType::UtcDate => {
            reveal_strlit("UTCDATE");
            reveal_strlit("CHAR");
            assert("UTCDATE"@.len() != "CHAR"@.len());
            reveal_strlit("INT");
            assert("UTCDATE"@.len() != "INT"@.len());
            reveal_strlit("FLOAT");
            assert("UTCDATE"@.len() != "FLOAT"@.len());
            reveal_strlit("TIME");
            assert("UTCDATE"@.len() != "TIME"@.len());
            reveal_strlit("DATE");
            assert("UTCDATE"@.len() != "DATE"@.len());
            reveal_strlit("LENGTH");
            assert("UTCDATE"@.len() != "LENGTH"@.len());
            reveal_strlit("DATA");
            assert("UTCDATE"@.len() != "DATA"@.len());
            reveal_strlit("MONTHYEAR");
            assert("UTCDATE"@.len() != "MONTHYEAR"@.len());
            reveal_strlit("DAYOFMONTH");
            assert("UTCDATE"@.len() != "DAYOFMONTH"@.len());
            reveal_strlit("STRING");
            assert("UTCDATE"@.len() != "STRING"@.len());
            reveal_strlit("PRICE");
            assert("UTCDATE"@.len() != "PRICE"@.len());
            reveal_strlit("AMT");
            assert("UTCDATE"@.len() != "AMT"@.len());
            reveal_strlit("QTY");
            assert("UTCDATE"@.len() != "QTY"@.len());
            reveal_strlit("CURRENCY");
            assert("UTCDATE"@.len() != "CURRENCY"@.len());
            reveal_strlit("MULTIPLEVALUESTRING");
            assert("UTCDATE"@.len() != "MULTIPLEVALUESTRING"@.len());
            reveal_strlit("EXCHANGE");
            assert("UTCDATE"@.len() != "EXCHANGE"@.len());
            reveal_strlit("UTCTIMESTAMP");
            assert("UTCDATE"@.len() != "UTCTIMESTAMP"@.len());
            reveal_strlit("BOOLEAN");
            assert("UTCDATE"@[0] != "BOOLEAN"@[0]);
            reveal_strlit("LOCALMKTDATE");
            assert("UTCDATE"@.len() != "LOCALMKTDATE"@.len());
            reveal_strlit("PRICEOFFSET");
            assert("UTCDATE"@.len() != "PRICEOFFSET"@.len());
        },
        FieldType::UtcTimeOnly => {
            reveal_strlit("UTCTIMEONLY");
            reveal_strlit("CHAR");
            assert("UTCTIMEONLY"@.len() != "CHAR"@.len());
            reveal_strlit("INT");
            assert("UTCTIMEONLY"@.len() != "INT"@.len());
            reveal_strlit("FLOAT");
            assert("UTCTIMEONLY"@.len() != "FLOAT"@.len());
            reveal_strlit("TIME");
            assert("UTCTIMEONLY"@.len() != "TIME"@.len());
            reveal_strlit("DATE");
            assert("UTCTIMEONLY"@.len() != "DATE"@.len());
            reveal_strlit("LENGTH");
            assert("UTCTIMEONLY"@.len() != "LENGTH"@.len());
            reveal_strlit("DATA");
            assert("UTCTIMEONLY"@.len() != "DATA"@.len());
            reveal_strlit("MONTHYEAR");
            assert("UTCTIMEONLY"@.len() != "MONTHYEAR"@.len());
            reveal_strlit("DAYOFMONTH");
            assert("UTCTIMEONLY"@.len() != "DAYOFMONTH"@.len());
            reveal_strlit("STRING");
            assert("UTCTIMEONLY"@.len() != "STRING"@.len());
            reveal_strlit("PRICE");
            assert("UTCTIMEONLY"@.len() != "PRICE"@.len());
            reveal_strlit("AMT");
            assert("UTCTIMEONLY"@.len() != "AMT"@.len());
            reveal_strlit("QTY");
            assert("UTCTIMEONLY"@.len() != "QTY"@.len());
            reveal_strlit("CURRENCY");
            assert("UTCTIMEONLY"@.len() != "CURRENCY"@.len());
            reveal_strlit("MULTIPLEVALUESTRING");
            assert("UTCTIMEONLY"@.len() != "MULTIPLEVALUESTRING"@.len());
            reveal_strlit("EXCHANGE");
            assert("UTCTIMEONLY"@.len() != "EXCHANGE"@.len());
            reveal_strlit("UTCTIMESTAMP");
            assert("UTCTIMEONLY"@.len() != "UTCTIMESTAMP"@.len());
            reveal_strlit("BOOLEAN");
            assert("UTCTIMEONLY"@.len() != "BOOLEAN"@.len());
            reveal_strlit("LOCALMKTDATE");
            assert("UTCTIMEONLY"@.len() != "LOCALMKTDATE"@.len());
            reveal_strlit("PRICEOFFSET");
            assert("UTCTIMEONLY"@[0] != "PRICEOFFSET"@[0]);
            reveal_strlit("UTCDATE");
            assert("UTCTIMEONLY"@.len() != "UTCDATE"@.len());
        },
        FieldType::SequenceNumber => {
            reveal_strlit("SEQNUM");
            reveal_strlit("CHAR");
            assert("SEQNUM"@.len() != "CHAR"@.len());
            reveal_strlit("INT");
            assert("SEQNUM"@.len() != "INT"@.len());
            reveal_strlit("FLOAT");
            assert("SEQNUM"@.len() != "FLOAT"@.len());
            reveal_strlit("TIME");
            assert("SEQNUM"@.len() != "TIME"@.len());
            reveal_strlit("DATE");
            assert("SEQNUM"@.len() != "DATE"@.len());
            reveal_strlit("LENGTH");
            assert("SEQNUM"@[0] != "LENGTH"@[0]);
            reveal_strlit("DATA");
            assert("SEQNUM"@.len() != "DATA"@.len());
            reveal_strlit("MONTHYEAR");
            assert("SEQNUM"@.len() != "MONTHYEAR"@.len());
            reveal_strlit("DAYOFMONTH");
            assert("SEQNUM"@.len() != "DAYOFMONTH"@.len());
            reveal_strlit("STRING");
            assert("SEQNUM"@[1] != "STRING"@[1]);
            reveal_strlit("PRICE");
            assert("SEQNUM"@.len() != "PRICE"@.len());
            reveal_strlit("AMT");
            assert("SEQNUM"@.len() != "AMT"@.len());
            reveal_strlit("QTY");
            assert("SEQNUM"@.len() != "QTY"@.len());
            reveal_strlit("CURRENCY");
            assert("SEQNUM"@.len() != "CURRENCY"@.len());
            reveal_strlit("MULTIPLEVALUESTRING");
            assert("SEQNUM"@.len() != "MULTIPLEVALUESTRING"@.len());
            reveal_strlit("EXCHANGE");
            assert("SEQNUM"@.len() != "EXCHANGE"@.len());
            reveal_strlit("UTCTIMESTAMP");
            assert("SEQNUM"@.len() != "UTCTIMESTAMP"@.len());
            reveal_strlit("BOOLEAN");
            assert("SEQNUM"@.len() != "BOOLEAN"@.len());
            reveal_strlit("LOCALMKTDATE");
            assert("SEQNUM"@.len() != "LOCALMKTDATE"@.len());
            reveal_strlit("PRICEOFFSET");
            assert("SEQNUM"@.len() != "PRICEOFFSET"@.len());
            reveal_strlit("UTCDATE");
            assert("SEQNUM"@.len() != "UTCDATE"@.len());
            reveal_strlit("UTCTIMEONLY");
            assert("SEQNUM"@.len() != "UTCTIMEONLY"@.len());
        },
        FieldType::NumberInGroup => {
            reveal_strlit("NUMINGROUP");
            reveal_strlit("CHAR");
            assert("NUMINGROUP"@.len() != "CHAR"@.len());
            reveal_strlit("INT");
            assert("NUMINGROUP"@.len() != "INT"@.len());
            reveal_strlit("FLOAT");
            assert("NUMINGROUP"@.len() != "FLOAT"@.len());
            reveal_strlit("TIME");
            assert("NUMINGROUP"@.len() != "TIME"@.len());
            reveal_strlit("DATE");
            assert("NUMINGROUP"@.len() != "DATE"@.len());
            reveal_strlit("LENGTH");
            assert("NUMINGROUP"@.len() != "LENGTH"@.len());
            reveal_strlit("DATA");
            assert("NUMINGROUP"@.len() != "DATA"@.len());
            reveal_strlit("MONTHYEAR");
            assert("NUMINGROUP"@.len() != "MONTHYEAR"@.len());
            reveal_strlit("DAYOFMONTH");
            assert("NUMINGROUP"@[0] != "DAYOFMONTH"@[0]);
            reveal_strlit("STRING");
            assert("NUMINGROUP"@.len() != "STRING"@.len());
            reveal_strlit("PRICE");
            assert("NUMINGROUP"@.len() != "PRICE"@.len());
            reveal_strlit("AMT");
            assert("NUMINGROUP"@.len() != "AMT"@.len());
            reveal_strlit("QTY");
            assert("NUMINGROUP"@.len() != "QTY"@.len());
            reveal_strlit("CURRENCY");
            assert("NUMINGROUP"@.len() != "CURRENCY"@.len());
            reveal_strlit("MULTIPLEVALUESTRING");
            assert("NUMINGROUP"@.len() != "MULTIPLEVALUESTRING"@.len());
            reveal_strlit("EXCHANGE");
            assert("NUMINGROUP"@.len() != "EXCHANGE"@.len());
            reveal_strlit("UTCTIMESTAMP");
            assert("NUMINGROUP"@.len() != "UTCTIMESTAMP"@.len());
            reveal_strlit("BOOLEAN");
            assert("NUMINGROUP"@.len() != "BOOLEAN"@.len());
            reveal_strlit("LOCALMKTDATE");
            assert("NUMINGROUP"@.len() != "LOCALMKTDATE"@.len());
            reveal_strlit("PRICEOFFSET");
            assert("NUMINGROUP"@.len() != "PRICEOFFSET"@.len());
            reveal_strlit("UTCDATE");
            assert("NUMINGROUP"@.len() != "UTCDATE"@.len());
            reveal_strlit("UTCTIMEONLY");
            assert("NUMINGROUP"@.len() != "UTCTIMEONLY"@.len());
            reveal_strlit("SEQNUM");
            assert("NUMINGROUP"@.len() != "SEQNUM"@.len());
        },
        FieldType::Percentage => {
            reveal_strlit("PERCENTAGE");
            reveal_strlit("CHAR");
            assert("PERCENTAGE"@.len() != "CHAR"@.len());
            reveal_strlit("INT");
            assert("PERCENTAGE"@.len() != "INT"@.len());
            reveal_strlit("FLOAT");
            assert("PERCENTAGE"@.len() != "FLOAT"@.len());
            reveal_strlit("TIME");
            assert("PERCENTAGE"@.len() != "TIME"@.len());
            reveal_strlit("DATE");
            assert("PERCENTAGE"@.len() != "DATE"@.len());
            reveal_strlit("LENGTH");
            assert("PERCENTAGE"@.len() != "LENGTH"@.len());
            reveal_strlit("DATA");
            assert("PERCENTAGE"@.len() != "DATA"@.len());
            reveal_strlit("MONTHYEAR");
            assert("PERCENTAGE"@.len() != "MONTHYEAR"@.len());
            reveal_strlit("DAYOFMONTH");
            assert("PERCENTAGE"@[0] != "DAYOFMONTH"@[0]);
            reveal_strlit("STRING");
            assert("PERCENTAGE"@.len() != "STRING"@.len());
            reveal_strlit("PRICE");
            assert("PERCENTAGE"@.len() != "PRICE"@.len());
            reveal_strlit("AMT");
            assert("PERCENTAGE"@.len() != "AMT"@.len());
            reveal_strlit("QTY");
            assert("PERCENTAGE"@.len() != "QTY"@.len());
            reveal_strlit("CURRENCY");
            assert("PERCENTAGE"@.len() != "CURRENCY"@.len());
            reveal_strlit("MULTIPLEVALUESTRING");
            assert("PERCENTAGE"@.len() != "MULTIPLEVALUESTRING"@.len());
            reveal_strlit("EXCHANGE");
            assert("PERCENTAGE"@.len() != "EXCHANGE"@.len());
            reveal_strlit("UTCTIMESTAMP");
            assert("PERCENTAGE"@.len() != "UTCTIMESTAMP"@.len());
            reveal_strlit("BOOLEAN");
            assert("PERCENTAGE"@.len() != "BOOLEAN"@.len());
            reveal_strlit("LOCALMKTDATE");
            assert("PERCENTAGE"@.len() != "LOCALMKTDATE"@.len());
            reveal_strlit("PRICEOFFSET");
            assert("PERCENTAGE"@.len() != "PRICEOFFSET"@.len());
            reveal_strlit("UTCDATE");
            assert("PERCENTAGE"@.len() != "UTCDATE"@.len());
            reveal_strlit("UTCTIMEONLY");
            assert("PERCENTAGE"@.len() != "UTCTIMEONLY"@.len());
            reveal_strlit("SEQNUM");
            assert("PERCENTAGE"@.len() != "SEQNUM"@.len());
            reveal_strlit("NUMINGROUP");
            assert("PERCENTAGE"@[0] != "NUMINGROUP"@[0]);
        },
        FieldType::Country => {
            reveal_strlit("COUNTRY");
            reveal_strlit("CHAR");
            assert("COUNTRY"@.len() != "CHAR"@.len());
            reveal_strlit("INT");
            assert("COUNTRY"@.len() != "INT"@.len());
            reveal_strlit("FLOAT");
            assert("COUNTRY"@.len() != "FLOAT"@.len());
            reveal_strlit("TIME");
            assert("COUNTRY"@.len() != "TIME"@.len());
            reveal_strlit("DATE");
            assert("COUNTRY"@.len() != "DATE"@.len());
            reveal_strlit("LENGTH");
            assert("COUNTRY"@.len() != "LENGTH"@.len());
            reveal_strlit("DATA");
            assert("COUNTRY"@.len() != "DATA"@.len());
            reveal_strlit("MONTHYEAR");
            assert("COUNTRY"@.len() != "MONTHYEAR"@.len());
            reveal_strlit("DAYOFMONTH");
            assert("COUNTRY"@.len() != "DAYOFMONTH"@.len());
            reveal_strlit("STRING");
            assert("COUNTRY"@.len() != "STRING"@.len());
            reveal_strlit("PRICE");
            assert("COUNTRY"@.len() != "PRICE"@.len());
            reveal_strlit("AMT");
            assert("COUNTRY"@.len() != "AMT"@.len());
            reveal_strlit("QTY");
            assert("COUNTRY"@.len() != "QTY"@.len());
            reveal_strlit("CURRENCY");
            assert("COUNTRY"@.len() != "CURRENCY"@.len());
            reveal_strlit("MULTIPLEVALUESTRING");
            assert("COUNTRY"@.len() != "MULTIPLEVALUESTRING"@.len());
            reveal_strlit("EXCHANGE");
            assert("COUNTRY"@.len() != "EXCHANGE"@.len());
            reveal_strlit("UTCTIMESTAMP");
            assert("COUNTRY"@.len() != "UTCTIMESTAMP"@.len());
            reveal_strlit("BOOLEAN");
            assert("COUNTRY"@[0] != "BOOLEAN"@[0]);
            reveal_strlit("LOCALMKTDATE");
            assert("COUNTRY"@.len() != "LOCALMKTDATE"@.len());
            reveal_strlit("PRICEOFFSET");
            assert("COUNTRY"@.len() != "PRICEOFFSET"@.len());
            reveal_strlit("UTCDATE");
            assert("COUNTRY"@[0] != "UTCDATE"@[0]);
            reveal_strlit("UTCTIMEONLY");
            assert("COUNTRY"@.len() != "UTCTIMEONLY"@.len());
            reveal_strlit("SEQNUM");
            assert("COUNTRY"@.len() != "SEQNUM"@.len());
            reveal_strlit("NUMINGROUP");
            assert("COUNTRY"@.len() != "NUMINGROUP"@.len());
            reveal_strlit("PERCENTAGE");
            assert("COUNTRY"@.len() != "PERCENTAGE"@.len());
        },
        FieldType::UtcDateOnly => {
            reveal_strlit("UTCDATEONLY");
            reveal_strlit("CHAR");
            assert("UTCDATEONLY"@.len() != "CHAR"@.len());
            reveal_strlit("INT");
            assert("UTCDATEONLY"@.len() != "INT"@.len());
            reveal_strlit("FLOAT");
            assert("UTCDATEONLY"@.len() != "FLOAT"@.len());
            reveal_strlit("TIME");
            assert("UTCDATEONLY"@.len() != "TIME"@.len());
            reveal_strlit("DATE");
            assert("UTCDATEONLY"@.len() != "DATE"@.len());
            reveal_strlit("LENGTH");
            assert("UTCDATEONLY"@.len() != "LENGTH"@.len());
            reveal_strlit("DATA");
            assert("UTCDATEONLY"@.len() != "DATA"@.len());
            reveal_strlit("MONTHYEAR");
            assert("UTCDATEONLY"@.len() != "MONTHYEAR"@.len());
            reveal_strlit("DAYOFMONTH");
            assert("UTCDATEONLY"@.len() != "DAYOFMONTH"@.len());
            reveal_strlit("STRING");
            assert("UTCDATEONLY"@.len() != "STRING"@.len());
            reveal_strlit("PRICE");
            assert("UTCDATEONLY"@.len() != "PRICE"@.len());
            reveal_strlit("AMT");
            assert("UTCDATEONLY"@.len() != "AMT"@.len());
            reveal_strlit("QTY");
            assert("UTCDATEONLY"@.len() != "QTY"@.len());
            reveal_strlit("CURRENCY");
            assert("UTCDATEONLY"@.len() != "CURRENCY"@.len());
            reveal_strlit("MULTIPLEVALUESTRING");
            assert("UTCDATEONLY"@.len() != "MULTIPLEVALUESTRING"@.len());
            reveal_strlit("EXCHANGE");
            assert("UTCDATEONLY"@.len() != "EXCHANGE"@.len());
            reveal_strlit("UTCTIMESTAMP");
            assert("UTCDATEONLY"@.len() != "UTCTIMESTAMP"@.len());
            reveal_strlit("BOOLEAN");
            assert("UTCDATEONLY"@.len() != "BOOLEAN"@.len());
            reveal_strlit("LOCALMKTDATE");
            assert("UTCDATEONLY"@.len() != "LOCALMKTDATE"@.len());
            reveal_strlit("PRICEOFFSET");
            assert("UTCDATEONLY"@[0] != "PRICEOFFSET"@[0]);
            reveal_strlit("UTCDATE");
            assert("UTCDATEONLY"@.len() != "UTCDATE"@.len());
            reveal_strlit("UTCTIMEONLY");
            assert("UTCDATEONLY"@[3] != "UTCTIMEONLY"@[3]);
            reveal_strlit("SEQNUM");
            assert("UTCDATEONLY"@.len() != "SEQNUM"@.len());
            reveal_strlit("NUMINGROUP");
            assert("UTCDATEONLY"@.len() != "NUMINGROUP"@.len());
            reveal_strlit("PERCENTAGE");
            assert("UTCDATEONLY"@.len() != "PERCENTAGE"@.len());
            reveal_strlit("COUNTRY");
            assert("UTCDATEONLY"@.len() != "COUNTRY"@.len());
        },
        FieldType::MultipleCharValue => {
            reveal_strlit("MULTIPLECHARVALUE");
            reveal_strlit("CHAR");
            assert("MULTIPLECHARVALUE"@.len() != "CHAR"@.len());
            reveal_strlit("INT");
            assert("MULTIPLECHARVALUE"@.len() != "INT"@.len());
            reveal_strlit("FLOAT");
            assert("MULTIPLECHARVALUE"@.len() != "FLOAT"@.len());
            reveal_strlit("TIME");
            assert("MULTIPLECHARVALUE"@.len() != "TIME"@.len());
            reveal_strlit("DATE");
            assert("MULTIPLECHARVALUE"@.len() != "DATE"@.len());
            reveal_strlit("LENGTH");
            assert("MULTIPLECHARVALUE"@.len() != "LENGTH"@.len());
            reveal_strlit("DATA");
            assert("MULTIPLECHARVALUE"@.len() != "DATA"@.len());
            reveal_strlit("MONTHYEAR");
            assert("MULTIPLECHARVALUE"@.len() != "MONTHYEAR"@.len());
            reveal_strlit("DAYOFMONTH");
            assert("MULTIPLECHARVALUE"@.len() != "DAYOFMONTH"@.len());
            reveal_strlit("STRING");
            assert("MULTIPLECHARVALUE"@.len() != "STRING"@.len());
            reveal_strlit("PRICE");
            assert("MULTIPLECHARVALUE"@.len() != "PRICE"@.len());
            reveal_strlit("AMT");
            assert("MULTIPLECHARVALUE"@.len() != "AMT"@.len());
            reveal_strlit("QTY");
            assert("MULTIPLECHARVALUE"@.len() != "QTY"@.len());
            reveal_strlit("CURRENCY");
            assert("MULTIPLECHARVALUE"@.len() != "CURRENCY"@.len());
            reveal_strlit("MULTIPLEVALUESTRING");
            assert("MULTIPLECHARVALUE"@.len() != "MULTIPLEVALUESTRING"@.len());
            reveal_strlit("EXCHANGE");
            assert("MULTIPLECHARVALUE"@.len() != "EXCHANGE"@.len());
            reveal_strlit("UTCTIMESTAMP");
            assert("MULTIPLECHARVALUE"@.len() != "UTCTIMESTAMP"@.len());
            reveal_strlit("BOOLEAN");
            assert("MULTIPLECHARVALUE"@.len() != "BOOLEAN"@.len());
            reveal_strlit("LOCALMKTDATE");
            assert("MULTIPLECHARVALUE"@.len() != "LOCALMKTDATE"@.len());
            reveal_strlit("PRICEOFFSET");
            assert("MULTIPLECHARVALUE"@.len() != "PRICEOFFSET"@.len());
            reveal_strlit("UTCDATE");
            assert("MULTIPLECHARVALUE"@.len() != "UTCDATE"@.len());
            reveal_strlit("UTCTIMEONLY");
            assert("MULTIPLECHARVALUE"@.len() != "UTCTIMEONLY"@.len());
            reveal_strlit("SEQNUM");
            assert("MULTIPLECHARVALUE"@.len() != "SEQNUM"@.len());
            reveal_strlit("NUMINGROUP");
            assert("MULTIPLECHARVALUE"@.len() != "NUMINGROUP"@.len());
            reveal_strlit("PERCENTAGE");
            assert("MULTIPLECHARVALUE"@.len() != "PERCENTAGE"@.len());
            reveal_strlit("COUNTRY");
            assert("MULTIPLECHARVALUE"@.len() != "COUNTRY"@.len());
            reveal_strlit("UTCDATEONLY");
            assert("MULTIPLECHARVALUE"@.len() != "UTCDATEONLY"@.len());
        },
        FieldType::MultipleStringValue => {
            reveal_strlit("MULTIPLESTRINGVALUE");
            reveal_strlit("CHAR");
            assert("MULTIPLESTRINGVALUE"@.len() != "CHAR"@.len());
            reveal_strlit("INT");
            assert("MULTIPLESTRINGVALUE"@.len() != "INT"@.len());
            reveal_strlit("FLOAT");
            assert("MULTIPLESTRINGVALUE"@.len() != "FLOAT"@.len());
            reveal_strlit("TIME");
            assert("MULTIPLESTRINGVALUE"@.len() != "TIME"@.len());
            reveal_strlit("DATE");
            assert("MULTIPLESTRINGVALUE"@.len() != "DATE"@.len());
            reveal_strlit("LENGTH");
            assert("MULTIPLESTRINGVALUE"@.len() != "LENGTH"@.len());
            reveal_strlit("DATA");
            assert("MULTIPLESTRINGVALUE"@.len() != "DATA"@.len());
            reveal_strlit("MONTHYEAR");
            assert("MULTIPLESTRINGVALUE"@.len() != "MONTHYEAR"@.len());
            reveal_strlit("DAYOFMONTH");
            assert("MULTIPLESTRINGVALUE"@.len() != "DAYOFMONTH"@.len());
            reveal_strlit("STRING");
            assert("MULTIPLESTRINGVALUE"@.len() != "STRING"@.len());
            reveal_strlit("PRICE");
            assert("MULTIPLESTRINGVALUE"@.len() != "PRICE"@.len());
            reveal_strlit("AMT");
            assert("MULTIPLESTRINGVALUE"@.len() != "AMT"@.len());
            reveal_strlit("QTY");
            assert("MULTIPLESTRINGVALUE"@.len() != "QTY"@.len());
            reveal_strlit("CURRENCY");
            assert("MULTIPLESTRINGVALUE"@.len() != "CURRENCY"@.len());
            reveal_strlit("MULTIPLEVALUESTRING");
            assert("MULTIPLESTRINGVALUE"@[8] != "MULTIPLEVALUESTRING"@[8]);
            reveal_strlit("EXCHANGE");
            assert("MULTIPLESTRINGVALUE"@.len() != "EXCHANGE"@.len());
            reveal_strlit("UTCTIMESTAMP");
            assert("MULTIPLESTRINGVALUE"@.len() != "UTCTIMESTAMP"@.len());
            reveal_strlit("BOOLEAN");
            assert("MULTIPLESTRINGVALUE"@.len() != "BOOLEAN"@.len());
            reveal_strlit("LOCALMKTDATE");
            assert("MULTIPLESTRINGVALUE"@.len() != "LOCALMKTDATE"@.len());
            reveal_strlit("PRICEOFFSET");
            assert("MULTIPLESTRINGVALUE"@.len() != "PRICEOFFSET"@.len());
            reveal_strlit("UTCDATE");
            assert("MULTIPLESTRINGVALUE"@.len() != "UTCDATE"@.len());
            reveal_strlit("UTCTIMEONLY");
            assert("MULTIPLESTRINGVALUE"@.len() != "UTCTIMEONLY"@.len());
            reveal_strlit("SEQNUM");
            assert("MULTIPLESTRINGVALUE"@.len() != "SEQNUM"@.len());
            reveal_strlit("NUMINGROUP");
            assert("MULTIPLESTRINGVALUE"@.len() != "NUMINGROUP"@.len());
            reveal_strlit("PERCENTAGE");
            assert("MULTIPLESTRINGVALUE"@.len() != "PERCENTAGE"@.len());
            reveal_strlit("COUNTRY");
            assert("MULTIPLESTRINGVALUE"@.len() != "COUNTRY"@.len());
            reveal_strlit("UTCDATEONLY");
            assert("MULTIPLESTRINGVALUE"@.len() != "UTCDATEONLY"@.len());
            reveal_strlit("MULTIPLECHARVALUE");
            assert("MULTIPLESTRINGVALUE"@.len() != "MULTIPLECHARVALUE"@.len());
        },
        FieldType::TzTimeOnly => {
            reveal_strlit("TZTIMEONLY");
            reveal_strlit("CHAR");
            assert("TZTIMEONLY"@.len() != "CHAR"@.len());
            reveal_strlit("INT");
            assert("TZTIMEONLY"@.len() != "INT"@.len());
            reveal_strlit("FLOAT");
            assert("TZTIMEONLY"@.len() != "FLOAT"@.len());
            reveal_strlit("TIME");
            assert("TZTIMEONLY"@.len() != "TIME"@.len());
            reveal_strlit("DATE");
            assert("TZTIMEONLY"@.len() != "DATE"@.len());
            reveal_strlit("LENGTH");
            assert("TZTIMEONLY"@.len() != "LENGTH"@.len());
            reveal_strlit("DATA");
            assert("TZTIMEONLY"@.len() != "DATA"@.len());
            reveal_strlit("MONTHYEAR");
            assert("TZTIMEONLY"@.len() != "MONTHYEAR"@.len());
            reveal_strlit("DAYOFMONTH");
            assert("TZTIMEONLY"@[0] != "DAYOFMONTH"@[0]);
            reveal_strlit("STRING");
            assert("TZTIMEONLY"@.len() != "STRING"@.len());
            reveal_strlit("PRICE");
            assert("TZTIMEONLY"@.len() != "PRICE"@.len());
            reveal_strlit("AMT");
            assert("TZTIMEONLY"@.len() != "AMT"@.len());
            reveal_strlit("QTY");
            assert("TZTIMEONLY"@.len() != "QTY"@.len());
            reveal_strlit("CURRENCY");
            assert("TZTIMEONLY"@.len() != "CURRENCY"@.len());
            reveal_strlit("MULTIPLEVALUESTRING");
            assert("TZTIMEONLY"@.len() != "MULTIPLEVALUESTRING"@.len());
            reveal_strlit("EXCHANGE");
            assert("TZTIMEONLY"@.len() != "EXCHANGE"@.len());
            reveal_strlit("UTCTIMESTAMP");
            assert("TZTIMEONLY"@.len() != "UTCTIMESTAMP"@.len());
            reveal_strlit("BOOLEAN");
            assert("TZTIMEONLY"@.len() != "BOOLEAN"@.len());
            reveal_strlit("LOCALMKTDATE");
            assert("TZTIMEONLY"@.len() != "LOCALMKTDATE"@.len());
            reveal_strlit("PRICEOFFSET");
            assert("TZTIMEONLY"@.len() != "PRICEOFFSET"@.len());
            reveal_strlit("UTCDATE");
            assert("TZTIMEONLY"@.len() != "UTCDATE"@.len());
            reveal_strlit("UTCTIMEONLY");
            assert("TZTIMEONLY"@.len() != "UTCTIMEONLY"@.len());
            reveal_strlit("SEQNUM");
            assert("TZTIMEONLY"@.len() != "SEQNUM"@.len());
            reveal_strlit("NUMINGROUP");
            assert("TZTIMEONLY"@[0] != "NUMINGROUP"@[0]);
            reveal_strlit("PERCENTAGE");
            assert("TZTIMEONLY"@[0] != "PERCENTAGE"@[0]);
            reveal_strlit("COUNTRY");
            assert("TZTIMEONLY"@.len() != "COUNTRY"@.len());
            reveal_strlit("UTCDATEONLY");
            assert("TZTIMEONLY"@.len() != "UTCDATEONLY"@.len());
            reveal_strlit("MULTIPLECHARVALUE");
            assert("TZTIMEONLY"@.len() != "MULTIPLECHARVALUE"@.len());
            reveal_strlit("MULTIPLESTRINGVALUE");
            assert("TZTIMEONLY"@.len() != "MULTIPLESTRINGVALUE"@.len());
        },
        FieldType::TzTimestamp => {
            reveal_strlit("TZTIMESTAMP");
            reveal_strlit("CHAR");
            assert("TZTIMESTAMP"@.len() != "CHAR"@.len());
            reveal_strlit("INT");
            assert("TZTIMESTAMP"@.len() != "INT"@.len());
            reveal_strlit("FLOAT");
            assert("TZTIMESTAMP"@.len() != "FLOAT"@.len());
            reveal_strlit("TIME");
            assert("TZTIMESTAMP"@.len() != "TIME"@.len());
            reveal_strlit("DATE");
            assert("TZTIMESTAMP"@.len() != "DATE"@.len());
            reveal_strlit("LENGTH");
            assert("TZTIMESTAMP"@.len() != "LENGTH"@.len());
            reveal_strlit("DATA");
            assert("TZTIMESTAMP"@.len() != "DATA"@.len());
            reveal_strlit("MONTHYEAR");
            assert("TZTIMESTAMP"@.len() != "MONTHYEAR"@.len());
            reveal_strlit("DAYOFMONTH");
            assert("TZTIMESTAMP"@.len() != "DAYOFMONTH"@.len());
            reveal_strlit("STRING");
            assert("TZTIMESTAMP"@.len() != "STRING"@.len());
            reveal_strlit("PRICE");
            assert("TZTIMESTAMP"@.len() != "PRICE"@.len());
            reveal_strlit("AMT");
            assert("TZTIMESTAMP"@.len() != "AMT"@.len());
            reveal_strlit("QTY");
            assert("TZTIMESTAMP"@.len() != "QTY"@.len());
            reveal_strlit("CURRENCY");
            assert("TZTIMESTAMP"@.len() != "CURRENCY"@.len());
            reveal_strlit("MULTIPLEVALUESTRING");
            assert("TZTIMESTAMP"@.len() != "MULTIPLEVALUESTRING"@.len());
            reveal_strlit("EXCHANGE");
            assert("TZTIMESTAMP"@.len() != "EXCHANGE"@.len());
            reveal_strlit("UTCTIMESTAMP");
            assert("TZTIMESTAMP"@.len() != "UTCTIMESTAMP"@.len());
            reveal_strlit("BOOLEAN");
            assert("TZTIMESTAMP"@.len() != "BOOLEAN"@.len());
            reveal_strlit("LOCALMKTDATE");
            assert("TZTIMESTAMP"@.len() != "LOCALMKTDATE"@.len());
            reveal_strlit("PRICEOFFSET");
            assert("TZTIMESTAMP"@[0] != "PRICEOFFSET"@[0]);
            reveal_strlit("UTCDATE");
            assert("TZTIMESTAMP"@.len() != "UTCDATE"@.len());
            reveal_strlit("UTCTIMEONLY");
            assert("TZTIMESTAMP"@[0] != "UTCTIMEONLY"@[0]);
            reveal_strlit("SEQNUM");
            assert("TZTIMESTAMP"@.len() != "SEQNUM"@.len());
            reveal_strlit("NUMINGROUP");
            assert("TZTIMESTAMP"@.len() != "NUMINGROUP"@.len());
            reveal_strlit("PERCENTAGE");
            assert("TZTIMESTAMP"@.len() != "PERCENTAGE"@.len());
            reveal_strlit("COUNTRY");
            assert("TZTIMESTAMP"@.len() != "COUNTRY"@.len());
            reveal_strlit("UTCDATEONLY");
            assert("TZTIMESTAMP"@[0] != "UTCDATEONLY"@[0]);
            reveal_strlit("MULTIPLECHARVALUE");
            assert("TZTIMESTAMP"@.len() != "MULTIPLECHARVALUE"@.len());
            reveal_strlit("MULTIPLESTRINGVALUE");
            assert("TZTIMESTAMP"@.len() != "MULTIPLESTRINGVALUE"@.len());
            reveal_strlit("TZTIMEONLY");
            assert("TZTIMESTAMP"@.len() != "TZTIMEONLY"@.len());
        },
        FieldType::XmlData => {
            reveal_strlit("XMLDATA");
            reveal_strlit("CHAR");
            assert("XMLDATA"@.len() != "CHAR"@.len());
            reveal_strlit("INT");
            assert("XMLDATA"@.len() != "INT"@.len());
            reveal_strlit("FLOAT");
            assert("XMLDATA"@.len() != "FLOAT"@.len());
            reveal_strlit("TIME");
            assert("XMLDATA"@.len() != "TIME"@.len());
            reveal_strlit("DATE");
            assert("XMLDATA"@.len() != "DATE"@.len());
            reveal_strlit("LENGTH");
            assert("XMLDATA"@.len() != "LENGTH"@.len());
            reveal_strlit("DATA");
            assert("XMLDATA"@.len() != "DATA"@.len());
            reveal_strlit("MONTHYEAR");
            assert("XMLDATA"@.len() != "MONTHYEAR"@.len());
            reveal_strlit("DAYOFMONTH");
            assert("XMLDATA"@.len() != "DAYOFMONTH"@.len());
            reveal_strlit("STRING");
            assert("XMLDATA"@.len() != "STRING"@.len());
            reveal_strlit("PRICE");
            assert("XMLDATA"@.len() != "PRICE"@.len());
            reveal_strlit("AMT");
            assert("XMLDATA"@.len() != "AMT"@.len());
            reveal_strlit("QTY");
            assert("XMLDATA"@.len() != "QTY"@.len());
            reveal_strlit("CURRENCY");
            assert("XMLDATA"@.len() != "CURRENCY"@.len());
            reveal_strlit("MULTIPLEVALUESTRING");
            assert("XMLDATA"@.len() != "MULTIPLEVALUESTRING"@.len());
            reveal_strlit("EXCHANGE");
            assert("XMLDATA"@.len() != "EXCHANGE"@.len());
            reveal_strlit("UTCTIMESTAMP");
            assert("XMLDATA"@.len() != "UTCTIMESTAMP"@.len());
            reveal_strlit("BOOLEAN");
            assert("XMLDATA"@[0] != "BOOLEAN"@[0]);
            reveal_strlit("LOCALMKTDATE");
            assert("XMLDATA"@.len() != "LOCALMKTDATE"@.len());
            reveal_strlit("PRICEOFFSET");
            assert("XMLDATA"@.len() != "PRICEOFFSET"@.len());
            reveal_strlit("UTCDATE");
            assert("XMLDATA"@[0] != "UTCDATE"@[0]);
            reveal_strlit("UTCTIMEONLY");
            assert("XMLDATA"@.len() != "UTCTIMEONLY"@.len());
            reveal_strlit("SEQNUM");
            assert("XMLDATA"@.len() != "SEQNUM"@.len());
            reveal_strlit("NUMINGROUP");
            assert("XMLDATA"@.len() != "NUMINGROUP"@.len());
            reveal_strlit("PERCENTAGE");
            assert("XMLDATA"@.len() != "PERCENTAGE"@.len());
            reveal_strlit("COUNTRY");
            assert("XMLDATA"@[0] != "COUNTRY"@[0]);
            reveal_strlit("UTCDATEONLY");
            assert("XMLDATA"@.len() != "UTCDATEONLY"@.len());
            reveal_strlit("MULTIPLECHARVALUE");
            assert("XMLDATA"@.len() != "MULTIPLECHARVALUE"@.len());
            reveal_strlit("MULTIPLESTRINGVALUE");
            assert("XMLDATA"@.len() != "MULTIPLESTRINGVALUE"@.len());
            reveal_strlit("TZTIMEONLY");
            assert("XMLDATA"@.len() != "TZTIMEONLY"@.len());
            reveal_strlit("TZTIMESTAMP");
            assert("XMLDATA"@.len() != "TZTIMESTAMP"@.len());
        },
        FieldType::Language => {
            reveal_strlit("LANGUAGE");
            reveal_strlit("CHAR");
            assert("LANGUAGE"@.len() != "CHAR"@.len());
            reveal_strlit("INT");
            assert("LANGUAGE"@.len() != "INT"@.len());
            reveal_strlit("FLOAT");
            assert("LANGUAGE"@.len() != "FLOAT"@.len());
            reveal_strlit("TIME");
            assert("LANGUAGE"@.len() != "TIME"@.len());
            reveal_strlit("DATE");
            assert("LANGUAGE"@.len() != "DATE"@.len());
            reveal_strlit("LENGTH");
            assert("LANGUAGE"@.len() != "LENGTH"@.len());
            reveal_strlit("DATA");
            assert("LANGUAGE"@.len() != "DATA"@.len());
            reveal_strlit("MONTHYEAR");
            assert("LANGUAGE"@.len() != "MONTHYEAR"@.len());
            reveal_strlit("DAYOFMONTH");
            assert("LANGUAGE"@.len() != "DAYOFMONTH"@.len());
            reveal_strlit("STRING");
            assert("LANGUAGE"@.len() != "STRING"@.len());
            reveal_strlit("PRICE");
            assert("LANGUAGE"@.len() != "PRICE"@.len());
            reveal_strlit("AMT");
            assert("LANGUAGE"@.len() != "AMT"@.len());
            reveal_strlit("QTY");
            assert("LANGUAGE"@.len() != "QTY"@.len());
            reveal_strlit("CURRENCY");
            assert("LANGUAGE"@[0] != "CURRENCY"@[0]);
            reveal_strlit("MULTIPLEVALUESTRING");
            assert("LANGUAGE"@.len() != "MULTIPLEVALUESTRING"@.len());
            reveal_strlit("EXCHANGE");
            assert("LANGUAGE"@[0] != "EXCHANGE"@[0]);
            reveal_strlit("UTCTIMESTAMP");
            assert("LANGUAGE"@.len() != "UTCTIMESTAMP"@.len());
            reveal_strlit("BOOLEAN");
            assert("LANGUAGE"@.len() != "BOOLEAN"@.len());
            reveal_strlit("LOCALMKTDATE");
            assert("LANGUAGE"@.len() != "LOCALMKTDATE"@.len());
            reveal_strlit("PRICEOFFSET");
            assert("LANGUAGE"@.len() != "PRICEOFFSET"@.len());
            reveal_strlit("UTCDATE");
            assert("LANGUAGE"@.len() != "UTCDATE"@.len());
            reveal_strlit("UTCTIMEONLY");
            assert("LANGUAGE"@.len() != "UTCTIMEONLY"@.len());
            reveal_strlit("SEQNUM");
            assert("LANGUAGE"@.len() != "SEQNUM"@.len());
            reveal_strlit("NUMINGROUP");
            assert("LANGUAGE"@.len() != "NUMINGROUP"@.len());
            reveal_strlit("PERCENTAGE");
            assert("LANGUAGE"@.len() != "PERCENTAGE"@.len());
            reveal_strlit("COUNTRY");
            assert("LANGUAGE"@.len() != "COUNTRY"@.len());
            reveal_strlit("UTCDATEONLY");
            assert("LANGUAGE"@.len() != "UTCDATEONLY"@.len());
            reveal_strlit("MULTIPLECHARVALUE");
            assert("LANGUAGE"@.len() != "MULTIPLECHARVALUE"@.len());
            reveal_strlit("MULTIPLESTRINGVALUE");
            assert("LANGUAGE"@.len() != "MULTIPLESTRINGVALUE"@.len());
            reveal_strlit("TZTIMEONLY");
            assert("LANGUAGE"@.len() != "TZTIMEONLY"@.len());
            reveal_strlit("TZTIMESTAMP");
            assert("LANGUAGE"@.len() != "TZTIMESTAMP"@.len());
            reveal_strlit("XMLDATA");
            assert("LANGUAGE"@.len() != "XMLDATA"@.len());
        },
        FieldType::TagNumber => {
            reveal_strlit("TAGNUM");
            reveal_strlit("CHAR");
            assert("TAGNUM"@.len() != "CHAR"@.len());
            reveal_strlit("INT");
            assert("TAGNUM"@.len() != "INT"@.len());
            reveal_strlit("FLOAT");
            assert("TAGNUM"@.len() != "FLOAT"@.len());
            reveal_strlit("TIME");
            assert("TAGNUM"@.len() != "TIME"@.len());
            reveal_strlit("DATE");
            assert("TAGNUM"@.len() != "DATE"@.len());
            reveal_strlit("LENGTH");
            assert("TAGNUM"@[0] != "LENGTH"@[0]);
            reveal_strlit("DATA");
            assert("TAGNUM"@.len() != "DATA"@.len());
            reveal_strlit("MONTHYEAR");
            assert("TAGNUM"@.len() != "MONTHYEAR"@.len());
            reveal_strlit("DAYOFMONTH");
            assert("TAGNUM"@.len() != "DAYOFMONTH"@.len());
            reveal_strlit("STRING");
            assert("TAGNUM"@[0] != "STRING"@[0]);
            reveal_strlit("PRICE");
            assert("TAGNUM"@.len() != "PRICE"@.len());
            reveal_strlit("AMT");
            assert("TAGNUM"@.len() != "AMT"@.len());
            reveal_strlit("QTY");
            assert("TAGNUM"@.len() != "QTY"@.len());
            reveal_strlit("CURRENCY");
            assert("TAGNUM"@.len() != "CURRENCY"@.len());
            reveal_strlit("MULTIPLEVALUESTRING");
            assert("TAGNUM"@.len() != "MULTIPLEVALUESTRING"@.len());
            reveal_strlit("EXCHANGE");
            assert("TAGNUM"@.len() != "EXCHANGE"@.len());
            reveal_strlit("UTCTIMESTAMP");
            assert("TAGNUM"@.len() != "UTCTIMESTAMP"@.len());
            reveal_strlit("BOOLEAN");
            assert("TAGNUM"@.len() != "BOOLEAN"@.len());
            reveal_strlit("LOCALMKTDATE");
            assert("TAGNUM"@.len() != "LOCALMKTDATE"@.len());
            reveal_strlit("PRICEOFFSET");
            assert("TAGNUM"@.len() != "PRICEOFFSET"@.len());
            reveal_strlit("UTCDATE");
            assert("TAGNUM"@.len() != "UTCDATE"@.len());
            reveal_strlit("UTCTIMEONLY");
            assert("TAGNUM"@.len() != "UTCTIMEONLY"@.len());
            reveal_strlit("SEQNUM");
            assert("TAGNUM"@[0] != "SEQNUM"@[0]);
            reveal_strlit("NUMINGROUP");
            assert("TAGNUM"@.len() != "NUMINGROUP"@.len());
            reveal_strlit("PERCENTAGE");
            assert("TAGNUM"@.len() != "PERCENTAGE"@.len());
            reveal_strlit("COUNTRY");
            assert("TAGNUM"@.len() != "COUNTRY"@.len());
            reveal_strlit("UTCDATEONLY");
            assert("TAGNUM"@.len() != "UTCDATEONLY"@.len());
            reveal_strlit("MULTIPLECHARVALUE");
            assert("TAGNUM"@.len() != "MULTIPLECHARVALUE"@.len());
            reveal_strlit("MULTIPLESTRINGVALUE");
            assert("TAGNUM"@.len() != "MULTIPLESTRINGVALUE"@.len());
            reveal_strlit("TZTIMEONLY");
            assert("TAGNUM"@.len() != "TZTIMEONLY"@.len());
            reveal_strlit("TZTIMESTAMP");
            assert("TAGNUM"@.len() != "TZTIMESTAMP"@.len());
            reveal_strlit("XMLDATA");
            assert("TAGNUM"@.len() != "XMLDATA"@.len());
            reveal_strlit("LANGUAGE");
            assert("TAGNUM"@.len() != "LANGUAGE"@.len());
        },
        FieldType::XidRef => {
            reveal_strlit("XIDREF");
            reveal_strlit("CHAR");
            assert("XIDREF"@.len() != "CHAR"@.len());
            reveal_strlit("INT");
            assert("XIDREF"@.len() != "INT"@.len());
            reveal_strlit("FLOAT");
            assert("XIDREF"@.len() != "FLOAT"@.len());
            reveal_strlit("TIME");
            assert("XIDREF"@.len() != "TIME"@.len());
            reveal_strlit("DATE");
            assert("XIDREF"@.len() != "DATE"@.len());
            reveal_strlit("LENGTH");
            assert("XIDREF"@[0] != "LENGTH"@[0]);
            reveal_strlit("DATA");
            assert("XIDREF"@.len() != "DATA"@.len());
            reveal_strlit("MONTHYEAR");
            assert("XIDREF"@.len() != "MONTHYEAR"@.len());
            reveal_strlit("DAYOFMONTH");
            assert("XIDREF"@.len() != "DAYOFMONTH"@.len());
            reveal_strlit("STRING");
            assert("XIDREF"@[0] != "STRING"@[0]);
            reveal_strlit("PRICE");
            assert("XIDREF"@.len() != "PRICE"@.len());
            reveal_strlit("AMT");
            assert("XIDREF"@.len() != "AMT"@.len());
            reveal_strlit("QTY");
            assert("XIDREF"@.len() != "QTY"@.len());
            reveal_strlit("CURRENCY");
            assert("XIDREF"@.len() != "CURRENCY"@.len());
            reveal_strlit("MULTIPLEVALUESTRING");
            assert("XIDREF"@.len() != "MULTIPLEVALUESTRING"@.len());
            reveal_strlit("EXCHANGE");
            assert("XIDREF"@.len() != "EXCHANGE"@.len());
            reveal_strlit("UTCTIMESTAMP");
            assert("XIDREF"@.len() != "UTCTIMESTAMP"@.len());
            reveal_strlit("BOOLEAN");
            assert("XIDREF"@.len() != "BOOLEAN"@.len());
            reveal_strlit("LOCALMKTDATE");
            assert("XIDREF"@.len() != "LOCALMKTDATE"@.len());
            reveal_strlit("PRICEOFFSET");
            assert("XIDREF"@.len() != "PRICEOFFSET"@.len());
            reveal_strlit("UTCDATE");
            assert("XIDREF"@.len() != "UTCDATE"@.len());
            reveal_strlit("UTCTIMEONLY");
            assert("XIDREF"@.len() != "UTCTIMEONLY"@.len());
            reveal_strlit("SEQNUM");
            assert("XIDREF"@[0] != "SEQNUM"@[0]);
            reveal_strlit("NUMINGROUP");
            assert("XIDREF"@.len() != "NUMINGROUP"@.len());
            reveal_strlit("PERCENTAGE");
            assert("XIDREF"@.len() != "PERCENTAGE"@.len());
            reveal_strlit("COUNTRY");
            assert("XIDREF"@.len() != "COUNTRY"@.len());
            reveal_strlit("UTCDATEONLY");
            assert("XIDREF"@.len() != "UTCDATEONLY"@.len());
            reveal_strlit("MULTIPLECHARVALUE");
            assert("XIDREF"@.len() != "MULTIPLECHARVALUE"@.len());
            reveal_strlit("MULTIPLESTRINGVALUE");
            assert("XIDREF"@.len() != "MULTIPLESTRINGVALUE"@.len());
            reveal_strlit("TZTIMEONLY");
            assert("XIDREF"@.len() != "TZTIMEONLY"@.len());
            reveal_strlit("TZTIMESTAMP");
            assert("XIDREF"@.len() != "TZTIMESTAMP"@.len());
            reveal_strlit("XMLDATA");
            assert("XIDREF"@.len() != "XMLDATA"@.len());
            reveal_strlit("LANGUAGE");
            assert("XIDREF"@.len() != "LANGUAGE"@.len());
            reveal_strlit("TAGNUM");
            assert("XIDREF"@[0] != "TAGNUM"@[0]);
        },
        FieldType::Xid => {
            reveal_strlit("XID");
            reveal_strlit("CHAR");
            assert("XID"@.len() != "CHAR"@.len());
            reveal_strlit("INT");
            assert("XID"@[0] != "INT"@[0]);
            reveal_strlit("FLOAT");
            assert("XID"@.len() != "FLOAT"@.len());
            reveal_strlit("TIME");
            assert("XID"@.len() != "TIME"@.len());
            reveal_strlit("DATE");
            assert("XID"@.len() != "DATE"@.len());
            reveal_strlit("LENGTH");
            assert("XID"@.len() != "LENGTH"@.len());
            reveal_strlit("DATA");
            assert("XID"@.len() != "DATA"@.len());
            reveal_strlit("MONTHYEAR");
            assert("XID"@.len() != "MONTHYEAR"@.len());
            reveal_strlit("DAYOFMONTH");
            assert("XID"@.len() != "DAYOFMONTH"@.len());
            reveal_strlit("STRING");
            assert("XID"@.len() != "STRING"@.len());
            reveal_strlit("PRICE");
            assert("XID"@.len() != "PRICE"@.len());
            reveal_strlit("AMT");
            assert("XID"@[0] != "AMT"@[0]);
            reveal_strlit("QTY");
            assert("XID"@[0] != "QTY"@[0]);
            reveal_strlit("CURRENCY");
            assert("XID"@.len() != "CURRENCY"@.len());
            reveal_strlit("MULTIPLEVALUESTRING");
            assert("XID"@.len() != "MULTIPLEVALUESTRING"@.len());
            reveal_strlit("EXCHANGE");
            assert("XID"@.len() != "EXCHANGE"@.len());
            reveal_strlit("UTCTIMESTAMP");
            assert("XID"@.len() != "UTCTIMESTAMP"@.len());
            reveal_strlit("BOOLEAN");
            assert("XID"@.len() != "BOOLEAN"@.len());
            reveal_strlit("LOCALMKTDATE");
            assert("XID"@.len() != "LOCALMKTDATE"@.len());
            reveal_strlit("PRICEOFFSET");
            assert("XID"@.len() != "PRICEOFFSET"@.len());
            reveal_strlit("UTCDATE");
            assert("XID"@.len() != "UTCDATE"@.len());
            reveal_strlit("UTCTIMEONLY");
            assert("XID"@.len() != "UTCTIMEONLY"@.len());
            reveal_strlit("SEQNUM");
            assert("XID"@.len() != "SEQNUM"@.len());
            reveal_strlit("NUMINGROUP");
            assert("XID"@.len() != "NUMINGROUP"@.len());
            reveal_strlit("PERCENTAGE");
            assert("XID"@.len() != "PERCENTAGE"@.len());
            reveal_strlit("COUNTRY");
            assert("XID"@.len() != "COUNTRY"@.len());
            reveal_strlit("UTCDATEONLY");
            assert("XID"@.len() != "UTCDATEONLY"@.len());
            reveal_strlit("MULTIPLECHARVALUE");
            assert("XID"@.len() != "MULTIPLECHARVALUE"@.len());
            reveal_strlit("MULTIPLESTRINGVALUE");
            assert("XID"@.len() != "MULTIPLESTRINGVALUE"@.len());
            reveal_strlit("TZTIMEONLY");
            assert("XID"@.len() != "TZTIMEONLY"@.len());
            reveal_strlit("TZTIMESTAMP");
            assert("XID"@.len() != "TZTIMESTAMP"@.len());
            reveal_strlit("XMLDATA");
            assert("XID"@.len() != "XMLDATA"@.len());
            reveal_strlit("LANGUAGE");
            assert("XID"@.len() != "LANGUAGE"@.len());
            reveal_strlit("TAGNUM");
            assert("XID"@.len() != "TAGNUM"@.len());
            reveal_strlit("XIDREF");
            assert("XID"@.len() != "XIDREF"@.len());
        },
        FieldType::LocalMarketTime => {
            reveal_strlit("LOCALMKTTIME");
            reveal_strlit("CHAR");
            assert("LOCALMKTTIME"@.len() != "CHAR"@.len());
            reveal_strlit("INT");
            assert("LOCALMKTTIME"@.len() != "INT"@.len());
            reveal_strlit("FLOAT");
            assert("LOCALMKTTIME"@.len() != "FLOAT"@.len());
            reveal_strlit("TIME");
            assert("LOCALMKTTIME"@.len() != "TIME"@.len());
            reveal_strlit("DATE");
            assert("LOCALMKTTIME"@.len() != "DATE"@.len());
            reveal_strlit("LENGTH");
            assert("LOCALMKTTIME"@.len() != "LENGTH"@.len());
            reveal_strlit("DATA");
            assert("LOCALMKTTIME"@.len() != "DATA"@.len());
            reveal_strlit("MONTHYEAR");
            assert("LOCALMKTTIME"@.len() != "MONTHYEAR"@.len());
            reveal_strlit("DAYOFMONTH");
            assert("LOCALMKTTIME"@.len() != "DAYOFMONTH"@.len());
            reveal_strlit("STRING");
            assert("LOCALMKTTIME"@.len() != "STRING"@.len());
            reveal_strlit("PRICE");
            assert("LOCALMKTTIME"@.len() != "PRICE"@.len());
            reveal_strlit("AMT");
            assert("LOCALMKTTIME"@.len() != "AMT"@.len());
            reveal_strlit("QTY");
            assert("LOCALMKTTIME"@.len() != "QTY"@.len());
            reveal_strlit("CURRENCY");
            assert("LOCALMKTTIME"@.len() != "CURRENCY"@.len());
            reveal_strlit("MULTIPLEVALUESTRING");
            assert("LOCALMKTTIME"@.len() != "MULTIPLEVALUESTRING"@.len());
            reveal_strlit("EXCHANGE");
            assert("LOCALMKTTIME"@.len() != "EXCHANGE"@.len());
            reveal_strlit("UTCTIMESTAMP");
            assert("LOCALMKTTIME"@[0] != "UTCTIMESTAMP"@[0]);
            reveal_strlit("BOOLEAN");
            assert("LOCALMKTTIME"@.len() != "BOOLEAN"@.len());
            reveal_strlit("LOCALMKTDATE");
            assert("LOCALMKTTIME"@[8] != "LOCALMKTDATE"@[8]);
            reveal_strlit("PRICEOFFSET");
            assert("LOCALMKTTIME"@.len() != "PRICEOFFSET"@.len());
            reveal_strlit("UTCDATE");
            assert("LOCALMKTTIME"@.len() != "UTCDATE"@.len());
            reveal_strlit("UTCTIMEONLY");
            assert("LOCALMKTTIME"@.len() != "UTCTIMEONLY"@.len());
            reveal_strlit("SEQNUM");
            assert("LOCALMKTTIME"@.len() != "SEQNUM"@.len());
            reveal_strlit("NUMINGROUP");
            assert("LOCALMKTTIME"@.len() != "NUMINGROUP"@.len());
            reveal_strlit("PERCENTAGE");
            assert("LOCALMKTTIME"@.len() != "PERCENTAGE"@.len());
            reveal_strlit("COUNTRY");
            assert("LOCALMKTTIME"@.len() != "COUNTRY"@.len());
            reveal_strlit("UTCDATEONLY");
            assert("LOCALMKTTIME"@.len() != "UTCDATEONLY"@.len());
            reveal_strlit("MULTIPLECHARVALUE");
            assert("LOCALMKTTIME"@.len() != "MULTIPLECHARVALUE"@.len());
            reveal_strlit("MULTIPLESTRINGVALUE");
            assert("LOCALMKTTIME"@.len() != "MULTIPLESTRINGVALUE"@.len());
            reveal_strlit("TZTIMEONLY");
            assert("LOCALMKTTIME"@.len() != "TZTIMEONLY"@.len());
            reveal_strlit("TZTIMESTAMP");
            assert("LOCALMKTTIME"@.len() != "TZTIMESTAMP"@.len());
            reveal_strlit("XMLDATA");
            assert("LOCALMKTTIME"@.len() != "XMLDATA"@.len());
            reveal_strlit("LANGUAGE");
            assert("LOCALMKTTIME"@.len() != "LANGUAGE"@.len());
            reveal_strlit("TAGNUM");
            assert("LOCALMKTTIME"@.len() != "TAGNUM"@.len());
            reveal_strlit("XIDREF");
            assert("LOCALMKTTIME"@.len() != "XIDREF"@.len());
            reveal_strlit("XID");
            assert("LOCALMKTTIME"@.len() != "XID"@.len());
        },
    }
}

/// Where a message goes.
#[derive(Debug, Clone, Copy, PartialEq, Eq)]
pub enum MessageCategory {
    /// Message is targeting application level.
    App,
    /// Message is related to protocol / admin / technical task.
    Admin,
}

/// The dictionary name of a message category.
pub open spec fn message_category_name(c: MessageCategory) -> Seq<char> {
    match c {
        MessageCategory::App => "app"@,
        MessageCategory::Admin => "admin"@,
    }
}

/// The message category that a dictionary name stands for.
pub open spec fn message_category_from_name(s: Seq<char>) -> Option<MessageCategory> {
    if s == "admin"@ {
        Some(MessageCategory::Admin)
    } else if s == "app"@ {
        Some(MessageCategory::App)
    } else {
        None
    }
}

impl MessageCategory {
    /// The dictionary name of the category.
    pub fn as_static_str(&self) -> (r: &'static str)
        ensures
            r@ == message_category_name(*self),
    {
        match self {
            MessageCategory::App => "app",
            MessageCategory::Admin => "admin",
        }
    }
}

/// Reads a message category from its dictionary name.
pub fn parse_message_category(input: &str) -> (r: Result<MessageCategory, FixSpecError>)
    ensures
        match message_category_from_name(input@) {
            Some(c) => r == Ok::<MessageCategory, FixSpecError>(c),
            None => r is Err && r->Err_0@ == FixSpecErrorView::InvalidContent(
                "invalid msgcat: "@ + input@,
            ),
        },
{
    if text_eq(input, "admin") {
        return Ok(MessageCategory::Admin);
    }
    if text_eq(input, "app") {
        return Ok(MessageCategory::App);
    }
    let mut msg = String::new();
    push_str(&mut msg, "invalid msgcat: ");
    push_str(&mut msg, input);
    Err(FixSpecError::InvalidContent(msg))
}

impl std::str::FromStr for MessageCategory {
    type Err = FixSpecError;

    fn from_str(input: &str) -> (r: Result<Self, Self::Err>)
        ensures
            match message_category_from_name(input@) {
                Some(c) => r == Ok::<MessageCategory, FixSpecError>(c),
                None => r is Err && r->Err_0@ == FixSpecErrorView::InvalidContent(
                    "invalid msgcat: "@ + input@,
                ),
            },
    {
        parse_message_category(input)
    }
}

/// Reading back the name of a message category gives the category.
pub proof fn message_category_name_round_trip(c: MessageCategory)
    ensures
        message_category_from_name(message_category_name(c)) == Some(c),
{
    reveal_strlit("admin");
    reveal_strlit("app");
    assert("app"@.len() != "admin"@.len());
}

/// The dictionary name of each field type, and the type each name is read as:
/// `CHAR`, `INT`, `FLOAT`, ... `AMT` for an amount and `QTY` for a quantity,
/// `SEQNUM` for a sequence number, `NUMINGROUP` for a group count, and so on.
pub proof fn field_type_names()
    ensures
        field_type_name(FieldType::Char) == "CHAR"@ && field_type_from_name("CHAR"@) == Some(FieldType::Char),
        field_type_name(FieldType::Int) == "INT"@ && field_type_from_name("INT"@) == Some(FieldType::Int),
        field_type_name(FieldType::Float) == "FLOAT"@ && field_type_from_name("FLOAT"@) == Some(FieldType::Float),
        field_type_name(FieldType::Time) == "TIME"@ && field_type_from_name("TIME"@) == Some(FieldType::Time),
        field_type_name(FieldType::Date) == "DATE"@ && field_type_from_name("DATE"@) == Some(FieldType::Date),
        field_type_name(FieldType::Length) == "LENGTH"@ && field_type_from_name("LENGTH"@) == Some(FieldType::Length),
        field_type_name(FieldType::Data) == "DATA"@ && field_type_from_name("DATA"@) == Some(FieldType::Data),
        field_type_name(FieldType::MonthYear) == "MONTHYEAR"@ && field_type_from_name("MONTHYEAR"@) == Some(FieldType::MonthYear),
        field_type_name(FieldType::DayOfMonth) == "DAYOFMONTH"@ && field_type_from_name("DAYOFMONTH"@) == Some(FieldType::DayOfMonth),
        field_type_name(FieldType::String) == "STRING"@ && field_type_from_name("STRING"@) == Some(FieldType::String),
        field_type_name(FieldType::Price) == "PRICE"@ && field_type_from_name("PRICE"@) == Some(FieldType::Price),
        field_type_name(FieldType::Amount) == "AMT"@ && field_type_from_name("AMT"@) == Some(FieldType::Amount),
        field_type_name(FieldType::Quantity) == "QTY"@ && field_type_from_name("QTY"@) == Some(FieldType::Quantity),
        field_type_name(FieldType::Currency) == "CURRENCY"@ && field_type_from_name("CURRENCY"@) == Some(FieldType::Currency),
        field_type_name(FieldType::MultipleValueString) == "MULTIPLEVALUESTRING"@ && field_type_from_name("MULTIPLEVALUESTRING"@) == Some(FieldType::MultipleValueString),
        field_type_name(FieldType::Exchange) == "EXCHANGE"@ && field_type_from_name("EXCHANGE"@) == Some(FieldType::Exchange),
        field_type_name(FieldType::UtcTimeStamp) == "UTCTIMESTAMP"@ && field_type_from_name("UTCTIMESTAMP"@) == Some(FieldType::UtcTimeStamp),
        field_type_name(FieldType::Boolean) == "BOOLEAN"@ && field_type_from_name("BOOLEAN"@) == Some(FieldType::Boolean),
        field_type_name(FieldType::LocalMarketDate) == "LOCALMKTDATE"@ && field_type_from_name("LOCALMKTDATE"@) == Some(FieldType::LocalMarketDate),
        field_type_name(FieldType::PriceOffset) == "PRICEOFFSET"@ && field_type_from_name("PRICEOFFSET"@) == Some(FieldType::PriceOffset),
        field_type_name(FieldType::UtcDate) == "UTCDATE"@ && field_type_from_name("UTCDATE"@) == Some(FieldType::UtcDate),
        field_type_name(FieldType::UtcTimeOnly) == "UTCTIMEONLY"@ && field_type_from_name("UTCTIMEONLY"@) == Some(FieldType::UtcTimeOnly),
        field_type_name(FieldType::SequenceNumber) == "SEQNUM"@ && field_type_from_name("SEQNUM"@) == Some(FieldType::SequenceNumber),
        field_type_name(FieldType::NumberInGroup) == "NUMINGROUP"@ && field_type_from_name("NUMINGROUP"@) == Some(FieldType::NumberInGroup),
        field_type_name(FieldType::Percentage) == "PERCENTAGE"@ && field_type_from_name("PERCENTAGE"@) == Some(FieldType::Percentage),
        field_type_name(FieldType::Country) == "COUNTRY"@ && field_type_from_name("COUNTRY"@) == Some(FieldType::Country),
        field_type_name(FieldType::UtcDateOnly) == "UTCDATEONLY"@ && field_type_from_name("UTCDATEONLY"@) == Some(FieldType::UtcDateOnly),
        field_type_name(FieldType::MultipleCharValue) == "MULTIPLECHARVALUE"@ && field_type_from_name("MULTIPLECHARVALUE"@) == Some(FieldType::MultipleCharValue),
        field_type_name(FieldType::MultipleStringValue) == "MULTIPLESTRINGVALUE"@ && field_type_from_name("MULTIPLESTRINGVALUE"@) == Some(FieldType::MultipleStringValue),
        field_type_name(FieldType::TzTimeOnly) == "TZTIMEONLY"@ && field_type_from_name("TZTIMEONLY"@) == Some(FieldType::TzTimeOnly),
        field_type_name(FieldType::TzTimestamp) == "TZTIMESTAMP"@ && field_type_from_name("TZTIMESTAMP"@) == Some(FieldType::TzTimestamp),
        field_type_name(FieldType::XmlData) == "XMLDATA"@ && field_type_from_name("XMLDATA"@) == Some(FieldType::XmlData),
        field_type_name(FieldType::Language) == "LANGUAGE"@ && field_type_from_name("LANGUAGE"@) == Some(FieldType::Language),
        field_type_name(FieldType::TagNumber) == "TAGNUM"@ && field_type_from_name("TAGNUM"@) == Some(FieldType::TagNumber),
        field_type_name(FieldType::XidRef) == "XIDREF"@ && field_type_from_name("XIDREF"@) == Some(FieldType::XidRef),
        field_type_name(FieldType::Xid) == "XID"@ && field_type_from_name("XID"@) == Some(FieldType::Xid),
        field_type_name(FieldType::LocalMarketTime) == "LOCALMKTTIME"@ && field_type_from_name("LOCALMKTTIME"@) == Some(FieldType::LocalMarketTime),
{
    field_type_name_round_trip(FieldType::Char);
    field_type_name_round_trip(FieldType::Int);
    field_type_name_round_trip(FieldType::Float);
    field_type_name_round_trip(FieldType::Time);
    field_type_name_round_trip(FieldType::Date);
    field_type_name_round_trip(FieldType::Length);
    field_type_name_round_trip(FieldType::Data);
    field_type_name_round_trip(FieldType::MonthYear);
    field_type_name_round_trip(FieldType::DayOfMonth);
    field_type_name_round_trip(FieldType::String);
    field_type_name_round_trip(FieldType::Price);
    field_type_name_round_trip(FieldType::Amount);
    field_type_name_round_trip(FieldType::Quantity);
    field_type_name_round_trip(FieldType::Currency);
    field_type_name_round_trip(FieldType::MultipleValueString);
    field_type_name_round_trip(FieldType::Exchange);
    field_type_name_round_trip(FieldType::UtcTimeStamp);
    field_type_name_round_trip(FieldType::Boolean);
    field_type_name_round_trip(FieldType::LocalMarketDate);
    field_type_name_round_trip(FieldType::PriceOffset);
    field_type_name_round_trip(FieldType::UtcDate);
    field_type_name_round_trip(FieldType::UtcTimeOnly);
    field_type_name_round_trip(FieldType::SequenceNumber);
    field_type_name_round_trip(FieldType::NumberInGroup);
    field_type_name_round_trip(FieldType::Percentage);
    field_type_name_round_trip(FieldType::Country);
    field_type_name_round_trip(FieldType::UtcDateOnly);
    field_type_name_round_trip(FieldType::MultipleCharValue);
    field_type_name_round_trip(FieldType::MultipleStringValue);
    field_type_name_round_trip(FieldType::TzTimeOnly);
    field_type_name_round_trip(FieldType::TzTimestamp);
    field_type_name_round_trip(FieldType::XmlData);
    field_type_name_round_trip(FieldType::Language);
    field_type_name_round_trip(FieldType::TagNumber);
    field_type_name_round_trip(FieldType::XidRef);
    field_type_name_round_trip(FieldType::Xid);
    field_type_name_round_trip(FieldType::LocalMarketTime);
}

/// The dictionary name of each message category, and the category each name is
/// read as: `app` for application messages, `admin` for session messages.
pub proof fn message_category_names()
    ensures
        message_category_name(MessageCategory::App) == "app"@ && message_category_from_name("app"@) == Some(
            MessageCategory::App,
        ),
        message_category_name(MessageCategory::Admin) == "admin"@ && message_category_from_name("admin"@) == Some(
            MessageCategory::Admin,
        ),
{
    message_category_name_round_trip(MessageCategory::App);
    message_category_name_round_trip(MessageCategory::Admin);
}

/// A reference to a shared component inside a message, a group or a component.
#[derive(Debug, Clone)]
pub struct Component {
    /// Name of the referenced component.
    pub name: String,
    /// Whether the component must be present.
    pub required: bool,
}

/// A shared component definition (`<components><component>`).
#[derive(Debug)]
pub struct ComponentSpec {
    /// Component name.
    pub name: String,
    /// Component content.
    pub values: Vec<FieldValue>,
}

/// A reference to a field inside a message, a group or a component.
#[derive(Debug, Clone)]
pub struct Field {
    /// Name of the referenced field.
    pub name: String,
    /// Whether the field must be present.
    pub required: bool,
}

/// One of the values that a field may take, with its description.
#[derive(Debug, Clone)]
pub struct FieldAllowedValue {
    /// Associated value.
    pub value: String,
    /// Associated description / name.
    pub description: String,
}

/// A field definition (`<fields><field>`).
#[derive(Debug, Clone)]
pub struct FieldSpec {
    /// FIX technical tag number.
    pub number: u32,
    /// FIX dictionary tag name.
    pub name: String,
    /// Value type.
    pub field_type: FieldType,
    /// Possible values in case there is a restricted list.
    pub values: Vec<FieldAllowedValue>,
}

/// What a message, a group or a component is made of.
#[derive(Debug)]
pub enum FieldValue {
    /// Sub component is a field.
    Field(Field),
    /// Sub component is a group.
    Group(Group),
    /// Sub component is a factorized component.
    Component(Component),
}

/// A repeating group inside a message, a group or a component.
#[derive(Debug)]
pub struct Group {
    /// Name of the group counter field.
    pub name: String,
    /// Whether the group must be present.
    pub required: bool,
    /// Group content; the first field is the delimiter.
    pub values: Vec<FieldValue>,
}

/// A message definition (`<messages><message>`).
#[derive(Debug)]
pub struct Message {
    /// Message name.
    pub name: String,
    /// `msgtype`.
    pub msg_type: String,
    /// Category level.
    pub category: MessageCategory,
    /// Possible sub-components.
    pub values: Vec<FieldValue>,
}

/// A whole FIX XML dictionary.
#[derive(Debug)]
pub struct FixSpec {
    /// FIX version number.
    pub version: (u8, u8, u8),
    /// Is FIXT ?
    pub is_fixt: bool,
    /// Message shared headers.
    pub headers: Vec<FieldValue>,
    /// Known FIX messages.
    pub messages: Vec<Message>,
    /// Message shared trailers.
    pub trailers: Vec<FieldValue>,
    /// Factorized components specs.
    pub component_specs: Vec<ComponentSpec>,
    /// Regular fields specs.
    pub field_specs: Vec<FieldSpec>,
}

// ---------------------------------------------------------------------------
// What a specification holds, as plain values
// ---------------------------------------------------------------------------

/// A field, group or component reference, as plain values.
pub enum FieldValueModel {
    Field(Seq<char>, bool),
    Group(Seq<char>, bool, Seq<FieldValueModel>),
    Component(Seq<char>, bool),
}

/// A field definition, as plain values; its allowed values are (value,
/// description) pairs.
pub struct FieldSpecModel {
    pub number: u32,
    pub name: Seq<char>,
    pub field_type: FieldType,
    pub values: Seq<(Seq<char>, Seq<char>)>,
}

/// A message definition, as plain values.
pub struct MessageSpecModel {
    pub name: Seq<char>,
    pub msg_type: Seq<char>,
    pub category: MessageCategory,
    pub values: Seq<FieldValueModel>,
}

/// A component definition, as plain values.
pub struct ComponentSpecModel {
    pub name: Seq<char>,
    pub values: Seq<FieldValueModel>,
}

/// A whole specification, as plain values.
pub struct FixSpecModel {
    pub version: (u8, u8, u8),
    pub is_fixt: bool,
    pub headers: Seq<FieldValueModel>,
    pub messages: Seq<MessageSpecModel>,
    pub trailers: Seq<FieldValueModel>,
    pub component_specs: Seq<ComponentSpecModel>,
    pub field_specs: Seq<FieldSpecModel>,
}

/// The plain value of a field value, nested groups included.
pub open spec fn field_value_model(v: FieldValue) -> FieldValueModel
    decreases v,
{
    match v {
        FieldValue::Field(f) => FieldValueModel::Field(f.name@, f.required),
        FieldValue::Group(g) => FieldValueModel::Group(
            g.name@,
            g.required,
            Seq::new(
                g.values@.len(),
                |i: int|
                    if 0 <= i < g.values@.len() {
                        field_value_model(g.values@[i])
                    } else {
                        arbitrary()
                    },
            ),
        ),
        FieldValue::Component(c) => FieldValueModel::Component(c.name@, c.required),
    }
}

/// The plain values of a list of field values.
pub open spec fn field_values_model(v: Seq<FieldValue>) -> Seq<FieldValueModel> {
    Seq::new(v.len(), |i: int| field_value_model(v[i]))
}

/// The plain value of an allowed value.
pub open spec fn allowed_value_model(v: FieldAllowedValue) -> (Seq<char>, Seq<char>) {
    (v.value@, v.description@)
}

/// The plain value of a field definition.
pub open spec fn field_spec_model(f: FieldSpec) -> FieldSpecModel {
    FieldSpecModel {
        number: f.number,
        name: f.name@,
        field_type: f.field_type,
        values: f.values@.map_values(|v: FieldAllowedValue| allowed_value_model(v)),
    }
}

/// The plain value of a message definition.
pub open spec fn message_spec_model(m: Message) -> MessageSpecModel {
    MessageSpecModel {
        name: m.name@,
        msg_type: m.msg_type@,
        category: m.category,
        values: field_values_model(m.values@),
    }
}

/// The plain value of a component definition.
pub open spec fn component_spec_model(c: ComponentSpec) -> ComponentSpecModel {
    ComponentSpecModel { name: c.name@, values: field_values_model(c.values@) }
}

/// The plain value of a whole specification.
pub open spec fn fix_spec_view(s: FixSpec) -> FixSpecModel {
    FixSpecModel {
        version: s.version,
        is_fixt: s.is_fixt,
        headers: field_values_model(s.headers@),
        messages: s.messages@.map_values(|m: Message| message_spec_model(m)),
        trailers: field_values_model(s.trailers@),
        component_specs: s.component_specs@.map_values(|c: ComponentSpec| component_spec_model(c)),
        field_specs: s.field_specs@.map_values(|f: FieldSpec| field_spec_model(f)),
    }
}

/// The plain value of a group, from the plain values of its references.
pub proof fn lemma_group_model(g: Group)
    ensures
        field_value_model(FieldValue::Group(g)) == FieldValueModel::Group(
            g.name@,
            g.required,
            field_values_model(g.values@),
        ),
{
    let m = field_value_model(FieldValue::Group(g));
    assert(m is Group);
    let vs = m->Group_2;
    assert(vs.len() == g.values@.len());
    assert forall|i: int| 0 <= i < vs.len() implies vs[i] == field_values_model(g.values@)[i] by {}
    assert(vs =~= field_values_model(g.values@));
}

/// A copy of a list of field values.
pub fn clone_field_values(v: &Vec<FieldValue>) -> (r: Vec<FieldValue>)
    ensures
        field_values_model(r@) == field_values_model(v@),
    decreases v@, v@.len(),
{
    let mut r: Vec<FieldValue> = Vec::new();
    let mut i: usize = 0;
    while i < v.len()
        invariant
            i <= v@.len(),
            r@.len() == i,
            forall|j: int| 0 <= j < i ==> field_value_model(#[trigger] r@[j]) == field_value_model(v@[j]),
        decreases v@.len() - i,
    {
        assert(decreases_to!(v@ => v@[i as int]));
        r.push(clone_field_value(&v[i]));
        i += 1;
    }
    assert(field_values_model(r@) =~= field_values_model(v@));
    r
}

/// A copy of a field value, its nested content included.
pub fn clone_field_value(fv: &FieldValue) -> (r: FieldValue)
    ensures
        field_value_model(r) == field_value_model(*fv),
    decreases *fv, 0nat,
{
    match fv {
        FieldValue::Field(f) => FieldValue::Field(Field { name: f.name.clone(), required: f.required }),
        FieldValue::Group(g) => {
            let c = Group { name: g.name.clone(), required: g.required, values: clone_field_values(&g.values) };
            proof {
                lemma_group_model(*g);
                lemma_group_model(c);
            }
            FieldValue::Group(c)
        },
        FieldValue::Component(c) => FieldValue::Component(Component { name: c.name.clone(), required: c.required }),
    }
}

impl Clone for FieldValue {
    fn clone(&self) -> (r: Self)
        ensures
            field_value_model(r) == field_value_model(*self),
    {
        clone_field_value(self)
    }
}

impl Clone for Group {
    fn clone(&self) -> (r: Self)
        ensures
            r.name@ == self.name@,
            r.required == self.required,
            field_values_model(r.values@) == field_values_model(self.values@),
    {
        Group { name: self.name.clone(), required: self.required, values: clone_field_values(&self.values) }
    }
}

impl Clone for ComponentSpec {
    fn clone(&self) -> (r: Self)
        ensures
            component_spec_model(r) == component_spec_model(*self),
    {
        ComponentSpec { name: self.name.clone(), values: clone_field_values(&self.values) }
    }
}

impl Clone for Message {
    fn clone(&self) -> (r: Self)
        ensures
            message_spec_model(r) == message_spec_model(*self),
    {
        Message {
            name: self.name.clone(),
            msg_type: self.msg_type.clone(),
            category: self.category,
            values: clone_field_values(&self.values),
        }
    }
}

/// A copy of a field definition, its allowed values included.
fn copy_field_spec(f: &FieldSpec) -> (r: FieldSpec)
    ensures
        field_spec_model(r) == field_spec_model(*f),
{
    let r = crate::code_spec::clone_field_spec(f);
    assert(field_spec_model(r).values =~= field_spec_model(*f).values);
    r
}

fn clone_messages(v: &Vec<Message>) -> (r: Vec<Message>)
    ensures
        r@.map_values(|x: Message| message_spec_model(x)) == v@.map_values(|x: Message| message_spec_model(x)),
{
    let mut r: Vec<Message> = Vec::new();
    let mut i: usize = 0;
    while i < v.len()
        invariant
            i <= v@.len(),
            r@.len() == i,
            forall|j: int| 0 <= j < i ==> message_spec_model(#[trigger] r@[j]) == message_spec_model(v@[j]),
        decreases v@.len() - i,
    {
        r.push(v[i].clone());
        i += 1;
    }
    assert(r@.map_values(|x: Message| message_spec_model(x)) =~= v@.map_values(|x: Message| message_spec_model(x)));
    r
}

fn clone_component_specs(v: &Vec<ComponentSpec>) -> (r: Vec<ComponentSpec>)
    ensures
        r@.map_values(|x: ComponentSpec| component_spec_model(x)) == v@.map_values(|x: ComponentSpec| component_spec_model(x)),
{
    let mut r: Vec<ComponentSpec> = Vec::new();
    let mut i: usize = 0;
    while i < v.len()
        invariant
            i <= v@.len(),
            r@.len() == i,
            forall|j: int| 0 <= j < i ==> component_spec_model(#[trigger] r@[j]) == component_spec_model(v@[j]),
        decreases v@.len() - i,
    {
        r.push(v[i].clone());
        i += 1;
    }
    assert(r@.map_values(|x: ComponentSpec| component_spec_model(x)) =~= v@.map_values(|x: ComponentSpec| component_spec_model(x)));
    r
}

fn clone_field_specs(v: &Vec<FieldSpec>) -> (r: Vec<FieldSpec>)
    ensures
        r@.map_values(|x: FieldSpec| field_spec_model(x)) == v@.map_values(|x: FieldSpec| field_spec_model(x)),
{
    let mut r: Vec<FieldSpec> = Vec::new();
    let mut i: usize = 0;
    while i < v.len()
        invariant
            i <= v@.len(),
            r@.len() == i,
            forall|j: int| 0 <= j < i ==> field_spec_model(#[trigger] r@[j]) == field_spec_model(v@[j]),
        decreases v@.len() - i,
    {
        r.push(copy_field_spec(&v[i]));
        i += 1;
    }
    assert(r@.map_values(|x: FieldSpec| field_spec_model(x)) =~= v@.map_values(|x: FieldSpec| field_spec_model(x)));
    r
}

impl Clone for FixSpec {
    fn clone(&self) -> (r: Self)
        ensures
            fix_spec_view(r) == fix_spec_view(*self),
    {
        FixSpec {
            version: self.version,
            is_fixt: self.is_fixt,
            headers: clone_field_values(&self.headers),
            messages: clone_messages(&self.messages),
            trailers: clone_field_values(&self.trailers),
            component_specs: clone_component_specs(&self.component_specs),
            field_specs: clone_field_specs(&self.field_specs),
        }
    }
}

impl FixSpec {
    /// A new empty FIXT 1.1 specification.
    pub fn new_fixt() -> (r: Self)
        ensures
            r.version == (1u8, 1u8, 0u8),
            r.is_fixt,
            r.headers@.len() == 0,
            r.messages@.len() == 0,
            r.trailers@.len() == 0,
            r.component_specs@.len() == 0,
            r.field_specs@.len() == 0,
    {
        FixSpec {
            version: (1, 1, 0),
            is_fixt: true,
            headers: Vec::new(),
            messages: Vec::new(),
            trailers: Vec::new(),
            component_specs: Vec::new(),
            field_specs: Vec::new(),
        }
    }
}

} // verus!
