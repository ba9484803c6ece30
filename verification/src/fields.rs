//! The fields that name the two ends of a session.

use vstd::prelude::*;

verus! {

/// The FIX version a session speaks (tag 8).
#[derive(Debug, Clone, PartialEq, Eq, PartialOrd, Ord)]
pub struct BeginString(String);

impl View for BeginString {
    type V = Seq<char>;

    closed spec fn view(&self) -> Seq<char> {
        self.0@
    }
}

impl BeginString {
    /// The field with this value.
    pub fn new(value: String) -> (r: Self)
        ensures
            r@ == value@,
    {
        BeginString(value)
    }

    /// The value.
    pub fn get_value(&self) -> (r: &str)
        ensures
            r@ == self@,
    {
        self.0.as_str()
    }

    /// The value.
    pub fn get_string(&self) -> (r: &String)
        ensures
            r@ == self@,
    {
        &self.0
    }
}

impl From<String> for BeginString {
    fn from(value: String) -> (r: Self)
        ensures
            r@ == value@,
    {
        BeginString(value)
    }
}

impl vstd::std_specs::convert::FromSpecImpl<String> for BeginString {
    open spec fn obeys_from_spec() -> bool {
        true
    }

    closed spec fn from_spec(v: String) -> Self {
        BeginString(v)
    }
}

/// The firm that sends (tag 49).
#[derive(Debug, Clone, PartialEq, Eq, PartialOrd, Ord)]
pub struct SenderCompID(String);

impl View for SenderCompID {
    type V = Seq<char>;

    closed spec fn view(&self) -> Seq<char> {
        self.0@
    }
}

impl SenderCompID {
    /// The field with this value.
    pub fn new(value: String) -> (r: Self)
        ensures
            r@ == value@,
    {
        SenderCompID(value)
    }

    /// The value.
    pub fn get_value(&self) -> (r: &str)
        ensures
            r@ == self@,
    {
        self.0.as_str()
    }

    /// The value.
    pub fn get_string(&self) -> (r: &String)
        ensures
            r@ == self@,
    {
        &self.0
    }
}

impl From<String> for SenderCompID {
    fn from(value: String) -> (r: Self)
        ensures
            r@ == value@,
    {
        SenderCompID(value)
    }
}

impl vstd::std_specs::convert::FromSpecImpl<String> for SenderCompID {
    open spec fn obeys_from_spec() -> bool {
        true
    }

    closed spec fn from_spec(v: String) -> Self {
        SenderCompID(v)
    }
}

/// The firm that receives (tag 56).
#[derive(Debug, Clone, PartialEq, Eq, PartialOrd, Ord)]
pub struct TargetCompID(String);

impl View for TargetCompID {
    type V = Seq<char>;

    closed spec fn view(&self) -> Seq<char> {
        self.0@
    }
}

impl TargetCompID {
    /// The field with this value.
    pub fn new(value: String) -> (r: Self)
        ensures
            r@ == value@,
    {
        TargetCompID(value)
    }

    /// The value.
    pub fn get_value(&self) -> (r: &str)
        ensures
            r@ == self@,
    {
        self.0.as_str()
    }

    /// The value.
    pub fn get_string(&self) -> (r: &String)
        ensures
            r@ == self@,
    {
        &self.0
    }
}

impl From<String> for TargetCompID {
    fn from(value: String) -> (r: Self)
        ensures
            r@ == value@,
    {
        TargetCompID(value)
    }
}

impl vstd::std_specs::convert::FromSpecImpl<String> for TargetCompID {
    open spec fn obeys_from_spec() -> bool {
        true
    }

    closed spec fn from_spec(v: String) -> Self {
        TargetCompID(v)
    }
}

} // verus!
