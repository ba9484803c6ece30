//! Case conversion of names, as the code generator needs it.

use vstd::prelude::*;
use convert_case::{Case, Casing};

verus! {

/// The cases names are converted to.
#[derive(Clone, Copy, Debug, PartialEq, Eq, Structural)]
pub enum TextCase {
    /// `SOME_NAME`.
    Constant,
    /// `SomeName`.
    UpperCamel,
    /// `some_name`.
    Snake,
}

/// What `convert_case::Casing::to_case` returns for a text and a case.
pub uninterp spec fn converted_case(s: Seq<char>, case: TextCase) -> Seq<char>;

/// `convert_case::Casing::to_case` on a string slice. Its result is named
/// (`converted_case`): it depends on the text and the case alone, and nothing more
/// of it is stated here.
#[verifier::external_body]
pub(crate) fn to_case(s: &str, case: TextCase) -> (r: String)
    ensures
        r@ == converted_case(s@, case),
{
    let c = match case {
        TextCase::Constant => Case::Constant,
        TextCase::UpperCamel => Case::UpperCamel,
        TextCase::Snake => Case::Snake,
    };
    s.to_case(c)
}

/// A name in constant case.
pub open spec fn constant_case(s: Seq<char>) -> Seq<char> {
    converted_case(s, TextCase::Constant)
}

/// A name in upper camel case.
pub open spec fn upper_camel_case(s: Seq<char>) -> Seq<char> {
    converted_case(s, TextCase::UpperCamel)
}

/// A name in snake case.
pub open spec fn snake_case(s: Seq<char>) -> Seq<char> {
    converted_case(s, TextCase::Snake)
}

} // verus!
