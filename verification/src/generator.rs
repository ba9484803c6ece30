//! The Rust code generated for a FIX dictionary: field tags, field types,
//! header, trailer and message wrappers, repeating groups and a message decoder.

use vstd::prelude::*;
use crate::case::{constant_case, snake_case, to_case, upper_camel_case, TextCase};
use crate::code_spec::{
    lemma_group_part, part_name, part_required, parts_of, FixCodeSpec, MessageField, MessageGroup, MessageSpec, Part, SubComponent,
};
use crate::fix_spec::{FieldAllowedValue, FieldSpec, FieldType};
use crate::text::{decimal_digits, push_str, u32_to_decimal};

verus! {

/// Through which object the generated accessors reach a field.
#[derive(Clone, Copy, Debug, PartialEq, Eq, Structural)]
pub enum Accessor {
    /// The header of a message.
    Header,
    /// The trailer of a message.
    Trailer,
    /// The message or group itself.
    Inner,
}

impl Accessor {
    /// What comes before a getter call.
    pub open spec fn getter_prefix(self) -> Seq<char> {
        match self {
            Accessor::Header => "inner.with_header(|x| x."@,
            Accessor::Trailer => "inner.with_trailer(|x| x."@,
            Accessor::Inner => "inner."@,
        }
    }

    /// What comes before a setter call.
    pub open spec fn setter_prefix(self) -> Seq<char> {
        match self {
            Accessor::Header => "inner.with_header_mut(|x| x."@,
            Accessor::Trailer => "inner.with_trailer_mut(|x| x."@,
            Accessor::Inner => "inner."@,
        }
    }

    /// What comes after a getter or setter call.
    pub open spec fn caller_suffix(self) -> Seq<char> {
        match self {
            Accessor::Header => ")"@,
            Accessor::Trailer => ")"@,
            Accessor::Inner => ""@,
        }
    }

    /// What comes before a getter call.
    pub fn getter_prefix_text(&self) -> (r: &'static str)
        ensures
            r@ == self.getter_prefix(),
    {
        match self {
            Accessor::Header => "inner.with_header(|x| x.",
            Accessor::Trailer => "inner.with_trailer(|x| x.",
            Accessor::Inner => "inner.",
        }
    }

    /// What comes before a setter call.
    pub fn setter_prefix_text(&self) -> (r: &'static str)
        ensures
            r@ == self.setter_prefix(),
    {
        match self {
            Accessor::Header => "inner.with_header_mut(|x| x.",
            Accessor::Trailer => "inner.with_trailer_mut(|x| x.",
            Accessor::Inner => "inner.",
        }
    }

    /// What comes after a getter or setter call.
    pub fn caller_suffix_text(&self) -> (r: &'static str)
        ensures
            r@ == self.caller_suffix(),
    {
        match self {
            Accessor::Header => ")",
            Accessor::Trailer => ")",
            Accessor::Inner => "",
        }
    }
}

/// Every group holds at least one part (its first part is its delimiter), at any
/// depth.
pub open spec fn part_ok(p: Part) -> bool
    decreases p,
{
    match p {
        Part::Field(_, _) => true,
        Part::Group(_, ps) => ps.len() > 0 && forall|i: int| 0 <= i < ps.len() ==> part_ok(#[trigger] ps[i]),
    }
}

/// Every part of a list is well formed.
pub open spec fn parts_ok(ps: Seq<Part>) -> bool {
    forall|i: int| 0 <= i < ps.len() ==> part_ok(#[trigger] ps[i])
}

/// The path of the constant of a field's tag.
pub open spec fn field_id_text(name: Seq<char>) -> Seq<char> {
    "crate::field_id::"@ + constant_case(name)
}

/// `crate::field_id::NAME` for a field name.
pub fn format_field_id(input: &str) -> (r: String)
    ensures
        r@ == field_id_text(input@),
{
    let mut r = String::from_str("crate::field_id::");
    let c = to_case(input, TextCase::Constant);
    push_str(&mut r, c.as_str());
    r
}

/// The text that opens the generated code.
pub open spec fn root_text(b: Seq<char>) -> Seq<char> {
    " #[allow(unused_imports)]\n            use quickfix::*;\n\n            pub const FIX_BEGIN_STRING: &str = \""@ + b + "\";\n\n            #[derive(Debug, PartialEq, Eq, Clone, Copy, Hash)]\n            pub struct FixParseError;\n\n            impl std::fmt::Display for FixParseError {\n                fn fmt(&self, f: &mut std::fmt::Formatter<'_>) -> std::fmt::Result {\n                    writeln!(f, \"FIX parse error\")\n                }\n            }\n\n            impl std::error::Error for FixParseError {}\n\n            pub struct GroupIterator<'a, T, I> {\n                parent: &'a T,\n                clone_group_func: fn(&'a T, usize) -> Option<I>,\n                current_index: usize,\n            }\n\n            impl<T, I> Iterator for GroupIterator<'_, T, I> {\n                type Item = I;\n\n                fn next(&mut self) -> Option<Self::Item> {\n                    self.current_index += 1;\n                    (self.clone_group_func)(self.parent, self.current_index)\n                }\n            }\n\n            "@
}

#[verifier::spinoff_prover]
#[verifier::rlimit(50)]
fn generate_root(output: &mut String, begin_string: &str)
    ensures
        final(output)@ == old(output)@ + root_text(begin_string@),
{
    push_str(output, " #[allow(unused_imports)]\n            use quickfix::*;\n\n            pub const FIX_BEGIN_STRING: &str = \"");
    push_str(output, begin_string);
    push_str(output, "\";\n\n            #[derive(Debug, PartialEq, Eq, Clone, Copy, Hash)]\n            pub struct FixParseError;\n\n            impl std::fmt::Display for FixParseError {\n                fn fmt(&self, f: &mut std::fmt::Formatter<'_>) -> std::fmt::Result {\n                    writeln!(f, \"FIX parse error\")\n                }\n            }\n\n            impl std::error::Error for FixParseError {}\n\n            pub struct GroupIterator<'a, T, I> {\n                parent: &'a T,\n                clone_group_func: fn(&'a T, usize) -> Option<I>,\n                current_index: usize,\n            }\n\n            impl<T, I> Iterator for GroupIterator<'_, T, I> {\n                type Item = I;\n\n                fn next(&mut self) -> Option<Self::Item> {\n                    self.current_index += 1;\n                    (self.clone_group_func)(self.parent, self.current_index)\n                }\n            }\n\n            ");
    assert(output@ =~= old(output)@ + root_text(begin_string@));
}

/// The line of the constant of a field's tag.
pub open spec fn field_id_line(f: FieldSpec) -> Seq<char> {
    "pub const "@ + constant_case(f.name@) + ": i32 = "@ + decimal_digits(f.number as nat) + ";\n"@
}

/// The lines of the first `n` field tags.
pub open spec fn field_id_lines(specs: Seq<FieldSpec>, n: int) -> Seq<char>
    decreases n,
{
    if n <= 0 || n > specs.len() {
        Seq::empty()
    } else {
        field_id_lines(specs, n - 1) + field_id_line(specs[n - 1])
    }
}

/// The module of field tag constants.
pub open spec fn field_ids_text(specs: Seq<FieldSpec>) -> Seq<char> {
    "pub mod field_id {\n"@ + field_id_lines(specs, specs.len() as int) + "} // field_id\n\n"@
}

#[verifier::spinoff_prover]
#[verifier::rlimit(50)]
fn generate_field_ids(output: &mut String, field_specs: &[FieldSpec])
    ensures
        final(output)@ == old(output)@ + field_ids_text(field_specs@),
{
    push_str(output, "pub mod field_id {\n");
    let ghost base = output@;
    let mut i: usize = 0;
    while i < field_specs.len()
        invariant
            i <= field_specs@.len(),
            output@ == base + field_id_lines(field_specs@, i as int),
        decreases field_specs@.len() - i,
    {
        let f = &field_specs[i];
        push_str(output, "pub const ");
        let c = to_case(f.name.as_str(), TextCase::Constant);
        push_str(output, c.as_str());
        push_str(output, ": i32 = ");
        let n = u32_to_decimal(f.number);
        push_str(output, n.as_str());
        push_str(output, ";\n");
        i += 1;
        assert(output@ =~= base + field_id_lines(field_specs@, i as int));
    }
    push_str(output, "} // field_id\n\n");
    assert(output@ =~= old(output)@ + field_ids_text(field_specs@));
}

/// An enum variant with its integer value.
pub open spec fn int_variant_line(v: FieldAllowedValue) -> Seq<char> {
    upper_camel_case(v.description@) + " = "@ + v.value@ + ",\n"@
}

/// The lines of the first `n` values.
pub open spec fn int_variant_lines(vals: Seq<FieldAllowedValue>, n: int) -> Seq<char>
    decreases n,
{
    if n <= 0 || n > vals.len() {
        Seq::empty()
    } else {
        int_variant_lines(vals, n - 1) + int_variant_line(vals[n - 1])
    }
}

fn push_int_variant_lines(output: &mut String, vals: &Vec<FieldAllowedValue>)
    ensures
        final(output)@ == old(output)@ + int_variant_lines(vals@, vals@.len() as int),
{
    let ghost base = output@;
    let mut i: usize = 0;
    while i < vals.len()
        invariant
            i <= vals@.len(),
            output@ == base + int_variant_lines(vals@, i as int),
        decreases vals@.len() - i,
    {
        let v = &vals[i];
        let d = to_case(v.description.as_str(), TextCase::UpperCamel);
        push_str(output, d.as_str());
        push_str(output, " = ");
        push_str(output, v.value.as_str());
        push_str(output, ",\n");
        i += 1;
        assert(output@ =~= base + int_variant_lines(vals@, i as int));
    }
}

/// An enum variant.
pub open spec fn char_variant_line(v: FieldAllowedValue) -> Seq<char> {
    upper_camel_case(v.description@) + ",\n"@
}

/// The lines of the first `n` values.
pub open spec fn char_variant_lines(vals: Seq<FieldAllowedValue>, n: int) -> Seq<char>
    decreases n,
{
    if n <= 0 || n > vals.len() {
        Seq::empty()
    } else {
        char_variant_lines(vals, n - 1) + char_variant_line(vals[n - 1])
    }
}

fn push_char_variant_lines(output: &mut String, vals: &Vec<FieldAllowedValue>)
    ensures
        final(output)@ == old(output)@ + char_variant_lines(vals@, vals@.len() as int),
{
    let ghost base = output@;
    let mut i: usize = 0;
    while i < vals.len()
        invariant
            i <= vals@.len(),
            output@ == base + char_variant_lines(vals@, i as int),
        decreases vals@.len() - i,
    {
        let v = &vals[i];
        let d = to_case(v.description.as_str(), TextCase::UpperCamel);
        push_str(output, d.as_str());
        push_str(output, ",\n");
        i += 1;
        assert(output@ =~= base + char_variant_lines(vals@, i as int));
    }
}

/// A match arm from the bytes of a value to its variant.
pub open spec fn from_bytes_line(v: FieldAllowedValue) -> Seq<char> {
    "    b\""@ + v.value@ + "\" => Ok(Self::"@ + upper_camel_case(v.description@) + "),\n"@
}

/// The lines of the first `n` values.
pub open spec fn from_bytes_lines(vals: Seq<FieldAllowedValue>, n: int) -> Seq<char>
    decreases n,
{
    if n <= 0 || n > vals.len() {
        Seq::empty()
    } else {
        from_bytes_lines(vals, n - 1) + from_bytes_line(vals[n - 1])
    }
}

fn push_from_bytes_lines(output: &mut String, vals: &Vec<FieldAllowedValue>)
    ensures
        final(output)@ == old(output)@ + from_bytes_lines(vals@, vals@.len() as int),
{
    let ghost base = output@;
    let mut i: usize = 0;
    while i < vals.len()
        invariant
            i <= vals@.len(),
            output@ == base + from_bytes_lines(vals@, i as int),
        decreases vals@.len() - i,
    {
        let v = &vals[i];
        push_str(output, "    b\"");
        push_str(output, v.value.as_str());
        push_str(output, "\" => Ok(Self::");
        let d = to_case(v.description.as_str(), TextCase::UpperCamel);
        push_str(output, d.as_str());
        push_str(output, "),\n");
        i += 1;
        assert(output@ =~= base + from_bytes_lines(vals@, i as int));
    }
}

/// A match arm from a variant to its value.
pub open spec fn into_fix_line(v: FieldAllowedValue) -> Seq<char> {
    "    Self::"@ + upper_camel_case(v.description@) + " => \""@ + v.value@ + "\",\n"@
}

/// The lines of the first `n` values.
pub open spec fn into_fix_lines(vals: Seq<FieldAllowedValue>, n: int) -> Seq<char>
    decreases n,
{
    if n <= 0 || n > vals.len() {
        Seq::empty()
    } else {
        into_fix_lines(vals, n - 1) + into_fix_line(vals[n - 1])
    }
}

fn push_into_fix_lines(output: &mut String, vals: &Vec<FieldAllowedValue>)
    ensures
        final(output)@ == old(output)@ + into_fix_lines(vals@, vals@.len() as int),
{
    let ghost base = output@;
    let mut i: usize = 0;
    while i < vals.len()
        invariant
            i <= vals@.len(),
            output@ == base + into_fix_lines(vals@, i as int),
        decreases vals@.len() - i,
    {
        let v = &vals[i];
        push_str(output, "    Self::");
        let d = to_case(v.description.as_str(), TextCase::UpperCamel);
        push_str(output, d.as_str());
        push_str(output, " => \"");
        push_str(output, v.value.as_str());
        push_str(output, "\",\n");
        i += 1;
        assert(output@ =~= base + into_fix_lines(vals@, i as int));
    }
}

/// The parsing and writing helpers of an enum of field values.
pub open spec fn type_values_text(f: FieldSpec) -> Seq<char> {
    (" impl "@ + f.name@ + " {\n                #[inline(always)]\n                pub const fn from_const_bytes(s: &[u8]) -> Result<Self, crate::FixParseError> {\n                    match s {\n                    "@) + from_bytes_lines(f.values@, f.values@.len() as int) + ("             _ => Err(crate::FixParseError),\n                    }\n                }\n            }\n\n            "@) + (" impl std::str::FromStr for "@ + f.name@ + " {\n                type Err = crate::FixParseError;\n                fn from_str(s: &str) -> Result<Self, Self::Err> {\n                    Self::from_const_bytes(s.as_bytes())\n                }\n            }\n\n            "@) + (" impl quickfix::IntoFixValue for "@ + f.name@ + " {\n                fn into_fix_value(self) -> Result<std::ffi::CString, std::ffi::NulError> {\n                    std::ffi::CString::new(match self {\n                    "@)
        + into_fix_lines(f.values@, f.values@.len() as int) + ("         })\n                }\n            }\n\n            "@)
}

#[verifier::spinoff_prover]
#[verifier::rlimit(50)]
fn generate_field_type_values(output: &mut String, field_spec: &FieldSpec)
    requires
        field_spec.values@.len() > 0,
    ensures
        final(output)@ == old(output)@ + type_values_text(*field_spec),
{
    let enum_name = field_spec.name.as_str();
    let ghost f = *field_spec;
    push_str(output, " impl ");
    push_str(output, enum_name);
    push_str(output, " {\n                #[inline(always)]\n                pub const fn from_const_bytes(s: &[u8]) -> Result<Self, crate::FixParseError> {\n                    match s {\n                    ");
    let ghost a = output@;
    assert(a =~= old(output)@ + (" impl "@ + f.name@ + " {\n                #[inline(always)]\n                pub const fn from_const_bytes(s: &[u8]) -> Result<Self, crate::FixParseError> {\n                    match s {\n                    "@));
    push_from_bytes_lines(output, &field_spec.values);
    push_str(output, "             _ => Err(crate::FixParseError),\n                    }\n                }\n            }\n\n            ");
    push_str(output, " impl std::str::FromStr for ");
    push_str(output, enum_name);
    push_str(output, " {\n                type Err = crate::FixParseError;\n                fn from_str(s: &str) -> Result<Self, Self::Err> {\n                    Self::from_const_bytes(s.as_bytes())\n                }\n            }\n\n            ");
    push_str(output, " impl quickfix::IntoFixValue for ");
    push_str(output, enum_name);
    push_str(output, " {\n                fn into_fix_value(self) -> Result<std::ffi::CString, std::ffi::NulError> {\n                    std::ffi::CString::new(match self {\n                    ");
    let ghost b = output@;
    assert(b =~= a + from_bytes_lines(f.values@, f.values@.len() as int) + ("             _ => Err(crate::FixParseError),\n                    }\n                }\n            }\n\n            "@) + (" impl std::str::FromStr for "@ + f.name@ + " {\n                type Err = crate::FixParseError;\n                fn from_str(s: &str) -> Result<Self, Self::Err> {\n                    Self::from_const_bytes(s.as_bytes())\n                }\n            }\n\n            "@) + (" impl quickfix::IntoFixValue for "@ + f.name@ + " {\n                fn into_fix_value(self) -> Result<std::ffi::CString, std::ffi::NulError> {\n                    std::ffi::CString::new(match self {\n                    "@));
    push_into_fix_lines(output, &field_spec.values);
    push_str(output, "         })\n                }\n            }\n\n            ");
    assert(output@ =~= old(output)@ + type_values_text(*field_spec));
}

/// The enum of the integer values of a field, with its helpers.
pub open spec fn int_values_text(f: FieldSpec) -> Seq<char> {
    "#[derive(Debug, Clone, Copy, PartialEq, Eq, Hash)]\n"@ + "pub enum "@ + f.name@ + " {\n"@
        + int_variant_lines(f.values@, f.values@.len() as int) + "}\n\n"@ + type_values_text(f)
}

#[verifier::spinoff_prover]
#[verifier::rlimit(50)]
fn generate_field_type_int_values(output: &mut String, field_spec: &FieldSpec)
    requires
        field_spec.values@.len() > 0,
        field_spec.field_type == FieldType::Int,
    ensures
        final(output)@ == old(output)@ + int_values_text(*field_spec),
{
    push_str(output, "#[derive(Debug, Clone, Copy, PartialEq, Eq, Hash)]\n");
    push_str(output, "pub enum ");
    push_str(output, field_spec.name.as_str());
    push_str(output, " {\n");
    push_int_variant_lines(output, &field_spec.values);
    push_str(output, "}\n\n");
    let ghost a = output@;
    generate_field_type_values(output, field_spec);
    assert(output@ =~= old(output)@ + int_values_text(*field_spec));
}

/// The enum of the values of a field, with its helpers.
pub open spec fn char_values_text(f: FieldSpec) -> Seq<char> {
    "#[derive(Debug, Clone, Copy, PartialEq, Eq, Hash)]\n"@ + "pub enum "@ + f.name@ + " {\n"@
        + char_variant_lines(f.values@, f.values@.len() as int) + "}\n\n"@ + type_values_text(f)
}

#[verifier::spinoff_prover]
#[verifier::rlimit(50)]
fn generate_field_type_char_values(output: &mut String, field_spec: &FieldSpec)
    requires
        field_spec.values@.len() > 0,
    ensures
        final(output)@ == old(output)@ + char_values_text(*field_spec),
{
    push_str(output, "#[derive(Debug, Clone, Copy, PartialEq, Eq, Hash)]\n");
    push_str(output, "pub enum ");
    push_str(output, field_spec.name.as_str());
    push_str(output, " {\n");
    push_char_variant_lines(output, &field_spec.values);
    push_str(output, "}\n\n");
    generate_field_type_values(output, field_spec);
    assert(output@ =~= old(output)@ + char_values_text(*field_spec));
}

/// The Rust type a field type stands for, where its field has no value list.
pub open spec fn alias_type(t: FieldType) -> Seq<char> {
    match t {
        FieldType::Int => "i64"@,
        FieldType::Length => "u32"@,
        FieldType::SequenceNumber => "u32"@,
        FieldType::NumberInGroup => "i32"@,
        FieldType::Boolean => "bool"@,
        FieldType::Float | FieldType::Price | FieldType::Amount | FieldType::Quantity
        | FieldType::PriceOffset | FieldType::Percentage => "f64"@,
        _ => "String"@,
    }
}

fn alias_type_text(t: FieldType) -> (r: &'static str)
    ensures
        r@ == alias_type(t),
{
    match t {
        FieldType::Int => "i64",
        FieldType::Length => "u32",
        FieldType::SequenceNumber => "u32",
        FieldType::NumberInGroup => "i32",
        FieldType::Boolean => "bool",
        FieldType::Float | FieldType::Price | FieldType::Amount | FieldType::Quantity
        | FieldType::PriceOffset | FieldType::Percentage => "f64",
        _ => "String",
    }
}

/// The type alias of a field without a value list.
pub open spec fn alias_text(f: FieldSpec) -> Seq<char> {
    "pub type "@ + f.name@ + " = "@ + alias_type(f.field_type) + ";\n\n"@
}

#[verifier::spinoff_prover]
#[verifier::rlimit(50)]
fn generate_field_type_alias(output: &mut String, field_spec: &FieldSpec)
    requires
        field_spec.values@.len() == 0,
    ensures
        final(output)@ == old(output)@ + alias_text(*field_spec),
{
    push_str(output, "pub type ");
    push_str(output, field_spec.name.as_str());
    push_str(output, " = ");
    push_str(output, alias_type_text(field_spec.field_type));
    push_str(output, ";\n\n");
    assert(output@ =~= old(output)@ + alias_text(*field_spec));
}

/// The type code of one field: an enum where it has a value list (with integer
/// values for an integer field), else a type alias.
pub open spec fn field_type_item(f: FieldSpec) -> Seq<char> {
    if f.values@.len() > 0 {
        if f.field_type == FieldType::Int {
            int_values_text(f)
        } else {
            char_values_text(f)
        }
    } else {
        alias_text(f)
    }
}

/// A field without a value list gets a type alias, by its type: `f64` for
/// FLOAT, PRICE, AMT, QTY, PRICEOFFSET and PERCENTAGE, `i64` for INT, `u32` for
/// LENGTH and SEQNUM, `i32` for NUMINGROUP, `bool` for BOOLEAN, and `String` for
/// every other type.
pub proof fn aliases_by_field_type(f: FieldSpec)
    requires
        f.values@.len() == 0,
    ensures
        (f.field_type == FieldType::Float || f.field_type == FieldType::Price || f.field_type == FieldType::Amount
            || f.field_type == FieldType::Quantity || f.field_type == FieldType::PriceOffset || f.field_type
            == FieldType::Percentage) ==> field_type_item(f) == "pub type "@ + f.name@ + " = "@ + "f64"@ + ";\n\n"@,
        f.field_type == FieldType::Int ==> field_type_item(f) == "pub type "@ + f.name@ + " = "@ + "i64"@ + ";\n\n"@,
        (f.field_type == FieldType::Length || f.field_type == FieldType::SequenceNumber) ==> field_type_item(f)
            == "pub type "@ + f.name@ + " = "@ + "u32"@ + ";\n\n"@,
        f.field_type == FieldType::NumberInGroup ==> field_type_item(f) == "pub type "@ + f.name@ + " = "@ + "i32"@
            + ";\n\n"@,
        f.field_type == FieldType::Boolean ==> field_type_item(f) == "pub type "@ + f.name@ + " = "@ + "bool"@
            + ";\n\n"@,
        !(f.field_type == FieldType::Float || f.field_type == FieldType::Price || f.field_type == FieldType::Amount
            || f.field_type == FieldType::Quantity || f.field_type == FieldType::PriceOffset || f.field_type
            == FieldType::Percentage || f.field_type == FieldType::Int || f.field_type == FieldType::Length
            || f.field_type == FieldType::SequenceNumber || f.field_type == FieldType::NumberInGroup || f.field_type
            == FieldType::Boolean) ==> field_type_item(f) == "pub type "@ + f.name@ + " = "@ + "String"@ + ";\n\n"@,
{
}

/// The type code of the first `n` fields.
pub open spec fn field_type_items(specs: Seq<FieldSpec>, n: int) -> Seq<char>
    decreases n,
{
    if n <= 0 || n > specs.len() {
        Seq::empty()
    } else {
        field_type_items(specs, n - 1) + field_type_item(specs[n - 1])
    }
}

/// The module of field types.
pub open spec fn field_types_text(specs: Seq<FieldSpec>) -> Seq<char> {
    "pub mod field_types {\n"@ + field_type_items(specs, specs.len() as int) + "} // field_types\n\n"@
}

#[verifier::spinoff_prover]
#[verifier::rlimit(50)]
fn generate_field_types(output: &mut String, field_specs: &[FieldSpec])
    ensures
        final(output)@ == old(output)@ + field_types_text(field_specs@),
{
    push_str(output, "pub mod field_types {\n");
    let ghost base = output@;
    let mut i: usize = 0;
    while i < field_specs.len()
        invariant
            i <= field_specs@.len(),
            output@ == base + field_type_items(field_specs@, i as int),
        decreases field_specs@.len() - i,
    {
        let f = &field_specs[i];
        if f.values.len() > 0 {
            match f.field_type {
                FieldType::Int => generate_field_type_int_values(output, f),
                _ => generate_field_type_char_values(output, f),
            }
        } else {
            generate_field_type_alias(output, f);
        }
        i += 1;
        assert(output@ =~= base + field_type_items(field_specs@, i as int));
    }
    push_str(output, "} // field_types\n\n");
    assert(output@ =~= old(output)@ + field_types_text(field_specs@));
}

/// The getter of a field: one that fails where a required field is missing,
/// else one that gives an option.
pub open spec fn field_getter_text(name: Seq<char>, required: bool, acc: Accessor) -> Seq<char> {
    if required {
        " #[inline(always)]\n                pub fn "@ + ("get_"@ + snake_case(name)) + "(&self) -> "@ + ("crate::field_types::"@ + name) + " {\n                    self."@ + acc.getter_prefix() + "get_field("@ + field_id_text(name) + ")"@ + acc.caller_suffix() + "\n                       .and_then(|x| x.parse().ok())\n                       .expect(\""@ + field_id_text(name) + " is required but it is missing\")\n                }\n\n                "@
    } else {
        " #[inline(always)]\n                pub fn "@ + ("get_"@ + snake_case(name)) + "(&self) -> Option<"@ + ("crate::field_types::"@ + name) + "> {\n                    self."@ + acc.getter_prefix() + "get_field("@ + field_id_text(name) + ")"@ + acc.caller_suffix() + "\n                       .and_then(|x| x.parse().ok())\n                }\n\n                "@
    }
}

#[verifier::spinoff_prover]
#[verifier::rlimit(50)]
fn generate_field_getter(output: &mut String, field_name: &str, field_required: bool, accessor: &Accessor)
    ensures
        final(output)@ == old(output)@ + field_getter_text(field_name@, field_required, *accessor),
{
    let ghost name = field_name@;
    let ghost acc = *accessor;
    let call_get_prefix = accessor.getter_prefix_text();
    let call_suffix = accessor.caller_suffix_text();
    let mut fun_name = String::from_str("get_");
    let sn = to_case(field_name, TextCase::Snake);
    push_str(&mut fun_name, sn.as_str());
    let mut field_type = String::from_str("crate::field_types::");
    push_str(&mut field_type, field_name);
    let field_id = format_field_id(field_name);
    if field_required {
        push_str(output, " #[inline(always)]\n                pub fn ");
        push_str(output, fun_name.as_str());
        push_str(output, "(&self) -> ");
        push_str(output, field_type.as_str());
        push_str(output, " {\n                    self.");
        push_str(output, call_get_prefix);
        push_str(output, "get_field(");
        push_str(output, field_id.as_str());
        push_str(output, ")");
        push_str(output, call_suffix);
        push_str(output, "\n                       .and_then(|x| x.parse().ok())\n                       .expect(\"");
        push_str(output, field_id.as_str());
        push_str(output, " is required but it is missing\")\n                }\n\n                ");
    } else {
        push_str(output, " #[inline(always)]\n                pub fn ");
        push_str(output, fun_name.as_str());
        push_str(output, "(&self) -> Option<");
        push_str(output, field_type.as_str());
        push_str(output, "> {\n                    self.");
        push_str(output, call_get_prefix);
        push_str(output, "get_field(");
        push_str(output, field_id.as_str());
        push_str(output, ")");
        push_str(output, call_suffix);
        push_str(output, "\n                       .and_then(|x| x.parse().ok())\n                }\n\n                ");
    }
    assert(output@ =~= old(output)@ + field_getter_text(field_name@, field_required, *accessor));
}

/// The setter of a field, and its remover where the field is optional.
pub open spec fn field_setters_text(name: Seq<char>, required: bool, acc: Accessor) -> Seq<char> {
    (" #[inline(always)]\n            pub fn set_"@ + snake_case(name) + "(&mut self, value: "@ + ("crate::field_types::"@ + name) + ") -> Result<&Self, quickfix::QuickFixError> {\n                self."@ + acc.setter_prefix() + "set_field("@ + field_id_text(name) + ", value)"@ + acc.caller_suffix() + "?;\n                Ok(self)\n            }\n\n            "@) + if required {
        Seq::empty()
    } else {
        " #[inline(always)]\n                pub fn remove_"@ + snake_case(name) + "(&mut self) -> Result<&Self, quickfix::QuickFixError> {\n                    self."@ + acc.setter_prefix() + "remove_field("@ + field_id_text(name) + ")"@ + acc.caller_suffix() + "?;\n                    Ok(self)\n                }\n\n                "@
    }
}

#[verifier::spinoff_prover]
#[verifier::rlimit(50)]
fn generate_field_setters(output: &mut String, field: &MessageField, accessor: &Accessor)
    ensures
        final(output)@ == old(output)@ + field_setters_text(field.name@, field.required, *accessor),
{
    let ghost name = field.name@;
    let ghost acc = *accessor;
    let call_set_prefix = accessor.setter_prefix_text();
    let call_suffix = accessor.caller_suffix_text();
    let field_name = to_case(field.name.as_str(), TextCase::Snake);
    let mut field_type = String::from_str("crate::field_types::");
    push_str(&mut field_type, field.name.as_str());
    let field_id = format_field_id(field.name.as_str());
    push_str(output, " #[inline(always)]\n            pub fn set_");
    push_str(output, field_name.as_str());
    push_str(output, "(&mut self, value: ");
    push_str(output, field_type.as_str());
    push_str(output, ") -> Result<&Self, quickfix::QuickFixError> {\n                self.");
    push_str(output, call_set_prefix);
    push_str(output, "set_field(");
    push_str(output, field_id.as_str());
    push_str(output, ", value)");
    push_str(output, call_suffix);
    push_str(output, "?;\n                Ok(self)\n            }\n\n            ");
    let ghost mid = output@;
    assert(mid =~= old(output)@ + (" #[inline(always)]\n            pub fn set_"@ + snake_case(name) + "(&mut self, value: "@ + ("crate::field_types::"@ + name) + ") -> Result<&Self, quickfix::QuickFixError> {\n                self."@ + acc.setter_prefix() + "set_field("@ + field_id_text(name) + ", value)"@ + acc.caller_suffix() + "?;\n                Ok(self)\n            }\n\n            "@));
    if !field.required {
        push_str(output, " #[inline(always)]\n                pub fn remove_");
        push_str(output, field_name.as_str());
        push_str(output, "(&mut self) -> Result<&Self, quickfix::QuickFixError> {\n                    self.");
        push_str(output, call_set_prefix);
        push_str(output, "remove_field(");
        push_str(output, field_id.as_str());
        push_str(output, ")");
        push_str(output, call_suffix);
        push_str(output, "?;\n                    Ok(self)\n                }\n\n                ");
    }
    assert(output@ =~= old(output)@ + field_setters_text(field.name@, field.required, *accessor));
}

/// The readers of a repeating group: its length, a copy of one group, an iterator.
pub open spec fn group_reader_text(sname: Seq<char>, gname: Seq<char>) -> Seq<char> {
    " #[inline(always)]\n            pub fn "@ + snake_case(gname) + "_len(&self) -> usize {\n                self.inner\n                    .get_field("@ + ("self::"@ + snake_case(sname) + "::"@ + gname) + "::FIELD_ID)\n                    .and_then(|x| x.parse().ok())\n                    .unwrap_or_default()\n            }\n\n            #[inline(always)]\n            pub fn clone_group_"@ + snake_case(gname) + "(&self, index: usize) -> Option<"@ + ("self::"@ + snake_case(sname) + "::"@ + gname) + "> {\n                self.inner\n                    .clone_group(index as i32, "@ + ("self::"@ + snake_case(sname) + "::"@ + gname) + "::FIELD_ID)\n                    .map(|raw_group| "@ + ("self::"@ + snake_case(sname) + "::"@ + gname) + " { inner: raw_group })\n            }\n\n            #[inline(always)]\n            pub fn iter_"@ + snake_case(gname) + "(&self) -> GroupIterator<'_, Self, "@ + ("self::"@ + snake_case(sname) + "::"@ + gname) + "> {\n                GroupIterator {\n                    parent: self,\n                    clone_group_func: |parent, idx| parent.clone_group_"@ + snake_case(gname) + "(idx),\n                    current_index: 0,\n                }\n            }\n\n            "@
}

fn generate_group_reader(output: &mut String, struct_name: &str, group_name_text: &str)
    ensures
        final(output)@ == old(output)@ + group_reader_text(struct_name@, group_name_text@),
{
    let ghost sname = struct_name@;
    let ghost gname = group_name_text@;
    let group_name = to_case(group_name_text, TextCase::Snake);
    let mut group_type = String::from_str("self::");
    let s = to_case(struct_name, TextCase::Snake);
    push_str(&mut group_type, s.as_str());
    push_str(&mut group_type, "::");
    push_str(&mut group_type, group_name_text);
    assert(group_type@ =~= "self::"@ + snake_case(sname) + "::"@ + gname);
    push_str(output, " #[inline(always)]\n            pub fn ");
    push_str(output, group_name.as_str());
    push_str(output, "_len(&self) -> usize {\n                self.inner\n                    .get_field(");
    push_str(output, group_type.as_str());
    push_str(output, "::FIELD_ID)\n                    .and_then(|x| x.parse().ok())\n                    .unwrap_or_default()\n            }\n\n            #[inline(always)]\n            pub fn clone_group_");
    push_str(output, group_name.as_str());
    push_str(output, "(&self, index: usize) -> Option<");
    push_str(output, group_type.as_str());
    push_str(output, "> {\n                self.inner\n                    .clone_group(index as i32, ");
    push_str(output, group_type.as_str());
    push_str(output, "::FIELD_ID)\n                    .map(|raw_group| ");
    push_str(output, group_type.as_str());
    push_str(output, " { inner: raw_group })\n            }\n\n            #[inline(always)]\n            pub fn iter_");
    push_str(output, group_name.as_str());
    push_str(output, "(&self) -> GroupIterator<'_, Self, ");
    push_str(output, group_type.as_str());
    push_str(output, "> {\n                GroupIterator {\n                    parent: self,\n                    clone_group_func: |parent, idx| parent.clone_group_");
    push_str(output, group_name.as_str());
    push_str(output, "(idx),\n                    current_index: 0,\n                }\n            }\n\n            ");
    assert(output@ =~= old(output)@ + group_reader_text(struct_name@, group_name_text@));
}

/// The method that adds a repeating group.
pub open spec fn add_group_text(sname: Seq<char>, gname: Seq<char>) -> Seq<char> {
    " #[inline(always)]\n            pub fn add_"@ + snake_case(gname) + "(&mut self, value: "@ + ("self::"@ + snake_case(sname) + "::"@ + gname) + ") -> Result<&Self, quickfix::QuickFixError> {\n                self.inner.add_group(&value.inner)?;\n                Ok(self)\n            }\n\n            "@
}

fn generate_fn_add_group(output: &mut String, struct_name: &str, group_name_text: &str)
    ensures
        final(output)@ == old(output)@ + add_group_text(struct_name@, group_name_text@),
{
    let ghost sname = struct_name@;
    let ghost gname = group_name_text@;
    let group_name = to_case(group_name_text, TextCase::Snake);
    let mut group_type = String::from_str("self::");
    let s = to_case(struct_name, TextCase::Snake);
    push_str(&mut group_type, s.as_str());
    push_str(&mut group_type, "::");
    push_str(&mut group_type, group_name_text);
    assert(group_type@ =~= "self::"@ + snake_case(sname) + "::"@ + gname);
    push_str(output, " #[inline(always)]\n            pub fn add_");
    push_str(output, group_name.as_str());
    push_str(output, "(&mut self, value: ");
    push_str(output, group_type.as_str());
    push_str(output, ") -> Result<&Self, quickfix::QuickFixError> {\n                self.inner.add_group(&value.inner)?;\n                Ok(self)\n            }\n\n            ");
    assert(output@ =~= old(output)@ + add_group_text(struct_name@, group_name_text@));
}

/// The getter of one part.
pub open spec fn getter_item(sname: Seq<char>, p: Part, acc: Accessor) -> Seq<char> {
    match p {
        Part::Field(n, r) => field_getter_text(n, r, acc),
        Part::Group(n, _) => group_reader_text(sname, n),
    }
}

/// The getters of the first `n` parts.
pub open spec fn getters_upto(sname: Seq<char>, ps: Seq<Part>, acc: Accessor, n: int) -> Seq<char>
    decreases n,
{
    if n <= 0 || n > ps.len() {
        Seq::empty()
    } else {
        getters_upto(sname, ps, acc, n - 1) + getter_item(sname, ps[n - 1], acc)
    }
}

/// The setter of one part.
pub open spec fn setter_item(sname: Seq<char>, p: Part, acc: Accessor) -> Seq<char> {
    match p {
        Part::Field(n, r) => field_setters_text(n, r, acc),
        Part::Group(n, _) => add_group_text(sname, n),
    }
}

/// The setters of the first `n` parts.
pub open spec fn setters_upto(sname: Seq<char>, ps: Seq<Part>, acc: Accessor, n: int) -> Seq<char>
    decreases n,
{
    if n <= 0 || n > ps.len() {
        Seq::empty()
    } else {
        setters_upto(sname, ps, acc, n - 1) + setter_item(sname, ps[n - 1], acc)
    }
}

#[verifier::spinoff_prover]
#[verifier::rlimit(50)]
fn generate_components_getters(output: &mut String, struct_name: &str, components: &[SubComponent], accessor: &Accessor)
    ensures
        final(output)@ == old(output)@ + getters_upto(
            struct_name@,
            parts_of(components@),
            *accessor,
            components@.len() as int,
        ),
{
    let ghost ps = parts_of(components@);
    let ghost base = output@;
    let mut i: usize = 0;
    while i < components.len()
        invariant
            i <= components@.len(),
            ps == parts_of(components@),
            output@ == base + getters_upto(struct_name@, ps, *accessor, i as int),
        decreases components@.len() - i,
    {
        match &components[i] {
            SubComponent::Field(x) => {
                generate_field_getter(output, x.name.as_str(), x.required, accessor);
            },
            SubComponent::Group(x) => {
                proof {
                    crate::code_spec::lemma_group_part(*x);
                }
                generate_group_reader(output, struct_name, x.name.as_str());
            },
        }
        i += 1;
        assert(output@ =~= base + getters_upto(struct_name@, ps, *accessor, i as int));
    }
}

#[verifier::spinoff_prover]
#[verifier::rlimit(50)]
fn generate_components_setters(output: &mut String, struct_name: &str, components: &[SubComponent], accessor: &Accessor)
    ensures
        final(output)@ == old(output)@ + setters_upto(
            struct_name@,
            parts_of(components@),
            *accessor,
            components@.len() as int,
        ),
{
    let ghost ps = parts_of(components@);
    let ghost base = output@;
    let mut i: usize = 0;
    while i < components.len()
        invariant
            i <= components@.len(),
            ps == parts_of(components@),
            output@ == base + setters_upto(struct_name@, ps, *accessor, i as int),
        decreases components@.len() - i,
    {
        match &components[i] {
            SubComponent::Field(x) => {
                generate_field_setters(output, x, accessor);
            },
            SubComponent::Group(x) => {
                proof {
                    crate::code_spec::lemma_group_part(*x);
                }
                generate_fn_add_group(output, struct_name, x.name.as_str());
            },
        }
        i += 1;
        assert(output@ =~= base + setters_upto(struct_name@, ps, *accessor, i as int));
    }
}

/// The parameters of the required fields among the first `n` parts, comma separated.
pub open spec fn required_params_upto(ps: Seq<Part>, n: int) -> Seq<char>
    decreases n,
{
    if n <= 0 || n > ps.len() {
        Seq::empty()
    } else {
        let prev = required_params_upto(ps, n - 1);
        if part_required(ps[n - 1]) {
            if prev.len() == 0 {
                (snake_case(part_name(ps[n - 1])) + ": crate::field_types::"@ + part_name(ps[n - 1]))
            } else {
                prev + ", "@ + (snake_case(part_name(ps[n - 1])) + ": crate::field_types::"@ + part_name(ps[n - 1]))
            }
        } else {
            prev
        }
    }
}

fn format_required_params(components: &[SubComponent]) -> (r: String)
    ensures
        r@ == required_params_upto(parts_of(components@), components@.len() as int),
{
    let ghost ps = parts_of(components@);
    let mut r = String::new();
    let mut i: usize = 0;
    while i < components.len()
        invariant
            i <= components@.len(),
            ps == parts_of(components@),
            r@ == required_params_upto(ps, i as int),
        decreases components@.len() - i,
    {
        if components[i].is_required() {
            if !r.as_str().is_empty() {
                push_str(&mut r, ", ");
            }
            let name = components[i].name();
            let s = to_case(name, TextCase::Snake);
            push_str(&mut r, s.as_str());
            push_str(&mut r, ": crate::field_types::");
            push_str(&mut r, name);
        }
        i += 1;
        assert(r@ =~= required_params_upto(ps, i as int));
    }
    r
}

/// The statements setting the required fields among the first `n` parts, one per line.
pub open spec fn new_setters_upto(ps: Seq<Part>, n: int) -> Seq<char>
    decreases n,
{
    if n <= 0 || n > ps.len() {
        Seq::empty()
    } else {
        let prev = new_setters_upto(ps, n - 1);
        if part_required(ps[n - 1]) {
            if prev.len() == 0 {
                ("inner.set_field("@ + field_id_text(part_name(ps[n - 1])) + ", "@ + snake_case(part_name(ps[n - 1])) + ")?;"@)
            } else {
                prev + "\n"@ + ("inner.set_field("@ + field_id_text(part_name(ps[n - 1])) + ", "@ + snake_case(part_name(ps[n - 1])) + ")?;"@)
            }
        } else {
            prev
        }
    }
}

fn format_new_setters(components: &[SubComponent]) -> (r: String)
    ensures
        r@ == new_setters_upto(parts_of(components@), components@.len() as int),
{
    let ghost ps = parts_of(components@);
    let mut r = String::new();
    let mut i: usize = 0;
    while i < components.len()
        invariant
            i <= components@.len(),
            ps == parts_of(components@),
            r@ == new_setters_upto(ps, i as int),
        decreases components@.len() - i,
    {
        if components[i].is_required() {
            if !r.as_str().is_empty() {
                push_str(&mut r, "\n");
            }
            let name = components[i].name();
            push_str(&mut r, "inner.set_field(");
            let id = format_field_id(name);
            push_str(&mut r, id.as_str());
            push_str(&mut r, ", ");
            let s = to_case(name, TextCase::Snake);
            push_str(&mut r, s.as_str());
            push_str(&mut r, ")?;");
        }
        i += 1;
        assert(r@ =~= new_setters_upto(ps, i as int));
    }
    r
}

/// The tag constants of the first `n` parts, comma separated.
pub open spec fn value_ids_upto(ps: Seq<Part>, n: int) -> Seq<char>
    decreases n,
{
    if n <= 0 || n > ps.len() {
        Seq::empty()
    } else {
        let prev = value_ids_upto(ps, n - 1);
        if true {
            if prev.len() == 0 {
                field_id_text(part_name(ps[n - 1]))
            } else {
                prev + ","@ + field_id_text(part_name(ps[n - 1]))
            }
        } else {
            prev
        }
    }
}

fn format_group_value_ids(components: &[SubComponent]) -> (r: String)
    ensures
        r@ == value_ids_upto(parts_of(components@), components@.len() as int),
{
    let ghost ps = parts_of(components@);
    let mut r = String::new();
    let mut i: usize = 0;
    while i < components.len()
        invariant
            i <= components@.len(),
            ps == parts_of(components@),
            r@ == value_ids_upto(ps, i as int),
        decreases components@.len() - i,
    {
        if true {
            if !r.as_str().is_empty() {
                push_str(&mut r, ",");
            }
            let name = components[i].name();
            let id = format_field_id(name);
            push_str(&mut r, id.as_str());
        }
        i += 1;
        assert(r@ =~= value_ids_upto(ps, i as int));
    }
    r
}

/// Some part is a group.
pub open spec fn has_group(ps: Seq<Part>) -> bool {
    exists|i: int| 0 <= i < ps.len() && #[trigger] ps[i] is Group
}

/// The code of a repeating group: its struct and constructor, the module of its
/// own groups, its getters and setters.
pub open spec fn group_text(name: Seq<char>, ps: Seq<Part>) -> Seq<char>
    decreases ps, 2int, 0int,
{
    (" #[derive(Debug, Clone)]\n            pub struct "@ + name + " {\n                pub(crate) inner: quickfix::Group,\n            }\n\n            impl "@ + name + " {\n                pub const FIELD_ID: i32 = "@ + field_id_text(name) + ";\n                pub const DELIMITER: i32 = "@ + field_id_text(part_name(ps[0])) + ";\n\n                #[allow(clippy::too_many_arguments)]\n                pub fn try_new("@ + required_params_upto(ps, ps.len() as int) + ") -> Result<Self, quickfix::QuickFixError> {\n                    #[allow(unused_mut)]\n                    let mut inner = quickfix::Group::try_with_orders(\n                        Self::FIELD_ID,\n                        Self::DELIMITER,\n                        &["@ + value_ids_upto(ps, ps.len() as int) + "],\n                    ).expect(\"Fail to build group "@ + name + "\");\n\n                    "@ + new_setters_upto(ps, ps.len() as int) + "\n\n                    Ok(Self { inner })\n                }\n            }\n\n            "@) + sub_components_text(snake_case(name), ps) + "impl "@ + name + " {\n\n"@
        + getters_upto(name, ps, Accessor::Inner, ps.len() as int) + setters_upto(
        name,
        ps,
        Accessor::Inner,
        ps.len() as int,
    ) + "}\n\n"@
}

/// The module of the groups among the parts, where there is one.
pub open spec fn sub_components_text(module: Seq<char>, ps: Seq<Part>) -> Seq<char>
    decreases ps, 1int, 0int,
{
    if has_group(ps) {
        (" pub mod "@ + module + " {\n                    use super::*;\n\n                    "@) + groups_upto(ps, ps.len() as int) + "}\n\n"@
    } else {
        Seq::empty()
    }
}

/// The code of the groups among the first `n` parts.
pub open spec fn groups_upto(ps: Seq<Part>, n: int) -> Seq<char>
    decreases ps, 0int, n,
{
    if n <= 0 || n > ps.len() {
        Seq::empty()
    } else {
        groups_upto(ps, n - 1) + match ps[n - 1] {
            Part::Group(g, qs) => group_text(g, qs),
            Part::Field(_, _) => Seq::empty(),
        }
    }
}

fn any_group(components: &[SubComponent]) -> (r: bool)
    ensures
        r == has_group(parts_of(components@)),
{
    let mut i: usize = 0;
    while i < components.len()
        invariant
            i <= components@.len(),
            forall|j: int| 0 <= j < i ==> !(#[trigger] parts_of(components@)[j] is Group),
        decreases components@.len() - i,
    {
        match &components[i] {
            SubComponent::Group(x) => {
                proof {
                    crate::code_spec::lemma_group_part(*x);
                    assert(parts_of(components@)[i as int] is Group);
                }
                return true;
            },
            SubComponent::Field(_) => {},
        }
        i += 1;
    }
    false
}

#[verifier::spinoff_prover]
#[verifier::rlimit(50)]
fn generate_group(output: &mut String, group: &MessageGroup)
    requires
        part_ok(Part::Group(group.name@, parts_of(group.components@))),
    ensures
        final(output)@ == old(output)@ + group_text(group.name@, parts_of(group.components@)),
    decreases group, 0int,
{
    let ghost name = group.name@;
    let ghost ps = parts_of(group.components@);
    let struct_name = group.name.as_str();
    let group_id = format_field_id(struct_name);
    let group_delim = format_field_id(group.components[0].name());
    let group_value_ids = format_group_value_ids(group.components.as_slice());
    let required_params = format_required_params(group.components.as_slice());
    let new_setters = format_new_setters(group.components.as_slice());
    push_str(output, " #[derive(Debug, Clone)]\n            pub struct ");
    push_str(output, struct_name);
    push_str(output, " {\n                pub(crate) inner: quickfix::Group,\n            }\n\n            impl ");
    push_str(output, struct_name);
    push_str(output, " {\n                pub const FIELD_ID: i32 = ");
    push_str(output, group_id.as_str());
    push_str(output, ";\n                pub const DELIMITER: i32 = ");
    push_str(output, group_delim.as_str());
    push_str(output, ";\n\n                #[allow(clippy::too_many_arguments)]\n                pub fn try_new(");
    push_str(output, required_params.as_str());
    push_str(output, ") -> Result<Self, quickfix::QuickFixError> {\n                    #[allow(unused_mut)]\n                    let mut inner = quickfix::Group::try_with_orders(\n                        Self::FIELD_ID,\n                        Self::DELIMITER,\n                        &[");
    push_str(output, group_value_ids.as_str());
    push_str(output, "],\n                    ).expect(\"Fail to build group ");
    push_str(output, struct_name);
    push_str(output, "\");\n\n                    ");
    push_str(output, new_setters.as_str());
    push_str(output, "\n\n                    Ok(Self { inner })\n                }\n            }\n\n            ");
    let ghost a = output@;
    assert(a =~= old(output)@ + (" #[derive(Debug, Clone)]\n            pub struct "@ + name + " {\n                pub(crate) inner: quickfix::Group,\n            }\n\n            impl "@ + name + " {\n                pub const FIELD_ID: i32 = "@ + field_id_text(name) + ";\n                pub const DELIMITER: i32 = "@ + field_id_text(part_name(ps[0])) + ";\n\n                #[allow(clippy::too_many_arguments)]\n                pub fn try_new("@ + required_params_upto(ps, ps.len() as int) + ") -> Result<Self, quickfix::QuickFixError> {\n                    #[allow(unused_mut)]\n                    let mut inner = quickfix::Group::try_with_orders(\n                        Self::FIELD_ID,\n                        Self::DELIMITER,\n                        &["@ + value_ids_upto(ps, ps.len() as int) + "],\n                    ).expect(\"Fail to build group "@ + name + "\");\n\n                    "@ + new_setters_upto(ps, ps.len() as int) + "\n\n                    Ok(Self { inner })\n                }\n            }\n\n            "@));
    let module_name = to_case(struct_name, TextCase::Snake);
    proof {
        assert forall|i: int| 0 <= i < ps.len() implies part_ok(#[trigger] ps[i]) by {}
    }
    generate_sub_components(output, module_name.as_str(), group.components.as_slice());
    push_str(output, "impl ");
    push_str(output, struct_name);
    push_str(output, " {\n\n");
    generate_components_getters(output, struct_name, group.components.as_slice(), &Accessor::Inner);
    generate_components_setters(output, struct_name, group.components.as_slice(), &Accessor::Inner);
    push_str(output, "}\n\n");
    assert(output@ =~= old(output)@ + group_text(group.name@, parts_of(group.components@)));
}

#[verifier::spinoff_prover]
#[verifier::rlimit(50)]
fn generate_sub_components(output: &mut String, module_name: &str, components: &[SubComponent])
    requires
        parts_ok(parts_of(components@)),
    ensures
        final(output)@ == old(output)@ + sub_components_text(module_name@, parts_of(components@)),
    decreases components@, 1int,
{
    let ghost module = module_name@;
    let ghost ps = parts_of(components@);
    if any_group(components) {
        push_str(output, " pub mod ");
        push_str(output, module_name);
        push_str(output, " {\n                    use super::*;\n\n                    ");
        let ghost base = output@;
        let mut i: usize = 0;
        while i < components.len()
            invariant
                i <= components@.len(),
                ps == parts_of(components@),
                parts_ok(ps),
                output@ == base + groups_upto(ps, i as int),
            decreases components@.len() - i,
        {
            match &components[i] {
                SubComponent::Group(x) => {
                    proof {
                        crate::code_spec::lemma_group_part(*x);
                        assert(part_ok(ps[i as int]));
                    }
                    assert(decreases_to!(components@ => components@[i as int]));
                    generate_group(output, x);
                },
                SubComponent::Field(_) => {},
            }
            i += 1;
            assert(output@ =~= base + groups_upto(ps, i as int));
        }
        push_str(output, "}\n\n");
        assert(output@ =~= old(output)@ + sub_components_text(module_name@, parts_of(components@)));
    } else {
        assert(output@ =~= old(output)@ + sub_components_text(module_name@, parts_of(components@)));
    }
}

/// The read wrapper of the header or the trailer of a message.
pub open spec fn wrapper_reader_text(sname: Seq<char>, ps: Seq<Part>, acc: Accessor) -> Seq<char> {
    (" #[derive(Debug)]\n            pub struct "@ + sname + "<'a> { inner: &'a quickfix::Message }\n\n            "@) + sub_components_text(snake_case(sname), ps) + "impl "@ + sname + "<'_> {\n"@
        + getters_upto(sname, ps, acc, ps.len() as int) + "}\n\n"@
}

/// The write wrapper of the header or the trailer of a message.
pub open spec fn wrapper_writer_text(sname: Seq<char>, ps: Seq<Part>, acc: Accessor) -> Seq<char> {
    (" #[derive(Debug)]\n            pub struct "@ + sname + "Mut<'a> { inner: &'a mut quickfix::Message }\n\n            "@) + "impl "@ + sname + "Mut<'_> {\n"@ + setters_upto(sname, ps, acc, ps.len() as int) + "}\n\n"@
}

/// The read and write wrappers of the header or the trailer of a message.
pub open spec fn message_wrapper_text(sname: Seq<char>, ps: Seq<Part>, acc: Accessor) -> Seq<char> {
    wrapper_reader_text(sname, ps, acc) + wrapper_writer_text(sname, ps, acc)
}

#[verifier::spinoff_prover]
#[verifier::rlimit(50)]
fn generate_wrapper_reader(output: &mut String, struct_name: &str, components: &[SubComponent], accessor: &Accessor)
    requires
        parts_ok(parts_of(components@)),
    ensures
        final(output)@ == old(output)@ + wrapper_reader_text(struct_name@, parts_of(components@), *accessor),
{
    let ghost sname = struct_name@;
    push_str(output, " #[derive(Debug)]\n            pub struct ");
    push_str(output, struct_name);
    push_str(output, "<'a> { inner: &'a quickfix::Message }\n\n            ");
    let module_name = to_case(struct_name, TextCase::Snake);
    generate_sub_components(output, module_name.as_str(), components);
    push_str(output, "impl ");
    push_str(output, struct_name);
    push_str(output, "<'_> {\n");
    generate_components_getters(output, struct_name, components, accessor);
    push_str(output, "}\n\n");
    assert(output@ =~= old(output)@ + wrapper_reader_text(struct_name@, parts_of(components@), *accessor));
}

#[verifier::spinoff_prover]
#[verifier::rlimit(50)]
fn generate_wrapper_writer(output: &mut String, struct_name: &str, components: &[SubComponent], accessor: &Accessor)
    ensures
        final(output)@ == old(output)@ + wrapper_writer_text(struct_name@, parts_of(components@), *accessor),
{
    let ghost sname = struct_name@;
    push_str(output, " #[derive(Debug)]\n            pub struct ");
    push_str(output, struct_name);
    push_str(output, "Mut<'a> { inner: &'a mut quickfix::Message }\n\n            ");
    push_str(output, "impl ");
    push_str(output, struct_name);
    push_str(output, "Mut<'_> {\n");
    generate_components_setters(output, struct_name, components, accessor);
    push_str(output, "}\n\n");
    assert(output@ =~= old(output)@ + wrapper_writer_text(struct_name@, parts_of(components@), *accessor));
}

#[verifier::spinoff_prover]
#[verifier::rlimit(50)]
fn generate_message_wrapper(output: &mut String, struct_name: &str, components: &[SubComponent], accessor: &Accessor)
    requires
        parts_ok(parts_of(components@)),
    ensures
        final(output)@ == old(output)@ + message_wrapper_text(struct_name@, parts_of(components@), *accessor),
{
    generate_wrapper_reader(output, struct_name, components, accessor);
    generate_wrapper_writer(output, struct_name, components, accessor);
    assert(output@ =~= old(output)@ + message_wrapper_text(struct_name@, parts_of(components@), *accessor));
}


/// The wrappers of the header.
pub open spec fn headers_text(ps: Seq<Part>) -> Seq<char> {
    message_wrapper_text("Header"@, ps, Accessor::Header)
}

/// The wrappers of the trailer.
pub open spec fn trailers_text(ps: Seq<Part>) -> Seq<char> {
    message_wrapper_text("Trailer"@, ps, Accessor::Trailer)
}

#[verifier::spinoff_prover]
#[verifier::rlimit(50)]
fn generate_headers(output: &mut String, components: &[SubComponent])
    requires
        parts_ok(parts_of(components@)),
    ensures
        final(output)@ == old(output)@ + headers_text(parts_of(components@)),
{
    generate_message_wrapper(output, "Header", components, &Accessor::Header);
}

#[verifier::spinoff_prover]
#[verifier::rlimit(50)]
fn generate_trailers(output: &mut String, components: &[SubComponent])
    requires
        parts_ok(parts_of(components@)),
    ensures
        final(output)@ == old(output)@ + trailers_text(parts_of(components@)),
{
    generate_message_wrapper(output, "Trailer", components, &Accessor::Trailer);
}

/// The code of a message: its struct, conversions, constructor, the module of
/// its groups, its getters and setters.
pub open spec fn message_text(name: Seq<char>, msg_type: Seq<char>, ps: Seq<Part>) -> Seq<char> {
    (" #[derive(Debug, Clone)]\n            pub struct "@ + name + " {\n                inner: quickfix::Message,\n            }\n\n            impl "@ + name + " {\n                pub const MSG_TYPE_BYTES: &'static str = \""@ + msg_type + "\";\n                pub const MSG_TYPE: crate::field_types::MsgType =\n                    match crate::field_types::MsgType::from_const_bytes(Self::MSG_TYPE_BYTES.as_bytes()) {\n                        Ok(value) => value,\n                        Err(_) => panic!(\"Invalid message type for "@ + name + "\"),\n                    };\n\n                #[inline(always)]\n                pub fn header(&mut self) -> Header {\n                    Header { inner: &self.inner }\n                }\n\n                #[inline(always)]\n                pub fn header_mut(&mut self) -> HeaderMut {\n                    HeaderMut { inner: &mut self.inner }\n                }\n\n                #[inline(always)]\n                pub fn trailer(&mut self) -> Trailer {\n                    Trailer { inner: &self.inner }\n                }\n\n                #[inline(always)]\n                pub fn trailer_mut(&mut self) -> TrailerMut {\n                    TrailerMut { inner: &mut self.inner }\n                }\n\n                /// Convert inner message as FIX text.\n                ///\n                /// This method is only here for debug / tests purposes. Do not use this\n                /// in real production code.\n                #[inline(never)]\n                pub fn to_fix_string(&self) -> String {\n                    self.inner\n                        .to_fix_string()\n                        .expect(\"Fail to format "@ + name + " message as FIX string\")\n                }\n            }\n\n            impl From<"@ + name + "> for quickfix::Message {\n                fn from(input: "@ + name + ") -> Self {\n                    input.inner\n                }\n            }\n\n            impl From<quickfix::Message> for "@ + name + " {\n                fn from(input: quickfix::Message) -> Self {\n                    assert_eq!(\n                        input\n                            .with_header(|h| h.get_field(field_id::MSG_TYPE))\n                            .and_then(|x| crate::field_types::MsgType::from_const_bytes(x.as_bytes()).ok()),\n                        Some(Self::MSG_TYPE),\n                    );\n                    Self { inner: input }\n                }\n            }\n\n            "@) + (" impl "@ + name + " {\n                #[allow(clippy::too_many_arguments)]\n                pub fn try_new("@ + required_params_upto(ps, ps.len() as int) + ") -> Result<Self, quickfix::QuickFixError> {\n                    let mut inner = quickfix::Message::new();\n\n                    // Set headers (most of them will be set by quickfix library).\n                    inner.with_header_mut(|h| {\n                        h.set_field(crate::field_id::BEGIN_STRING, crate::FIX_BEGIN_STRING)\n                    })?;\n                    inner.with_header_mut(|h| {\n                        h.set_field(crate::field_id::MSG_TYPE, Self::MSG_TYPE)\n                    })?;\n\n                    // Set required attributes.\n                    "@ + new_setters_upto(ps, ps.len() as int) + "\n\n                    Ok(Self { inner })\n                }\n            }\n\n            "@) + sub_components_text(snake_case(name), ps) + "impl "@ + name + " {\n\n"@
        + getters_upto(name, ps, Accessor::Inner, ps.len() as int) + setters_upto(
        name,
        ps,
        Accessor::Inner,
        ps.len() as int,
    ) + "}\n\n"@
}

/// The code of a message specification.
pub open spec fn message_spec_text(m: MessageSpec) -> Seq<char> {
    message_text(m.name@, m.msg_type@, parts_of(m.components@))
}

#[verifier::spinoff_prover]
#[verifier::rlimit(50)]
fn generate_message(output: &mut String, message: &MessageSpec)
    requires
        parts_ok(parts_of(message.components@)),
    ensures
        final(output)@ == old(output)@ + message_spec_text(*message),
{
    let ghost name = message.name@;
    let ghost msg_type = message.msg_type@;
    let ghost ps = parts_of(message.components@);
    let struct_name = message.name.as_str();
    let msg_type_text = message.msg_type.as_str();
    push_str(output, " #[derive(Debug, Clone)]\n            pub struct ");
    push_str(output, struct_name);
    push_str(output, " {\n                inner: quickfix::Message,\n            }\n\n            impl ");
    push_str(output, struct_name);
    push_str(output, " {\n                pub const MSG_TYPE_BYTES: &'static str = \"");
    push_str(output, msg_type_text);
    push_str(output, "\";\n                pub const MSG_TYPE: crate::field_types::MsgType =\n                    match crate::field_types::MsgType::from_const_bytes(Self::MSG_TYPE_BYTES.as_bytes()) {\n                        Ok(value) => value,\n                        Err(_) => panic!(\"Invalid message type for ");
    push_str(output, struct_name);
    push_str(output, "\"),\n                    };\n\n                #[inline(always)]\n                pub fn header(&mut self) -> Header {\n                    Header { inner: &self.inner }\n                }\n\n                #[inline(always)]\n                pub fn header_mut(&mut self) -> HeaderMut {\n                    HeaderMut { inner: &mut self.inner }\n                }\n\n                #[inline(always)]\n                pub fn trailer(&mut self) -> Trailer {\n                    Trailer { inner: &self.inner }\n                }\n\n                #[inline(always)]\n                pub fn trailer_mut(&mut self) -> TrailerMut {\n                    TrailerMut { inner: &mut self.inner }\n                }\n\n                /// Convert inner message as FIX text.\n                ///\n                /// This method is only here for debug / tests purposes. Do not use this\n                /// in real production code.\n                #[inline(never)]\n                pub fn to_fix_string(&self) -> String {\n                    self.inner\n                        .to_fix_string()\n                        .expect(\"Fail to format ");
    push_str(output, struct_name);
    push_str(output, " message as FIX string\")\n                }\n            }\n\n            impl From<");
    push_str(output, struct_name);
    push_str(output, "> for quickfix::Message {\n                fn from(input: ");
    push_str(output, struct_name);
    push_str(output, ") -> Self {\n                    input.inner\n                }\n            }\n\n            impl From<quickfix::Message> for ");
    push_str(output, struct_name);
    push_str(output, " {\n                fn from(input: quickfix::Message) -> Self {\n                    assert_eq!(\n                        input\n                            .with_header(|h| h.get_field(field_id::MSG_TYPE))\n                            .and_then(|x| crate::field_types::MsgType::from_const_bytes(x.as_bytes()).ok()),\n                        Some(Self::MSG_TYPE),\n                    );\n                    Self { inner: input }\n                }\n            }\n\n            ");
    let required_params = format_required_params(message.components.as_slice());
    let new_setters = format_new_setters(message.components.as_slice());
    push_str(output, " impl ");
    push_str(output, struct_name);
    push_str(output, " {\n                #[allow(clippy::too_many_arguments)]\n                pub fn try_new(");
    push_str(output, required_params.as_str());
    push_str(output, ") -> Result<Self, quickfix::QuickFixError> {\n                    let mut inner = quickfix::Message::new();\n\n                    // Set headers (most of them will be set by quickfix library).\n                    inner.with_header_mut(|h| {\n                        h.set_field(crate::field_id::BEGIN_STRING, crate::FIX_BEGIN_STRING)\n                    })?;\n                    inner.with_header_mut(|h| {\n                        h.set_field(crate::field_id::MSG_TYPE, Self::MSG_TYPE)\n                    })?;\n\n                    // Set required attributes.\n                    ");
    push_str(output, new_setters.as_str());
    push_str(output, "\n\n                    Ok(Self { inner })\n                }\n            }\n\n            ");
    let ghost a = output@;
    assert(a =~= old(output)@ + (" #[derive(Debug, Clone)]\n            pub struct "@ + name + " {\n                inner: quickfix::Message,\n            }\n\n            impl "@ + name + " {\n                pub const MSG_TYPE_BYTES: &'static str = \""@ + msg_type + "\";\n                pub const MSG_TYPE: crate::field_types::MsgType =\n                    match crate::field_types::MsgType::from_const_bytes(Self::MSG_TYPE_BYTES.as_bytes()) {\n                        Ok(value) => value,\n                        Err(_) => panic!(\"Invalid message type for "@ + name + "\"),\n                    };\n\n                #[inline(always)]\n                pub fn header(&mut self) -> Header {\n                    Header { inner: &self.inner }\n                }\n\n                #[inline(always)]\n                pub fn header_mut(&mut self) -> HeaderMut {\n                    HeaderMut { inner: &mut self.inner }\n                }\n\n                #[inline(always)]\n                pub fn trailer(&mut self) -> Trailer {\n                    Trailer { inner: &self.inner }\n                }\n\n                #[inline(always)]\n                pub fn trailer_mut(&mut self) -> TrailerMut {\n                    TrailerMut { inner: &mut self.inner }\n                }\n\n                /// Convert inner message as FIX text.\n                ///\n                /// This method is only here for debug / tests purposes. Do not use this\n                /// in real production code.\n                #[inline(never)]\n                pub fn to_fix_string(&self) -> String {\n                    self.inner\n                        .to_fix_string()\n                        .expect(\"Fail to format "@ + name + " message as FIX string\")\n                }\n            }\n\n            impl From<"@ + name + "> for quickfix::Message {\n                fn from(input: "@ + name + ") -> Self {\n                    input.inner\n                }\n            }\n\n            impl From<quickfix::Message> for "@ + name + " {\n                fn from(input: quickfix::Message) -> Self {\n                    assert_eq!(\n                        input\n                            .with_header(|h| h.get_field(field_id::MSG_TYPE))\n                            .and_then(|x| crate::field_types::MsgType::from_const_bytes(x.as_bytes()).ok()),\n                        Some(Self::MSG_TYPE),\n                    );\n                    Self { inner: input }\n                }\n            }\n\n            "@) + (" impl "@ + name + " {\n                #[allow(clippy::too_many_arguments)]\n                pub fn try_new("@ + required_params_upto(ps, ps.len() as int) + ") -> Result<Self, quickfix::QuickFixError> {\n                    let mut inner = quickfix::Message::new();\n\n                    // Set headers (most of them will be set by quickfix library).\n                    inner.with_header_mut(|h| {\n                        h.set_field(crate::field_id::BEGIN_STRING, crate::FIX_BEGIN_STRING)\n                    })?;\n                    inner.with_header_mut(|h| {\n                        h.set_field(crate::field_id::MSG_TYPE, Self::MSG_TYPE)\n                    })?;\n\n                    // Set required attributes.\n                    "@ + new_setters_upto(ps, ps.len() as int) + "\n\n                    Ok(Self { inner })\n                }\n            }\n\n            "@));
    let module_name = to_case(struct_name, TextCase::Snake);
    generate_sub_components(output, module_name.as_str(), message.components.as_slice());
    push_str(output, "impl ");
    push_str(output, struct_name);
    push_str(output, " {\n\n");
    generate_components_getters(output, struct_name, message.components.as_slice(), &Accessor::Inner);
    generate_components_setters(output, struct_name, message.components.as_slice(), &Accessor::Inner);
    push_str(output, "}\n\n");
    assert(output@ =~= old(output)@ + message_spec_text(*message));
}

/// The code of the first `n` messages.
pub open spec fn messages_upto(ms: Seq<MessageSpec>, n: int) -> Seq<char>
    decreases n,
{
    if n <= 0 || n > ms.len() {
        Seq::empty()
    } else {
        messages_upto(ms, n - 1) + message_spec_text(ms[n - 1])
    }
}

/// The parts of every message are well formed.
pub open spec fn messages_ok(ms: Seq<MessageSpec>) -> bool {
    forall|i: int| 0 <= i < ms.len() ==> parts_ok(parts_of(#[trigger] ms[i].components@))
}

#[verifier::spinoff_prover]
#[verifier::rlimit(50)]
fn generate_messages(output: &mut String, messages: &[MessageSpec])
    requires
        messages_ok(messages@),
    ensures
        final(output)@ == old(output)@ + messages_upto(messages@, messages@.len() as int),
{
    let ghost base = output@;
    let mut i: usize = 0;
    while i < messages.len()
        invariant
            i <= messages@.len(),
            messages_ok(messages@),
            output@ == base + messages_upto(messages@, i as int),
        decreases messages@.len() - i,
    {
        assert(parts_ok(parts_of(messages@[i as int].components@)));
        generate_message(output, &messages[i]);
        i += 1;
        assert(output@ =~= base + messages_upto(messages@, i as int));
    }
}

/// The variant of the decoded message enum for a message.
pub open spec fn cracker_variant(m: MessageSpec) -> Seq<char> {
    "  "@ + m.name@ + "("@ + m.name@ + "),\n"@
}

/// The decoding arm of a message.
pub open spec fn cracker_arm(m: MessageSpec) -> Seq<char> {
    "  Some(\""@ + m.msg_type@ + "\") => Ok(Self::"@ + m.name@ + "(input.into())),\n"@
}

/// The variants of the first `n` messages.
pub open spec fn cracker_variants(ms: Seq<MessageSpec>, n: int) -> Seq<char>
    decreases n,
{
    if n <= 0 || n > ms.len() {
        Seq::empty()
    } else {
        cracker_variants(ms, n - 1) + cracker_variant(ms[n - 1])
    }
}

/// The decoding arms of the first `n` messages.
pub open spec fn cracker_arms(ms: Seq<MessageSpec>, n: int) -> Seq<char>
    decreases n,
{
    if n <= 0 || n > ms.len() {
        Seq::empty()
    } else {
        cracker_arms(ms, n - 1) + cracker_arm(ms[n - 1])
    }
}

/// The enum of all messages and its decoder.
pub open spec fn cracker_text(ms: Seq<MessageSpec>) -> Seq<char> {
    " #[derive(Debug, Clone)]\n            pub enum Messages {\n            "@ + cracker_variants(ms, ms.len() as int) + " }\n            "@ + " impl Messages {\n                /// Try decoding input message or return the message if it does not match any known message type.\n                pub fn decode(input: quickfix::Message) -> Result<Self, quickfix::Message> {\n                    match input\n                        .with_header(|h| h.get_field(crate::field_id::MSG_TYPE))\n                        .as_deref()\n                    {\n            "@ + cracker_arms(
        ms,
        ms.len() as int,
    ) + "             _ => Err(input),\n                    }\n                }\n            }\n            "@
}

#[verifier::spinoff_prover]
#[verifier::rlimit(50)]
fn generate_message_cracker(output: &mut String, messages: &[MessageSpec])
    ensures
        final(output)@ == old(output)@ + cracker_text(messages@),
{
    push_str(output, " #[derive(Debug, Clone)]\n            pub enum Messages {\n            ");
    let ghost a = output@;
    let mut i: usize = 0;
    while i < messages.len()
        invariant
            i <= messages@.len(),
            output@ == a + cracker_variants(messages@, i as int),
        decreases messages@.len() - i,
    {
        let struct_name = messages[i].name.as_str();
        push_str(output, "  ");
        push_str(output, struct_name);
        push_str(output, "(");
        push_str(output, struct_name);
        push_str(output, "),\n");
        i += 1;
        assert(output@ =~= a + cracker_variants(messages@, i as int));
    }
    push_str(output, " }\n            ");
    push_str(output, " impl Messages {\n                /// Try decoding input message or return the message if it does not match any known message type.\n                pub fn decode(input: quickfix::Message) -> Result<Self, quickfix::Message> {\n                    match input\n                        .with_header(|h| h.get_field(crate::field_id::MSG_TYPE))\n                        .as_deref()\n                    {\n            ");
    let ghost b = output@;
    let mut i: usize = 0;
    while i < messages.len()
        invariant
            i <= messages@.len(),
            output@ == b + cracker_arms(messages@, i as int),
        decreases messages@.len() - i,
    {
        let struct_name = messages[i].name.as_str();
        let message_type = messages[i].msg_type.as_str();
        push_str(output, "  Some(\"");
        push_str(output, message_type);
        push_str(output, "\") => Ok(Self::");
        push_str(output, struct_name);
        push_str(output, "(input.into())),\n");
        i += 1;
        assert(output@ =~= b + cracker_arms(messages@, i as int));
    }
    push_str(output, "             _ => Err(input),\n                    }\n                }\n            }\n            ");
    assert(output@ =~= old(output)@ + cracker_text(messages@));
}

/// Every group of the headers, the trailers and the messages holds at least one
/// part.
pub open spec fn code_spec_ok(spec: FixCodeSpec) -> bool {
    &&& parts_ok(parts_of(spec.headers@))
    &&& parts_ok(parts_of(spec.trailers@))
    &&& messages_ok(spec.messages@)
}

/// The whole generated code of a specification, before formatting.
pub open spec fn code_text(spec: FixCodeSpec, begin_string: Seq<char>) -> Seq<char> {
    root_text(begin_string) + field_ids_text(spec.field_specs@) + field_types_text(spec.field_specs@)
        + headers_text(parts_of(spec.headers@)) + trailers_text(parts_of(spec.trailers@)) + messages_upto(
        spec.messages@,
        spec.messages@.len() as int,
    ) + cracker_text(spec.messages@)
}

/// The code generated for a specification, before formatting: the root items,
/// the field tags and types, the header and trailer wrappers, the messages and
/// the message decoder.
#[verifier::spinoff_prover]
#[verifier::rlimit(50)]
pub fn generate_code(spec: &FixCodeSpec, begin_string: &str) -> (r: String)
    requires
        code_spec_ok(*spec),
    ensures
        r@ == code_text(*spec, begin_string@),
{
    let mut output = String::new();
    generate_root(&mut output, begin_string);
    generate_field_ids(&mut output, spec.field_specs.as_slice());
    generate_field_types(&mut output, spec.field_specs.as_slice());
    generate_headers(&mut output, spec.headers.as_slice());
    generate_trailers(&mut output, spec.trailers.as_slice());
    generate_messages(&mut output, spec.messages.as_slice());
    generate_message_cracker(&mut output, spec.messages.as_slice());
    assert(output@ =~= code_text(*spec, begin_string@));
    output
}

fn part_is_ok(c: &SubComponent) -> (r: bool)
    ensures
        r == part_ok(c@),
    decreases *c, 0nat,
{
    match c {
        SubComponent::Field(_) => true,
        SubComponent::Group(g) => {
            proof {
                lemma_group_part(*g);
            }
            g.components.len() > 0 && parts_are_ok(&g.components)
        },
    }
}

fn parts_are_ok(v: &Vec<SubComponent>) -> (r: bool)
    ensures
        r == parts_ok(parts_of(v@)),
    decreases v@, v@.len(),
{
    let mut i: usize = 0;
    while i < v.len()
        invariant
            i <= v@.len(),
            forall|j: int| 0 <= j < i ==> part_ok(#[trigger] parts_of(v@)[j]),
        decreases v@.len() - i,
    {
        assert(decreases_to!(v@ => v@[i as int]));
        if !part_is_ok(&v[i]) {
            assert(!part_ok(parts_of(v@)[i as int]));
            return false;
        }
        i += 1;
    }
    true
}

/// Whether code can be generated for a specification: every group of its
/// headers, trailers and messages holds at least one part, at any depth.
pub fn can_generate(spec: &FixCodeSpec) -> (r: bool)
    ensures
        r == code_spec_ok(*spec),
{
    if !parts_are_ok(&spec.headers) || !parts_are_ok(&spec.trailers) {
        return false;
    }
    let mut i: usize = 0;
    while i < spec.messages.len()
        invariant
            i <= spec.messages@.len(),
            parts_ok(parts_of(spec.headers@)),
            parts_ok(parts_of(spec.trailers@)),
            forall|j: int| 0 <= j < i ==> parts_ok(parts_of(#[trigger] spec.messages@[j].components@)),
        decreases spec.messages@.len() - i,
    {
        if !parts_are_ok(&spec.messages[i].components) {
            return false;
        }
        i += 1;
    }
    true
}

} // verus!
