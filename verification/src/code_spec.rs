//! What the message code generator works from: the field definitions, and the
//! headers, trailers and messages with their components expanded.

use vstd::prelude::*;
use crate::fix_spec::{FieldAllowedValue, FieldSpec};

verus! {

/// A specification ready for code generation.
pub struct FixCodeSpec {
    pub field_specs: Vec<FieldSpec>,
    pub headers: Vec<SubComponent>,
    pub trailers: Vec<SubComponent>,
    pub messages: Vec<MessageSpec>,
}

/// A message: its name, its type and its parts.
pub struct MessageSpec {
    pub name: String,
    pub msg_type: String,
    pub components: Vec<SubComponent>,
}

/// A part of a message, a header, a trailer or a group.
pub enum SubComponent {
    Field(MessageField),
    Group(MessageGroup),
}

/// A field of a message.
pub struct MessageField {
    pub name: String,
    pub required: bool,
}

/// A repeating group of a message, with its own parts.
pub struct MessageGroup {
    pub name: String,
    pub components: Vec<SubComponent>,
}

/// What a part is: a field with its name and whether it is required, or a group
/// with its name and parts.
pub enum Part {
    Field(Seq<char>, bool),
    Group(Seq<char>, Seq<Part>),
}

/// The model of a part.
pub open spec fn part_of(c: SubComponent) -> Part
    decreases c,
{
    match c {
        SubComponent::Field(f) => Part::Field(f.name@, f.required),
        SubComponent::Group(g) => Part::Group(
            g.name@,
            Seq::new(
                g.components@.len(),
                |i: int|
                    if 0 <= i < g.components@.len() {
                        part_of(g.components@[i])
                    } else {
                        arbitrary()
                    },
            ),
        ),
    }
}

impl View for SubComponent {
    type V = Part;

    open spec fn view(&self) -> Part {
        part_of(*self)
    }
}

/// The models of a list of parts.
pub open spec fn parts_of(v: Seq<SubComponent>) -> Seq<Part> {
    v.map_values(|c: SubComponent| c@)
}

/// The name of a part.
pub open spec fn part_name(p: Part) -> Seq<char> {
    match p {
        Part::Field(n, _) => n,
        Part::Group(n, _) => n,
    }
}

/// The names of a list of parts.
pub open spec fn part_names(s: Seq<Part>) -> Seq<Seq<char>> {
    s.map_values(|p: Part| part_name(p))
}

/// A part is a required field (a group never is).
pub open spec fn part_required(p: Part) -> bool {
    match p {
        Part::Field(_, r) => r,
        Part::Group(_, _) => false,
    }
}

/// The model of a group part, from its parts.
pub proof fn lemma_group_part(g: MessageGroup)
    ensures
        SubComponent::Group(g)@ == Part::Group(g.name@, parts_of(g.components@)),
{
    let p = SubComponent::Group(g)@;
    match p {
        Part::Group(n, ps) => {
            assert(ps =~= parts_of(g.components@));
        },
        Part::Field(_, _) => {},
    }
}

impl SubComponent {
    /// The name of the part.
    pub fn name(&self) -> (r: &str)
        ensures
            r@ == part_name(self@),
    {
        match self {
            SubComponent::Field(x) => x.name.as_str(),
            SubComponent::Group(x) => x.name.as_str(),
        }
    }

    /// Whether the part is a required field; a group never counts as required.
    pub fn is_required(&self) -> (r: bool)
        ensures
            r == part_required(self@),
    {
        match self {
            SubComponent::Field(x) => x.required,
            SubComponent::Group(_) => false,
        }
    }
}

/// A copy of a part, its groups included.
pub fn clone_part(c: &SubComponent) -> (r: SubComponent)
    ensures
        r@ == c@,
    decreases c,
{
    match c {
        SubComponent::Field(f) => SubComponent::Field(MessageField { name: f.name.clone(), required: f.required }),
        SubComponent::Group(g) => {
            let mut v: Vec<SubComponent> = Vec::new();
            let mut i: usize = 0;
            while i < g.components.len()
                invariant
                    *c is Group && c->Group_0 == *g,
                    i <= g.components@.len(),
                    v@.len() == i,
                    forall|j: int| 0 <= j < i ==> (#[trigger] v@[j])@ == g.components@[j]@,
                decreases g.components@.len() - i,
            {
                v.push(clone_part(&g.components[i]));
                i += 1;
            }
            let r = SubComponent::Group(MessageGroup { name: g.name.clone(), components: v });
            assert(part_of(r) == part_of(*c)) by {
                assert(match part_of(r) {
                    Part::Group(_, ps) => ps =~= match part_of(*c) {
                        Part::Group(_, qs) => qs,
                        _ => ps,
                    },
                    _ => true,
                });
            }
            r
        },
    }
}

/// Two field definitions say the same.
pub open spec fn same_field_spec(a: FieldSpec, b: FieldSpec) -> bool {
    &&& a.number == b.number
    &&& a.name@ == b.name@
    &&& a.field_type == b.field_type
    &&& a.values@.len() == b.values@.len()
    &&& forall|i: int|
        0 <= i < a.values@.len() ==> (#[trigger] a.values@[i]).value@ == b.values@[i].value@
            && a.values@[i].description@ == b.values@[i].description@
}

/// A copy of a field definition.
pub fn clone_field_spec(f: &FieldSpec) -> (r: FieldSpec)
    ensures
        same_field_spec(r, *f),
{
    let mut values: Vec<FieldAllowedValue> = Vec::new();
    let mut i: usize = 0;
    while i < f.values.len()
        invariant
            i <= f.values@.len(),
            values@.len() == i,
            forall|j: int|
                0 <= j < i ==> (#[trigger] values@[j]).value@ == f.values@[j].value@ && values@[j].description@
                    == f.values@[j].description@,
        decreases f.values@.len() - i,
    {
        values.push(
            FieldAllowedValue { value: f.values[i].value.clone(), description: f.values[i].description.clone() },
        );
        i += 1;
    }
    FieldSpec { number: f.number, name: f.name.clone(), field_type: f.field_type, values }
}

} // verus!
