//! From a FIX specification to what the code generator works from: components
//! are expanded in place, and within each list of parts a name is kept once,
//! where it first comes.

use vstd::prelude::*;
use crate::code_spec::{
    clone_field_spec, part_name, part_names, parts_of, same_field_spec, FixCodeSpec, MessageField,
    MessageGroup, MessageSpec, Part, SubComponent,
};
use crate::fix_spec::{ComponentSpec, FieldSpec, FieldValue, FixSpec, Message};
use crate::assoc::{text_list_contains, text_set_insert, texts};

verus! {

/// Index of the first component definition with the name from the `i`-th on, or -1.
pub open spec fn first_component_from(comps: Seq<ComponentSpec>, name: Seq<char>, i: int) -> int
    decreases comps.len() - i,
{
    if i < 0 || i >= comps.len() {
        -1
    } else if comps[i].name@ == name {
        i
    } else {
        first_component_from(comps, name, i + 1)
    }
}

/// Index of the first component definition with the name, or -1.
pub open spec fn first_component(comps: Seq<ComponentSpec>, name: Seq<char>) -> int {
    first_component_from(comps, name, 0)
}

/// The parts one value expands to: a field or a group as one part, a component
/// as the parts of its (first) definition. `None` where a component is missing
/// or more than `fuel` component expansions are nested.
pub open spec fn expand_value(fv: FieldValue, comps: Seq<ComponentSpec>, fuel: nat) -> Option<Seq<Part>>
    decreases fuel, fv, 0int,
{
    match fv {
        FieldValue::Field(f) => Some(seq![Part::Field(f.name@, f.required)]),
        FieldValue::Group(g) => match convert_values(g.values@, comps, fuel) {
            Some(ps) => Some(seq![Part::Group(g.name@, ps)]),
            None => None,
        },
        FieldValue::Component(c) => {
            let k = first_component(comps, c.name@);
            if 0 <= k < comps.len() && fuel > 0 {
                convert_values(comps[k].values@, comps, (fuel - 1) as nat)
            } else {
                None
            }
        },
    }
}

/// The parts the values from the `i`-th on expand to, one after the other.
pub open spec fn expand_from(vals: Seq<FieldValue>, i: int, comps: Seq<ComponentSpec>, fuel: nat) -> Option<Seq<Part>>
    decreases fuel, vals, vals.len() - i,
{
    if 0 <= i < vals.len() {
        match (expand_value(vals[i], comps, fuel), expand_from(vals, i + 1, comps, fuel)) {
            (Some(a), Some(b)) => Some(a + b),
            _ => None,
        }
    } else {
        Some(Seq::empty())
    }
}

/// The parts a list of values converts to: their expansions, each name kept
/// once, where it first comes.
pub open spec fn convert_values(vals: Seq<FieldValue>, comps: Seq<ComponentSpec>, fuel: nat) -> Option<Seq<Part>>
    decreases fuel, vals, vals.len() + 1,
{
    match expand_from(vals, 0, comps, fuel) {
        Some(ps) => Some(unique_parts(ps)),
        None => None,
    }
}

/// The parts with each name kept once, where it first comes.
pub open spec fn unique_parts(s: Seq<Part>) -> Seq<Part>
    decreases s.len(),
{
    if s.len() == 0 {
        s
    } else {
        let r = unique_parts(s.drop_last());
        if part_names(s.drop_last()).contains(part_name(s.last())) {
            r
        } else {
            r.push(s.last())
        }
    }
}

/// The list converts: every component it reaches is defined, and no chain of
/// component references is longer than the number of definitions (a longer one
/// goes round a cycle, which would never end).
pub open spec fn converts(vals: Seq<FieldValue>, comps: Seq<ComponentSpec>) -> bool {
    convert_values(vals, comps, comps.len()) is Some
}

/// The headers, the trailers and every message of the specification convert.
pub open spec fn spec_converts(src: FixSpec) -> bool {
    &&& converts(src.headers@, src.component_specs@)
    &&& converts(src.trailers@, src.component_specs@)
    &&& forall|i: int|
        0 <= i < src.messages@.len() ==> converts(#[trigger] src.messages@[i].values@, src.component_specs@)
}

/// The parts a list of values converts to, in a specification.
pub open spec fn converted(vals: Seq<FieldValue>, comps: Seq<ComponentSpec>) -> Seq<Part> {
    convert_values(vals, comps, comps.len())->0
}

/// Position of the first component definition with the name.
fn find_first_component(comps: &Vec<ComponentSpec>, name: &str) -> (r: Option<usize>)
    ensures
        match r {
            Some(k) => k as int == first_component(comps@, name@),
            None => first_component(comps@, name@) == -1,
        },
{
    let mut i: usize = 0;
    while i < comps.len()
        invariant
            i <= comps@.len(),
            first_component(comps@, name@) == first_component_from(comps@, name@, i as int),
        decreases comps@.len() - i,
    {
        if crate::text::text_eq(comps[i].name.as_str(), name) {
            return Some(i);
        }
        i += 1;
    }
    None
}

proof fn lemma_first_component_range(comps: Seq<ComponentSpec>, name: Seq<char>, i: int)
    ensures
        first_component_from(comps, name, i) == -1 || (i <= first_component_from(comps, name, i) < comps.len()),
    decreases comps.len() - i,
{
    if 0 <= i < comps.len() && comps[i].name@ != name {
        lemma_first_component_range(comps, name, i + 1);
    }
}

/// Keeps each name once, where it first comes.
fn unique_by_name(v: Vec<SubComponent>) -> (r: Vec<SubComponent>)
    ensures
        parts_of(r@) == unique_parts(parts_of(v@)),
{
    let ghost s = parts_of(v@);
    let mut seen: Vec<String> = Vec::new();
    let mut out: Vec<SubComponent> = Vec::new();
    let mut i: usize = 0;
    while i < v.len()
        invariant
            i <= v@.len(),
            s == parts_of(v@),
            texts(seen@).no_duplicates(),
            texts(seen@).to_set() == part_names(s.take(i as int)).to_set(),
            parts_of(out@) == unique_parts(s.take(i as int)),
        decreases v@.len() - i,
    {
        let name = v[i].name();
        proof {
            assert(s.take(i + 1).drop_last() =~= s.take(i as int));
            assert(s.take(i + 1).last() == s[i as int]);
            assert(part_names(s.take(i as int)).contains(part_name(s[i as int])) <==> texts(seen@).contains(name@)) by {
                assert(texts(seen@).contains(name@) <==> texts(seen@).to_set().contains(name@));
                assert(part_names(s.take(i as int)).contains(name@) <==> part_names(s.take(i as int)).to_set().contains(name@));
            }
        }
        if !text_list_contains(&seen, name) {
            text_set_insert(&mut seen, name);
            out.push(crate::code_spec::clone_part(&v[i]));
            proof {
                assert(parts_of(out@) =~= unique_parts(s.take(i as int)).push(s[i as int]));
            }
        }
        proof {
            assert(part_names(s.take(i + 1)) =~= part_names(s.take(i as int)).push(name@));
            part_names(s.take(i as int)).lemma_push_to_set_commute(name@);
        }
        i += 1;
    }
    assert(s.take(i as int) =~= s);
    out
}

/// The parts one value expands to.
fn expand_one(fv: &FieldValue, comps: &Vec<ComponentSpec>, Ghost(fuel): Ghost<nat>) -> (r: Vec<SubComponent>)
    requires
        expand_value(*fv, comps@, fuel) is Some,
    ensures
        parts_of(r@) == expand_value(*fv, comps@, fuel)->0,
    decreases fuel, *fv, 0int,
{
    match fv {
        FieldValue::Field(x) => {
            let mut r: Vec<SubComponent> = Vec::new();
            r.push(SubComponent::Field(MessageField { name: x.name.clone(), required: x.required }));
            assert(parts_of(r@) =~= seq![Part::Field(x.name@, x.required)]);
            r
        },
        FieldValue::Group(x) => {
            let components = convert_list(&x.values, comps, Ghost(fuel));
            let g = SubComponent::Group(MessageGroup { name: x.name.clone(), components });
            let mut r: Vec<SubComponent> = Vec::new();
            r.push(g);
            proof {
                assert(match g@ {
                    Part::Group(_, ps) => ps =~= parts_of(components@),
                    _ => true,
                });
                assert(parts_of(r@) =~= seq![Part::Group(x.name@, parts_of(components@))]);
            }
            r
        },
        FieldValue::Component(c) => {
            proof {
                lemma_first_component_range(comps@, c.name@, 0);
            }
            match find_first_component(comps, c.name.as_str()) {
                Some(k) => convert_list(&comps[k].values, comps, Ghost((fuel - 1) as nat)),
                None => Vec::new(),
            }
        },
    }
}

/// The parts a list of values converts to.
fn convert_list(values: &Vec<FieldValue>, comps: &Vec<ComponentSpec>, Ghost(fuel): Ghost<nat>) -> (r: Vec<SubComponent>)
    requires
        convert_values(values@, comps@, fuel) is Some,
    ensures
        parts_of(r@) == convert_values(values@, comps@, fuel)->0,
    decreases fuel, values@, values@.len() + 1,
{
    let ghost vals = values@;
    let mut output: Vec<SubComponent> = Vec::new();
    let mut i: usize = 0;
    while i < values.len()
        invariant
            i <= vals.len(),
            vals == values@,
            expand_from(vals, i as int, comps@, fuel) is Some,
            expand_from(vals, 0, comps@, fuel)->0 == parts_of(output@) + expand_from(vals, i as int, comps@, fuel)->0,
        decreases vals.len() - i,
    {
        assert(decreases_to!(values@ => values@[i as int]));
        let mut part = expand_one(&values[i], comps, Ghost(fuel));
        let ghost before = output@;
        let ghost added = part@;
        output.append(&mut part);
        proof {
            assert(parts_of(output@) =~= parts_of(before) + parts_of(added));
            assert(parts_of(before) + (parts_of(added) + expand_from(vals, i + 1, comps@, fuel)->0) =~= parts_of(output@) + expand_from(vals, i + 1, comps@, fuel)->0);
        }
        i += 1;
    }
    assert(parts_of(output@) + Seq::<Part>::empty() =~= parts_of(output@));
    unique_by_name(output)
}

fn convert_messages(spec: &FixSpec, messages: &Vec<Message>) -> (r: Vec<MessageSpec>)
    requires
        messages == spec.messages,
        forall|i: int| 0 <= i < messages@.len() ==> converts(#[trigger] messages@[i].values@, spec.component_specs@),
    ensures
        r@.len() == messages@.len(),
        forall|i: int|
            0 <= i < messages@.len() ==> (#[trigger] r@[i]).name@ == messages@[i].name@ && r@[i].msg_type@
                == messages@[i].msg_type@ && parts_of(r@[i].components@) == converted(
                messages@[i].values@,
                spec.component_specs@,
            ),
{
    let mut r: Vec<MessageSpec> = Vec::new();
    let mut i: usize = 0;
    while i < messages.len()
        invariant
            i <= messages@.len(),
            r@.len() == i,
            forall|j: int| 0 <= j < messages@.len() ==> converts(#[trigger] messages@[j].values@, spec.component_specs@),
            forall|j: int|
                0 <= j < i ==> (#[trigger] r@[j]).name@ == messages@[j].name@ && r@[j].msg_type@
                    == messages@[j].msg_type@ && parts_of(r@[j].components@) == converted(
                    messages@[j].values@,
                    spec.component_specs@,
                ),
        decreases messages@.len() - i,
    {
        let m = &messages[i];
        assert(converts(messages@[i as int].values@, spec.component_specs@));
        let components = convert_list(&m.values, &spec.component_specs, Ghost(spec.component_specs@.len()));
        r.push(MessageSpec { name: m.name.clone(), msg_type: m.msg_type.clone(), components });
        i += 1;
    }
    r
}

/// The specification the code generator works from: the field definitions as
/// they are; the headers, the trailers and each message with their components
/// expanded and each name kept once.
pub fn convert_spec(src: &FixSpec) -> (r: FixCodeSpec)
    requires
        spec_converts(*src),
    ensures
        r.field_specs@.len() == src.field_specs@.len(),
        forall|i: int| 0 <= i < src.field_specs@.len() ==> same_field_spec(#[trigger] r.field_specs@[i], src.field_specs@[i]),
        parts_of(r.headers@) == converted(src.headers@, src.component_specs@),
        parts_of(r.trailers@) == converted(src.trailers@, src.component_specs@),
        r.messages@.len() == src.messages@.len(),
        forall|i: int|
            0 <= i < src.messages@.len() ==> (#[trigger] r.messages@[i]).name@ == src.messages@[i].name@
                && r.messages@[i].msg_type@ == src.messages@[i].msg_type@ && parts_of(r.messages@[i].components@)
                == converted(src.messages@[i].values@, src.component_specs@),
{
    let mut field_specs: Vec<FieldSpec> = Vec::new();
    let mut i: usize = 0;
    while i < src.field_specs.len()
        invariant
            i <= src.field_specs@.len(),
            field_specs@.len() == i,
            forall|j: int| 0 <= j < i ==> same_field_spec(#[trigger] field_specs@[j], src.field_specs@[j]),
        decreases src.field_specs@.len() - i,
    {
        field_specs.push(clone_field_spec(&src.field_specs[i]));
        i += 1;
    }
    let fuel = Ghost(src.component_specs@.len());
    FixCodeSpec {
        field_specs,
        headers: convert_list(&src.headers, &src.component_specs, fuel),
        trailers: convert_list(&src.trailers, &src.component_specs, fuel),
        messages: convert_messages(src, &src.messages),
    }
}

proof fn lemma_expand_from_some(vals: Seq<FieldValue>, i: int, comps: Seq<ComponentSpec>, fuel: nat)
    requires
        0 <= i <= vals.len(),
    ensures
        expand_from(vals, i, comps, fuel) is Some <==> forall|j: int|
            i <= j < vals.len() ==> (#[trigger] expand_value(vals[j], comps, fuel)) is Some,
    decreases vals.len() - i,
{
    if i < vals.len() {
        lemma_expand_from_some(vals, i + 1, comps, fuel);
        let now = expand_value(vals[i], comps, fuel);
        assert(expand_from(vals, i, comps, fuel) is Some <==> (now is Some && expand_from(vals, i + 1, comps, fuel) is Some));
        if expand_from(vals, i, comps, fuel) is Some {
            assert forall|j: int| i <= j < vals.len() implies (#[trigger] expand_value(vals[j], comps, fuel)) is Some by {
                if j > i {
                    assert(i + 1 <= j < vals.len());
                }
            }
        }
    }
}

fn value_converts(fv: &FieldValue, comps: &Vec<ComponentSpec>, fuel: usize) -> (r: bool)
    ensures
        r == (expand_value(*fv, comps@, fuel as nat) is Some),
    decreases fuel, *fv, 0int,
{
    match fv {
        FieldValue::Field(_) => true,
        FieldValue::Group(g) => values_convert(&g.values, comps, fuel),
        FieldValue::Component(c) => {
            proof {
                lemma_first_component_range(comps@, c.name@, 0);
            }
            match find_first_component(comps, c.name.as_str()) {
                Some(k) => fuel > 0 && values_convert(&comps[k].values, comps, fuel - 1),
                None => false,
            }
        },
    }
}

fn values_convert(vals: &Vec<FieldValue>, comps: &Vec<ComponentSpec>, fuel: usize) -> (r: bool)
    ensures
        r == (convert_values(vals@, comps@, fuel as nat) is Some),
    decreases fuel, vals@, vals@.len() + 1,
{
    proof {
        lemma_expand_from_some(vals@, 0, comps@, fuel as nat);
    }
    let mut i: usize = 0;
    while i < vals.len()
        invariant
            i <= vals@.len(),
            forall|j: int| 0 <= j < i ==> (#[trigger] expand_value(vals@[j], comps@, fuel as nat)) is Some,
            (convert_values(vals@, comps@, fuel as nat) is Some) <==> forall|j: int|
                0 <= j < vals@.len() ==> (#[trigger] expand_value(vals@[j], comps@, fuel as nat)) is Some,
        decreases vals@.len() - i,
    {
        assert(decreases_to!(vals@ => vals@[i as int]));
        if !value_converts(&vals[i], comps, fuel) {
            return false;
        }
        i += 1;
    }
    true
}

/// Whether a specification converts: every component its headers, trailers and
/// messages reach is defined, and their references hold no cycle.
pub fn can_convert(src: &FixSpec) -> (r: bool)
    ensures
        r == spec_converts(*src),
{
    let fuel = src.component_specs.len();
    if !values_convert(&src.headers, &src.component_specs, fuel) {
        return false;
    }
    if !values_convert(&src.trailers, &src.component_specs, fuel) {
        return false;
    }
    let mut i: usize = 0;
    while i < src.messages.len()
        invariant
            i <= src.messages@.len(),
            fuel == src.component_specs@.len(),
            forall|j: int| 0 <= j < i ==> converts(#[trigger] src.messages@[j].values@, src.component_specs@),
        decreases src.messages@.len() - i,
    {
        if !values_convert(&src.messages[i].values, &src.component_specs, fuel) {
            return false;
        }
        i += 1;
    }
    true
}

/// No name is kept twice, and every name is kept.
pub proof fn unique_parts_keeps_each_name_once(s: Seq<Part>)
    ensures
        part_names(unique_parts(s)).no_duplicates(),
        part_names(unique_parts(s)).to_set() == part_names(s).to_set(),
    decreases s.len(),
{
    if s.len() > 0 {
        let p = s.drop_last();
        unique_parts_keeps_each_name_once(p);
        let r = unique_parts(p);
        assert(part_names(s) =~= part_names(p).push(part_name(s.last())));
        part_names(p).lemma_push_to_set_commute(part_name(s.last()));
        if part_names(p).contains(part_name(s.last())) {
            assert(part_names(p).to_set().contains(part_name(s.last())));
            assert(part_names(s).to_set() =~= part_names(p).to_set().insert(part_name(s.last())));
        } else {
            assert(part_names(r.push(s.last())) =~= part_names(r).push(part_name(s.last())));
            part_names(r).lemma_push_to_set_commute(part_name(s.last()));
            assert(!part_names(r).to_set().contains(part_name(s.last())));
            assert(!part_names(r).contains(part_name(s.last())));
            assert(part_names(r.push(s.last())).to_set() =~= part_names(r).to_set().insert(part_name(s.last())));
            assert(part_names(s).to_set() =~= part_names(p).to_set().insert(part_name(s.last())));
        }
    }
}

} // verus!
