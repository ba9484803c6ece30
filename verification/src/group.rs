//! Repeating groups: the operations on the groups of a field map, shared by
//! groups, messages, headers and trailers, and the field operations of a group.

use vstd::prelude::*;
use crate::errors::{NativeError, NativeErrorView, Result};
use crate::field_map::{
    bool_text, convert_error, has_tag, index_error, no_groups_error, not_found_error, without_first,
    FieldMap, FieldMapModel, Group, GroupModel,
};
use crate::assoc::has_key;
use crate::text::{all_ascii, ascii_upper, decimal_digits, parse_unsigned, push_str, u32_to_decimal, uppercase};
use vstd::utf8::encode_utf8;
use vstd::string::StringSliceAdditionalSpecFns;

verus! {

broadcast use crate::field_map::lemma_group_model;

/// `Group not found at index {num} for field {tag}`.
pub open spec fn group_not_found_error(num: usize, tag: u32) -> NativeErrorView {
    NativeErrorView::FieldNotFound(
        "Group not found at index "@ + decimal_digits(num as nat) + " for field "@ + decimal_digits(
            tag as nat,
        ),
    )
}

/// The error of a removal of the groups of a tag that has none.
pub open spec fn no_such_groups_error() -> NativeErrorView {
    NativeErrorView::FieldConvertError("This fields doesnt exist."@)
}

fn group_not_found(num: usize, tag: u32) -> (r: NativeError)
    ensures
        r@ == group_not_found_error(num, tag),
{
    let mut s = String::from_str("Group not found at index ");
    let n = crate::text::usize_to_decimal(num);
    push_str(&mut s, n.as_str());
    push_str(&mut s, " for field ");
    let t = u32_to_decimal(tag);
    push_str(&mut s, t.as_str());
    NativeError::FieldNotFound(s)
}

/// The group operations of anything that holds a field map of groups: they act
/// on the groups of the tag of the group given.
pub trait GroupOperations: Sized {
    /// The field map the operations act on.
    spec fn body(&self) -> FieldMapModel;

    /// The field map the operations act on.
    fn get_field_map(&self) -> (r: &FieldMap)
        ensures
            r@ == self.body(),
    ;

    /// The field map the operations act on, to change in place.
    fn get_field_map_mut(&mut self) -> (r: &mut FieldMap)
        ensures
            r@ == old(self).body(),
            final(self).body() == final(r)@,
    ;

    /// Adds a copy of a group to those of its tag.
    fn add_group(&mut self, group: &Group)
        requires
            old(self).body().wf(),
            group@.map.wf(),
            old(self).body().groups_of(group@.field_id).len() < u32::MAX,
        ensures
            final(self).body() == old(self).body().with_group(group@),
            final(self).body().wf(),
    {
        let m = self.get_field_map_mut();
        m.add_group(group.clone());
    }

    /// Replaces the group of the tag of `group` at index `num` by a copy of it.
    fn replace_group(&mut self, num: usize, group: &Group) -> (r: Result<()>)
        requires
            old(self).body().wf(),
            group@.map.wf(),
        ensures
            !has_key(old(self).body().groups, group@.field_id) ==> (r matches Err(e) && e@
                == no_groups_error(group@.field_id) && final(self).body() == old(self).body()),
            has_key(old(self).body().groups, group@.field_id) && num >= old(self).body().groups_of(
                group@.field_id,
            ).len() ==> (r matches Err(e) && e@ == index_error(num) && final(self).body() == old(
                self,
            ).body()),
            has_key(old(self).body().groups, group@.field_id) && num < old(self).body().groups_of(
                group@.field_id,
            ).len() ==> (r is Ok && final(self).body() == old(self).body().with_groups_of(
                group@.field_id,
                old(self).body().groups_of(group@.field_id).update(num as int, group@),
            )),
            final(self).body().wf(),
    {
        let tag = group.field();
        let m = self.get_field_map_mut();
        m.replace_group(tag, num, group.clone())
    }

    /// A copy of the group of the tag of `group` at index `num`.
    fn get_group(&self, num: usize, group: &Group) -> (r: Result<Group>)
        requires
            self.body().wf(),
        ensures
            num < self.body().groups_of(group@.field_id).len() ==> (r matches Ok(g) && g@
                == self.body().groups_of(group@.field_id)[num as int]),
            num >= self.body().groups_of(group@.field_id).len() ==> (r matches Err(e) && e@
                == group_not_found_error(num, group@.field_id)),
    {
        let tag = group.field();
        match self.get_field_map().get_group(tag, num) {
            Some(g) => Ok(g.clone()),
            None => Err(group_not_found(num, tag)),
        }
    }

    /// Removes the group of the tag of `group` at index `num` and gives it back.
    fn remove_group(&mut self, num: usize, group: &Group) -> (r: Result<Group>)
        requires
            old(self).body().wf(),
            old(self).body().groups_of(group@.field_id).len() <= u32::MAX,
        ensures
            !has_key(old(self).body().groups, group@.field_id) ==> (r matches Err(e) && e@
                == no_groups_error(group@.field_id) && final(self).body() == old(self).body()),
            has_key(old(self).body().groups, group@.field_id) && num >= old(self).body().groups_of(
                group@.field_id,
            ).len() ==> (r matches Err(e) && e@ == index_error(num) && final(self).body() == old(
                self,
            ).body()),
            has_key(old(self).body().groups, group@.field_id) && num < old(self).body().groups_of(
                group@.field_id,
            ).len() ==> (r matches Ok(g) && g@ == old(self).body().groups_of(group@.field_id)[num as int]
                && final(self).body() == (if old(self).body().groups_of(group@.field_id).len() == 1 {
                FieldMapModel {
                    fields: without_first(old(self).body().fields, group@.field_id),
                    ..old(self).body().without_groups_of(group@.field_id)
                }
            } else {
                old(self).body().with_groups_of(
                    group@.field_id,
                    old(self).body().groups_of(group@.field_id).remove(num as int),
                ).with_field(
                    group@.field_id,
                    decimal_digits((old(self).body().groups_of(group@.field_id).len() - 1) as nat),
                )
            })),
            final(self).body().wf(),
    {
        let tag = group.field();
        let m = self.get_field_map_mut();
        m.remove_group(tag, num)
    }

    /// Removes all the groups of the tag of `group`, and the field of that tag.
    fn remove_group_by_field(&mut self, group: &Group) -> (r: Result<Vec<Group>>)
        requires
            old(self).body().wf(),
        ensures
            match r {
                Ok(v) => has_key(old(self).body().groups, group@.field_id)
                    && crate::field_map::group_models(v@) == old(self).body().groups_of(group@.field_id)
                    && final(self).body() == (FieldMapModel {
                    fields: without_first(old(self).body().fields, group@.field_id),
                    ..old(self).body().without_groups_of(group@.field_id)
                }),
                Err(e) => !has_key(old(self).body().groups, group@.field_id) && e@
                    == no_such_groups_error() && final(self).body() == (FieldMapModel {
                    fields: without_first(old(self).body().fields, group@.field_id),
                    ..old(self).body()
                }),
            },
            final(self).body().wf(),
    {
        let tag = group.field();
        let m = self.get_field_map_mut();
        match m.remove_all_groups(tag) {
            Some(v) => Ok(v),
            None => Err(NativeError::FieldConvertError(String::from_str("This fields doesnt exist."))),
        }
    }

    /// Whether the tag of `group` has at least one group.
    fn has_group(&self, group: &Group) -> (r: bool)
        requires
            self.body().wf(),
        ensures
            r == (self.body().groups_of(group@.field_id).len() > 0),
    {
        self.get_field_map().has_group(group.field())
    }

    /// Whether the tag of `group` has a group at index `num`.
    fn has_group_at(&self, num: usize, group: &Group) -> (r: bool)
        requires
            self.body().wf(),
        ensures
            r == (num < self.body().groups_of(group@.field_id).len()),
    {
        self.get_field_map().has_group_at(num, group.field())
    }
}

impl GroupOperations for Group {
    open spec fn body(&self) -> FieldMapModel {
        self@.map
    }

    fn get_field_map(&self) -> (r: &FieldMap) {
        &self.fieldmap
    }

    fn get_field_map_mut(&mut self) -> (r: &mut FieldMap) {
        &mut self.fieldmap
    }
}

impl Group {
    /// The number of groups of the tag of `group` within this group.
    pub fn group_count(&self, group: &Group) -> (r: usize)
        requires
            self@.map.wf(),
        ensures
            r == self@.map.groups_of(group@.field_id).len(),
    {
        self.fieldmap.group_count(group.field())
    }

    /// Sets a field of the group.
    pub fn set_field(&mut self, tag: u32, value: String)
        ensures
            final(self)@ == (GroupModel { map: old(self)@.map.with_field(tag, value@), ..old(self)@ }),
    {
        self.fieldmap.set_field(tag, value);
    }

    /// The value of the group's first field with this tag.
    pub fn get_field(&self, tag: u32) -> (r: Option<&String>)
        ensures
            match r {
                Some(v) => self@.map.value(tag) == Some(v@),
                None => self@.map.value(tag).is_none(),
            },
    {
        self.fieldmap.get_field(tag)
    }

    /// Whether the group has a field with this tag.
    pub fn has_field(&self, tag: u32) -> (r: bool)
        ensures
            r == has_tag(self@.map.fields, tag),
    {
        self.fieldmap.has_field(tag)
    }

    /// Removes the group's first field with this tag, giving back its value.
    pub fn remove_field(&mut self, tag: u32) -> (r: Option<String>)
        ensures
            match r {
                Some(v) => old(self)@.map.value(tag) == Some(v@),
                None => old(self)@.map.value(tag).is_none(),
            },
            final(self)@ == (GroupModel {
                map: FieldMapModel { fields: without_first(old(self)@.map.fields, tag), ..old(self)@.map },
                ..old(self)@
            }),
    {
        self.fieldmap.remove_field(tag)
    }

    /// Sets a field of the group from a text.
    pub fn set_string(&mut self, tag: u32, value: &str)
        ensures
            final(self)@ == (GroupModel { map: old(self)@.map.with_field(tag, value@), ..old(self)@ }),
    {
        self.fieldmap.set_string(tag, value);
    }

    /// The value of a field of the group as text.
    pub fn get_string(&self, tag: u32) -> (r: Result<String>)
        ensures
            match self@.map.value(tag) {
                Some(v) => r matches Ok(s) && s@ == v,
                None => r matches Err(e) && e@ == not_found_error(tag),
            },
    {
        self.fieldmap.get_string(tag)
    }

    /// Sets a field of the group to an unsigned integer.
    pub fn set_int(&mut self, tag: u32, value: u32)
        ensures
            final(self)@ == (GroupModel {
                map: old(self)@.map.with_field(tag, decimal_digits(value as nat)),
                ..old(self)@
            }),
    {
        self.fieldmap.set_int(tag, value);
    }

    /// The value of a field of the group as an unsigned integer.
    pub fn get_int(&self, tag: u32) -> (r: Result<u32>)
        ensures
            match self@.map.value(tag) {
                Some(v) => match parse_unsigned(encode_utf8(v), u32::MAX as nat) {
                    Some(n) => r == Ok::<u32, NativeError>(n as u32),
                    None => r matches Err(e) && e@ == convert_error(
                        "failed to convert field "@ + decimal_digits(tag as nat) + " to i32"@,
                    ),
                },
                None => r matches Err(e) && e@ == not_found_error(tag),
            },
    {
        self.fieldmap.get_int(tag)
    }

    /// Sets a field of the group to `Y` or `N`.
    pub fn set_bool(&mut self, tag: u32, value: bool)
        ensures
            final(self)@ == (GroupModel {
                map: old(self)@.map.with_field(tag, if value { "Y"@ } else { "N"@ }),
                ..old(self)@
            }),
    {
        self.fieldmap.set_bool(tag, value);
    }

    /// The value of a field of the group as a truth value.
    pub fn get_bool(&self, tag: u32) -> (r: Result<bool>)
        ensures
            match self@.map.value(tag) {
                Some(v) => all_ascii(v) ==> uppercase(v) == ascii_upper(v),
                None => true,
            },
            match self@.map.value(tag) {
                Some(v) => match bool_text(uppercase(v)) {
                    Some(b) => r == Ok::<bool, NativeError>(b),
                    None => r matches Err(e) && e@ == convert_error(
                        "cannot convert "@ + v + " to bool"@,
                    ),
                },
                None => r matches Err(e) && e@ == not_found_error(tag),
            },
    {
        self.fieldmap.get_bool(tag)
    }

    /// Sets a field of the group to one character.
    pub fn set_char(&mut self, tag: u32, value: char)
        ensures
            final(self)@ == (GroupModel { map: old(self)@.map.with_field(tag, seq![value]), ..old(self)@ }),
    {
        self.fieldmap.set_char(tag, value);
    }

    /// The first character of a field of the group.
    pub fn get_char(&self, tag: u32) -> (r: Result<char>)
        ensures
            match self@.map.value(tag) {
                Some(v) => if v.len() > 0 {
                    r == Ok::<char, NativeError>(v[0])
                } else {
                    r matches Err(e) && e@ == convert_error(
                        "field "@ + decimal_digits(tag as nat) + " is empty"@,
                    )
                },
                None => r matches Err(e) && e@ == not_found_error(tag),
            },
    {
        self.fieldmap.get_char(tag)
    }

    /// Reads the group's fields from FIX text, as a field map does.
    pub fn from_fix_string(&mut self, fix_string: &str) -> (r: Result<()>)
        ensures
            final(self)@.field_id == old(self)@.field_id,
            final(self)@.delim == old(self)@.delim,
            match crate::field_map::fields_from(fix_string.spec_bytes(), 0) {
                Ok(fs) => r is Ok && final(self)@.map == (FieldMapModel {
                    fields: crate::field_map::sorted_fields(old(self)@.map.order, fs),
                    groups: Seq::empty(),
                    order: old(self)@.map.order,
                }),
                Err((done, e)) => r matches Err(err) && err@ == e && final(self)@.map == (FieldMapModel {
                    fields: done,
                    groups: Seq::empty(),
                    order: old(self)@.map.order,
                }),
            },
            final(self)@.map.wf(),
    {
        self.fieldmap.from_fix_string(fix_string)
    }
}

} // verus!
