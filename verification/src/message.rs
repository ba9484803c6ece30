//! FIX messages: a header, a body and a trailer, each a field map.

use vstd::prelude::*;
use crate::field_map::{FieldMap, FieldMapModel};
use crate::group::GroupOperations;
use crate::message_order::{normal_order, MessageOrder};

verus! {

/// The fields that open a message.
#[derive(Debug)]
pub struct Header {
    field_map: FieldMap,
}

/// The fields that close a message.
#[derive(Debug)]
pub struct Trailer {
    field_map: FieldMap,
}

/// A message: header, body and trailer.
#[derive(Debug)]
pub struct Message {
    header: Header,
    body: FieldMap,
    trailer: Trailer,
    valid_structure: bool,
    tag: i32,
}

/// What a message holds.
pub struct MessageModel {
    pub header: FieldMapModel,
    pub body: FieldMapModel,
    pub trailer: FieldMapModel,
    pub valid_structure: bool,
    pub tag: i32,
}

/// An empty field map sorted by tag.
pub open spec fn empty_map() -> FieldMapModel {
    FieldMapModel { fields: Seq::empty(), groups: Seq::empty(), order: normal_order() }
}

impl View for Header {
    type V = FieldMapModel;

    closed spec fn view(&self) -> FieldMapModel {
        self.field_map@
    }
}

impl View for Trailer {
    type V = FieldMapModel;

    closed spec fn view(&self) -> FieldMapModel {
        self.field_map@
    }
}

impl View for Message {
    type V = MessageModel;

    closed spec fn view(&self) -> MessageModel {
        MessageModel {
            header: self.header@,
            body: self.body@,
            trailer: self.trailer@,
            valid_structure: self.valid_structure,
            tag: self.tag,
        }
    }
}

impl Clone for Header {
    fn clone(&self) -> (r: Self)
        ensures
            r@ == self@,
    {
        Header { field_map: self.field_map.clone() }
    }
}

impl Clone for Trailer {
    fn clone(&self) -> (r: Self)
        ensures
            r@ == self@,
    {
        Trailer { field_map: self.field_map.clone() }
    }
}

impl Clone for Message {
    fn clone(&self) -> (r: Self)
        ensures
            r@ == self@,
    {
        Message {
            header: self.header.clone(),
            body: self.body.clone(),
            trailer: self.trailer.clone(),
            valid_structure: self.valid_structure,
            tag: self.tag,
        }
    }
}

impl Header {
    /// An empty header.
    pub fn new() -> (r: Self)
        ensures
            r@ == empty_map(),
    {
        let field_map = FieldMap::new();
        assert(field_map@.fields =~= empty_map().fields);
        assert(field_map@.groups =~= empty_map().groups);
        assert(field_map@ == empty_map());
        Header { field_map }
    }
}

impl Trailer {
    /// An empty trailer.
    pub fn new() -> (r: Self)
        ensures
            r@ == empty_map(),
    {
        let field_map = FieldMap::new();
        assert(field_map@.fields =~= empty_map().fields);
        assert(field_map@.groups =~= empty_map().groups);
        assert(field_map@ == empty_map());
        Trailer { field_map }
    }
}

impl Default for Header {
    fn default() -> (r: Self)
        ensures
            r@ == empty_map(),
    {
        Header::new()
    }
}

impl Default for Trailer {
    fn default() -> (r: Self)
        ensures
            r@ == empty_map(),
    {
        Trailer::new()
    }
}

impl GroupOperations for Header {
    open spec fn body(&self) -> FieldMapModel {
        self@
    }

    fn get_field_map(&self) -> (r: &FieldMap) {
        &self.field_map
    }

    fn get_field_map_mut(&mut self) -> (r: &mut FieldMap) {
        &mut self.field_map
    }
}

impl GroupOperations for Trailer {
    open spec fn body(&self) -> FieldMapModel {
        self@
    }

    fn get_field_map(&self) -> (r: &FieldMap) {
        &self.field_map
    }

    fn get_field_map_mut(&mut self) -> (r: &mut FieldMap) {
        &mut self.field_map
    }
}

impl GroupOperations for Message {
    open spec fn body(&self) -> FieldMapModel {
        self@.body
    }

    fn get_field_map(&self) -> (r: &FieldMap) {
        &self.body
    }

    fn get_field_map_mut(&mut self) -> (r: &mut FieldMap)
        ensures
            final(self)@ == (MessageModel { body: final(r)@, ..old(self)@ }),
    {
        &mut self.body
    }
}

impl Message {
    /// An empty message, its structure marked valid.
    pub fn new() -> (r: Self)
        ensures
            r@.header == empty_map(),
            r@.body == empty_map(),
            r@.trailer == empty_map(),
            r@.valid_structure,
            r@.tag == 0,
    {
        let body = FieldMap::new_with_order(MessageOrder::normal());
        assert(body@.fields =~= empty_map().fields);
        assert(body@.groups =~= empty_map().groups);
        assert(body@ == empty_map());
        Message { header: Header::new(), body, trailer: Trailer::new(), valid_structure: true, tag: 0 }
    }

    /// The header.
    pub fn get_header(&self) -> (r: &Header)
        ensures
            r@ == self@.header,
    {
        &self.header
    }

    /// The header, to change in place.
    pub fn get_header_mut(&mut self) -> (r: &mut Header)
        ensures
            r@ == old(self)@.header,
            final(self)@ == (MessageModel { header: final(r)@, ..old(self)@ }),
    {
        &mut self.header
    }

    /// The trailer.
    pub fn get_trailer(&self) -> (r: &Trailer)
        ensures
            r@ == self@.trailer,
    {
        &self.trailer
    }

    /// The trailer, to change in place.
    pub fn get_trailer_mut(&mut self) -> (r: &mut Trailer)
        ensures
            r@ == old(self)@.trailer,
            final(self)@ == (MessageModel { trailer: final(r)@, ..old(self)@ }),
    {
        &mut self.trailer
    }
}

impl Default for Message {
    fn default() -> (r: Self)
        ensures
            r@.header == empty_map(),
            r@.body == empty_map(),
            r@.trailer == empty_map(),
            r@.valid_structure,
            r@.tag == 0,
    {
        Message::new()
    }
}

impl std::ops::Deref for Message {
    type Target = FieldMap;

    fn deref(&self) -> (r: &FieldMap)
        ensures
            r@ == self@.body,
    {
        &self.body
    }
}

impl std::ops::Deref for Header {
    type Target = FieldMap;

    fn deref(&self) -> (r: &FieldMap)
        ensures
            r@ == self@,
    {
        &self.field_map
    }
}

impl std::ops::Deref for Trailer {
    type Target = FieldMap;

    fn deref(&self) -> (r: &FieldMap)
        ensures
            r@ == self@,
    {
        &self.field_map
    }
}

} // verus!
