//! The data dictionary: which fields, values, message types, header and
//! trailer fields and repeating groups a FIX version defines, built from a
//! FIX XML specification.

use vstd::prelude::*;
use std::collections::HashMap;
use crate::assoc::{
    assoc_map, find_text_key, find_u32_key, has_key, keys_distinct, lemma_assoc_at,
    lemma_assoc_push, lemma_assoc_update, text_keys, text_list_contains, text_set_insert, texts,
    u32_list_contains, u32_set_insert,
};
use crate::errors::{NativeError, NativeErrorView, Result};
use crate::fix_spec::{Component, ComponentSpec, FieldAllowedValue, FieldSpec, FieldType, FieldValue, FixSpec, Message};
use crate::text::{decimal_digits, parse_unsigned, parse_usize, push_char, push_str, u64_to_decimal};
use crate::field_map::FieldMap;
use crate::fix_spec::{fix_spec_error_text, fix_spec_view};
use crate::spec_xml::{parse_spec, parsed_spec};
use vstd::utf8::encode_utf8;
use vstd::string::StringSliceAdditionalSpecFns;

verus! {

broadcast use vstd::seq_lib::group_seq_properties, vstd::std_specs::hash::group_hash_axioms;

/// Smallest tag number of user defined fields.
pub const USER_DEFINED_FIELD_MIN: u32 = 5000;

/// Tag of the message type field (MsgType).
pub const MSG_TYPE_FIELD: u32 = 35;

/// A FIX data dictionary.
#[derive(Debug)]
pub struct DataDictionary {
    version: Option<String>,
    has_version: bool,
    check_fields_out_of_order: bool,
    check_fields_have_values: bool,
    check_user_defined_fields: bool,
    allow_unknown_message_fields: bool,
    store_msg_fields_order: bool,
    /// valid fields
    fields: Vec<u32>,
    /// field number -> field name
    field_names: HashMap<u32, String>,
    /// name -> field number
    name_to_field: Vec<(String, u32)>,
    /// field number -> type
    field_types: HashMap<u32, FieldType>,
    /// field number -> valid values
    field_values: Vec<(u32, Vec<String>)>,
    /// (field, value) -> description
    value_names: Vec<((u32, String), String)>,
    /// valid message types
    message_types: Vec<String>,
    /// msgtype -> valid fields
    message_fields: Vec<(String, Vec<u32>)>,
    /// msgtype -> required fields
    required_fields: Vec<(String, Vec<u32>)>,
    /// field -> is required
    header_fields: HashMap<u32, bool>,
    /// field -> is required
    trailer_fields: HashMap<u32, bool>,
    ordered_fields: Vec<u32>,
    header_ordered_fields: Vec<u32>,
    trailer_ordered_fields: Vec<u32>,
    message_ordered_fields: Vec<(String, Vec<u32>)>,
    /// field -> (msgtype -> (delim, group dictionary))
    groups: Vec<(u32, Vec<(String, u32, DataDictionary)>)>,
    /// fields that have associated length fields
    data_fields: Vec<u32>,
}

/// What a data dictionary holds, as sets and maps.
pub struct DataDictionaryModel {
    pub version: Option<Seq<char>>,
    pub has_version: bool,
    pub check_fields_out_of_order: bool,
    pub check_fields_have_values: bool,
    pub check_user_defined_fields: bool,
    pub allow_unknown_message_fields: bool,
    pub store_msg_fields_order: bool,
    pub fields: Set<u32>,
    pub field_names: Map<u32, Seq<char>>,
    pub name_to_field: Map<Seq<char>, u32>,
    pub field_types: Map<u32, FieldType>,
    pub field_values: Map<u32, Set<Seq<char>>>,
    pub value_names: Map<(u32, Seq<char>), Seq<char>>,
    pub message_types: Set<Seq<char>>,
    pub message_fields: Map<Seq<char>, Set<u32>>,
    pub required_fields: Map<Seq<char>, Set<u32>>,
    pub header_fields: Map<u32, bool>,
    pub trailer_fields: Map<u32, bool>,
    pub ordered_fields: Seq<u32>,
    pub header_ordered_fields: Seq<u32>,
    pub trailer_ordered_fields: Seq<u32>,
    pub message_ordered_fields: Map<Seq<char>, Seq<u32>>,
    pub groups: Map<u32, Map<Seq<char>, (u32, DataDictionaryModel)>>,
    pub data_fields: Set<u32>,
}

pub open spec fn value_set_entries(s: Seq<(u32, Vec<String>)>) -> Seq<(u32, Set<Seq<char>>)> {
    s.map_values(|p: (u32, Vec<String>)| (p.0, texts(p.1@).to_set()))
}

pub open spec fn value_name_entries(s: Seq<((u32, String), String)>) -> Seq<((u32, Seq<char>), Seq<char>)> {
    s.map_values(|p: ((u32, String), String)| ((p.0.0, p.0.1@), p.1@))
}

pub open spec fn tag_set_entries(s: Seq<(String, Vec<u32>)>) -> Seq<(Seq<char>, Set<u32>)> {
    s.map_values(|p: (String, Vec<u32>)| (p.0@, p.1@.to_set()))
}

pub open spec fn tag_list_entries(s: Seq<(String, Vec<u32>)>) -> Seq<(Seq<char>, Seq<u32>)> {
    s.map_values(|p: (String, Vec<u32>)| (p.0@, p.1@))
}

/// The group table of a dictionary, with the models of the sub dictionaries.
pub closed spec fn dd_outer(v: Vec<(u32, Vec<(String, u32, DataDictionary)>)>) -> Seq<(u32, Map<Seq<char>, (u32, DataDictionaryModel)>)>
    decreases v, 1int,
{
    Seq::new(v@.len(), |e: int| (v@[e].0, assoc_map(dd_inner(v, e))))
}

/// The entries of one field in the group table of a dictionary.
pub closed spec fn dd_inner(v: Vec<(u32, Vec<(String, u32, DataDictionary)>)>, e: int) -> Seq<(Seq<char>, (u32, DataDictionaryModel))>
    decreases v, 0int,
{
    if 0 <= e < v@.len() {
        Seq::new(
            v@[e].1@.len(),
            |i: int|
                if 0 <= i < v@[e].1@.len() {
                    (v@[e].1@[i].0@, (v@[e].1@[i].1, dd_model(v@[e].1@[i].2)))
                } else {
                    arbitrary()
                },
        )
    } else {
        Seq::empty()
    }
}

/// The model of a data dictionary.
pub closed spec fn dd_model(dd: DataDictionary) -> DataDictionaryModel
    decreases dd, 2int,
{
    DataDictionaryModel {
        version: match dd.version {
            Some(s) => Some(s@),
            None => None,
        },
        has_version: dd.has_version,
        check_fields_out_of_order: dd.check_fields_out_of_order,
        check_fields_have_values: dd.check_fields_have_values,
        check_user_defined_fields: dd.check_user_defined_fields,
        allow_unknown_message_fields: dd.allow_unknown_message_fields,
        store_msg_fields_order: dd.store_msg_fields_order,
        fields: dd.fields@.to_set(),
        field_names: dd.field_names@.map_values(|n: String| n@),
        name_to_field: assoc_map(text_keys(dd.name_to_field@)),
        field_types: dd.field_types@,
        field_values: assoc_map(value_set_entries(dd.field_values@)),
        value_names: assoc_map(value_name_entries(dd.value_names@)),
        message_types: texts(dd.message_types@).to_set(),
        message_fields: assoc_map(tag_set_entries(dd.message_fields@)),
        required_fields: assoc_map(tag_set_entries(dd.required_fields@)),
        header_fields: dd.header_fields@,
        trailer_fields: dd.trailer_fields@,
        ordered_fields: dd.ordered_fields@,
        header_ordered_fields: dd.header_ordered_fields@,
        trailer_ordered_fields: dd.trailer_ordered_fields@,
        message_ordered_fields: assoc_map(tag_list_entries(dd.message_ordered_fields@)),
        groups: assoc_map(dd_outer(dd.groups)),
        data_fields: dd.data_fields@.to_set(),
    }
}

/// The group table entries of one field, as keys and models.
pub open spec fn group_entries(v: Seq<(String, u32, DataDictionary)>) -> Seq<(Seq<char>, (u32, DataDictionaryModel))> {
    Seq::new(v.len(), |i: int| (v[i].0@, (v[i].1, dd_model(v[i].2))))
}

impl View for DataDictionary {
    type V = DataDictionaryModel;

    open spec fn view(&self) -> DataDictionaryModel {
        dd_model(*self)
    }
}

/// The empty model with the default validation flags.
pub open spec fn empty_model() -> DataDictionaryModel {
    DataDictionaryModel {
        version: None,
        has_version: false,
        check_fields_out_of_order: true,
        check_fields_have_values: true,
        check_user_defined_fields: false,
        allow_unknown_message_fields: false,
        store_msg_fields_order: false,
        fields: Set::empty(),
        field_names: Map::empty(),
        name_to_field: Map::empty(),
        field_types: Map::empty(),
        field_values: Map::empty(),
        value_names: Map::empty(),
        message_types: Set::empty(),
        message_fields: Map::empty(),
        required_fields: Map::empty(),
        header_fields: Map::empty(),
        trailer_fields: Map::empty(),
        ordered_fields: Seq::empty(),
        header_ordered_fields: Seq::empty(),
        trailer_ordered_fields: Seq::empty(),
        message_ordered_fields: Map::empty(),
        groups: Map::empty(),
        data_fields: Set::empty(),
    }
}

impl DataDictionary {
    /// The tables are consistent: sets hold no element twice and tables no key twice.
    #[verifier::type_invariant]
    spec fn wf(&self) -> bool {
        &&& self.fields@.no_duplicates()
        &&& self.data_fields@.no_duplicates()
        &&& keys_distinct(text_keys(self.name_to_field@))
        &&& keys_distinct(value_set_entries(self.field_values@))
        &&& (forall|i: int| 0 <= i < self.field_values@.len() ==> texts(#[trigger] self.field_values@[i].1@).no_duplicates())
        &&& keys_distinct(value_name_entries(self.value_names@))
        &&& texts(self.message_types@).no_duplicates()
        &&& keys_distinct(tag_set_entries(self.message_fields@))
        &&& (forall|i: int| 0 <= i < self.message_fields@.len() ==> (#[trigger] self.message_fields@[i]).1@.no_duplicates())
        &&& keys_distinct(tag_set_entries(self.required_fields@))
        &&& (forall|i: int| 0 <= i < self.required_fields@.len() ==> (#[trigger] self.required_fields@[i]).1@.no_duplicates())
        &&& keys_distinct(tag_list_entries(self.message_ordered_fields@))
        &&& keys_distinct(self.groups@)
        &&& (forall|i: int| 0 <= i < self.groups@.len() ==> keys_distinct(group_entries((#[trigger] self.groups@[i]).1@)))
    }

    /// An empty dictionary: no field, no message, checks of field order and of
    /// field values on, the other checks off.
    pub fn new() -> (r: Self)
        ensures
            r@ == empty_model(),
    {
        let r = DataDictionary {
            version: None,
            has_version: false,
            check_fields_out_of_order: true,
            check_fields_have_values: true,
            check_user_defined_fields: false,
            allow_unknown_message_fields: false,
            store_msg_fields_order: false,
            fields: Vec::new(),
            field_names: HashMap::new(),
            name_to_field: Vec::new(),
            field_types: HashMap::new(),
            field_values: Vec::new(),
            value_names: Vec::new(),
            message_types: Vec::new(),
            message_fields: Vec::new(),
            required_fields: Vec::new(),
            header_fields: HashMap::new(),
            trailer_fields: HashMap::new(),
            ordered_fields: Vec::new(),
            header_ordered_fields: Vec::new(),
            trailer_ordered_fields: Vec::new(),
            message_ordered_fields: Vec::new(),
            groups: Vec::new(),
            data_fields: Vec::new(),
        };
        proof {
            let m = r@;
            let e = empty_model();
            assert(m.fields =~= e.fields);
            assert(m.field_names =~= e.field_names);
            assert(m.name_to_field =~= e.name_to_field);
            assert(m.field_types =~= e.field_types);
            assert(m.field_values =~= e.field_values);
            assert(m.value_names =~= e.value_names);
            assert(m.message_types =~= e.message_types);
            assert(m.message_fields =~= e.message_fields);
            assert(m.required_fields =~= e.required_fields);
            assert(m.header_fields =~= e.header_fields);
            assert(m.trailer_fields =~= e.trailer_fields);
            assert(m.ordered_fields =~= e.ordered_fields);
            assert(m.header_ordered_fields =~= e.header_ordered_fields);
            assert(m.trailer_ordered_fields =~= e.trailer_ordered_fields);
            assert(m.message_ordered_fields =~= e.message_ordered_fields);
            assert(m.groups =~= e.groups);
            assert(m.data_fields =~= e.data_fields);
        }
        r
    }
}


/// The value set of a field, empty when the field has none yet.
pub open spec fn set_or_empty<K, A>(m: Map<K, Set<A>>, k: K) -> Set<A> {
    if m.contains_key(k) {
        m[k]
    } else {
        Set::empty()
    }
}

/// The list of a key, empty when the key has none yet.
pub open spec fn seq_or_empty<K, A>(m: Map<K, Seq<A>>, k: K) -> Seq<A> {
    if m.contains_key(k) {
        m[k]
    } else {
        Seq::empty()
    }
}

/// The context name of header fields.
pub open spec fn header_context() -> Seq<char> {
    "_header_"@
}

/// The context name of trailer fields.
pub open spec fn trailer_context() -> Seq<char> {
    "_trailer_"@
}

impl DataDictionaryModel {
    pub open spec fn set_version(self, v: Seq<char>) -> Self {
        DataDictionaryModel { version: Some(v), has_version: true, ..self }
    }

    pub open spec fn add_field(self, f: u32) -> Self {
        DataDictionaryModel {
            fields: self.fields.insert(f),
            ordered_fields: self.ordered_fields.push(f),
            ..self
        }
    }

    /// Adding a field name fails when the name is already used.
    pub open spec fn add_field_name(self, f: u32, name: Seq<char>) -> Self {
        if self.name_to_field.contains_key(name) {
            self
        } else {
            DataDictionaryModel {
                name_to_field: self.name_to_field.insert(name, f),
                field_names: self.field_names.insert(f, name),
                ..self
            }
        }
    }

    pub open spec fn add_field_type(self, f: u32, t: FieldType) -> Self {
        DataDictionaryModel {
            field_types: self.field_types.insert(f, t),
            data_fields: if t == FieldType::Data || t == FieldType::XmlData {
                self.data_fields.insert(f)
            } else {
                self.data_fields
            },
            ..self
        }
    }

    pub open spec fn add_field_value(self, f: u32, v: Seq<char>) -> Self {
        DataDictionaryModel {
            field_values: self.field_values.insert(f, set_or_empty(self.field_values, f).insert(v)),
            ..self
        }
    }

    pub open spec fn add_value_name(self, f: u32, v: Seq<char>, name: Seq<char>) -> Self {
        DataDictionaryModel { value_names: self.value_names.insert((f, v), name), ..self }
    }

    pub open spec fn add_msg_type(self, m: Seq<char>) -> Self {
        DataDictionaryModel { message_types: self.message_types.insert(m), ..self }
    }

    pub open spec fn add_msg_field(self, m: Seq<char>, f: u32) -> Self {
        DataDictionaryModel {
            message_ordered_fields: if self.store_msg_fields_order {
                self.message_ordered_fields.insert(m, seq_or_empty(self.message_ordered_fields, m).push(f))
            } else {
                self.message_ordered_fields
            },
            message_fields: self.message_fields.insert(m, set_or_empty(self.message_fields, m).insert(f)),
            ..self
        }
    }

    pub open spec fn add_required_field(self, m: Seq<char>, f: u32) -> Self {
        DataDictionaryModel {
            required_fields: self.required_fields.insert(m, set_or_empty(self.required_fields, m).insert(f)),
            ..self
        }
    }

    pub open spec fn add_header_field(self, f: u32, required: bool) -> Self {
        DataDictionaryModel {
            header_ordered_fields: if self.store_msg_fields_order {
                self.header_ordered_fields.push(f)
            } else {
                self.header_ordered_fields
            },
            header_fields: self.header_fields.insert(f, required),
            ..self
        }
    }

    pub open spec fn add_trailer_field(self, f: u32, required: bool) -> Self {
        DataDictionaryModel {
            trailer_ordered_fields: if self.store_msg_fields_order {
                self.trailer_ordered_fields.push(f)
            } else {
                self.trailer_ordered_fields
            },
            trailer_fields: self.trailer_fields.insert(f, required),
            ..self
        }
    }

    pub open spec fn add_group(self, m: Seq<char>, f: u32, delim: u32, g: DataDictionaryModel) -> Self {
        DataDictionaryModel {
            groups: self.groups.insert(
                f,
                (if self.groups.contains_key(f) {
                    self.groups[f]
                } else {
                    Map::empty()
                }).insert(m, (delim, g)),
            ),
            ..self
        }
    }

    pub open spec fn is_msg_field(self, m: Seq<char>, f: u32) -> bool {
        self.message_fields.contains_key(m) && self.message_fields[m].contains(f)
    }

    pub open spec fn is_required_field(self, m: Seq<char>, f: u32) -> bool {
        self.required_fields.contains_key(m) && self.required_fields[m].contains(f)
    }

    pub open spec fn is_multiple_value_field(self, f: u32) -> bool {
        self.field_types.contains_key(f) && (self.field_types[f] == FieldType::MultipleCharValue
            || self.field_types[f] == FieldType::MultipleStringValue || self.field_types[f]
            == FieldType::MultipleValueString)
    }

    pub open spec fn is_group(self, m: Seq<char>, f: u32) -> bool {
        self.groups.contains_key(f) && self.groups[f].contains_key(m)
    }
}


impl DataDictionary {
    /// Sets the FIX version text; the dictionary then has a version.
    pub fn set_version(&mut self, version: &str)
        ensures
            final(self)@ == old(self)@.set_version(version@),
    {
        proof {
            use_type_invariant(&*self);
        }
        self.version = Some(String::from_str(version));
        self.has_version = true;
    }

    /// Sets whether the dictionary has a version.
    pub fn set_has_version(&mut self, has_version: bool)
        ensures
            final(self)@ == (DataDictionaryModel { has_version, ..old(self)@ }),
    {
        proof {
            use_type_invariant(&*self);
        }
        self.has_version = has_version;
    }

    /// The FIX version text, if one was set.
    pub fn get_version(&self) -> (r: Option<&String>)
        ensures
            match r {
                Some(s) => self@.version == Some(s@),
                None => self@.version.is_none(),
            },
    {
        proof {
            use_type_invariant(self);
        }
        match &self.version {
            Some(s) => Some(s),
            None => None,
        }
    }

    /// Declares a field.
    pub fn add_field(&mut self, field: u32)
        ensures
            final(self)@ == old(self)@.add_field(field),
    {
        proof {
            use_type_invariant(&*self);
        }
        let mut table = Vec::new();
        std::mem::swap(&mut table, &mut self.fields);
        u32_set_insert(&mut table, field);
        self.fields = table;
        let mut table = Vec::new();
        std::mem::swap(&mut table, &mut self.ordered_fields);
        table.push(field);
        self.ordered_fields = table;
    }

    /// Names a field; a name may name only one field.
    pub fn add_field_name(&mut self, field: u32, name: &str) -> (r: Result<()>)
        ensures
            final(self)@ == old(self)@.add_field_name(field, name@),
            r is Ok <==> !old(self)@.name_to_field.contains_key(name@),
            r is Err ==> r->Err_0@ == NativeErrorView::ConfigError(
                "Field name "@ + name@ + " defined multiple times"@,
            ),
    {
        proof {
            use_type_invariant(&*self);
        }
        match find_text_key(&self.name_to_field, name) {
            Some(i) => {
                proof {
                    lemma_assoc_at(text_keys(self.name_to_field@), i as int);
                }
                let mut msg = String::new();
                push_str(&mut msg, "Field name ");
                push_str(&mut msg, name);
                push_str(&mut msg, " defined multiple times");
                Err(NativeError::ConfigError(msg))
            },
            None => {
                let ghost old_keys = text_keys(self.name_to_field@);
                proof {
                    assert(!has_key(old_keys, name@)) by {
                        if has_key(old_keys, name@) {
                            let j = choose|j: int| 0 <= j < old_keys.len() && old_keys[j].0 == name@;
                            assert(self.name_to_field@[j].0@ == name@);
                        }
                    }
                    lemma_assoc_push(old_keys, name@, field);
                }
                let mut table = Vec::new();
                std::mem::swap(&mut table, &mut self.name_to_field);
                table.push((String::from_str(name), field));
                assert(text_keys(table@) =~= old_keys.push((name@, field)));
                self.name_to_field = table;
                let ghost old_names = self.field_names@;
                let mut table = HashMap::new();
                std::mem::swap(&mut table, &mut self.field_names);
                table.insert(field, String::from_str(name));
                self.field_names = table;
                assert(self.field_names@.map_values(|n: String| n@) =~= old_names.map_values(|n: String| n@).insert(
                    field,
                    name@,
                ));
                Ok(())
            },
        }
    }

    /// Sets the type of a field; `DATA` and `XMLDATA` fields are data fields.
    pub fn add_field_type(&mut self, field: u32, field_type: FieldType)
        ensures
            final(self)@ == old(self)@.add_field_type(field, field_type),
    {
        proof {
            use_type_invariant(&*self);
        }
        let mut table = HashMap::new();
        std::mem::swap(&mut table, &mut self.field_types);
        table.insert(field, field_type);
        self.field_types = table;
        match field_type {
            FieldType::Data | FieldType::XmlData => {
                let mut table = Vec::new();
                std::mem::swap(&mut table, &mut self.data_fields);
                u32_set_insert(&mut table, field);
                self.data_fields = table;
            },
            _ => {},
        }
    }

    /// Declares a message type.
    pub fn add_msg_type(&mut self, msg_type: &str)
        ensures
            final(self)@ == old(self)@.add_msg_type(msg_type@),
    {
        proof {
            use_type_invariant(&*self);
        }
        let mut table = Vec::new();
        std::mem::swap(&mut table, &mut self.message_types);
        text_set_insert(&mut table, msg_type);
        self.message_types = table;
    }

    /// Declares a header field and whether it is required.
    pub fn add_header_field(&mut self, field: u32, required: bool)
        ensures
            final(self)@ == old(self)@.add_header_field(field, required),
    {
        proof {
            use_type_invariant(&*self);
        }
        if self.store_msg_fields_order {
            let mut table = Vec::new();
            std::mem::swap(&mut table, &mut self.header_ordered_fields);
            table.push(field);
            self.header_ordered_fields = table;
        }
        let mut table = HashMap::new();
        std::mem::swap(&mut table, &mut self.header_fields);
        table.insert(field, required);
        self.header_fields = table;
    }

    /// Declares a trailer field and whether it is required.
    pub fn add_trailer_field(&mut self, field: u32, required: bool)
        ensures
            final(self)@ == old(self)@.add_trailer_field(field, required),
    {
        proof {
            use_type_invariant(&*self);
        }
        if self.store_msg_fields_order {
            let mut table = Vec::new();
            std::mem::swap(&mut table, &mut self.trailer_ordered_fields);
            table.push(field);
            self.trailer_ordered_fields = table;
        }
        let mut table = HashMap::new();
        std::mem::swap(&mut table, &mut self.trailer_fields);
        table.insert(field, required);
        self.trailer_fields = table;
    }

    /// Whether the field is declared.
    pub fn is_field(&self, field: u32) -> (r: bool)
        ensures
            r == self@.fields.contains(field),
    {
        proof {
            use_type_invariant(self);
        }
        u32_list_contains(&self.fields, field)
    }

    /// Whether the message type is declared.
    pub fn is_msg_type(&self, msg_type: &str) -> (r: bool)
        ensures
            r == self@.message_types.contains(msg_type@),
    {
        proof {
            use_type_invariant(self);
        }
        text_list_contains(&self.message_types, msg_type)
    }

    /// Whether the field is a header field.
    pub fn is_header_field(&self, field: u32) -> (r: bool)
        ensures
            r == self@.header_fields.contains_key(field),
    {
        proof {
            use_type_invariant(self);
        }
        self.header_fields.contains_key(&field)
    }

    /// Whether the field is a trailer field.
    pub fn is_trailer_field(&self, field: u32) -> (r: bool)
        ensures
            r == self@.trailer_fields.contains_key(field),
    {
        proof {
            use_type_invariant(self);
        }
        self.trailer_fields.contains_key(&field)
    }

    /// Whether the field carries raw data.
    pub fn is_data_field(&self, field: u32) -> (r: bool)
        ensures
            r == self@.data_fields.contains(field),
    {
        proof {
            use_type_invariant(self);
        }
        u32_list_contains(&self.data_fields, field)
    }

    /// The type of a field, if it has one.
    pub fn get_field_type(&self, field: u32) -> (r: Option<&FieldType>)
        ensures
            match r {
                Some(t) => self@.field_types.contains_key(field) && self@.field_types[field] == *t,
                None => !self@.field_types.contains_key(field),
            },
    {
        proof {
            use_type_invariant(self);
        }
        self.field_types.get(&field)
    }

    /// The name of a field, if it has one.
    pub fn get_field_name(&self, field: u32) -> (r: Option<&String>)
        ensures
            match r {
                Some(n) => self@.field_names.contains_key(field) && self@.field_names[field] == n@,
                None => !self@.field_names.contains_key(field),
            },
    {
        proof {
            use_type_invariant(self);
        }
        self.field_names.get(&field)
    }

    /// The field that a name names, if any.
    pub fn get_field_tag(&self, name: &str) -> (r: Option<u32>)
        ensures
            match r {
                Some(f) => self@.name_to_field.contains_key(name@) && self@.name_to_field[name@] == f,
                None => !self@.name_to_field.contains_key(name@),
            },
    {
        proof {
            use_type_invariant(self);
        }
        let ghost e = text_keys(self.name_to_field@);
        match find_text_key(&self.name_to_field, name) {
            Some(i) => {
                proof {
                    lemma_assoc_at(e, i as int);
                }
                Some(self.name_to_field[i].1)
            },
            None => {
                assert(!has_key(e, name@)) by {
                    if has_key(e, name@) {
                        let q = choose|q: int| 0 <= q < e.len() && e[q].0 == name@;
                        assert(self.name_to_field@[q].0@ == name@);
                    }
                }
                None
            },
        }
    }

    /// Turns the field order check on or off.
    pub fn check_fields_out_of_order(&mut self, value: bool)
        ensures
            final(self)@ == (DataDictionaryModel { check_fields_out_of_order: value, ..old(self)@ }),
    {
        proof {
            use_type_invariant(&*self);
        }
        self.check_fields_out_of_order = value;
    }

    /// Turns the user defined field check on or off.
    pub fn check_user_defined_fields(&mut self, value: bool)
        ensures
            final(self)@ == (DataDictionaryModel { check_user_defined_fields: value, ..old(self)@ }),
    {
        proof {
            use_type_invariant(&*self);
        }
        self.check_user_defined_fields = value;
    }

    /// Turns the check that fields have values on or off.
    pub fn check_fields_have_values(&mut self, value: bool)
        ensures
            final(self)@ == (DataDictionaryModel { check_fields_have_values: value, ..old(self)@ }),
    {
        proof {
            use_type_invariant(&*self);
        }
        self.check_fields_have_values = value;
    }

    /// Allows or forbids fields unknown to a message.
    pub fn allow_unknown_tags(&mut self, value: bool)
        ensures
            final(self)@ == (DataDictionaryModel { allow_unknown_message_fields: value, ..old(self)@ }),
    {
        proof {
            use_type_invariant(&*self);
        }
        self.allow_unknown_message_fields = value;
    }

    /// Keeps, or stops keeping, the order in which message fields are declared.
    pub fn preserve_message_fields_order(&mut self, value: bool)
        ensures
            final(self)@ == (DataDictionaryModel { store_msg_fields_order: value, ..old(self)@ }),
    {
        proof {
            use_type_invariant(&*self);
        }
        self.store_msg_fields_order = value;
    }
}


fn tag_set_table_insert(v: &mut Vec<(String, Vec<u32>)>, k: &str, f: u32)
    requires
        keys_distinct(tag_set_entries(old(v)@)),
        forall|i: int| 0 <= i < old(v)@.len() ==> (#[trigger] old(v)@[i]).1@.no_duplicates(),
    ensures
        keys_distinct(tag_set_entries(final(v)@)),
        forall|i: int| 0 <= i < final(v)@.len() ==> (#[trigger] final(v)@[i]).1@.no_duplicates(),
        assoc_map(tag_set_entries(final(v)@)) == assoc_map(tag_set_entries(old(v)@)).insert(
            k@,
            set_or_empty(assoc_map(tag_set_entries(old(v)@)), k@).insert(f),
        ),
{
    let ghost e = tag_set_entries(old(v)@);
    match find_text_key(v, k) {
        Some(i) => {
            proof {
                lemma_assoc_at(e, i as int);
            }
            let ghost old_inner = v@[i as int].1@;
            u32_set_insert(&mut v[i].1, f);
            proof {
                lemma_assoc_update(e, i as int, old_inner.to_set().insert(f));
                assert(tag_set_entries(v@) =~= e.update(i as int, (k@, old_inner.to_set().insert(f))));
                assert forall|j: int| 0 <= j < v@.len() implies (#[trigger] v@[j]).1@.no_duplicates() by {
                    if j != i {
                        assert(v@[j] == old(v)@[j]);
                    }
                }
            }
        },
        None => {
            let mut inner: Vec<u32> = Vec::new();
            inner.push(f);
            proof {
                assert(!has_key(e, k@)) by {
                    if has_key(e, k@) {
                        let q = choose|q: int| 0 <= q < e.len() && e[q].0 == k@;
                        assert(old(v)@[q].0@ == k@);
                    }
                }
                assert(inner@.to_set() =~= Set::<u32>::empty().insert(f));
                lemma_assoc_push(e, k@, inner@.to_set());
            }
            v.push((String::from_str(k), inner));
            assert(tag_set_entries(v@) =~= e.push((k@, Set::<u32>::empty().insert(f))));
        },
    }
}

fn tag_list_table_push(v: &mut Vec<(String, Vec<u32>)>, k: &str, f: u32)
    requires
        keys_distinct(tag_list_entries(old(v)@)),
    ensures
        keys_distinct(tag_list_entries(final(v)@)),
        assoc_map(tag_list_entries(final(v)@)) == assoc_map(tag_list_entries(old(v)@)).insert(
            k@,
            seq_or_empty(assoc_map(tag_list_entries(old(v)@)), k@).push(f),
        ),
{
    let ghost e = tag_list_entries(old(v)@);
    match find_text_key(v, k) {
        Some(i) => {
            proof {
                lemma_assoc_at(e, i as int);
            }
            let ghost old_inner = v@[i as int].1@;
            v[i].1.push(f);
            proof {
                lemma_assoc_update(e, i as int, old_inner.push(f));
                assert(tag_list_entries(v@) =~= e.update(i as int, (k@, old_inner.push(f))));
            }
        },
        None => {
            let mut inner: Vec<u32> = Vec::new();
            inner.push(f);
            proof {
                assert(!has_key(e, k@)) by {
                    if has_key(e, k@) {
                        let q = choose|q: int| 0 <= q < e.len() && e[q].0 == k@;
                        assert(old(v)@[q].0@ == k@);
                    }
                }
                assert(inner@ =~= Seq::<u32>::empty().push(f));
                lemma_assoc_push(e, k@, inner@);
            }
            v.push((String::from_str(k), inner));
            assert(tag_list_entries(v@) =~= e.push((k@, Seq::<u32>::empty().push(f))));
        },
    }
}

impl DataDictionary {
    /// Adds an allowed value to a field.
    pub fn add_field_value(&mut self, field: u32, value: &str)
        ensures
            final(self)@ == old(self)@.add_field_value(field, value@),
    {
        proof {
            use_type_invariant(&*self);
        }
        let ghost e = value_set_entries(self.field_values@);
        match find_u32_key(&self.field_values, field) {
            Some(i) => {
                proof {
                    lemma_assoc_at(e, i as int);
                }
                let ghost old_inner = texts(self.field_values@[i as int].1@);
                let mut table = Vec::new();
                std::mem::swap(&mut table, &mut self.field_values);
                text_set_insert(&mut table[i].1, value);
                proof {
                    lemma_assoc_update(e, i as int, old_inner.to_set().insert(value@));
                    assert(value_set_entries(table@) =~= e.update(
                        i as int,
                        (field, old_inner.to_set().insert(value@)),
                    ));
                    assert forall|j: int| 0 <= j < table@.len() implies texts(
                        #[trigger] table@[j].1@,
                    ).no_duplicates() by {
                        if j != i {
                            assert(table@[j] == old(self).field_values@[j]);
                        }
                    }
                }
                self.field_values = table;
            },
            None => {
                let mut inner: Vec<String> = Vec::new();
                inner.push(String::from_str(value));
                proof {
                    assert(!has_key(e, field)) by {
                        if has_key(e, field) {
                            let q = choose|q: int| 0 <= q < e.len() && e[q].0 == field;
                            assert(old(self).field_values@[q].0 == field);
                        }
                    }
                    assert(texts(inner@) =~= seq![value@]);
                    assert(texts(inner@).to_set() =~= Set::<Seq<char>>::empty().insert(value@));
                    lemma_assoc_push(e, field, Set::<Seq<char>>::empty().insert(value@));
                }
                let mut table = Vec::new();
                std::mem::swap(&mut table, &mut self.field_values);
                table.push((field, inner));
                proof {
                    assert(value_set_entries(table@) =~= e.push(
                        (field, Set::<Seq<char>>::empty().insert(value@)),
                    ));
                    assert forall|j: int| 0 <= j < table@.len() implies texts(
                        #[trigger] table@[j].1@,
                    ).no_duplicates() by {
                        if j < old(self).field_values@.len() {
                            assert(table@[j] == old(self).field_values@[j]);
                        }
                    }
                }
                self.field_values = table;
            },
        }
    }

    /// Describes a value of a field.
    pub fn add_value_name(&mut self, field: u32, value: &str, name: &str)
        ensures
            final(self)@ == old(self)@.add_value_name(field, value@, name@),
    {
        proof {
            use_type_invariant(&*self);
        }
        let ghost e = value_name_entries(self.value_names@);
        let mut i: usize = 0;
        while i < self.value_names.len()
            invariant
                i <= self.value_names@.len(),
                *self == *old(self),
                e == value_name_entries(self.value_names@),
                forall|j: int| 0 <= j < i ==> e[j].0 != (field, value@),
            decreases self.value_names@.len() - i,
        {
            if self.value_names[i].0.0 == field && crate::text::text_eq(self.value_names[i].0.1.as_str(), value) {
                proof {
                    use_type_invariant(&*self);
                    lemma_assoc_update(e, i as int, name@);
                }
                let mut table = Vec::new();
                std::mem::swap(&mut table, &mut self.value_names);
                table.set(i, ((field, String::from_str(value)), String::from_str(name)));
                assert(value_name_entries(table@) =~= e.update(i as int, ((field, value@), name@)));
                self.value_names = table;
                return;
            }
            i += 1;
        }
        proof {
            assert(!has_key(e, (field, value@)));
            lemma_assoc_push(e, (field, value@), name@);
        }
        let mut table = Vec::new();
        std::mem::swap(&mut table, &mut self.value_names);
        table.push(((field, String::from_str(value)), String::from_str(name)));
        assert(value_name_entries(table@) =~= e.push(((field, value@), name@)));
        self.value_names = table;
    }

    /// Declares a field of a message type, remembering the order when asked to.
    pub fn add_msg_field(&mut self, msg_type: &str, field: u32)
        ensures
            final(self)@ == old(self)@.add_msg_field(msg_type@, field),
    {
        proof {
            use_type_invariant(&*self);
        }
        if self.store_msg_fields_order {
            let mut table = Vec::new();
            std::mem::swap(&mut table, &mut self.message_ordered_fields);
            tag_list_table_push(&mut table, msg_type, field);
            self.message_ordered_fields = table;
        }
        let mut table = Vec::new();
        std::mem::swap(&mut table, &mut self.message_fields);
        tag_set_table_insert(&mut table, msg_type, field);
        self.message_fields = table;
    }

    /// Declares a field required in a message type.
    pub fn add_required_field(&mut self, msg_type: &str, field: u32)
        ensures
            final(self)@ == old(self)@.add_required_field(msg_type@, field),
    {
        proof {
            use_type_invariant(&*self);
        }
        let mut table = Vec::new();
        std::mem::swap(&mut table, &mut self.required_fields);
        tag_set_table_insert(&mut table, msg_type, field);
        self.required_fields = table;
    }

    /// Whether the field belongs to the message type.
    pub fn is_msg_field(&self, msg_type: &str, field: u32) -> (r: bool)
        ensures
            r == self@.is_msg_field(msg_type@, field),
    {
        proof {
            use_type_invariant(self);
        }
        let ghost e = tag_set_entries(self.message_fields@);
        match find_text_key(&self.message_fields, msg_type) {
            Some(i) => {
                proof {
                    lemma_assoc_at(e, i as int);
                }
                u32_list_contains(&self.message_fields[i].1, field)
            },
            None => {
                assert(!has_key(e, msg_type@)) by {
                    if has_key(e, msg_type@) {
                        let q = choose|q: int| 0 <= q < e.len() && e[q].0 == msg_type@;
                        assert(self.message_fields@[q].0@ == msg_type@);
                    }
                }
                false
            },
        }
    }

    /// Whether the field is required in the message type.
    pub fn is_required_field(&self, msg_type: &str, field: u32) -> (r: bool)
        ensures
            r == self@.is_required_field(msg_type@, field),
    {
        proof {
            use_type_invariant(self);
        }
        let ghost e = tag_set_entries(self.required_fields@);
        match find_text_key(&self.required_fields, msg_type) {
            Some(i) => {
                proof {
                    lemma_assoc_at(e, i as int);
                }
                u32_list_contains(&self.required_fields[i].1, field)
            },
            None => {
                assert(!has_key(e, msg_type@)) by {
                    if has_key(e, msg_type@) {
                        let q = choose|q: int| 0 <= q < e.len() && e[q].0 == msg_type@;
                        assert(self.required_fields@[q].0@ == msg_type@);
                    }
                }
                false
            },
        }
    }

    /// Whether the field takes several space separated values.
    pub fn is_multiple_value_field(&self, field: u32) -> (r: bool)
        ensures
            r == self@.is_multiple_value_field(field),
    {
        proof {
            use_type_invariant(self);
        }
        match self.get_field_type(field) {
            Some(t) => match t {
                FieldType::MultipleCharValue | FieldType::MultipleStringValue
                | FieldType::MultipleValueString => true,
                _ => false,
            },
            None => false,
        }
    }
}


/// The group table as keys and maps of models.
pub open spec fn outer_groups(v: Seq<(u32, Vec<(String, u32, DataDictionary)>)>) -> Seq<(u32, Map<Seq<char>, (u32, DataDictionaryModel)>)> {
    Seq::new(v.len(), |e: int| (v[e].0, assoc_map(group_entries(v[e].1@))))
}

/// The pieces of a text between spaces, as `str::split(' ')` yields them.
pub open spec fn split_spaces(s: Seq<char>) -> Seq<Seq<char>>
    decreases s.len(),
{
    if s.len() == 0 {
        seq![Seq::<char>::empty()]
    } else {
        let r = split_spaces(s.drop_last());
        if s.last() == ' ' {
            r.push(Seq::<char>::empty())
        } else {
            r.update(r.len() - 1, r.last().push(s.last()))
        }
    }
}

proof fn lemma_split_spaces_len(s: Seq<char>)
    ensures
        split_spaces(s).len() >= 1,
    decreases s.len(),
{
    if s.len() > 0 {
        lemma_split_spaces_len(s.drop_last());
    }
}

impl DataDictionaryModel {
    /// Whether a value is allowed for a field: any value when the field has no
    /// list of values; otherwise the value, or every space separated piece of it
    /// for a field of several values, is in the list.
    pub open spec fn is_field_value(self, f: u32, v: Seq<char>) -> bool {
        if self.field_values.contains_key(f) {
            if self.is_multiple_value_field(f) {
                forall|k: int| 0 <= k < split_spaces(v).len() ==> self.field_values[f].contains(
                    #[trigger] split_spaces(v)[k],
                )
            } else {
                self.field_values[f].contains(v)
            }
        } else {
            true
        }
    }
}

/// The pieces joined back with one space between each two.
pub open spec fn join_spaces(p: Seq<Seq<char>>) -> Seq<char>
    decreases p.len(),
{
    if p.len() <= 1 {
        if p.len() == 1 {
            p[0]
        } else {
            Seq::empty()
        }
    } else {
        join_spaces(p.drop_last()) + seq![' '] + p.last()
    }
}

/// Splitting a text at its spaces gives pieces without spaces that, joined back
/// with a space between each two, give the text.
pub proof fn split_spaces_rejoins(s: Seq<char>)
    ensures
        join_spaces(split_spaces(s)) == s,
        forall|k: int, j: int|
            0 <= k < split_spaces(s).len() && 0 <= j < split_spaces(s)[k].len() ==> #[trigger] split_spaces(s)[k][j]
                != ' ',
    decreases s.len(),
{
    lemma_split_spaces_len(s);
    if s.len() > 0 {
        let p = s.drop_last();
        split_spaces_rejoins(p);
        lemma_split_spaces_len(p);
        let r = split_spaces(p);
        if s.last() == ' ' {
            let q = r.push(Seq::<char>::empty());
            assert(q.drop_last() =~= r);
            assert(join_spaces(q) == join_spaces(r) + seq![' '] + Seq::<char>::empty());
            assert(join_spaces(q) =~= s);
            assert forall|k: int, j: int| 0 <= k < q.len() && 0 <= j < q[k].len() implies #[trigger] q[k][j] != ' ' by {
                assert(k < r.len());
                assert(q[k] == r[k]);
            }
        } else {
            let q = r.update(r.len() - 1, r.last().push(s.last()));
            if r.len() == 1 {
                assert(join_spaces(r) == r[0]);
                assert(join_spaces(q) == q[0]);
                assert(join_spaces(q) =~= s);
            } else {
                assert(q.drop_last() =~= r.drop_last());
                assert(join_spaces(q) == join_spaces(r.drop_last()) + seq![' '] + q.last());
                assert(join_spaces(r) == join_spaces(r.drop_last()) + seq![' '] + r.last());
                assert(q.last() == r.last().push(s.last()));
                assert(join_spaces(r.drop_last()) + seq![' '] + r.last().push(s.last()) =~= (join_spaces(r.drop_last())
                    + seq![' '] + r.last()).push(s.last()));
                assert(s =~= p.push(s.last()));
                assert(join_spaces(q) =~= s);
            }
            assert forall|k: int, j: int| 0 <= k < q.len() && 0 <= j < q[k].len() implies #[trigger] q[k][j] != ' ' by {
                if k == r.len() - 1 {
                    if j < r.last().len() {
                        assert(q[k][j] == r[k][j]);
                    }
                } else {
                    assert(q[k] == r[k]);
                }
            }
        }
    }
}

/// A field of type MULTIPLECHARVALUE, MULTIPLESTRINGVALUE or
/// MULTIPLEVALUESTRING takes several values; no field of another type, nor a
/// field without a type, does. A value of a field with a value list is checked
/// piece by piece (the pieces between spaces) for a field of several values, and
/// whole for the others; a field without a value list takes any value.
pub proof fn multiple_value_fields(m: DataDictionaryModel, f: u32, v: Seq<char>)
    ensures
        m.field_types.contains_key(f) && (m.field_types[f] == FieldType::MultipleCharValue || m.field_types[f]
            == FieldType::MultipleStringValue || m.field_types[f] == FieldType::MultipleValueString)
            ==> m.is_multiple_value_field(f),
        !m.field_types.contains_key(f) || !(m.field_types[f] == FieldType::MultipleCharValue || m.field_types[f]
            == FieldType::MultipleStringValue || m.field_types[f] == FieldType::MultipleValueString)
            ==> !m.is_multiple_value_field(f),
        m.field_values.contains_key(f) && m.is_multiple_value_field(f) ==> (m.is_field_value(f, v) <==> (forall|k: int|
            0 <= k < split_spaces(v).len() ==> m.field_values[f].contains(#[trigger] split_spaces(v)[k]))),
        m.field_values.contains_key(f) && !m.is_multiple_value_field(f) ==> (m.is_field_value(f, v)
            <==> m.field_values[f].contains(v)),
        !m.field_values.contains_key(f) ==> m.is_field_value(f, v),
{
}

/// The space separated pieces of a text.
fn split_on_spaces(s: &str) -> (r: Vec<String>)
    ensures
        texts(r@) == split_spaces(s@),
{
    let v = crate::text::chars_of(s);
    let mut r: Vec<String> = Vec::new();
    let mut cur = String::new();
    let mut i: usize = 0;
    assert(v@.take(0) =~= Seq::<char>::empty());
    assert(texts(r@).push(cur@) =~= seq![Seq::<char>::empty()]);
    while i < v.len()
        invariant
            i <= v@.len(),
            v@ == s@,
            texts(r@).push(cur@) == split_spaces(v@.take(i as int)),
        decreases v@.len() - i,
    {
        let c = v[i];
        let ghost prev = v@.take(i as int);
        assert(v@.take(i + 1).drop_last() =~= prev);
        assert(v@.take(i + 1).last() == c);
        proof {
            lemma_split_spaces_len(prev);
        }
        if c == ' ' {
            let done = cur;
            r.push(done);
            cur = String::new();
            assert(texts(r@) =~= split_spaces(prev));
            assert(texts(r@).push(cur@) =~= split_spaces(prev).push(Seq::<char>::empty()));
        } else {
            crate::text::push_char(&mut cur, c);
            assert(texts(r@).push(cur@) =~= split_spaces(prev).update(
                split_spaces(prev).len() - 1,
                split_spaces(prev).last().push(c),
            ));
        }
        i += 1;
    }
    r.push(cur);
    assert(v@.take(i as int) =~= v@);
    r
}

impl DataDictionary {
    /// Whether a value is allowed for a field.
    pub fn is_field_value(&self, field: u32, value: &str) -> (r: bool)
        ensures
            r == self@.is_field_value(field, value@),
    {
        proof {
            use_type_invariant(self);
        }
        let ghost e = value_set_entries(self.field_values@);
        match find_u32_key(&self.field_values, field) {
            Some(i) => {
                proof {
                    lemma_assoc_at(e, i as int);
                }
                let valid = &self.field_values[i].1;
                if self.is_multiple_value_field(field) {
                    let pieces = split_on_spaces(value);
                    let mut k: usize = 0;
                    while k < pieces.len()
                        invariant
                            k <= pieces@.len(),
                            texts(pieces@) == split_spaces(value@),
                            self@.field_values.contains_key(field),
                            self@.field_values[field] == texts(valid@).to_set(),
                            self@.is_multiple_value_field(field),
                            forall|j: int| 0 <= j < k ==> texts(valid@).contains(#[trigger] texts(pieces@)[j]),
                        decreases pieces@.len() - k,
                    {
                        if !text_list_contains(valid, pieces[k].as_str()) {
                            assert(!texts(valid@).to_set().contains(texts(pieces@)[k as int]));
                            assert(split_spaces(value@)[k as int] == texts(pieces@)[k as int]);
                            assert(!self@.field_values[field].contains(split_spaces(value@)[k as int]));
                            return false;
                        }
                        k += 1;
                    }
                    true
                } else {
                    text_list_contains(valid, value)
                }
            },
            None => {
                assert(!has_key(e, field)) by {
                    if has_key(e, field) {
                        let q = choose|q: int| 0 <= q < e.len() && e[q].0 == field;
                        assert(self.field_values@[q].0 == field);
                    }
                }
                true
            },
        }
    }

    /// Fails with `InvalidTagNumber` when the field is not declared.
    pub fn check_has_value(&self, field: u32, _value: &str) -> (r: Result<()>)
        ensures
            r is Ok <==> self@.fields.contains(field),
            r is Err ==> r->Err_0@ == NativeErrorView::InvalidTagNumber(field),
    {
        proof {
            use_type_invariant(self);
        }
        if !self.is_field(field) {
            return Err(NativeError::InvalidTagNumber(field));
        }
        Ok(())
    }

    /// Fails with `IncorrectTagValue` when the field has a list of values and the
    /// value is not allowed.
    pub fn check_field_value(&self, field: u32, value: &str) -> (r: Result<()>)
        ensures
            r is Ok <==> !(self@.field_values.contains_key(field) && !self@.is_field_value(field, value@)),
            r is Err ==> r->Err_0@ == NativeErrorView::IncorrectTagValue(field),
    {
        proof {
            use_type_invariant(self);
        }
        let ghost e = value_set_entries(self.field_values@);
        let has_values = match find_u32_key(&self.field_values, field) {
            Some(i) => {
                proof {
                    lemma_assoc_at(e, i as int);
                }
                true
            },
            None => {
                assert(!has_key(e, field)) by {
                    if has_key(e, field) {
                        let q = choose|q: int| 0 <= q < e.len() && e[q].0 == field;
                        assert(self.field_values@[q].0 == field);
                    }
                }
                false
            },
        };
        if has_values && !self.is_field_value(field, value) {
            return Err(NativeError::IncorrectTagValue(field));
        }
        Ok(())
    }

    /// Fails with `InvalidTagNumber` when the field is not declared.
    pub fn check_valid_tag_number(&self, field: u32) -> (r: Result<()>)
        ensures
            r is Ok <==> self@.fields.contains(field),
            r is Err ==> r->Err_0@ == NativeErrorView::InvalidTagNumber(field),
    {
        proof {
            use_type_invariant(self);
        }
        if !self.is_field(field) {
            return Err(NativeError::InvalidTagNumber(field));
        }
        Ok(())
    }

    /// Fails with `TagNotDefinedforMessage` when the field does not belong to the
    /// message type.
    pub fn check_is_in_message(&self, field: u32, msg_type: &str) -> (r: Result<()>)
        ensures
            r is Ok <==> self@.is_msg_field(msg_type@, field),
            r is Err ==> r->Err_0@ == NativeErrorView::TagNotDefinedforMessage(field),
    {
        proof {
            use_type_invariant(self);
        }
        if !self.is_msg_field(msg_type, field) {
            return Err(NativeError::TagNotDefinedforMessage(field));
        }
        Ok(())
    }

    /// A value of the field that the description names, if any.
    pub fn get_name_value(&self, field: u32, name: &str) -> (r: Option<String>)
        ensures
            match r {
                Some(v) => self@.value_names.contains_key((field, v@))
                    && self@.value_names[(field, v@)] == name@,
                None => !exists|v: Seq<char>| #[trigger] self@.value_names.contains_key((field, v))
                    && self@.value_names[(field, v)] == name@,
            },
    {
        proof {
            use_type_invariant(self);
        }
        let ghost e = value_name_entries(self.value_names@);
        let mut i: usize = 0;
        while i < self.value_names.len()
            invariant
                i <= self.value_names@.len(),
                e == value_name_entries(self.value_names@),
                forall|j: int| 0 <= j < i ==> !(e[j].0.0 == field && e[j].1 == name@),
            decreases self.value_names@.len() - i,
        {
            if self.value_names[i].0.0 == field && crate::text::text_eq(
                self.value_names[i].1.as_str(),
                name,
            ) {
                proof {
                    use_type_invariant(self);
                    lemma_assoc_at(e, i as int);
                }
                return Some(self.value_names[i].0.1.clone());
            }
            i += 1;
        }
        proof {
            if exists|v: Seq<char>| #[trigger] self@.value_names.contains_key((field, v))
                && self@.value_names[(field, v)] == name@ {
                let v = choose|v: Seq<char>| #[trigger] self@.value_names.contains_key((field, v))
                    && self@.value_names[(field, v)] == name@;
                let j = choose|j: int| 0 <= j < e.len() && e[j].0 == (field, v);
                lemma_assoc_at(e, j);
            }
        }
        None
    }
}


proof fn lemma_groups_view(dd: DataDictionary)
    ensures
        dd@.groups == assoc_map(outer_groups(dd.groups@)),
{
    assert forall|e: int| 0 <= e < dd.groups@.len() implies #[trigger] dd_outer(dd.groups)[e] == outer_groups(dd.groups@)[e] by {
        assert(dd_inner(dd.groups, e) =~= group_entries(dd.groups@[e].1@));
    }
    assert(dd_outer(dd.groups) =~= outer_groups(dd.groups@));
}

proof fn lemma_outer_keys(v: Seq<(u32, Vec<(String, u32, DataDictionary)>)>)
    requires
        keys_distinct(v),
    ensures
        keys_distinct(outer_groups(v)),
        forall|k: u32| has_key(v, k) <==> has_key(outer_groups(v), k),
{
    let o = outer_groups(v);
    assert forall|k: u32| has_key(v, k) <==> has_key(o, k) by {
        if has_key(v, k) {
            let i = choose|i: int| 0 <= i < v.len() && v[i].0 == k;
            assert(o[i].0 == k);
        }
        if has_key(o, k) {
            let i = choose|i: int| 0 <= i < o.len() && o[i].0 == k;
            assert(v[i].0 == k);
        }
    }
}

fn find_group_entry(v: &Vec<(String, u32, DataDictionary)>, k: &str) -> (r: Option<usize>)
    ensures
        match r {
            Some(i) => i < v@.len() && v@[i as int].0@ == k@,
            None => !has_key(group_entries(v@), k@),
        },
{
    let mut i: usize = 0;
    while i < v.len()
        invariant
            i <= v@.len(),
            forall|j: int| 0 <= j < i ==> v@[j].0@ != k@,
        decreases v@.len() - i,
    {
        if crate::text::text_eq(v[i].0.as_str(), k) {
            return Some(i);
        }
        i += 1;
    }
    proof {
        if has_key(group_entries(v@), k@) {
            let j = choose|j: int| 0 <= j < v@.len() && group_entries(v@)[j].0 == k@;
            assert(v@[j].0@ == k@);
        }
    }
    None
}

proof fn lemma_outer_update(v: Seq<(u32, Vec<(String, u32, DataDictionary)>)>, e: int, inner: Vec<(String, u32, DataDictionary)>)
    requires
        keys_distinct(v),
        0 <= e < v.len(),
    ensures
        keys_distinct(v.update(e, (v[e].0, inner))),
        outer_groups(v.update(e, (v[e].0, inner))) == outer_groups(v).update(e, (v[e].0, assoc_map(group_entries(inner@)))),
{
    let w = v.update(e, (v[e].0, inner));
    assert forall|a: int, b: int| 0 <= a < w.len() && 0 <= b < w.len() && a != b implies w[a].0 != w[b].0 by {
        assert(w[a].0 == v[a].0);
        assert(w[b].0 == v[b].0);
    }
    assert(outer_groups(w) =~= outer_groups(v).update(e, (v[e].0, assoc_map(group_entries(inner@)))));
}

proof fn lemma_outer_push(v: Seq<(u32, Vec<(String, u32, DataDictionary)>)>, k: u32, inner: Vec<(String, u32, DataDictionary)>)
    requires
        keys_distinct(v),
        !has_key(v, k),
    ensures
        keys_distinct(v.push((k, inner))),
        outer_groups(v.push((k, inner))) == outer_groups(v).push((k, assoc_map(group_entries(inner@)))),
{
    let w = v.push((k, inner));
    assert forall|a: int, b: int| 0 <= a < w.len() && 0 <= b < w.len() && a != b implies w[a].0 != w[b].0 by {
        if a == v.len() {
            assert(v[b].0 != k);
        } else if b == v.len() {
            assert(v[a].0 != k);
        }
    }
    assert(outer_groups(w) =~= outer_groups(v).push((k, assoc_map(group_entries(inner@)))));
}

fn group_table_insert(
    v: &mut Vec<(u32, Vec<(String, u32, DataDictionary)>)>,
    msg_type: String,
    field: u32,
    delim: u32,
    group_dd: DataDictionary,
)
    requires
        keys_distinct(old(v)@),
        forall|i: int| 0 <= i < old(v)@.len() ==> keys_distinct(group_entries((#[trigger] old(v)@[i]).1@)),
    ensures
        keys_distinct(final(v)@),
        forall|i: int| 0 <= i < final(v)@.len() ==> keys_distinct(group_entries((#[trigger] final(v)@[i]).1@)),
        assoc_map(outer_groups(final(v)@)) == assoc_map(outer_groups(old(v)@)).insert(
            field,
            (if assoc_map(outer_groups(old(v)@)).contains_key(field) {
                assoc_map(outer_groups(old(v)@))[field]
            } else {
                Map::empty()
            }).insert(msg_type@, (delim, group_dd@)),
        ),
{
    proof {
        lemma_outer_keys(old(v)@);
    }
    let ghost og = outer_groups(old(v)@);
    let ghost gm = group_dd@;
    let ghost key = msg_type@;
    match find_u32_key(v, field) {
        Some(e) => {
            proof {
                lemma_assoc_at(og, e as int);
            }
            let mut inner = Vec::new();
            std::mem::swap(&mut inner, &mut v[e].1);
            let ghost old_inner = inner@;
            assert(old_inner == old(v)@[e as int].1@);
            let ghost oe = group_entries(old_inner);
            match find_group_entry(&inner, msg_type.as_str()) {
                Some(i) => {
                    proof {
                        lemma_assoc_update(oe, i as int, (delim, gm));
                    }
                    inner.set(i, (msg_type, delim, group_dd));
                    assert(group_entries(inner@) =~= oe.update(i as int, (key, (delim, gm))));
                },
                None => {
                    proof {
                        lemma_assoc_push(oe, key, (delim, gm));
                    }
                    inner.push((msg_type, delim, group_dd));
                    assert(group_entries(inner@) =~= oe.push((key, (delim, gm))));
                },
            }
            let ghost newinner = inner;
            v.set(e, (field, inner));
            proof {
                lemma_outer_update(old(v)@, e as int, newinner);
                assert(v@ =~= old(v)@.update(e as int, (field, newinner)));
                lemma_assoc_update(og, e as int, assoc_map(group_entries(newinner@)));
                assert forall|i: int| 0 <= i < v@.len() implies keys_distinct(group_entries((#[trigger] v@[i]).1@)) by {
                    if i != e {
                        assert(v@[i] == old(v)@[i]);
                    }
                }
            }
        },
        None => {
            let mut inner: Vec<(String, u32, DataDictionary)> = Vec::new();
            inner.push((msg_type, delim, group_dd));
            proof {
                lemma_assoc_push(Seq::<(Seq<char>, (u32, DataDictionaryModel))>::empty(), key, (delim, gm));
                assert(group_entries(inner@) =~= Seq::<(Seq<char>, (u32, DataDictionaryModel))>::empty().push((key, (delim, gm))));
                assert(assoc_map(Seq::<(Seq<char>, (u32, DataDictionaryModel))>::empty()) =~= Map::empty());
            }
            let ghost newinner = inner;
            v.push((field, inner));
            proof {
                lemma_outer_push(old(v)@, field, newinner);
                lemma_assoc_push(og, field, assoc_map(group_entries(newinner@)));
                assert forall|i: int| 0 <= i < v@.len() implies keys_distinct(group_entries((#[trigger] v@[i]).1@)) by {
                    if i < old(v)@.len() {
                        assert(v@[i] == old(v)@[i]);
                    }
                }
            }
        },
    }
}

impl DataDictionary {
    /// Records the sub dictionary and the delimiter of a repeating group of a
    /// message type.
    pub fn add_group(&mut self, msg_type: String, field: u32, delim: u32, group_dd: DataDictionary)
        ensures
            final(self)@ == old(self)@.add_group(msg_type@, field, delim, group_dd@),
    {
        proof {
            use_type_invariant(&*self);
        }
        proof {
            lemma_groups_view(*old(self));
        }
        let mut table = Vec::new();
        std::mem::swap(&mut table, &mut self.groups);
        group_table_insert(&mut table, msg_type, field, delim, group_dd);
        self.groups = table;
        proof {
            lemma_groups_view(*self);
        }
    }

    /// Checks the count field of a repeating group of the message type against
    /// the number of groups the map holds for it.
    pub fn check_group_count(&self, field: u32, field_map: &FieldMap, msg_type: &str) -> (r: Result<()>)
        requires
            field_map.wf(),
        ensures
            !self@.is_group(msg_type@, field) ==> r is Ok,
            self@.is_group(msg_type@, field) ==> match field_map@.value(field) {
                None => r matches Err(e) && e@ == NativeErrorView::NoTagValue(field),
                Some(v) => match parse_unsigned(encode_utf8(v), usize::MAX as nat) {
                    None => r matches Err(e) && e@ == NativeErrorView::IncorrectDataFormat(field, v),
                    Some(n) => if n == field_map@.groups_of(field).len() {
                        r is Ok
                    } else {
                        r matches Err(e) && e@ == NativeErrorView::RepeatingGroupCountMismatch(field)
                    },
                },
            },
    {
        proof {
            use_type_invariant(self);
        }
        if self.is_group(msg_type, field) {
            match field_map.get_field(field) {
                Some(value) => {
                    let actual_count = field_map.group_count(field);
                    let expected_count = match parse_usize(value.as_str()) {
                        Some(n) => n,
                        None => {
                            return Err(NativeError::IncorrectDataFormat(field, value.clone()));
                        },
                    };
                    if actual_count != expected_count {
                        return Err(NativeError::RepeatingGroupCountMismatch(field));
                    }
                },
                None => {
                    return Err(NativeError::NoTagValue(field));
                },
            }
        }
        Ok(())
    }

    /// Whether the field is a repeating group of the message type.
    pub fn is_group(&self, msg_type: &str, field: u32) -> (r: bool)
        ensures
            r == self@.is_group(msg_type@, field),
    {
        proof {
            use_type_invariant(self);
        }
        match self.get_group(msg_type, field) {
            Some(_) => true,
            None => false,
        }
    }

    /// The delimiter and the sub dictionary of a repeating group of a message type.
    pub fn get_group(&self, msg_type: &str, field: u32) -> (r: Option<(u32, &DataDictionary)>)
        ensures
            match r {
                Some((d, g)) => self@.is_group(msg_type@, field) && self@.groups[field][msg_type@] == (d, g@),
                None => !self@.is_group(msg_type@, field),
            },
    {
        proof {
            use_type_invariant(self);
        }
        proof {
            lemma_groups_view(*self);
            lemma_outer_keys(self.groups@);
        }
        let ghost og = outer_groups(self.groups@);
        match find_u32_key(&self.groups, field) {
            Some(e) => {
                proof {
                    lemma_assoc_at(og, e as int);
                }
                let inner = &self.groups[e].1;
                match find_group_entry(inner, msg_type) {
                    Some(i) => {
                        proof {
                            lemma_assoc_at(group_entries(inner@), i as int);
                        }
                        Some((inner[i].1, &inner[i].2))
                    },
                    None => None,
                }
            },
            None => None,
        }
    }
}


// ---------------------------------------------------------------------------
// Building a dictionary from a FIX specification
// ---------------------------------------------------------------------------

/// Index of the last component definition with the name among the first `n`
/// (a later definition replaces an earlier one), or -1.
pub open spec fn last_component(comps: Seq<ComponentSpec>, name: Seq<char>, n: int) -> int
    decreases n,
{
    if n <= 0 || n > comps.len() {
        -1
    } else if comps[n - 1].name@ == name {
        n - 1
    } else {
        last_component(comps, name, n - 1)
    }
}

/// Records a field of a context: a header or trailer field with its required
/// flag, or a field of a message type, then required when `required` holds.
pub open spec fn place_field(m: DataDictionaryModel, ctx: Seq<char>, n: u32, required: bool) -> DataDictionaryModel {
    if ctx == header_context() {
        m.add_header_field(n, required)
    } else if ctx == trailer_context() {
        m.add_trailer_field(n, required)
    } else {
        let m1 = m.add_msg_field(ctx, n);
        if required {
            m1.add_required_field(ctx, n)
        } else {
            m1
        }
    }
}

/// A new dictionary with the version of `m`, if it has one.
pub open spec fn group_start(m: DataDictionaryModel) -> DataDictionaryModel {
    match m.version {
        Some(v) => empty_model().set_version(v),
        None => empty_model(),
    }
}

/// The dictionary after processing one value of a message, of the header or of
/// the trailer (`ctx`), and the error that stopped it, if any. Field and group
/// names are looked up in `names`, the name table of the dictionary being built;
/// `fuel` is the number of nested component expansions left: a component reached
/// with none left lies on a cycle of component references.
pub open spec fn process_value(
    names: Map<Seq<char>, u32>,
    m: DataDictionaryModel,
    fv: FieldValue,
    ctx: Seq<char>,
    comps: Seq<ComponentSpec>,
    fuel: nat,
) -> (DataDictionaryModel, Option<NativeErrorView>)
    decreases fuel, fv, 0nat,
{
    match fv {
        FieldValue::Field(f) => {
            if names.contains_key(f.name@) {
                (place_field(m, ctx, names[f.name@], f.required), None)
            } else {
                (m, Some(NativeErrorView::ConfigError("Field "@ + f.name@ + " not defined in field section"@)))
            }
        },
        FieldValue::Group(g) => {
            if names.contains_key(g.name@) {
                let gn = names[g.name@];
                let r = group_values(names, group_start(m), 0, g.values@, 0, ctx, comps, fuel, g.required);
                if r.2 is Some {
                    (m, r.2)
                } else {
                    let m2 = if r.1 != 0 {
                        m.add_group(ctx, gn, r.1, r.0)
                    } else {
                        m
                    };
                    (place_field(m2, ctx, gn, g.required), None)
                }
            } else {
                (m, Some(NativeErrorView::ConfigError("Group field "@ + g.name@ + " not defined in fields section"@)))
            }
        },
        FieldValue::Component(c) => {
            let k = last_component(comps, c.name@, comps.len() as int);
            if k < 0 {
                (m, Some(NativeErrorView::ConfigError("Component "@ + c.name@ + " not found in component specifications"@)))
            } else if fuel == 0 {
                (m, Some(component_cycle_error()))
            } else {
                component_values(names, m, comps[k].values@, 0, ctx, comps, (fuel - 1) as nat, c.required)
            }
        },
    }
}

/// The sub dictionary, the delimiter and the error after processing the values
/// of a group from the `i`-th on; names are looked up in `names`.
pub open spec fn group_values(
    names: Map<Seq<char>, u32>,
    gdd: DataDictionaryModel,
    delim: u32,
    vals: Seq<FieldValue>,
    i: int,
    ctx: Seq<char>,
    comps: Seq<ComponentSpec>,
    fuel: nat,
    group_required: bool,
) -> (DataDictionaryModel, u32, Option<NativeErrorView>)
    decreases fuel, vals, vals.len() - i,
{
    if 0 <= i < vals.len() {
        match vals[i] {
            FieldValue::Field(f) => {
                if names.contains_key(f.name@) {
                    let n = names[f.name@];
                    let g1 = gdd.add_field(n);
                    let g2 = if f.required && group_required {
                        g1.add_required_field(ctx, n)
                    } else {
                        g1
                    };
                    let d = if i == 0 {
                        n
                    } else {
                        delim
                    };
                    group_values(names, g2, d, vals, i + 1, ctx, comps, fuel, group_required)
                } else {
                    (gdd, delim, Some(NativeErrorView::ConfigError("Field "@ + f.name@ + " not defined in fields section"@)))
                }
            },
            _ => {
                let r = process_value(names, gdd, vals[i], ctx, comps, fuel);
                if r.1 is Some {
                    (r.0, delim, r.1)
                } else {
                    group_values(names, r.0, delim, vals, i + 1, ctx, comps, fuel, group_required)
                }
            },
        }
    } else {
        (gdd, delim, None)
    }
}

/// The dictionary and the error after processing the values of a component
/// from the `i`-th on; `component_required` is the required flag of the
/// reference to the component.
pub open spec fn component_values(
    names: Map<Seq<char>, u32>,
    m: DataDictionaryModel,
    vals: Seq<FieldValue>,
    i: int,
    ctx: Seq<char>,
    comps: Seq<ComponentSpec>,
    fuel: nat,
    component_required: bool,
) -> (DataDictionaryModel, Option<NativeErrorView>)
    decreases fuel, vals, vals.len() - i,
{
    if 0 <= i < vals.len() {
        match vals[i] {
            FieldValue::Field(f) => {
                if names.contains_key(f.name@) {
                    let m1 = place_field(m, ctx, names[f.name@], f.required && component_required);
                    component_values(names, m1, vals, i + 1, ctx, comps, fuel, component_required)
                } else {
                    (m, Some(NativeErrorView::ConfigError("Field "@ + f.name@ + " not defined in fields section"@)))
                }
            },
            _ => {
                let r = process_value(names, m, vals[i], ctx, comps, fuel);
                if r.1 is Some {
                    r
                } else {
                    component_values(names, r.0, vals, i + 1, ctx, comps, fuel, component_required)
                }
            },
        }
    } else {
        (m, None)
    }
}

/// Nothing becomes required from `m` to `m2`: the required fields of the
/// messages are the same, and a header or trailer field required in `m2` was
/// already required in `m`.
pub open spec fn adds_no_requirement(m: DataDictionaryModel, m2: DataDictionaryModel) -> bool {
    &&& m2.required_fields == m.required_fields
    &&& forall|f: u32|
        #[trigger] m2.header_fields.contains_key(f) && m2.header_fields[f] ==> m.header_fields.contains_key(f)
            && m.header_fields[f]
    &&& forall|f: u32|
        #[trigger] m2.trailer_fields.contains_key(f) && m2.trailer_fields[f] ==> m.trailer_fields.contains_key(f)
            && m.trailer_fields[f]
}

proof fn lemma_optional_component_values(
    names: Map<Seq<char>, u32>,
    m: DataDictionaryModel,
    vals: Seq<FieldValue>,
    i: int,
    ctx: Seq<char>,
    comps: Seq<ComponentSpec>,
    fuel: nat,
)
    requires
        0 <= i,
        forall|j: int| 0 <= j < vals.len() ==> #[trigger] vals[j] is Field,
    ensures
        adds_no_requirement(m, component_values(names, m, vals, i, ctx, comps, fuel, false).0),
    decreases vals.len() - i,
{
    if i < vals.len() {
        assert(vals[i] is Field);
        let f = vals[i]->Field_0;
        if names.contains_key(f.name@) {
            let m1 = place_field(m, ctx, names[f.name@], false);
            lemma_optional_component_values(names, m1, vals, i + 1, ctx, comps, fuel);
            let m3 = component_values(names, m1, vals, i + 1, ctx, comps, fuel, false).0;
            assert(adds_no_requirement(m, m1));
            assert(m3 == component_values(names, m, vals, i, ctx, comps, fuel, false).0);
            assert forall|g: u32| #[trigger] m3.header_fields.contains_key(g) && m3.header_fields[g] implies m.header_fields.contains_key(g)
                && m.header_fields[g] by {
                assert(m1.header_fields.contains_key(g) && m1.header_fields[g]);
            }
            assert forall|g: u32| #[trigger] m3.trailer_fields.contains_key(g) && m3.trailer_fields[g] implies m.trailer_fields.contains_key(g)
                && m.trailer_fields[g] by {
                assert(m1.trailer_fields.contains_key(g) && m1.trailer_fields[g]);
            }
        }
    }
}

/// Some field from the `i`-th on in a list of field values is required and
/// has the number `n`.
pub open spec fn required_field_among(names: Map<Seq<char>, u32>, vals: Seq<FieldValue>, i: int, n: u32) -> bool {
    exists|j: int| i <= j < vals.len() && required_named(names, #[trigger] vals[j], n)
}

/// A value is a required field with the number `n`.
pub open spec fn required_named(names: Map<Seq<char>, u32>, v: FieldValue, n: u32) -> bool {
    match v {
        FieldValue::Field(f) => f.required && names[f.name@] == n,
        _ => false,
    }
}

proof fn lemma_component_requirements(
    names: Map<Seq<char>, u32>,
    m: DataDictionaryModel,
    vals: Seq<FieldValue>,
    i: int,
    ctx: Seq<char>,
    comps: Seq<ComponentSpec>,
    fuel: nat,
    cr: bool,
)
    requires
        0 <= i,
        ctx != header_context(),
        ctx != trailer_context(),
        forall|j: int| 0 <= j < vals.len() ==> (#[trigger] vals[j] matches FieldValue::Field(f) && names.contains_key(f.name@)),
    ensures
        forall|t: Seq<char>, n: u32|
            #[trigger] component_values(names, m, vals, i, ctx, comps, fuel, cr).0.is_required_field(t, n) <==> (
            m.is_required_field(t, n) || (t == ctx && cr && required_field_among(names, vals, i, n))),
    decreases vals.len() - i,
{
    if i < vals.len() {
        assert(vals[i] matches FieldValue::Field(f) && names.contains_key(f.name@));
        let f = vals[i]->Field_0;
        let ni = names[f.name@];
        let m1 = place_field(m, ctx, ni, f.required && cr);
        lemma_component_requirements(names, m1, vals, i + 1, ctx, comps, fuel, cr);
        let m2 = component_values(names, m1, vals, i + 1, ctx, comps, fuel, cr).0;
        assert(m2 == component_values(names, m, vals, i, ctx, comps, fuel, cr).0);
        assert forall|t: Seq<char>, n: u32| #[trigger] m1.is_required_field(t, n) <==> (m.is_required_field(t, n) || (t
            == ctx && f.required && cr && n == ni)) by {}
        assert forall|t: Seq<char>, n: u32| #[trigger] m2.is_required_field(t, n) <==> (m.is_required_field(t, n) || (t
            == ctx && cr && required_field_among(names, vals, i, n))) by {
            if required_field_among(names, vals, i, n) && !required_field_among(names, vals, i + 1, n) {
                let j = choose|j: int| i <= j < vals.len() && required_named(names, #[trigger] vals[j], n);
                assert(j == i);
            }
            if required_field_among(names, vals, i + 1, n) {
                let j = choose|j: int| i + 1 <= j < vals.len() && required_named(names, #[trigger] vals[j], n);
                assert(i <= j);
            }
            if f.required && n == ni {
                assert(required_named(names, vals[i], n));
            }
        }
    } else {
        assert forall|n: u32| !required_field_among(names, vals, i, n) by {}
    }
}

/// The fields a component reference adds to a message are required exactly
/// where both the field and the reference are required: a field of the
/// component becomes a required field of the message if and only if its own
/// flag and the reference's flag are both set; other messages are untouched
/// (where the component holds fields only, all of them named).
pub proof fn component_fields_required_as_flagged(
    names: Map<Seq<char>, u32>,
    m: DataDictionaryModel,
    c: Component,
    ctx: Seq<char>,
    comps: Seq<ComponentSpec>,
    fuel: nat,
    t: Seq<char>,
    n: u32,
)
    requires
        ctx != header_context(),
        ctx != trailer_context(),
        fuel > 0,
        last_component(comps, c.name@, comps.len() as int) >= 0,
        forall|j: int|
            0 <= j < comps[last_component(comps, c.name@, comps.len() as int)].values@.len() ==> (
            #[trigger] comps[last_component(comps, c.name@, comps.len() as int)].values@[j] matches FieldValue::Field(
                f,
            ) && names.contains_key(f.name@)),
    ensures
        process_value(names, m, FieldValue::Component(c), ctx, comps, fuel).0.is_required_field(t, n) <==> (
        m.is_required_field(t, n) || (t == ctx && c.required && required_field_among(
            names,
            comps[last_component(comps, c.name@, comps.len() as int)].values@,
            0,
            n,
        ))),
{
    let k = last_component(comps, c.name@, comps.len() as int);
    lemma_last_component_range(comps, c.name@, comps.len() as int);
    lemma_component_requirements(names, m, comps[k].values@, 0, ctx, comps, (fuel - 1) as nat, c.required);
    let r = component_values(names, m, comps[k].values@, 0, ctx, comps, (fuel - 1) as nat, c.required);
    assert(process_value(names, m, FieldValue::Component(c), ctx, comps, fuel) == r);
    assert(r.0.is_required_field(t, n) <==> (m.is_required_field(t, n) || (t == ctx && c.required
        && required_field_among(names, comps[k].values@, 0, n))));
}

/// A reference to a component that is not required makes none of the
/// component's own fields required, whatever their own flags say: after it,
/// the required fields of every message are unchanged, and no header or trailer
/// field has become required (where the component holds fields only; nested
/// groups and components keep their own flags).
pub proof fn optional_component_fields_not_required(
    names: Map<Seq<char>, u32>,
    m: DataDictionaryModel,
    c: Component,
    ctx: Seq<char>,
    comps: Seq<ComponentSpec>,
    fuel: nat,
)
    requires
        !c.required,
        last_component(comps, c.name@, comps.len() as int) >= 0 ==> forall|j: int|
            0 <= j < comps[last_component(comps, c.name@, comps.len() as int)].values@.len()
                ==> #[trigger] comps[last_component(comps, c.name@, comps.len() as int)].values@[j] is Field,
    ensures
        adds_no_requirement(m, process_value(names, m, FieldValue::Component(c), ctx, comps, fuel).0),
{
    let k = last_component(comps, c.name@, comps.len() as int);
    if k >= 0 && fuel > 0 {
        lemma_optional_component_values(names, m, comps[k].values@, 0, ctx, comps, (fuel - 1) as nat);
    }
}

/// The error of a result, as plain text.
pub open spec fn error_of(r: Result<()>) -> Option<NativeErrorView> {
    match r {
        Ok(_) => None,
        Err(e) => Some(e@),
    }
}

/// Position of the last component definition with the name.
fn find_component(comps: &Vec<ComponentSpec>, name: &str) -> (r: Option<usize>)
    ensures
        match r {
            Some(k) => k as int == last_component(comps@, name@, comps@.len() as int) && k < comps@.len(),
            None => last_component(comps@, name@, comps@.len() as int) < 0,
        },
{
    let mut n: usize = comps.len();
    while n > 0
        invariant
            n <= comps@.len(),
            last_component(comps@, name@, comps@.len() as int) == last_component(comps@, name@, n as int),
        decreases n,
    {
        if crate::text::text_eq(comps[n - 1].name.as_str(), name) {
            return Some(n - 1);
        }
        n -= 1;
    }
    None
}

fn config_error(prefix: &str, name: &str, suffix: &str) -> (r: NativeError)
    ensures
        r@ == NativeErrorView::ConfigError(prefix@ + name@ + suffix@),
{
    let mut msg = String::new();
    push_str(&mut msg, prefix);
    push_str(&mut msg, name);
    push_str(&mut msg, suffix);
    NativeError::ConfigError(msg)
}

impl DataDictionary {
    fn place_field(&mut self, ctx: &str, n: u32, required: bool)
        ensures
            final(self)@ == place_field(old(self)@, ctx@, n, required),
    {
        proof {
            use_type_invariant(&*self);
        }
        if crate::text::text_eq(ctx, "_header_") {
            self.add_header_field(n, required);
        } else if crate::text::text_eq(ctx, "_trailer_") {
            self.add_trailer_field(n, required);
        } else {
            self.add_msg_field(ctx, n);
            if required {
                self.add_required_field(ctx, n);
            }
        }
    }

    fn process_field_value(
        &mut self,
        names: &Vec<(String, u32)>,
        field_value: &FieldValue,
        context: &str,
        comps: &Vec<ComponentSpec>,
        fuel: usize,
    ) -> (r: Result<()>)
        requires
            keys_distinct(text_keys(names@)),
        ensures
            process_value(name_map(names@), old(self)@, *field_value, context@, comps@, fuel as nat) == (
                final(self)@,
                error_of(r),
            ),
        decreases fuel, *field_value, 0nat,
    {
        let ghost nm = name_map(names@);
        match field_value {
            FieldValue::Field(field) => {
                match lookup_name(names, field.name.as_str()) {
                    Some(n) => {
                        self.place_field(context, n, field.required);
                        Ok(())
                    },
                    None => Err(config_error("Field ", field.name.as_str(), " not defined in field section")),
                }
            },
            FieldValue::Group(group) => {
                let group_field_num = match lookup_name(names, group.name.as_str()) {
                    Some(n) => n,
                    None => {
                        return Err(config_error("Group field ", group.name.as_str(), " not defined in fields section"));
                    },
                };
                let mut group_dd = DataDictionary::new();
                match self.get_version() {
                    Some(version) => {
                        group_dd.set_version(version.as_str());
                    },
                    None => {},
                }
                let ghost vals = group.values@;
                let ghost target = group_values(nm, group_start(self@), 0, vals, 0, context@, comps@, fuel as nat, group.required);
                let mut delim: u32 = 0;
                let mut i: usize = 0;
                while i < group.values.len()
                    invariant
                        *self == *old(self),
                        keys_distinct(text_keys(names@)),
                        nm == name_map(names@),
                        i <= vals.len(),
                        vals == group.values@,
                        group_values(nm, group_dd@, delim, vals, i as int, context@, comps@, fuel as nat, group.required) == target,
                        target == group_values(nm, group_start(old(self)@), 0, vals, 0, context@, comps@, fuel as nat, group.required),
                        *field_value is Group && field_value->Group_0 == *group,
                        nm.contains_key(group.name@),
                        nm[group.name@] == group_field_num,
                    decreases vals.len() - i,
                {
                    match &group.values[i] {
                        FieldValue::Field(field) => {
                            match lookup_name(names, field.name.as_str()) {
                                Some(n) => {
                                    group_dd.add_field(n);
                                    if field.required && group.required {
                                        group_dd.add_required_field(context, n);
                                    }
                                    if i == 0 {
                                        delim = n;
                                    }
                                },
                                None => {
                                    return Err(config_error("Field ", field.name.as_str(), " not defined in fields section"));
                                },
                            }
                        },
                        other => {
                            assert(decreases_to!(*field_value => *other)) by {
                                assert(decreases_to!(group.values@ => group.values@[i as int]));
                            }
                            match group_dd.process_field_value(names, other, context, comps, fuel) {
                                Ok(()) => {},
                                Err(e) => {
                                    return Err(e);
                                },
                            }
                        },
                    }
                    i += 1;
                }
                if delim != 0 {
                    self.add_group(String::from_str(context), group_field_num, delim, group_dd);
                }
                self.place_field(context, group_field_num, group.required);
                Ok(())
            },
            FieldValue::Component(component) => {
                match find_component(comps, component.name.as_str()) {
                    Some(k) => {
                        if fuel == 0 {
                            return Err(NativeError::ConfigError(String::from_str("component references form a cycle")));
                        }
                        let f1 = fuel - 1;
                        let ghost vals = comps@[k as int].values@;
                        let ghost target = component_values(nm, self@, vals, 0, context@, comps@, f1 as nat, component.required);
                        let mut i: usize = 0;
                        while i < comps[k].values.len()
                            invariant
                                keys_distinct(text_keys(names@)),
                                nm == name_map(names@),
                                k < comps@.len(),
                                i <= vals.len(),
                                vals == comps@[k as int].values@,
                                component_values(nm, self@, vals, i as int, context@, comps@, f1 as nat, component.required) == target,
                                target == component_values(nm, old(self)@, vals, 0, context@, comps@, f1 as nat, component.required),
                                *field_value is Component && field_value->Component_0 == *component,
                                k as int == last_component(comps@, component.name@, comps@.len() as int),
                                fuel > 0,
                                f1 == fuel - 1,
                            decreases vals.len() - i,
                        {
                            match &comps[k].values[i] {
                                FieldValue::Field(field) => {
                                    match lookup_name(names, field.name.as_str()) {
                                        Some(n) => {
                                            self.place_field(context, n, field.required && component.required);
                                        },
                                        None => {
                                            return Err(config_error("Field ", field.name.as_str(), " not defined in fields section"));
                                        },
                                    }
                                },
                                other => {
                                    match self.process_field_value(names, other, context, comps, f1) {
                                        Ok(()) => {},
                                        Err(e) => {
                                            return Err(e);
                                        },
                                    }
                                },
                            }
                            i += 1;
                        }
                        Ok(())
                    },
                    None => Err(config_error("Component ", component.name.as_str(), " not found in component specifications")),
                }
            },
        }
    }
}

/// The map from names to field numbers that a name table stands for.
pub open spec fn name_map(names: Seq<(String, u32)>) -> Map<Seq<char>, u32> {
    assoc_map(text_keys(names))
}

/// The field number of a name in a name table.
fn lookup_name(names: &Vec<(String, u32)>, name: &str) -> (r: Option<u32>)
    requires
        keys_distinct(text_keys(names@)),
    ensures
        match r {
            Some(f) => name_map(names@).contains_key(name@) && name_map(names@)[name@] == f,
            None => !name_map(names@).contains_key(name@),
        },
{
    let ghost e = text_keys(names@);
    match find_text_key(names, name) {
        Some(i) => {
            proof {
                lemma_assoc_at(e, i as int);
            }
            Some(names[i].1)
        },
        None => {
            assert(!has_key(e, name@)) by {
                if has_key(e, name@) {
                    let q = choose|q: int| 0 <= q < e.len() && e[q].0 == name@;
                    assert(names@[q].0@ == name@);
                }
            }
            None
        },
    }
}

impl DataDictionary {
    /// A copy of the name table.
    fn name_table(&self) -> (r: Vec<(String, u32)>)
        ensures
            keys_distinct(text_keys(r@)),
            name_map(r@) == self@.name_to_field,
    {
        proof {
            use_type_invariant(self);
        }
        let mut r: Vec<(String, u32)> = Vec::new();
        let mut i: usize = 0;
        while i < self.name_to_field.len()
            invariant
                i <= self.name_to_field@.len(),
                r@.len() == i,
                forall|j: int| 0 <= j < i ==> (#[trigger] r@[j]).0@ == self.name_to_field@[j].0@ && r@[j].1
                    == self.name_to_field@[j].1,
            decreases self.name_to_field@.len() - i,
        {
            r.push((self.name_to_field[i].0.clone(), self.name_to_field[i].1));
            i += 1;
        }
        assert(text_keys(r@) =~= text_keys(self.name_to_field@));
        r
    }
}


/// The version text of a specification: `FIX.<major>.<minor>`, or
/// `FIXT.<major>.<minor>` for a FIXT specification.
pub open spec fn version_text(spec: FixSpec) -> Seq<char> {
    (if spec.is_fixt {
        "FIXT."@
    } else {
        "FIX."@
    }) + decimal_digits(spec.version.0 as nat) + "."@ + decimal_digits(spec.version.1 as nat)
}

/// The dictionary after recording the allowed values of field `n`, from the `j`-th on.
pub open spec fn load_values(m: DataDictionaryModel, n: u32, vals: Seq<FieldAllowedValue>, j: int) -> DataDictionaryModel
    decreases vals.len() - j,
{
    if 0 <= j < vals.len() {
        load_values(
            m.add_field_value(n, vals[j].value@).add_value_name(n, vals[j].value@, vals[j].description@),
            n,
            vals,
            j + 1,
        )
    } else {
        m
    }
}

/// The dictionary and the error after recording the field definitions from the `i`-th on.
pub open spec fn load_fields(m: DataDictionaryModel, specs: Seq<FieldSpec>, i: int) -> (DataDictionaryModel, Option<NativeErrorView>)
    decreases specs.len() - i,
{
    if 0 <= i < specs.len() {
        let fs = specs[i];
        let m1 = m.add_field(fs.number);
        if m1.name_to_field.contains_key(fs.name@) {
            (m1, Some(NativeErrorView::ConfigError("Field name "@ + fs.name@ + " defined multiple times"@)))
        } else {
            let m2 = m1.add_field_name(fs.number, fs.name@).add_field_type(fs.number, fs.field_type);
            load_fields(load_values(m2, fs.number, fs.values@, 0), specs, i + 1)
        }
    } else {
        (m, None)
    }
}

/// The dictionary and the error after processing the values of a section from the `i`-th on.
pub open spec fn load_section(
    names: Map<Seq<char>, u32>,
    m: DataDictionaryModel,
    vals: Seq<FieldValue>,
    i: int,
    ctx: Seq<char>,
    comps: Seq<ComponentSpec>,
    fuel: nat,
) -> (DataDictionaryModel, Option<NativeErrorView>)
    decreases vals.len() - i,
{
    if 0 <= i < vals.len() {
        let r = process_value(names, m, vals[i], ctx, comps, fuel);
        if r.1 is Some {
            r
        } else {
            load_section(names, r.0, vals, i + 1, ctx, comps, fuel)
        }
    } else {
        (m, None)
    }
}

/// The dictionary and the error after recording the messages from the `i`-th on:
/// each message type is declared, named as a value of MsgType, and its content processed.
pub open spec fn load_messages(
    names: Map<Seq<char>, u32>,
    m: DataDictionaryModel,
    msgs: Seq<Message>,
    i: int,
    comps: Seq<ComponentSpec>,
    fuel: nat,
) -> (DataDictionaryModel, Option<NativeErrorView>)
    decreases msgs.len() - i,
{
    if 0 <= i < msgs.len() {
        let msg = msgs[i];
        let m1 = m.add_msg_type(msg.msg_type@).add_value_name(MSG_TYPE_FIELD, msg.msg_type@, msg.name@);
        let r = load_section(names, m1, msg.values@, 0, msg.msg_type@, comps, fuel);
        if r.1 is Some {
            r
        } else {
            load_messages(names, r.0, msgs, i + 1, comps, fuel)
        }
    } else {
        (m, None)
    }
}

/// The dictionary that a specification describes, or the error met building it.
/// Names are looked up in the name table the field definitions make; a chain of
/// nested component expansions longer than the number of component definitions
/// repeats a component, which the processing would then expand without end: it
/// gives the cycle error where it is reached.
pub open spec fn fix_spec_model(spec: FixSpec) -> std::result::Result<DataDictionaryModel, NativeErrorView> {
    let comps = spec.component_specs@;
    let fuel = comps.len();
    let m0 = empty_model().set_version(version_text(spec));
    let r1 = load_fields(m0, spec.field_specs@, 0);
    let names = r1.0.name_to_field;
    if r1.1 is Some {
        Err(r1.1->0)
    } else {
        let r2 = load_section(names, r1.0, spec.headers@, 0, header_context(), comps, fuel);
        if r2.1 is Some {
            Err(r2.1->0)
        } else {
            let r3 = load_section(names, r2.0, spec.trailers@, 0, trailer_context(), comps, fuel);
            if r3.1 is Some {
                Err(r3.1->0)
            } else {
                let r4 = load_messages(names, r3.0, spec.messages@, 0, comps, fuel);
                if r4.1 is Some {
                    Err(r4.1->0)
                } else {
                    Ok(r4.0)
                }
            }
        }
    }
}

fn version_string(spec: &FixSpec) -> (r: String)
    ensures
        r@ == version_text(*spec),
{
    let mut v = String::new();
    if spec.is_fixt {
        push_str(&mut v, "FIXT.");
    } else {
        push_str(&mut v, "FIX.");
    }
    let major = u64_to_decimal(spec.version.0 as u64);
    push_str(&mut v, major.as_str());
    push_char(&mut v, '.');
    let minor = u64_to_decimal(spec.version.1 as u64);
    push_str(&mut v, minor.as_str());
    proof {
        reveal_strlit(".");
        assert(v@ =~= version_text(*spec));
    }
    v
}

impl DataDictionary {
    fn load_section(
        &mut self,
        names: &Vec<(String, u32)>,
        vals: &Vec<FieldValue>,
        context: &str,
        comps: &Vec<ComponentSpec>,
    ) -> (r: Result<()>)
        requires
            keys_distinct(text_keys(names@)),
        ensures
            load_section(name_map(names@), old(self)@, vals@, 0, context@, comps@, comps@.len()) == (
                final(self)@,
                error_of(r),
            ),
    {
        let ghost nm = name_map(names@);
        let ghost fuel = comps@.len();
        let ghost target = load_section(nm, self@, vals@, 0, context@, comps@, fuel);
        let mut i: usize = 0;
        while i < vals.len()
            invariant
                keys_distinct(text_keys(names@)),
                nm == name_map(names@),
                i <= vals@.len(),
                fuel == comps@.len(),
                load_section(nm, self@, vals@, i as int, context@, comps@, fuel) == target,
                target == load_section(nm, old(self)@, vals@, 0, context@, comps@, fuel),
            decreases vals@.len() - i,
        {
            match self.process_field_value(names, &vals[i], context, comps, comps.len()) {
                Ok(()) => {},
                Err(e) => {
                    return Err(e);
                },
            }
            i += 1;
        }
        Ok(())
    }

    /// Builds the dictionary that a FIX specification describes: its version, its
    /// fields with their names, types and values, the header and trailer fields,
    /// and every message type with its fields, required fields and groups (the
    /// names in a group, and in the components it holds, are those of the
    /// specification's fields). A component reached again inside its own
    /// expansion gives the cycle error.
    pub fn from_fix_spec(specs: FixSpec) -> (r: Result<Self>)
        ensures
            match fix_spec_model(specs) {
                Ok(m) => r is Ok && r->Ok_0@ == m,
                Err(e) => r is Err && r->Err_0@ == e,
            },
    {
        let ghost comps = specs.component_specs@;
        let ghost fuel = comps.len();
        let mut dd = DataDictionary::new();
        let version = version_string(&specs);
        dd.set_version(version.as_str());
        let ghost m0 = dd@;
        assert(m0 == empty_model().set_version(version_text(specs)));
        let ghost r1 = load_fields(m0, specs.field_specs@, 0);
        let mut i: usize = 0;
        while i < specs.field_specs.len()
            invariant
                i <= specs.field_specs@.len(),
                load_fields(dd@, specs.field_specs@, i as int) == r1,
                r1 == load_fields(empty_model().set_version(version_text(specs)), specs.field_specs@, 0),
            decreases specs.field_specs@.len() - i,
        {
            let field_spec = &specs.field_specs[i];
            let n = field_spec.number;
            dd.add_field(n);
            match dd.add_field_name(n, field_spec.name.as_str()) {
                Ok(()) => {},
                Err(e) => {
                    return Err(e);
                },
            }
            dd.add_field_type(n, field_spec.field_type);
            let ghost m2 = dd@;
            let mut j: usize = 0;
            while j < field_spec.values.len()
                invariant
                    j <= field_spec.values@.len(),
                    load_values(dd@, n, field_spec.values@, j as int) == load_values(m2, n, field_spec.values@, 0),
                decreases field_spec.values@.len() - j,
            {
                let v = &field_spec.values[j];
                dd.add_field_value(n, v.value.as_str());
                dd.add_value_name(n, v.value.as_str(), v.description.as_str());
                j += 1;
            }
            i += 1;
        }
        assert(r1 == (dd@, None::<NativeErrorView>));
        let names = dd.name_table();
        let ghost nm = name_map(names@);
        assert(nm == r1.0.name_to_field);
        match dd.load_section(&names, &specs.headers, "_header_", &specs.component_specs) {
            Ok(()) => {},
            Err(e) => {
                return Err(e);
            },
        }
        match dd.load_section(&names, &specs.trailers, "_trailer_", &specs.component_specs) {
            Ok(()) => {},
            Err(e) => {
                return Err(e);
            },
        }
        let ghost m3 = dd@;
        let ghost r4 = load_messages(nm, m3, specs.messages@, 0, comps, fuel);
        assert(fix_spec_model(specs) == (if r4.1 is Some {
            Err::<DataDictionaryModel, NativeErrorView>(r4.1->0)
        } else {
            Ok::<DataDictionaryModel, NativeErrorView>(r4.0)
        }));
        let mut k: usize = 0;
        while k < specs.messages.len()
            invariant
                keys_distinct(text_keys(names@)),
                nm == name_map(names@),
                k <= specs.messages@.len(),
                comps == specs.component_specs@,
                fuel == comps.len(),
                load_messages(nm, dd@, specs.messages@, k as int, comps, fuel) == r4,
                fix_spec_model(specs) == (if r4.1 is Some {
                    Err::<DataDictionaryModel, NativeErrorView>(r4.1->0)
                } else {
                    Ok::<DataDictionaryModel, NativeErrorView>(r4.0)
                }),
            decreases specs.messages@.len() - k,
        {
            let msg = &specs.messages[k];
            dd.add_msg_type(msg.msg_type.as_str());
            dd.add_value_name(MSG_TYPE_FIELD, msg.msg_type.as_str(), msg.name.as_str());
            match dd.load_section(&names, &msg.values, msg.msg_type.as_str(), &specs.component_specs) {
                Ok(()) => {},
                Err(e) => {
                    return Err(e);
                },
            }
            k += 1;
        }
        Ok(dd)
    }
}

/// Every value of a list is a field or a component reference, and none is
/// required.
pub open spec fn only_optional(vals: Seq<FieldValue>) -> bool {
    forall|j: int|
        0 <= j < vals.len() ==> match #[trigger] vals[j] {
            FieldValue::Field(f) => !f.required,
            FieldValue::Component(c) => !c.required,
            FieldValue::Group(_) => false,
        }
}

/// A specification whose header, trailer and messages hold only fields and
/// component references that are not required, and whose components hold
/// fields only.
pub open spec fn nothing_required(spec: FixSpec) -> bool {
    &&& only_optional(spec.headers@)
    &&& only_optional(spec.trailers@)
    &&& forall|i: int| 0 <= i < spec.messages@.len() ==> only_optional(#[trigger] spec.messages@[i].values@)
    &&& forall|k: int, j: int|
        0 <= k < spec.component_specs@.len() && 0 <= j < spec.component_specs@[k].values@.len()
            ==> #[trigger] spec.component_specs@[k].values@[j] is Field
}

proof fn lemma_no_requirement_trans(a: DataDictionaryModel, b: DataDictionaryModel, c: DataDictionaryModel)
    requires
        adds_no_requirement(a, b),
        adds_no_requirement(b, c),
    ensures
        adds_no_requirement(a, c),
{
    assert forall|f: u32| #[trigger] c.header_fields.contains_key(f) && c.header_fields[f] implies a.header_fields.contains_key(f)
        && a.header_fields[f] by {
        assert(b.header_fields.contains_key(f) && b.header_fields[f]);
    }
    assert forall|f: u32| #[trigger] c.trailer_fields.contains_key(f) && c.trailer_fields[f] implies a.trailer_fields.contains_key(f)
        && a.trailer_fields[f] by {
        assert(b.trailer_fields.contains_key(f) && b.trailer_fields[f]);
    }
}

proof fn lemma_load_values_no_requirement(m: DataDictionaryModel, n: u32, vals: Seq<FieldAllowedValue>, j: int)
    ensures
        adds_no_requirement(m, load_values(m, n, vals, j)),
    decreases vals.len() - j,
{
    if 0 <= j < vals.len() {
        let m1 = m.add_field_value(n, vals[j].value@).add_value_name(n, vals[j].value@, vals[j].description@);
        lemma_load_values_no_requirement(m1, n, vals, j + 1);
        lemma_no_requirement_trans(m, m1, load_values(m1, n, vals, j + 1));
    }
}

proof fn lemma_load_fields_no_requirement(m: DataDictionaryModel, specs: Seq<FieldSpec>, i: int)
    ensures
        adds_no_requirement(m, load_fields(m, specs, i).0),
    decreases specs.len() - i,
{
    if 0 <= i < specs.len() {
        let fs = specs[i];
        let m1 = m.add_field(fs.number);
        if !m1.name_to_field.contains_key(fs.name@) {
            let m2 = m1.add_field_name(fs.number, fs.name@).add_field_type(fs.number, fs.field_type);
            let m3 = load_values(m2, fs.number, fs.values@, 0);
            lemma_load_values_no_requirement(m2, fs.number, fs.values@, 0);
            lemma_no_requirement_trans(m, m2, m3);
            lemma_load_fields_no_requirement(m3, specs, i + 1);
            lemma_no_requirement_trans(m, m3, load_fields(m3, specs, i + 1).0);
        }
    }
}

proof fn lemma_last_component_range(comps: Seq<ComponentSpec>, name: Seq<char>, n: int)
    ensures
        last_component(comps, name, n) < comps.len(),
        last_component(comps, name, n) >= -1,
    decreases n,
{
    if n > 0 && n <= comps.len() && comps[n - 1].name@ != name {
        lemma_last_component_range(comps, name, n - 1);
    }
}

proof fn lemma_load_section_no_requirement(
    names: Map<Seq<char>, u32>,
    m: DataDictionaryModel,
    vals: Seq<FieldValue>,
    i: int,
    ctx: Seq<char>,
    comps: Seq<ComponentSpec>,
    fuel: nat,
)
    requires
        0 <= i,
        only_optional(vals),
        forall|k: int, j: int|
            0 <= k < comps.len() && 0 <= j < comps[k].values@.len() ==> #[trigger] comps[k].values@[j] is Field,
    ensures
        adds_no_requirement(m, load_section(names, m, vals, i, ctx, comps, fuel).0),
    decreases vals.len() - i,
{
    if i < vals.len() {
        let r = process_value(names, m, vals[i], ctx, comps, fuel);
        match vals[i] {
            FieldValue::Field(f) => {
                assert(!f.required);
            },
            FieldValue::Component(c) => {
                assert(!c.required);
                lemma_last_component_range(comps, c.name@, comps.len() as int);
                optional_component_fields_not_required(names, m, c, ctx, comps, fuel);
            },
            FieldValue::Group(_) => {
                assert(false);
            },
        }
        assert(adds_no_requirement(m, r.0));
        if r.1 is None {
            lemma_load_section_no_requirement(names, r.0, vals, i + 1, ctx, comps, fuel);
            lemma_no_requirement_trans(m, r.0, load_section(names, r.0, vals, i + 1, ctx, comps, fuel).0);
        }
    }
}

proof fn lemma_load_messages_no_requirement(
    names: Map<Seq<char>, u32>,
    m: DataDictionaryModel,
    msgs: Seq<Message>,
    i: int,
    comps: Seq<ComponentSpec>,
    fuel: nat,
)
    requires
        0 <= i,
        forall|q: int| 0 <= q < msgs.len() ==> only_optional(#[trigger] msgs[q].values@),
        forall|k: int, j: int|
            0 <= k < comps.len() && 0 <= j < comps[k].values@.len() ==> #[trigger] comps[k].values@[j] is Field,
    ensures
        adds_no_requirement(m, load_messages(names, m, msgs, i, comps, fuel).0),
    decreases msgs.len() - i,
{
    if i < msgs.len() {
        let msg = msgs[i];
        let m1 = m.add_msg_type(msg.msg_type@).add_value_name(MSG_TYPE_FIELD, msg.msg_type@, msg.name@);
        assert(only_optional(msgs[i].values@));
        lemma_load_section_no_requirement(names, m1, msg.values@, 0, msg.msg_type@, comps, fuel);
        let r = load_section(names, m1, msg.values@, 0, msg.msg_type@, comps, fuel);
        lemma_no_requirement_trans(m, m1, r.0);
        if r.1 is None {
            lemma_load_messages_no_requirement(names, r.0, msgs, i + 1, comps, fuel);
            lemma_no_requirement_trans(m, r.0, load_messages(names, r.0, msgs, i + 1, comps, fuel).0);
        }
    }
}

/// A dictionary built from a specification in which no field, and no reference
/// to a component, is required (the components holding fields only) has no
/// required field: whatever the components' own fields say, no message has a
/// required field and no header or trailer field is required.
pub proof fn optional_content_builds_no_required_field(spec: FixSpec)
    requires
        nothing_required(spec),
    ensures
        fix_spec_model(spec) matches Ok(m) ==> {
            &&& forall|t: Seq<char>, f: u32| !m.is_required_field(t, f)
            &&& forall|f: u32| #[trigger] m.header_fields.contains_key(f) ==> !m.header_fields[f]
            &&& forall|f: u32| #[trigger] m.trailer_fields.contains_key(f) ==> !m.trailer_fields[f]
        },
{
    let comps = spec.component_specs@;
    let fuel = comps.len();
    let m0 = empty_model().set_version(version_text(spec));
    let r1 = load_fields(m0, spec.field_specs@, 0);
    let names = r1.0.name_to_field;
    lemma_load_fields_no_requirement(m0, spec.field_specs@, 0);
    if r1.1 is None {
        let r2 = load_section(names, r1.0, spec.headers@, 0, header_context(), comps, fuel);
        lemma_load_section_no_requirement(names, r1.0, spec.headers@, 0, header_context(), comps, fuel);
        lemma_no_requirement_trans(m0, r1.0, r2.0);
        if r2.1 is None {
            let r3 = load_section(names, r2.0, spec.trailers@, 0, trailer_context(), comps, fuel);
            lemma_load_section_no_requirement(names, r2.0, spec.trailers@, 0, trailer_context(), comps, fuel);
            lemma_no_requirement_trans(m0, r2.0, r3.0);
            if r3.1 is None {
                let r4 = load_messages(names, r3.0, spec.messages@, 0, comps, fuel);
                lemma_load_messages_no_requirement(names, r3.0, spec.messages@, 0, comps, fuel);
                lemma_no_requirement_trans(m0, r3.0, r4.0);
                if r4.1 is None {
                    let m = r4.0;
                    assert(m.required_fields == Map::<Seq<char>, Set<u32>>::empty());
                    assert forall|f: u32| #[trigger] m.header_fields.contains_key(f) implies !m.header_fields[f] by {
                        if m.header_fields[f] {
                            assert(m0.header_fields.contains_key(f));
                        }
                    }
                    assert forall|f: u32| #[trigger] m.trailer_fields.contains_key(f) implies !m.trailer_fields[f] by {
                        if m.trailer_fields[f] {
                            assert(m0.trailer_fields.contains_key(f));
                        }
                    }
                }
            }
        }
    }
}

/// The error given where component references run in a cycle.
pub open spec fn component_cycle_error() -> NativeErrorView {
    NativeErrorView::ConfigError("component references form a cycle"@)
}

/// What building a dictionary from a specification gives: the dictionary the
/// specification describes, or the error met building it.
pub open spec fn built_from(s: FixSpec, r: Result<DataDictionary>) -> bool {
    match fix_spec_model(s) {
        Ok(m) => r is Ok && r->Ok_0@ == m,
        Err(e) => r is Err && r->Err_0@ == e,
    }
}

impl DataDictionary {
    /// Builds the dictionary of a FIX XML document: a document that does not read
    /// gives the reading error as an XML error; one read gives the dictionary of
    /// the specification it holds.
    pub fn from_xml_bytes(xml: &[u8]) -> (r: Result<Self>)
        ensures
            match parsed_spec(xml@) {
                Err(e) => r matches Err(x) && x@ == NativeErrorView::XMLError(fix_spec_error_text(e)),
                Ok(m) => exists|s: FixSpec| fix_spec_view(s) == m && #[trigger] built_from(s, r),
            },
    {
        let spec = match parse_spec(xml) {
            Ok(s) => s,
            Err(e) => return Err(NativeError::XMLError(e.message())),
        };
        let ghost s0 = spec;
        let r = DataDictionary::from_fix_spec(spec);
        assert(built_from(s0, r));
        r
    }

    /// Builds the dictionary of a FIX XML document given as text.
    pub fn from_xml_string(xml: &str) -> (r: Result<Self>)
        ensures
            match parsed_spec(xml.spec_bytes()) {
                Err(e) => r matches Err(x) && x@ == NativeErrorView::XMLError(fix_spec_error_text(e)),
                Ok(m) => exists|s: FixSpec| fix_spec_view(s) == m && #[trigger] built_from(s, r),
            },
    {
        DataDictionary::from_xml_bytes(xml.as_bytes())
    }
}

// ---------------------------------------------------------------------------
// Copies
// ---------------------------------------------------------------------------

fn copy_u32s(v: &Vec<u32>) -> (r: Vec<u32>)
    ensures
        r@ == v@,
{
    let mut r: Vec<u32> = Vec::new();
    let mut i: usize = 0;
    while i < v.len()
        invariant
            i <= v@.len(),
            r@ == v@.take(i as int),
        decreases v@.len() - i,
    {
        r.push(v[i]);
        i += 1;
        assert(r@ =~= v@.take(i as int));
    }
    assert(v@.take(i as int) =~= v@);
    r
}

fn copy_texts(v: &Vec<String>) -> (r: Vec<String>)
    ensures
        texts(r@) == texts(v@),
{
    let mut r: Vec<String> = Vec::new();
    let mut i: usize = 0;
    while i < v.len()
        invariant
            i <= v@.len(),
            r@.len() == i,
            forall|k: int| 0 <= k < i ==> (#[trigger] r@[k])@ == v@[k]@,
        decreases v@.len() - i,
    {
        r.push(v[i].clone());
        i += 1;
    }
    assert(texts(r@) =~= texts(v@));
    r
}

fn copy_text_tags(v: &Vec<(String, u32)>) -> (r: Vec<(String, u32)>)
    ensures
        text_keys(r@) == text_keys(v@),
{
    let mut r: Vec<(String, u32)> = Vec::new();
    let mut i: usize = 0;
    while i < v.len()
        invariant
            i <= v@.len(),
            r@.len() == i,
            forall|k: int| 0 <= k < i ==> (#[trigger] r@[k]).0@ == v@[k].0@ && r@[k].1 == v@[k].1,
        decreases v@.len() - i,
    {
        r.push((v[i].0.clone(), v[i].1));
        i += 1;
    }
    assert(text_keys(r@) =~= text_keys(v@));
    r
}

fn copy_value_lists(v: &Vec<(u32, Vec<String>)>) -> (r: Vec<(u32, Vec<String>)>)
    ensures
        r@.len() == v@.len(),
        forall|i: int| 0 <= i < v@.len() ==> (#[trigger] r@[i]).0 == v@[i].0 && texts(r@[i].1@) == texts(v@[i].1@),
{
    let mut r: Vec<(u32, Vec<String>)> = Vec::new();
    let mut i: usize = 0;
    while i < v.len()
        invariant
            i <= v@.len(),
            r@.len() == i,
            forall|k: int| 0 <= k < i ==> (#[trigger] r@[k]).0 == v@[k].0 && texts(r@[k].1@) == texts(v@[k].1@),
        decreases v@.len() - i,
    {
        r.push((v[i].0, copy_texts(&v[i].1)));
        i += 1;
    }
    r
}

fn copy_value_names(v: &Vec<((u32, String), String)>) -> (r: Vec<((u32, String), String)>)
    ensures
        value_name_entries(r@) == value_name_entries(v@),
{
    let mut r: Vec<((u32, String), String)> = Vec::new();
    let mut i: usize = 0;
    while i < v.len()
        invariant
            i <= v@.len(),
            r@.len() == i,
            forall|k: int|
                0 <= k < i ==> (#[trigger] r@[k]).0.0 == v@[k].0.0 && r@[k].0.1@ == v@[k].0.1@ && r@[k].1@ == v@[k].1@,
        decreases v@.len() - i,
    {
        r.push(((v[i].0.0, v[i].0.1.clone()), v[i].1.clone()));
        i += 1;
    }
    assert(value_name_entries(r@) =~= value_name_entries(v@));
    r
}

fn copy_tag_lists(v: &Vec<(String, Vec<u32>)>) -> (r: Vec<(String, Vec<u32>)>)
    ensures
        r@.len() == v@.len(),
        forall|i: int| 0 <= i < v@.len() ==> (#[trigger] r@[i]).0@ == v@[i].0@ && r@[i].1@ == v@[i].1@,
{
    let mut r: Vec<(String, Vec<u32>)> = Vec::new();
    let mut i: usize = 0;
    while i < v.len()
        invariant
            i <= v@.len(),
            r@.len() == i,
            forall|k: int| 0 <= k < i ==> (#[trigger] r@[k]).0@ == v@[k].0@ && r@[k].1@ == v@[k].1@,
        decreases v@.len() - i,
    {
        r.push((v[i].0.clone(), copy_u32s(&v[i].1)));
        i += 1;
    }
    r
}

/// A copy of a dictionary, its group dictionaries copied in turn.
fn copy_dictionary(d: &DataDictionary) -> (r: DataDictionary)
    ensures
        r@ == d@,
    decreases d,
{
    let version = match &d.version {
        Some(v) => Some(v.clone()),
        None => None,
    };
    let field_values = copy_value_lists(&d.field_values);
    let message_fields = copy_tag_lists(&d.message_fields);
    let required_fields = copy_tag_lists(&d.required_fields);
    let message_ordered_fields = copy_tag_lists(&d.message_ordered_fields);
    let mut groups: Vec<(u32, Vec<(String, u32, DataDictionary)>)> = Vec::new();
    let mut e: usize = 0;
    while e < d.groups.len()
        invariant
            e <= d.groups@.len(),
            groups@.len() == e,
            forall|k: int|
                0 <= k < e ==> (#[trigger] groups@[k]).0 == d.groups@[k].0 && groups@[k].1@.len()
                    == d.groups@[k].1@.len() && forall|i: int|
                    0 <= i < groups@[k].1@.len() ==> (#[trigger] groups@[k].1@[i]).0@ == d.groups@[k].1@[i].0@
                        && groups@[k].1@[i].1 == d.groups@[k].1@[i].1 && dd_model(groups@[k].1@[i].2) == dd_model(
                        d.groups@[k].1@[i].2,
                    ),
        decreases d.groups@.len() - e,
    {
        let inner = &d.groups[e].1;
        let mut copied: Vec<(String, u32, DataDictionary)> = Vec::new();
        let mut i: usize = 0;
        while i < inner.len()
            invariant
                e < d.groups@.len(),
                inner == d.groups@[e as int].1,
                i <= inner@.len(),
                copied@.len() == i,
                forall|q: int|
                    0 <= q < i ==> (#[trigger] copied@[q]).0@ == inner@[q].0@ && copied@[q].1 == inner@[q].1
                        && dd_model(copied@[q].2) == dd_model(inner@[q].2),
            decreases inner@.len() - i,
        {
            assert(decreases_to!(d => d.groups));
            assert(decreases_to!(d.groups => d.groups@));
            assert(decreases_to!(d.groups@ => d.groups@[e as int]));
            assert(decreases_to!(d.groups@[e as int] => d.groups@[e as int].1));
            assert(decreases_to!(inner => inner@));
            assert(decreases_to!(inner@ => inner@[i as int]));
            assert(decreases_to!(inner@[i as int] => inner@[i as int].2));
            let sub = copy_dictionary(&inner[i].2);
            copied.push((inner[i].0.clone(), inner[i].1, sub));
            i += 1;
        }
        groups.push((d.groups[e].0, copied));
        e += 1;
    }
    let fields = copy_u32s(&d.fields);
    let name_to_field = copy_text_tags(&d.name_to_field);
    let value_names = copy_value_names(&d.value_names);
    let message_types = copy_texts(&d.message_types);
    let data_fields = copy_u32s(&d.data_fields);
    proof {
        use_type_invariant(d);
        assert(value_set_entries(field_values@) =~= value_set_entries(d.field_values@));
        assert(tag_set_entries(message_fields@) =~= tag_set_entries(d.message_fields@));
        assert(tag_set_entries(required_fields@) =~= tag_set_entries(d.required_fields@));
        assert(tag_list_entries(message_ordered_fields@) =~= tag_list_entries(d.message_ordered_fields@));
        assert(groups@.len() == d.groups@.len());
        assert forall|i: int| 0 <= i < field_values@.len() implies texts(#[trigger] field_values@[i].1@).no_duplicates() by {
            assert(texts(field_values@[i].1@) == texts(d.field_values@[i].1@));
        }
        assert forall|i: int| 0 <= i < message_fields@.len() implies (#[trigger] message_fields@[i]).1@.no_duplicates() by {
            assert(message_fields@[i].1@ == d.message_fields@[i].1@);
        }
        assert forall|i: int| 0 <= i < required_fields@.len() implies (#[trigger] required_fields@[i]).1@.no_duplicates() by {
            assert(required_fields@[i].1@ == d.required_fields@[i].1@);
        }
        assert forall|i: int| 0 <= i < groups@.len() implies keys_distinct(group_entries((#[trigger] groups@[i]).1@)) by {
            assert(groups@[i].1@.len() == d.groups@[i].1@.len());
            assert forall|a: int| 0 <= a < groups@[i].1@.len() implies #[trigger] group_entries(groups@[i].1@)[a]
                == group_entries(d.groups@[i].1@)[a] by {
                assert(groups@[i].1@[a].0@ == d.groups@[i].1@[a].0@);
            }
            assert(group_entries(groups@[i].1@) =~= group_entries(d.groups@[i].1@));
        }
        assert(keys_distinct(groups@)) by {
            assert forall|i: int, j: int| 0 <= i < groups@.len() && 0 <= j < groups@.len() && i != j implies groups@[i].0
                != groups@[j].0 by {
                assert(groups@[i].0 == d.groups@[i].0 && groups@[j].0 == d.groups@[j].0);
            }
        }
    }
    let r = DataDictionary {
        version,
        has_version: d.has_version,
        check_fields_out_of_order: d.check_fields_out_of_order,
        check_fields_have_values: d.check_fields_have_values,
        check_user_defined_fields: d.check_user_defined_fields,
        allow_unknown_message_fields: d.allow_unknown_message_fields,
        store_msg_fields_order: d.store_msg_fields_order,
        fields,
        field_names: d.field_names.clone(),
        name_to_field,
        field_types: d.field_types.clone(),
        field_values,
        value_names,
        message_types,
        message_fields,
        required_fields,
        header_fields: d.header_fields.clone(),
        trailer_fields: d.trailer_fields.clone(),
        ordered_fields: copy_u32s(&d.ordered_fields),
        header_ordered_fields: copy_u32s(&d.header_ordered_fields),
        trailer_ordered_fields: copy_u32s(&d.trailer_ordered_fields),
        message_ordered_fields,
        groups,
        data_fields,
    };
    proof {
        assert forall|k: int| 0 <= k < r.groups@.len() implies dd_inner(r.groups, k) =~= dd_inner(d.groups, k) by {
            assert(r.groups@[k].1@.len() == d.groups@[k].1@.len());
            assert forall|i: int| 0 <= i < r.groups@[k].1@.len() implies #[trigger] dd_inner(r.groups, k)[i] == dd_inner(
                d.groups,
                k,
            )[i] by {
                assert(r.groups@[k].1@[i].0@ == d.groups@[k].1@[i].0@);
            }
        }
        assert forall|k: int| 0 <= k < r.groups@.len() implies #[trigger] dd_outer(r.groups)[k] == dd_outer(d.groups)[k] by {
            assert(dd_inner(r.groups, k) =~= dd_inner(d.groups, k));
            assert(r.groups@[k].0 == d.groups@[k].0);
        }
        assert(dd_outer(r.groups) =~= dd_outer(d.groups));
        assert(r.version matches Some(v) ==> d.version matches Some(w) && v@ == w@);
        assert(dd_model(r) == dd_model(*d));
    }
    r
}

impl Clone for DataDictionary {
    fn clone(&self) -> (r: Self)
        ensures
            r@ == self@,
    {
        proof {
            use_type_invariant(self);
        }
        copy_dictionary(self)
    }
}

} // verus!
