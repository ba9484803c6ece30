//! FIX protocol building blocks: field maps, messages, repeating groups,
//! session identifiers, configuration dictionaries and the data dictionary
//! built from a FIX XML specification.

pub mod text;
pub mod fix_spec;
pub mod errors;
pub mod assoc;
pub mod data_dictionary;
pub mod message_order;
pub mod field_map;
pub mod group;
pub mod message;
pub mod fields;
pub mod session_id;
pub mod dictionary;
pub mod code_spec;
pub mod converter;
pub mod case;
pub mod generator;
pub mod xml;
pub mod spec_xml;

