# quickfix_native

FIX protocol building blocks with machine-checked contracts (Verus):

- `field_map`, `group`, `message`, `message_order`: fields and repeating groups,
  their FIX text (`tag=value` and SOH), body length and checksum, field ordering.
- `session_id`, `fields`: session identifiers and their `BEGIN:SENDER->TARGET[:QUALIFIER]` text.
- `dictionary`: named settings, keys and values trimmed and upper-cased.
- `fix_spec`, `spec_xml`, `xml`: the model of a FIX XML dictionary, read and written
  through quick-xml.
- `data_dictionary`: the fields, values, messages and groups a specification defines.
- `code_spec`, `converter`, `case`, `generator`: the message code generator.

`app/` holds what the library leaves out: file and process I/O, floating point
values, and the error types with `thiserror` derives.

## Tables

`DataDictionary` keeps its integer-keyed tables (field names, field types,
header and trailer fields) in std `HashMap`s with `u32` keys, through vstd's
specifications of `HashMap`. The other lookup tables are vectors of entries
whose keys occur once each, an invariant that is part of each type's
well-formedness, with each lookup a verified search:

- the tables keyed by text (the settings of a `Dictionary`, the names, message
  types and values of a `DataDictionary`), for which vstd gives `HashMap` no
  usable view;
- the groups of a `FieldMap`, keyed by tag: the FIX text writes them entry after
  entry, and the contracts state that text exactly, which they could not do over
  the order in which a `HashMap` is walked;
- the group table of a `DataDictionary`, which holds further dictionaries whose
  models are defined recursively over it (a `HashMap` was not tried there).
