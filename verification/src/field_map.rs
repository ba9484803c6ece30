//! Fields, field maps and repeating groups.
//!
//! A field map holds a list of tag/value fields, in the order in which they were
//! set, and for some tags a list of repeating groups, each of which is itself a
//! field map. The field that carries a group's tag holds the number of groups.

use vstd::prelude::*;
use vstd::string::StringSliceAdditionalSpecFns;
use vstd::utf8::{decode_utf8, encode_utf8, is_char_boundary, valid_utf8};
use crate::assoc::{find_u32_key, has_key, keys_distinct, lemma_assoc_push, lemma_assoc_remove, lemma_assoc_update};
use crate::errors::{NativeError, NativeErrorView, Result};
use crate::message_order::{
    comes_after, comes_after_is_asymmetric, normal_order, not_after_is_transitive, ordering_is_rank_ordering, CompareMode,
    MessageOrder, MessageOrderView, CHECK_SUM,
};
use crate::text::{
    all_ascii, ascii_upper, byte_sum, chars_of, decimal_digits, decimal_reads_back,
    lemma_byte_sum_concat, lemma_decimal_bytes, lemma_encode_concat, parse_u32, parse_unsigned, push_char, push_str, text_eq, to_uppercase,
    u32_to_decimal, uppercase,
};

verus! {

// BCAST

/// The separator written after each field.
pub const SOH: char = '\x01';

/// A tag and its value.
#[derive(Debug)]
pub struct Field {
    pub tag: u32,
    pub value: String,
}

/// Fields, repeating groups and the order in which fields are sorted.
#[derive(Debug)]
pub struct FieldMap {
    pub(crate) fields: Vec<Field>,
    pub(crate) groups: Vec<(u32, Vec<Group>)>,
    pub(crate) message_order: MessageOrder,
}

/// A repeating group: its own field map, the tag of the field that counts the
/// groups, and the tag of the field that starts each group.
#[derive(Debug)]
pub struct Group {
    pub(crate) fieldmap: FieldMap,
    pub(crate) field_id: u32,
    pub(crate) delim: u32,
}

/// What a field map holds: its fields as (tag, text) pairs in order, its groups
/// as a list of (tag, groups) entries, and its field order.
#[verifier::ext_equal]
pub struct FieldMapModel {
    pub fields: Seq<(u32, Seq<char>)>,
    pub groups: Seq<(u32, Seq<GroupModel>)>,
    pub order: MessageOrderView,
}

/// What a repeating group holds.
#[verifier::ext_equal]
pub struct GroupModel {
    pub map: FieldMapModel,
    pub field_id: u32,
    pub delim: u32,
}

// ---------------------------------------------------------------------------
// The model
// ---------------------------------------------------------------------------

/// The (tag, text) pair of a field.
pub open spec fn field_pair(f: Field) -> (u32, Seq<char>) {
    (f.tag, f.value@)
}

/// The model of a field map.
pub closed spec fn map_model(fm: FieldMap) -> FieldMapModel
    decreases fm,
{
    FieldMapModel {
        fields: fm.fields@.map_values(|f: Field| field_pair(f)),
        groups: Seq::new(
            fm.groups@.len(),
            |e: int|
                (
                    fm.groups@[e].0,
                    Seq::new(
                        fm.groups@[e].1@.len(),
                        |i: int|
                            if 0 <= e < fm.groups@.len() && 0 <= i < fm.groups@[e].1@.len() {
                                group_model(fm.groups@[e].1@[i])
                            } else {
                                arbitrary()
                            },
                    ),
                ),
        ),
        order: fm.message_order@,
    }
}

/// The model of a repeating group.
pub closed spec fn group_model(g: Group) -> GroupModel
    decreases g,
{
    GroupModel { map: map_model(g.fieldmap), field_id: g.field_id, delim: g.delim }
}

impl View for FieldMap {
    type V = FieldMapModel;

    open spec fn view(&self) -> FieldMapModel {
        map_model(*self)
    }
}

impl View for Group {
    type V = GroupModel;

    open spec fn view(&self) -> GroupModel {
        group_model(*self)
    }
}

/// The models of a list of groups.
pub open spec fn group_models(v: Seq<Group>) -> Seq<GroupModel> {
    v.map_values(|g: Group| g@)
}

/// Position of the entry with key `k`, or -1 where there is none.
pub open spec fn key_index<V>(s: Seq<(u32, V)>, k: u32) -> int {
    if has_key(s, k) {
        choose|i: int| 0 <= i < s.len() && s[i].0 == k
    } else {
        -1
    }
}

/// With distinct keys, the entry with a key is the one at its position.
pub proof fn lemma_key_index<V>(s: Seq<(u32, V)>, i: int)
    requires
        keys_distinct(s),
        0 <= i < s.len(),
    ensures
        key_index(s, s[i].0) == i,
{
    assert(has_key(s, s[i].0));
}

/// Some field has this tag.
pub open spec fn has_tag(s: Seq<(u32, Seq<char>)>, tag: u32) -> bool {
    exists|i: int| 0 <= i < s.len() && s[i].0 == tag
}

/// `i` is the position of the first field with this tag.
pub open spec fn first_with_tag(s: Seq<(u32, Seq<char>)>, tag: u32, i: int) -> bool {
    &&& 0 <= i < s.len()
    &&& s[i].0 == tag
    &&& forall|j: int| 0 <= j < i ==> s[j].0 != tag
}

/// The position of the first field with this tag (meaningful where there is one).
pub open spec fn first_index(s: Seq<(u32, Seq<char>)>, tag: u32) -> int {
    choose|i: int| first_with_tag(s, tag, i)
}

/// The value of the first field with this tag.
pub open spec fn value_of(s: Seq<(u32, Seq<char>)>, tag: u32) -> Option<Seq<char>> {
    if has_tag(s, tag) {
        Some(s[first_index(s, tag)].1)
    } else {
        None
    }
}

/// The fields without the first one with this tag.
pub open spec fn without_first(s: Seq<(u32, Seq<char>)>, tag: u32) -> Seq<(u32, Seq<char>)> {
    if has_tag(s, tag) {
        s.remove(first_index(s, tag))
    } else {
        s
    }
}

/// The fields without any field with this tag, the others kept in order.
pub open spec fn without_tag(s: Seq<(u32, Seq<char>)>, tag: u32) -> Seq<(u32, Seq<char>)>
    decreases s.len(),
{
    if s.len() == 0 {
        s
    } else {
        let r = without_tag(s.drop_last(), tag);
        if s.last().0 == tag {
            r
        } else {
            r.push(s.last())
        }
    }
}

/// The first field with a tag is unique: where `i` is it, the value is there.
pub proof fn lemma_first_with_tag(s: Seq<(u32, Seq<char>)>, tag: u32, i: int)
    requires
        first_with_tag(s, tag, i),
    ensures
        first_index(s, tag) == i,
        value_of(s, tag) == Some(s[i].1),
        without_first(s, tag) == s.remove(i),
{
    let c = first_index(s, tag);
    assert(first_with_tag(s, tag, c));
    if c < i {
        assert(s[c].0 != tag);
    }
    if i < c {
        assert(s[i].0 != tag);
    }
}

/// No field of `without_tag` has the tag, and every other field is kept.
pub proof fn lemma_without_tag(s: Seq<(u32, Seq<char>)>, tag: u32)
    ensures
        !has_tag(without_tag(s, tag), tag),
        forall|t: u32| t != tag ==> value_of(#[trigger] without_tag(s, tag), t) == value_of(s, t),
    decreases s.len(),
{
    if s.len() > 0 {
        let p = s.drop_last();
        lemma_without_tag(p, tag);
        let r = without_tag(p, tag);
        assert forall|t: u32| t != tag implies value_of(#[trigger] without_tag(s, tag), t)
            == value_of(s, t) by {
            lemma_value_of_push(p, s.last(), t);
            if s.last().0 != tag {
                lemma_value_of_push(r, s.last(), t);
            }
            assert(p.push(s.last()) == s);
        }
    }
}

/// Looking up a tag after a field was added at the end.
pub proof fn lemma_value_of_push(s: Seq<(u32, Seq<char>)>, f: (u32, Seq<char>), t: u32)
    ensures
        value_of(s.push(f), t) == (if has_tag(s, t) {
            value_of(s, t)
        } else if f.0 == t {
            Some(f.1)
        } else {
            None
        }),
{
    let u = s.push(f);
    if has_tag(s, t) {
        let i = choose|i: int| 0 <= i < s.len() && s[i].0 == t;
        lemma_first_exists(s, t, i);
        let c = first_index(s, t);
        assert(first_with_tag(u, t, c));
        lemma_first_with_tag(u, t, c);
    } else if f.0 == t {
        assert(first_with_tag(u, t, s.len() as int));
        lemma_first_with_tag(u, t, s.len() as int);
    } else {
        assert(!has_tag(u, t)) by {
            if has_tag(u, t) {
                let i = choose|i: int| 0 <= i < u.len() && u[i].0 == t;
                if i < s.len() {
                    assert(s[i].0 == t);
                }
            }
        }
    }
}

/// Where some field has a tag, a first one does.
pub proof fn lemma_first_exists(s: Seq<(u32, Seq<char>)>, tag: u32, i: int)
    requires
        0 <= i < s.len(),
        s[i].0 == tag,
    ensures
        first_with_tag(s, tag, first_index(s, tag)),
    decreases i,
{
    if forall|j: int| 0 <= j < i ==> s[j].0 != tag {
        assert(first_with_tag(s, tag, i));
    } else {
        let j = choose|j: int| 0 <= j < i && s[j].0 == tag;
        lemma_first_exists(s, tag, j);
    }
}

impl FieldMapModel {
    /// No tag has two entries of groups, here or in any group inside.
    pub open spec fn wf(self) -> bool
        decreases self,
    {
        &&& keys_distinct(self.groups)
        &&& forall|e: int, i: int|
            0 <= e < self.groups.len() && 0 <= i < self.groups[e].1.len() ==> (
            #[trigger] self.groups[e].1[i]).map.wf()
    }

    /// The value of the first field with this tag.
    pub open spec fn value(self, tag: u32) -> Option<Seq<char>> {
        value_of(self.fields, tag)
    }

    /// The groups kept for a tag (none where there is no entry).
    pub open spec fn groups_of(self, tag: u32) -> Seq<GroupModel> {
        if has_key(self.groups, tag) {
            self.groups[key_index(self.groups, tag)].1
        } else {
            Seq::empty()
        }
    }

    /// The map after setting a field: any field with the tag is dropped and the
    /// new one comes last.
    pub open spec fn with_field(self, tag: u32, value: Seq<char>) -> FieldMapModel {
        FieldMapModel { fields: without_tag(self.fields, tag).push((tag, value)), ..self }
    }
}

/// The error of a value that does not convert to what was asked.
pub open spec fn convert_error(text: Seq<char>) -> NativeErrorView {
    NativeErrorView::FieldConvertError(text)
}

/// The truth value a text stands for once in upper case, if any.
pub open spec fn bool_text(s: Seq<char>) -> Option<bool> {
    if s == "Y"@ || s == "YES"@ || s == "TRUE"@ {
        Some(true)
    } else if s == "N"@ || s == "NO"@ || s == "FALSE"@ {
        Some(false)
    } else {
        None
    }
}

/// The text of a field: its tag in decimal, `=`, its value and SOH.
pub open spec fn field_text(f: (u32, Seq<char>)) -> Seq<char> {
    decimal_digits(f.0 as nat) + seq!['='] + f.1 + seq![SOH]
}

/// The UTF-8 bytes of a field's text.
pub open spec fn field_bytes(f: (u32, Seq<char>)) -> Seq<u8> {
    encode_utf8(field_text(f))
}

/// The error of a lookup of a missing field.
pub open spec fn not_found_error(tag: u32) -> NativeErrorView {
    NativeErrorView::FieldNotFound("Field "@ + decimal_digits(tag as nat) + " not found"@)
}

// ---------------------------------------------------------------------------
// Reading a field from FIX text
// ---------------------------------------------------------------------------

/// Position of the first occurrence of a byte.
#[verifier::opaque]
pub open spec fn byte_position(b: Seq<u8>, x: u8) -> Option<int> {
    if exists|i: int| 0 <= i < b.len() && b[i] == x {
        Some(choose|i: int| 0 <= i < b.len() && b[i] == x && forall|j: int| 0 <= j < i ==> b[j] != x)
    } else {
        None
    }
}

/// The tag written at the start of a FIX text, up to the first `=`, and the
/// position of that `=`.
#[verifier::opaque]
pub open spec fn tag_in(rest: Seq<u8>) -> std::result::Result<(u32, int), NativeErrorView> {
    match byte_position(rest, 61) {
        None => Err(NativeErrorView::InvalidMessage("No equal sign found in fix string"@)),
        Some(e) => match parse_unsigned(rest.take(e), u32::MAX as nat) {
            None => Err(NativeErrorView::InvalidMessage("Invalid tag value"@)),
            Some(tag) => Ok((tag as u32, e)),
        },
    }
}

/// The field written at the start of a FIX text, and the number of bytes it
/// takes: the tag runs up to the first `=`, the value from there to the next SOH.
pub open spec fn field_in(rest: Seq<u8>) -> std::result::Result<((u32, Seq<char>), int), NativeErrorView> {
    match tag_in(rest) {
        Err(err) => Err(err),
        Ok((tag, e)) => match byte_position(rest.skip(e + 1), 1) {
            None => Err(NativeErrorView::InvalidMessage("failed to find SOH after value"@)),
            Some(k) => Ok(((tag, decode_utf8(rest.subrange(e + 1, e + 1 + k))), e + 1 + k + 1)),
        },
    }
}

/// The field written at byte `pos` of a FIX text, and the position after it.
pub open spec fn field_at(b: Seq<u8>, pos: int) -> std::result::Result<((u32, Seq<char>), int), NativeErrorView> {
    match field_in(b.subrange(pos, b.len() as int)) {
        Ok((f, n)) => Ok((f, pos + n)),
        Err(e) => Err(e),
    }
}

fn find_byte(b: &[u8], x: u8) -> (r: Option<usize>)
    ensures
        match r {
            Some(i) => i < b@.len() && b@[i as int] == x && byte_position(b@, x) == Some(i as int),
            None => byte_position(b@, x).is_none(),
        },
{
    reveal(byte_position);
    let mut i: usize = 0;
    while i < b.len()
        invariant
            i <= b@.len(),
            forall|j: int| 0 <= j < i ==> b@[j] != x,
        decreases b@.len() - i,
    {
        if b[i] == x {
            proof {
                reveal(byte_position);
                let c = choose|c: int|
                    0 <= c < b@.len() && b@[c] == x && forall|j: int| 0 <= j < c ==> b@[j] != x;
                assert(0 <= i < b@.len() && b@[i as int] == x && forall|j: int|
                    0 <= j < i ==> b@[j] != x);
                if c < i {
                    assert(b@[c] != x);
                }
                if i < c {
                    assert(b@[i as int] != x);
                }
            }
            return Some(i);
        }
        i += 1;
    }
    proof {
        reveal(byte_position);
    }
    None
}

/// After an ASCII byte at a character boundary comes another boundary.
proof fn lemma_boundary_after_ascii(b: Seq<u8>, i: int)
    requires
        valid_utf8(b),
        is_char_boundary(b, i),
        0 <= i < b.len(),
        b[i] < 128,
    ensures
        is_char_boundary(b, i + 1),
    decreases b.len(),
{
    reveal_with_fuel(is_char_boundary, 2);
    let l = vstd::utf8::length_of_first_scalar(b);
    let tail = vstd::utf8::pop_first_scalar(b);
    if i == 0 {
        assert(vstd::utf8::is_leading_byte_width_1(b[0]));
        assert(l == 1);
        assert(is_char_boundary(tail, 0));
    } else {
        assert(valid_utf8(tail));
        assert(is_char_boundary(tail, i - l));
        assert(i - l >= 0);
        assert(tail =~= b.subrange(l, b.len() as int));
        assert(tail[i - l] == b[i]);
        lemma_boundary_after_ascii(tail, i - l);
    }
}

impl Field {
    /// A field with this tag and value.
    pub fn new(tag: u32, value: String) -> (r: Self)
        ensures
            r.tag == tag,
            r.value == value,
    {
        Field { tag, value }
    }

    /// The field as FIX text: `tag=value` and SOH.
    pub fn to_fix_string(&self) -> (r: String)
        ensures
            r@ == field_text(field_pair(*self)),
    {
        let mut r = u32_to_decimal(self.tag);
        push_char(&mut r, '=');
        push_str(&mut r, self.value.as_str());
        push_char(&mut r, SOH);
        proof {
            assert(r@ =~= field_text(field_pair(*self)));
        }
        r
    }

    /// The length in bytes of the field's FIX text.
    pub fn length(&self) -> (r: usize)
        ensures
            r == field_bytes(field_pair(*self)).len(),
    {
        let s = self.to_fix_string();
        s.as_str().as_bytes().len()
    }

    /// The sum of the bytes of the field's FIX text.
    pub fn checksum(&self) -> (r: u32)
        requires
            byte_sum(field_bytes(field_pair(*self))) <= u32::MAX,
        ensures
            r == byte_sum(field_bytes(field_pair(*self))),
    {
        let s = self.to_fix_string();
        let b = s.as_str().as_bytes();
        let ghost all = b@;
        let mut sum: u32 = 0;
        let mut i: usize = 0;
        while i < b.len()
            invariant
                i <= all.len(),
                b@ == all,
                all == field_bytes(field_pair(*self)),
                byte_sum(all) <= u32::MAX,
                sum == byte_sum(all.take(i as int)),
            decreases all.len() - i,
        {
            proof {
                assert(all.take(i + 1).drop_last() =~= all.take(i as int));
                lemma_byte_sum_prefix(all, i + 1);
            }
            sum = sum + b[i] as u32;
            i += 1;
        }
        assert(all.take(i as int) =~= all);
        sum
    }

    /// Reads the field that starts at byte `pos` of a FIX text, with the position
    /// of the byte after its SOH.
    pub fn parse_from_fix_string(fix_string: &str, pos: usize) -> (r: Result<(Field, usize)>)
        requires
            is_char_boundary(fix_string.spec_bytes(), pos as int),
        ensures
            match field_at(fix_string.spec_bytes(), pos as int) {
                Ok((f, next)) => r matches Ok((field, p)) && field_pair(field) == f && p == next,
                Err(e) => r matches Err(err) && err@ == e,
            },
    {
        let ghost all = fix_string.spec_bytes();
        proof {
            vstd::utf8::encode_utf8_valid_utf8(fix_string@);
            vstd::utf8::valid_utf8_split(all, pos as int);
        }
        let total = fix_string.as_bytes().len();
        let (_, remaining) = fix_string.split_at(pos);
        assert(remaining.spec_bytes() =~= all.subrange(pos as int, all.len() as int));
        match read_field(remaining) {
            Ok((field, n)) => {
                assert(pos + n <= total);
                Ok((field, pos + n))
            },
            Err(e) => Err(e),
        }
    }
}

/// Reads the tag at the start of a text, with the position of the `=` after it.
fn read_tag(text: &str) -> (r: Result<(u32, usize)>)
    ensures
        match tag_in(text.spec_bytes()) {
            Ok((tag, e)) => r matches Ok((t, p)) && t == tag && p == e && e < text.spec_bytes().len()
                && text.spec_bytes()[e] == 61,
            Err(e) => r matches Err(err) && err@ == e,
        },
{
    let ghost rest = text.spec_bytes();
    proof {
        vstd::utf8::encode_utf8_valid_utf8(text@);
        reveal(tag_in);
    }
    let eq_pos = match find_byte(text.as_bytes(), 61) {
        Some(e) => e,
        None => {
            return Err(NativeError::InvalidMessage(String::from_str("No equal sign found in fix string")));
        },
    };
    proof {
        vstd::utf8::is_char_boundary_iff_not_is_continuation_byte(rest, eq_pos as int);
    }
    let (tag_text, _) = text.split_at(eq_pos);
    assert(tag_text.spec_bytes() =~= rest.take(eq_pos as int));
    match parse_u32(tag_text) {
        Some(t) => Ok((t, eq_pos)),
        None => Err(NativeError::InvalidMessage(String::from_str("Invalid tag value"))),
    }
}

/// The text from an ASCII byte on.
fn text_from_ascii(text: &str, i: usize) -> (r: &str)
    requires
        i < text.spec_bytes().len(),
        text.spec_bytes()[i as int] < 128,
    ensures
        r.spec_bytes() == text.spec_bytes().skip(i as int),
{
    proof {
        vstd::utf8::encode_utf8_valid_utf8(text@);
        vstd::utf8::is_char_boundary_iff_not_is_continuation_byte(text.spec_bytes(), i as int);
    }
    let (_, after) = text.split_at(i);
    assert(after.spec_bytes() =~= text.spec_bytes().skip(i as int));
    after
}

/// Reads the field at the start of a text.
fn read_field(text: &str) -> (r: Result<(Field, usize)>)
    ensures
        match field_in(text.spec_bytes()) {
            Ok((f, n)) => r matches Ok((field, m)) && field_pair(field) == f && m == n && n
                <= text.spec_bytes().len(),
            Err(e) => r matches Err(err) && err@ == e,
        },
{
    let ghost rest = text.spec_bytes();
    let (tag, eq_pos) = match read_tag(text) {
        Ok(p) => p,
        Err(e) => {
            return Err(e);
        },
    };
    let total = text.as_bytes().len();
    let after_tag = text_from_ascii(text, eq_pos);
    let ghost ab = after_tag.spec_bytes();
    assert(ab.skip(1) =~= rest.skip(eq_pos + 1));
    match read_value(after_tag) {
        Some((value, k)) => {
            assert(ab.subrange(1, 1 + k) =~= rest.subrange(eq_pos + 1, eq_pos + 1 + k));
            Ok((Field { tag, value }, eq_pos + 1 + k + 1))
        },
        None => Err(NativeError::InvalidMessage(String::from_str("failed to find SOH after value"))),
    }
}

/// Reads the value after the `=` at the start of a text, up to the first SOH,
/// with its length in bytes.
fn read_value(text: &str) -> (r: Option<(String, usize)>)
    requires
        text.spec_bytes().len() > 0,
        text.spec_bytes()[0] == 61,
    ensures
        match byte_position(text.spec_bytes().skip(1), 1) {
            Some(k) => r matches Some((v, m)) && m == k && v@ == decode_utf8(
                text.spec_bytes().subrange(1, 1 + k),
            ) && 1 + k < text.spec_bytes().len(),
            None => r.is_none(),
        },
{
    let ghost ab = text.spec_bytes();
    proof {
        vstd::utf8::encode_utf8_valid_utf8(text@);
        vstd::utf8::is_char_boundary_start_end_of_seq(ab);
        lemma_boundary_after_ascii(ab, 0);
        vstd::utf8::valid_utf8_split(ab, 1);
    }
    let (_, value_on) = text.split_at(1);
    let vb = value_on.as_bytes();
    assert(vb@ =~= ab.skip(1));
    let soh_pos = match find_byte(vb, 1) {
        Some(k) => k,
        None => {
            return None;
        },
    };
    proof {
        vstd::utf8::encode_utf8_valid_utf8(value_on@);
        vstd::utf8::is_char_boundary_iff_not_is_continuation_byte(vb@, soh_pos as int);
    }
    let (value_text, _) = value_on.split_at(soh_pos);
    proof {
        assert(value_text.spec_bytes() =~= ab.subrange(1, 1 + soh_pos));
        vstd::utf8::encode_utf8_decode_utf8(value_text@);
    }
    Some((String::from_str(value_text), soh_pos))
}

impl Clone for Field {
    fn clone(&self) -> (r: Self)
        ensures
            r.tag == self.tag,
            r.value@ == self.value@,
    {
        Field { tag: self.tag, value: self.value.clone() }
    }
}

/// `Field {tag} not found`.
fn not_found(tag: u32) -> (r: NativeError)
    ensures
        r@ == not_found_error(tag),
{
    let mut s = String::from_str("Field ");
    let d = u32_to_decimal(tag);
    push_str(&mut s, d.as_str());
    push_str(&mut s, " not found");
    NativeError::FieldNotFound(s)
}

impl FieldMap {
    /// An empty field map whose fields are sorted by tag.
    pub fn new() -> (r: Self)
        ensures
            r@.fields.len() == 0,
            r@.groups.len() == 0,
            r@.order == normal_order(),
            r@.wf(),
    {
        let r = FieldMap { fields: Vec::new(), groups: Vec::new(), message_order: MessageOrder::normal() };
        assert(r@.fields =~= Seq::<(u32, Seq<char>)>::empty());
        r
    }

    /// An empty field map with this field order.
    pub fn new_with_order(order: MessageOrder) -> (r: Self)
        ensures
            r@.fields.len() == 0,
            r@.groups.len() == 0,
            r@.order == order@,
            r@.wf(),
    {
        let r = FieldMap { fields: Vec::new(), groups: Vec::new(), message_order: order };
        assert(r@.fields =~= Seq::<(u32, Seq<char>)>::empty());
        r
    }

    /// Position of the first field with this tag.
    fn find_field(&self, tag: u32) -> (r: Option<usize>)
        ensures
            match r {
                Some(i) => first_with_tag(self@.fields, tag, i as int),
                None => !has_tag(self@.fields, tag),
            },
    {
        let mut i: usize = 0;
        while i < self.fields.len()
            invariant
                i <= self.fields@.len(),
                self@.fields == self.fields@.map_values(|f: Field| field_pair(f)),
                forall|j: int| 0 <= j < i ==> self@.fields[j].0 != tag,
            decreases self.fields@.len() - i,
        {
            if self.fields[i].tag == tag {
                return Some(i);
            }
            i += 1;
        }
        None
    }

    /// Sets a field: any field with this tag is dropped and the new one comes last.
    pub fn set_field(&mut self, tag: u32, value: String)
        ensures
            final(self)@ == old(self)@.with_field(tag, value@),
    {
        let mut kept: Vec<Field> = Vec::new();
        let mut i: usize = 0;
        let ghost s = old(self)@.fields;
        while i < self.fields.len()
            invariant
                i <= self.fields@.len(),
                *self == *old(self),
                s == self.fields@.map_values(|f: Field| field_pair(f)),
                kept@.map_values(|f: Field| field_pair(f)) == without_tag(s.take(i as int), tag),
            decreases self.fields@.len() - i,
        {
            proof {
                assert(s.take(i + 1).drop_last() =~= s.take(i as int));
            }
            if self.fields[i].tag != tag {
                let f = self.fields[i].clone();
                kept.push(f);
                proof {
                    assert(kept@.map_values(|f: Field| field_pair(f)) =~= without_tag(
                        s.take(i as int),
                        tag,
                    ).push(s[i as int]));
                }
            }
            i += 1;
        }
        assert(s.take(i as int) =~= s);
        kept.push(Field { tag, value });
        self.fields = kept;
        assert(self@.fields =~= without_tag(s, tag).push((tag, value@)));
    }

    /// The value of the first field with this tag.
    pub fn get_field(&self, tag: u32) -> (r: Option<&String>)
        ensures
            match r {
                Some(v) => self@.value(tag) == Some(v@),
                None => self@.value(tag).is_none(),
            },
    {
        match self.find_field(tag) {
            Some(i) => {
                proof {
                    lemma_first_with_tag(self@.fields, tag, i as int);
                }
                Some(&self.fields[i].value)
            },
            None => None,
        }
    }

    /// Whether some field has this tag.
    pub fn has_field(&self, tag: u32) -> (r: bool)
        ensures
            r == has_tag(self@.fields, tag),
    {
        self.find_field(tag).is_some()
    }

    /// Adds a field at the end, even where one with the same tag is there.
    pub fn append_field(&mut self, field: Field)
        ensures
            final(self)@ == (FieldMapModel { fields: old(self)@.fields.push(field_pair(field)), ..old(self)@ }),
    {
        self.fields.push(field);
        assert(self@.fields =~= old(self)@.fields.push(field_pair(field)));
    }

    /// Removes the first field with this tag, giving back its value.
    pub fn remove_field(&mut self, tag: u32) -> (r: Option<String>)
        ensures
            match r {
                Some(v) => old(self)@.value(tag) == Some(v@),
                None => old(self)@.value(tag).is_none(),
            },
            final(self)@ == (FieldMapModel { fields: without_first(old(self)@.fields, tag), ..old(self)@ }),
    {
        match self.find_field(tag) {
            Some(i) => {
                proof {
                    lemma_first_with_tag(self@.fields, tag, i as int);
                }
                let f = self.fields.remove(i);
                assert(self@.fields =~= old(self)@.fields.remove(i as int));
                Some(f.value)
            },
            None => None,
        }
    }

    /// The tags of the fields, in order.
    pub fn get_field_tags(&self) -> (r: Vec<u32>)
        ensures
            r@ == self@.fields.map_values(|f: (u32, Seq<char>)| f.0),
    {
        let mut r: Vec<u32> = Vec::new();
        let mut i: usize = 0;
        while i < self.fields.len()
            invariant
                i <= self.fields@.len(),
                self@.fields == self.fields@.map_values(|f: Field| field_pair(f)),
                r@ == self@.fields.take(i as int).map_values(|f: (u32, Seq<char>)| f.0),
            decreases self.fields@.len() - i,
        {
            r.push(self.fields[i].tag);
            i += 1;
            assert(r@ =~= self@.fields.take(i as int).map_values(|f: (u32, Seq<char>)| f.0));
        }
        assert(self@.fields.take(i as int) =~= self@.fields);
        r
    }

    /// Drops every field and every group; the field order stays.
    pub fn clear(&mut self)
        ensures
            final(self)@ == (FieldMapModel {
                fields: Seq::empty(),
                groups: Seq::empty(),
                order: old(self)@.order,
            }),
    {
        self.fields = Vec::new();
        self.groups = Vec::new();
        assert(self@.fields =~= Seq::<(u32, Seq<char>)>::empty());
        assert(self@.groups =~= Seq::<(u32, Seq<GroupModel>)>::empty());
    }

    /// The number of fields.
    pub fn size(&self) -> (r: usize)
        ensures
            r == self@.fields.len(),
    {
        self.fields.len()
    }

    /// Whether there is no field.
    pub fn is_empty(&self) -> (r: bool)
        ensures
            r == (self@.fields.len() == 0),
    {
        self.fields.len() == 0
    }

    /// The value of a field as text.
    pub fn get_string(&self, tag: u32) -> (r: Result<String>)
        ensures
            match self@.value(tag) {
                Some(v) => r matches Ok(s) && s@ == v,
                None => r matches Err(e) && e@ == not_found_error(tag),
            },
    {
        match self.get_field(tag) {
            Some(v) => Ok(v.clone()),
            None => Err(not_found(tag)),
        }
    }

    /// Sets a field from a text.
    pub fn set_string(&mut self, tag: u32, value: &str)
        ensures
            final(self)@ == old(self)@.with_field(tag, value@),
    {
        self.set_field(tag, String::from_str(value));
    }

    /// The value of a field as an unsigned integer.
    pub fn get_int(&self, tag: u32) -> (r: Result<u32>)
        ensures
            match self@.value(tag) {
                Some(v) => match parse_unsigned(encode_utf8(v), u32::MAX as nat) {
                    Some(n) => r == Ok::<u32, NativeError>(n as u32),
                    None => r matches Err(e) && e@ == convert_error(
                        "failed to convert field "@ + decimal_digits(tag as nat) + " to i32"@,
                    ),
                },
                None => r matches Err(e) && e@ == not_found_error(tag),
            },
    {
        let value = self.get_string(tag)?;
        match parse_u32(value.as_str()) {
            Some(n) => Ok(n),
            None => {
                let mut s = String::from_str("failed to convert field ");
                let d = u32_to_decimal(tag);
                push_str(&mut s, d.as_str());
                push_str(&mut s, " to i32");
                Err(NativeError::FieldConvertError(s))
            },
        }
    }

    /// Sets a field to an unsigned integer, written in decimal.
    pub fn set_int(&mut self, tag: u32, value: u32)
        ensures
            final(self)@ == old(self)@.with_field(tag, decimal_digits(value as nat)),
    {
        self.set_field(tag, u32_to_decimal(value));
    }

    /// The value of a field as a truth value: `Y`, `YES` or `TRUE` for true and
    /// `N`, `NO` or `FALSE` for false, in any case.
    pub fn get_bool(&self, tag: u32) -> (r: Result<bool>)
        ensures
            match self@.value(tag) {
                Some(v) => all_ascii(v) ==> uppercase(v) == ascii_upper(v),
                None => true,
            },
            match self@.value(tag) {
                Some(v) => match bool_text(uppercase(v)) {
                    Some(b) => r == Ok::<bool, NativeError>(b),
                    None => r matches Err(e) && e@ == convert_error(
                        "cannot convert "@ + v + " to bool"@,
                    ),
                },
                None => r matches Err(e) && e@ == not_found_error(tag),
            },
    {
        let value = self.get_string(tag)?;
        let up = to_uppercase(value.as_str());
        let u = up.as_str();
        if text_eq(u, "Y") || text_eq(u, "YES") || text_eq(u, "TRUE") {
            Ok(true)
        } else if text_eq(u, "N") || text_eq(u, "NO") || text_eq(u, "FALSE") {
            Ok(false)
        } else {
            let mut s = String::from_str("cannot convert ");
            push_str(&mut s, value.as_str());
            push_str(&mut s, " to bool");
            Err(NativeError::FieldConvertError(s))
        }
    }

    /// Sets a field to `Y` or `N`.
    pub fn set_bool(&mut self, tag: u32, value: bool)
        ensures
            final(self)@ == old(self)@.with_field(tag, if value { "Y"@ } else { "N"@ }),
    {
        let text = if value { "Y" } else { "N" };
        self.set_string(tag, text);
    }

    /// The first character of a field.
    pub fn get_char(&self, tag: u32) -> (r: Result<char>)
        ensures
            match self@.value(tag) {
                Some(v) => if v.len() > 0 {
                    r == Ok::<char, NativeError>(v[0])
                } else {
                    r matches Err(e) && e@ == convert_error(
                        "field "@ + decimal_digits(tag as nat) + " is empty"@,
                    )
                },
                None => r matches Err(e) && e@ == not_found_error(tag),
            },
    {
        let value = self.get_string(tag)?;
        let cs = chars_of(value.as_str());
        if cs.len() > 0 {
            Ok(cs[0])
        } else {
            let mut s = String::from_str("field ");
            let d = u32_to_decimal(tag);
            push_str(&mut s, d.as_str());
            push_str(&mut s, " is empty");
            Err(NativeError::FieldConvertError(s))
        }
    }

    /// Sets a field to one character.
    pub fn set_char(&mut self, tag: u32, value: char)
        ensures
            final(self)@ == old(self)@.with_field(tag, seq![value]),
    {
        let mut s = String::new();
        push_char(&mut s, value);
        assert(s@ =~= seq![value]);
        self.set_field(tag, s);
    }

    /// The field order.
    pub fn get_message_order(&self) -> (r: &MessageOrder)
        ensures
            r@ == self@.order,
    {
        &self.message_order
    }

    /// Replaces the field order; fields are not moved until they are sorted.
    pub fn set_message_order(&mut self, order: MessageOrder)
        ensures
            final(self)@ == (FieldMapModel { order: order@, ..old(self)@ }),
    {
        self.message_order = order;
    }
}

/// The model of the group entries of a field map.
pub open spec fn groups_model(v: Seq<(u32, Vec<Group>)>) -> Seq<(u32, Seq<GroupModel>)> {
    v.map_values(|p: (u32, Vec<Group>)| (p.0, group_models(p.1@)))
}

/// The model of a field map, part by part.
broadcast proof fn lemma_map_model(fm: FieldMap)
    ensures
        #[trigger] map_model(fm) == (FieldMapModel {
            fields: fm.fields@.map_values(|f: Field| field_pair(f)),
            groups: groups_model(fm.groups@),
            order: fm.message_order@,
        }),
{
    assert forall|e: int| 0 <= e < fm.groups@.len() implies fm@.groups[e] == groups_model(
        fm.groups@,
    )[e] by {
        assert(fm@.groups[e].1 =~= group_models(fm.groups@[e].1@));
    }
    assert(fm@.groups =~= groups_model(fm.groups@));
}

impl FieldMapModel {
    /// The map after adding a group: it joins the groups of its tag, and the
    /// field of that tag is set to their number.
    pub open spec fn with_group(self, g: GroupModel) -> FieldMapModel {
        let tag = g.field_id;
        let gs = self.groups_of(tag).push(g);
        let groups = if has_key(self.groups, tag) {
            self.groups.update(key_index(self.groups, tag), (tag, gs))
        } else {
            self.groups.push((tag, gs))
        };
        FieldMapModel { groups, ..self }.with_field(tag, decimal_digits(gs.len()))
    }

    /// The map with the groups of a tag replaced (the tag has an entry).
    pub open spec fn with_groups_of(self, tag: u32, gs: Seq<GroupModel>) -> FieldMapModel {
        FieldMapModel {
            groups: self.groups.update(key_index(self.groups, tag), (tag, gs)),
            ..self
        }
    }

    /// The map without the entry of a tag's groups (the tag has an entry).
    pub open spec fn without_groups_of(self, tag: u32) -> FieldMapModel {
        FieldMapModel { groups: self.groups.remove(key_index(self.groups, tag)), ..self }
    }
}

/// `no groups for tag {tag}`.
pub open spec fn no_groups_error(tag: u32) -> NativeErrorView {
    NativeErrorView::FieldNotFound("no groups for tag "@ + decimal_digits(tag as nat))
}

/// `group index {index} out of bound`.
pub open spec fn index_error(index: usize) -> NativeErrorView {
    NativeErrorView::FieldNotFound("group index "@ + decimal_digits(index as nat) + " out of bound"@)
}

fn no_groups(tag: u32) -> (r: NativeError)
    ensures
        r@ == no_groups_error(tag),
{
    let mut s = String::from_str("no groups for tag ");
    let d = u32_to_decimal(tag);
    push_str(&mut s, d.as_str());
    NativeError::FieldNotFound(s)
}

fn bad_index(index: usize) -> (r: NativeError)
    ensures
        r@ == index_error(index),
{
    let mut s = String::from_str("group index ");
    let d = crate::text::usize_to_decimal(index);
    push_str(&mut s, d.as_str());
    push_str(&mut s, " out of bound");
    NativeError::FieldNotFound(s)
}

impl FieldMap {
    /// Whether the map has no tag with two entries of groups, at any depth.
    pub open spec fn wf(&self) -> bool {
        self@.wf()
    }

    /// Position of the entry of a tag's groups.
    fn find_groups(&self, tag: u32) -> (r: Option<usize>)
        requires
            self.wf(),
        ensures
            match r {
                Some(i) => i < self.groups@.len() && self.groups@[i as int].0 == tag && key_index(
                    self@.groups,
                    tag,
                ) == i && has_key(self@.groups, tag),
                None => !has_key(self@.groups, tag),
            },
    {
        proof {
            lemma_map_model(*self);
        }
        let r = find_u32_key(&self.groups, tag);
        proof {
            match r {
                Some(i) => {
                    assert(self@.groups[i as int].0 == tag);
                    lemma_key_index(self@.groups, i as int);
                },
                None => {
                    if has_key(self@.groups, tag) {
                        let j = choose|j: int| 0 <= j < self@.groups.len() && self@.groups[j].0 == tag;
                        assert(self.groups@[j].0 == tag);
                    }
                },
            }
        }
        r
    }

    /// Adds a group to those of its tag, and sets the field of that tag to their
    /// number.
    pub fn add_group(&mut self, group: Group)
        requires
            old(self).wf(),
            group@.map.wf(),
            old(self)@.groups_of(group@.field_id).len() < u32::MAX,
        ensures
            final(self)@ == old(self)@.with_group(group@),
            final(self).wf(),
    {
        let field_tag = group.field_id;
        let ghost g = group@;
        proof {
            lemma_map_model(*self);
        }
        let count: usize;
        match self.find_groups(field_tag) {
            Some(i) => {
                let ghost before = self.groups@;
                self.groups[i].1.push(group);
                count = self.groups[i].1.len();
                proof {
                    lemma_map_model(*self);
                    assert(group_models(self.groups@[i as int].1@) =~= group_models(before[i as int].1@).push(g));
                    assert(groups_model(self.groups@) =~= groups_model(before).update(
                        i as int,
                        (field_tag, group_models(before[i as int].1@).push(g)),
                    ));
                    lemma_assoc_update(old(self)@.groups, i as int, group_models(before[i as int].1@).push(g));
                }
            },
            None => {
                let mut v: Vec<Group> = Vec::new();
                v.push(group);
                count = 1;
                let ghost before = self.groups@;
                self.groups.push((field_tag, v));
                proof {
                    lemma_map_model(*self);
                    assert(group_models(v@) =~= seq![g]);
                    assert(groups_model(self.groups@) =~= groups_model(before).push((field_tag, seq![g])));
                    assert(old(self)@.groups_of(field_tag) =~= Seq::<GroupModel>::empty());
                    assert(seq![g] =~= Seq::<GroupModel>::empty().push(g));
                    lemma_assoc_push(old(self)@.groups, field_tag, seq![g]);
                }
            },
        }
        let ghost mid = self@;
        proof {
            assert forall|e: int, i: int|
                0 <= e < mid.groups.len() && 0 <= i < mid.groups[e].1.len() implies (
                #[trigger] mid.groups[e].1[i]).map.wf() by {
                if e < old(self)@.groups.len() && i < old(self)@.groups[e].1.len() {
                    assert(mid.groups[e].1[i] == old(self)@.groups[e].1[i]);
                }
            }
            assert(mid.wf());
        }
        self.set_int(field_tag, count as u32);
        proof {
            assert(mid == (FieldMapModel { groups: mid.groups, ..old(self)@ }));
        }
    }
}

impl FieldMap {
    /// The groups of a tag, where it has an entry.
    pub fn get_groups(&self, tag: u32) -> (r: Option<&Vec<Group>>)
        requires
            self.wf(),
        ensures
            match r {
                Some(v) => has_key(self@.groups, tag) && group_models(v@) == self@.groups_of(tag),
                None => !has_key(self@.groups, tag),
            },
    {
        proof {
            lemma_map_model(*self);
        }
        match self.find_groups(tag) {
            Some(i) => Some(&self.groups[i].1),
            None => None,
        }
    }

    /// The groups of a tag, to change in place, where it has an entry.
    pub fn get_groups_mut(&mut self, tag: u32) -> (r: Option<&mut Vec<Group>>)
        requires
            old(self).wf(),
        ensures
            match r {
                Some(v) => has_key(old(self)@.groups, tag) && group_models(v@) == old(self)@.groups_of(tag)
                    && final(self)@ == old(self)@.with_groups_of(tag, group_models(final(v)@)),
                None => !has_key(old(self)@.groups, tag) && final(self)@ == old(self)@,
            },
    {
        proof {
            lemma_map_model(*self);
        }
        broadcast use lemma_map_model;
        match self.find_groups(tag) {
            Some(i) => {
                let ghost before = self.groups@;
                let r = &mut self.groups[i].1;
                proof {
                    assert(groups_model(before.update(i as int, (tag, *final(r)))) =~= groups_model(
                        before,
                    ).update(i as int, (tag, group_models(final(r)@))));
                }
                Some(r)
            },
            None => None,
        }
    }

    /// The group of a tag at an index, where there is one.
    pub fn get_group(&self, tag: u32, index: usize) -> (r: Option<&Group>)
        requires
            self.wf(),
        ensures
            match r {
                Some(g) => index < self@.groups_of(tag).len() && g@ == self@.groups_of(tag)[index as int],
                None => index >= self@.groups_of(tag).len(),
            },
    {
        match self.get_groups(tag) {
            Some(v) => {
                if index < v.len() {
                    Some(&v[index])
                } else {
                    None
                }
            },
            None => None,
        }
    }

    /// The group of a tag at an index, to change in place, where there is one.
    pub fn get_group_mut(&mut self, tag: u32, index: usize) -> (r: Option<&mut Group>)
        requires
            old(self).wf(),
        ensures
            match r {
                Some(g) => index < old(self)@.groups_of(tag).len() && g@ == old(self)@.groups_of(
                    tag,
                )[index as int] && final(self)@ == old(self)@.with_groups_of(
                    tag,
                    old(self)@.groups_of(tag).update(index as int, final(g)@),
                ),
                None => index >= old(self)@.groups_of(tag).len() && final(self)@ == old(self)@,
            },
    {
        proof {
            lemma_map_model(*self);
        }
        broadcast use lemma_map_model;
        match self.find_groups(tag) {
            Some(i) => {
                if index < self.groups[i].1.len() {
                    let ghost before = self.groups@;
                    let g = &mut self.groups[i].1[index];
                    proof {
                        assert(group_models(before[i as int].1@.update(index as int, *final(g))) =~= group_models(
                            before[i as int].1@,
                        ).update(index as int, final(g)@));
                        assert(forall|v: Vec<Group>| #[trigger] v@ == before[i as int].1@.update(index as int, *final(g))
                            ==> groups_model(before.update(i as int, (tag, v))) =~= groups_model(before).update(
                            i as int,
                            (tag, group_models(before[i as int].1@).update(index as int, final(g)@)),
                        ));
                    }
                    Some(g)
                } else {
                    None
                }
            },
            None => None,
        }
    }

    /// Replaces the group of a tag at an index.
    pub fn replace_group(&mut self, tag: u32, index: usize, group: Group) -> (r: Result<()>)
        requires
            old(self).wf(),
            group@.map.wf(),
        ensures
            !has_key(old(self)@.groups, tag) ==> (r matches Err(e) && e@ == no_groups_error(tag)
                && final(self)@ == old(self)@),
            has_key(old(self)@.groups, tag) && index >= old(self)@.groups_of(tag).len() ==> (r matches Err(e)
                && e@ == index_error(index) && final(self)@ == old(self)@),
            has_key(old(self)@.groups, tag) && index < old(self)@.groups_of(tag).len() ==> r is Ok
                && final(self)@ == old(self)@.with_groups_of(
                tag,
                old(self)@.groups_of(tag).update(index as int, group@),
            ),
            final(self).wf(),
    {
        let ghost g = group@;
        proof {
            lemma_map_model(*self);
        }
        let i = match self.find_groups(tag) {
            Some(i) => i,
            None => {
                return Err(no_groups(tag));
            },
        };
        if index >= self.groups[i].1.len() {
            return Err(bad_index(index));
        }
        let ghost before = self.groups@;
        self.groups[i].1.set(index, group);
        proof {
            lemma_map_model(*self);
            assert(group_models(self.groups@[i as int].1@) =~= group_models(before[i as int].1@).update(index as int, g));
            assert(groups_model(self.groups@) =~= groups_model(before).update(
                i as int,
                (tag, group_models(before[i as int].1@).update(index as int, g)),
            ));
            lemma_assoc_update(old(self)@.groups, i as int, group_models(before[i as int].1@).update(index as int, g));
            let m = self@;
            assert forall|e: int, j: int|
                0 <= e < m.groups.len() && 0 <= j < m.groups[e].1.len() implies (
                #[trigger] m.groups[e].1[j]).map.wf() by {
                if !(e == i && j == index) {
                    assert(m.groups[e].1[j] == old(self)@.groups[e].1[j]);
                }
            }
        }
        Ok(())
    }

    /// Removes the group of a tag at an index and gives it back. The field of the
    /// tag is set to the number of groups left; where none is left, that field and
    /// the tag's entry go.
    pub fn remove_group(&mut self, tag: u32, index: usize) -> (r: Result<Group>)
        requires
            old(self).wf(),
            old(self)@.groups_of(tag).len() <= u32::MAX,
        ensures
            !has_key(old(self)@.groups, tag) ==> (r matches Err(e) && e@ == no_groups_error(tag)
                && final(self)@ == old(self)@),
            has_key(old(self)@.groups, tag) && index >= old(self)@.groups_of(tag).len() ==> (r matches Err(e)
                && e@ == index_error(index) && final(self)@ == old(self)@),
            has_key(old(self)@.groups, tag) && index < old(self)@.groups_of(tag).len() ==> (r matches Ok(g)
                && g@ == old(self)@.groups_of(tag)[index as int] && final(self)@ == (
                if old(self)@.groups_of(tag).len() == 1 {
                    FieldMapModel {
                        fields: without_first(old(self)@.fields, tag),
                        ..old(self)@.without_groups_of(tag)
                    }
                } else {
                    old(self)@.with_groups_of(tag, old(self)@.groups_of(tag).remove(index as int)).with_field(
                        tag,
                        decimal_digits((old(self)@.groups_of(tag).len() - 1) as nat),
                    )
                })),
            final(self).wf(),
    {
        proof {
            lemma_map_model(*self);
        }
        let i = match self.find_groups(tag) {
            Some(i) => i,
            None => {
                return Err(no_groups(tag));
            },
        };
        if index >= self.groups[i].1.len() {
            return Err(bad_index(index));
        }
        let ghost before = self.groups@;
        let group = self.groups[i].1.remove(index);
        let count = self.groups[i].1.len();
        assert(old(self)@.groups_of(tag) == group_models(before[i as int].1@));
        assert(group@ == old(self)@.groups_of(tag)[index as int]);
        assert(count == old(self)@.groups_of(tag).len() - 1);
        proof {
            lemma_map_model(*self);
            assert(group_models(self.groups@[i as int].1@) =~= group_models(before[i as int].1@).remove(index as int));
            assert(groups_model(self.groups@) =~= groups_model(before).update(
                i as int,
                (tag, group_models(before[i as int].1@).remove(index as int)),
            ));
            lemma_assoc_update(old(self)@.groups, i as int, group_models(before[i as int].1@).remove(index as int));
            let m = self@;
            assert forall|e: int, j: int|
                0 <= e < m.groups.len() && 0 <= j < m.groups[e].1.len() implies (
                #[trigger] m.groups[e].1[j]).map.wf() by {
                if e == i {
                    if j < index {
                        assert(m.groups[e].1[j] == old(self)@.groups[e].1[j]);
                    } else {
                        assert(m.groups[e].1[j] == old(self)@.groups[e].1[j + 1]);
                    }
                } else {
                    assert(m.groups[e].1[j] == old(self)@.groups[e].1[j]);
                }
            }
        }
        if count == 0 {
            self.remove_field(tag);
            let ghost mid = self.groups@;
            proof {
                lemma_map_model(*self);
                assert(groups_model(mid) == old(self)@.groups.update(
                    i as int,
                    (tag, group_models(before[i as int].1@).remove(index as int)),
                ));
            }
            self.groups.remove(i);
            proof {
                lemma_map_model(*self);
                assert(groups_model(self.groups@) =~= groups_model(mid).remove(i as int));
                lemma_assoc_remove(groups_model(mid), i as int);
                let m = self@;
                assert forall|e: int, j: int|
                    0 <= e < m.groups.len() && 0 <= j < m.groups[e].1.len() implies (
                    #[trigger] m.groups[e].1[j]).map.wf() by {
                    if e < i {
                        assert(m.groups[e] == groups_model(mid)[e]);
                    } else {
                        assert(m.groups[e] == groups_model(mid)[e + 1]);
                    }
                }
                assert(self@.groups =~= old(self)@.without_groups_of(tag).groups);
                assert(self@ == (FieldMapModel {
                    fields: without_first(old(self)@.fields, tag),
                    ..old(self)@.without_groups_of(tag)
                }));
            }
        } else {
            let ghost mid = self@;
            proof {
                assert(mid == old(self)@.with_groups_of(
                    tag,
                    old(self)@.groups_of(tag).remove(index as int),
                ));
            }
            self.set_int(tag, count as u32);
        }
        Ok(group)
    }

    /// Removes all the groups of a tag and the field of that tag.
    pub fn remove_all_groups(&mut self, tag: u32) -> (r: Option<Vec<Group>>)
        requires
            old(self).wf(),
        ensures
            match r {
                Some(v) => has_key(old(self)@.groups, tag) && group_models(v@) == old(self)@.groups_of(tag)
                    && final(self)@ == (FieldMapModel {
                    fields: without_first(old(self)@.fields, tag),
                    ..old(self)@.without_groups_of(tag)
                }),
                None => !has_key(old(self)@.groups, tag) && final(self)@ == (FieldMapModel {
                    fields: without_first(old(self)@.fields, tag),
                    ..old(self)@
                }),
            },
            final(self).wf(),
    {
        self.remove_field(tag);
        proof {
            lemma_map_model(*self);
        }
        match self.find_groups(tag) {
            Some(i) => {
                let ghost before = self.groups@;
                let (_, v) = self.groups.remove(i);
                proof {
                    lemma_map_model(*self);
                    assert(groups_model(self.groups@) =~= groups_model(before).remove(i as int));
                    lemma_assoc_remove(groups_model(before), i as int);
                    let m = self@;
                    assert forall|e: int, j: int|
                        0 <= e < m.groups.len() && 0 <= j < m.groups[e].1.len() implies (
                        #[trigger] m.groups[e].1[j]).map.wf() by {
                        if e < i {
                            assert(m.groups[e] == groups_model(before)[e]);
                        } else {
                            assert(m.groups[e] == groups_model(before)[e + 1]);
                        }
                    }
                }
                Some(v)
            },
            None => None,
        }
    }

    /// Whether a tag has at least one group.
    pub fn has_group(&self, tag: u32) -> (r: bool)
        requires
            self.wf(),
        ensures
            r == (self@.groups_of(tag).len() > 0),
    {
        match self.get_groups(tag) {
            Some(v) => v.len() > 0,
            None => false,
        }
    }

    /// Whether a tag has a group at this index.
    pub fn has_group_at(&self, num: usize, tag: u32) -> (r: bool)
        requires
            self.wf(),
        ensures
            r == (num < self@.groups_of(tag).len()),
    {
        if self.get_group(tag, num).is_some() {
            return true;
        }
        false
    }

    /// The number of groups of a tag.
    pub fn group_count(&self, tag: u32) -> (r: usize)
        requires
            self.wf(),
        ensures
            r == self@.groups_of(tag).len(),
    {
        match self.get_groups(tag) {
            Some(v) => v.len(),
            None => 0,
        }
    }
}

/// A group's model, part by part.
pub(crate) broadcast proof fn lemma_group_model(g: Group)
    ensures
        #[trigger] group_model(g) == (GroupModel { map: g.fieldmap@, field_id: g.field_id, delim: g.delim }),
{
}

fn clone_map(fm: &FieldMap) -> (r: FieldMap)
    ensures
        r@ == fm@,
    decreases fm,
{
    let mut fields: Vec<Field> = Vec::new();
    let mut k: usize = 0;
    while k < fm.fields.len()
        invariant
            k <= fm.fields@.len(),
            fields@.len() == k,
            forall|j: int| 0 <= j < k ==> field_pair(#[trigger] fields@[j]) == field_pair(fm.fields@[j]),
        decreases fm.fields@.len() - k,
    {
        fields.push(fm.fields[k].clone());
        k += 1;
    }
    assert(fields@.map_values(|f: Field| field_pair(f)) =~= fm.fields@.map_values(|f: Field| field_pair(f)));
    let mut groups: Vec<(u32, Vec<Group>)> = Vec::new();
    let mut e: usize = 0;
    while e < fm.groups.len()
        invariant
            e <= fm.groups@.len(),
            groups@.len() == e,
            forall|x: int| 0 <= x < e ==> (#[trigger] groups@[x]).0 == fm.groups@[x].0 && group_models(groups@[x].1@)
                == group_models(fm.groups@[x].1@),
        decreases fm.groups@.len() - e,
    {
        let mut v: Vec<Group> = Vec::new();
        let mut j: usize = 0;
        while j < fm.groups[e].1.len()
            invariant
                e < fm.groups@.len(),
                j <= fm.groups@[e as int].1@.len(),
                v@.len() == j,
                forall|y: int| 0 <= y < j ==> (#[trigger] v@[y])@ == fm.groups@[e as int].1@[y]@,
            decreases fm.groups@[e as int].1@.len() - j,
        {
            let g = clone_group(&fm.groups[e].1[j]);
            v.push(g);
            j += 1;
        }
        assert(group_models(v@) =~= group_models(fm.groups@[e as int].1@));
        groups.push((fm.groups[e].0, v));
        e += 1;
    }
    assert(groups_model(groups@) =~= groups_model(fm.groups@));
    let r = FieldMap { fields, groups, message_order: fm.message_order.clone() };
    proof {
        lemma_map_model(r);
        lemma_map_model(*fm);
    }
    r
}

fn clone_group(g: &Group) -> (r: Group)
    ensures
        r@ == g@,
    decreases g,
{
    Group { fieldmap: clone_map(&g.fieldmap), field_id: g.field_id, delim: g.delim }
}

impl Clone for FieldMap {
    fn clone(&self) -> (r: Self)
        ensures
            r@ == self@,
    {
        clone_map(self)
    }
}

impl Clone for Group {
    fn clone(&self) -> (r: Self)
        ensures
            r@ == self@,
    {
        clone_group(self)
    }
}

impl Group {
    /// A group counted by the field `field_id` and started by the field `delim`;
    /// its fields are sorted by the given positions, or by tag.
    pub fn new(field_id: u32, delim: u32, order: Option<Vec<i32>>) -> (r: Self)
        ensures
            r@.field_id == field_id,
            r@.delim == delim,
            r@.map.fields.len() == 0,
            r@.map.groups.len() == 0,
            r@.map.order == match order {
                Some(o) => MessageOrder::group_view(o@),
                None => normal_order(),
            },
            r@.map.wf(),
    {
        let msg_order = match order {
            Some(ord) => MessageOrder::group(ord),
            None => MessageOrder::normal(),
        };
        Group { fieldmap: FieldMap::new_with_order(msg_order), field_id, delim }
    }

    /// The tag of the field that counts the groups.
    pub fn field(&self) -> (r: u32)
        ensures
            r == self@.field_id,
    {
        self.field_id
    }

    /// The tag of the field that starts each group.
    pub fn delim(&self) -> (r: u32)
        ensures
            r == self@.delim,
    {
        self.delim
    }

    /// The group's field map.
    pub fn get_field_map(&self) -> (r: &FieldMap)
        ensures
            r@ == self@.map,
    {
        &self.fieldmap
    }

    /// The group's field map, to change in place.
    pub fn get_field_map_mut(&mut self) -> (r: &mut FieldMap)
        ensures
            r@ == old(self)@.map,
            final(self)@ == (GroupModel { map: final(r)@, ..old(self)@ }),
    {
        &mut self.fieldmap
    }
}

/// Texts put one after the other.
pub open spec fn concat(s: Seq<Seq<char>>) -> Seq<char>
    decreases s.len(),
{
    if s.len() == 0 {
        Seq::empty()
    } else {
        concat(s.drop_last()) + s.last()
    }
}

/// The FIX text of a field map: each field, followed by the texts of the groups
/// of its tag.
pub open spec fn map_text(m: FieldMapModel) -> Seq<char>
    decreases m, 2int, 0int,
{
    fields_text(m, m.fields.len() as int)
}

/// The FIX text of the first `n` fields of a map, each followed by the groups of
/// its tag.
pub open spec fn fields_text(m: FieldMapModel, n: int) -> Seq<char>
    decreases m, 1int, n,
{
    if n <= 0 || n > m.fields.len() {
        Seq::empty()
    } else {
        let tag = m.fields[n - 1].0;
        let e = key_index(m.groups, tag);
        fields_text(m, n - 1) + field_text(m.fields[n - 1]) + if 0 <= e < m.groups.len() {
            entry_text(m, e, m.groups[e].1.len() as int)
        } else {
            Seq::empty()
        }
    }
}

/// The FIX text of the first `n` groups of the entry at `e`.
pub open spec fn entry_text(m: FieldMapModel, e: int, n: int) -> Seq<char>
    decreases m, 0int, n,
{
    if 0 <= e < m.groups.len() && 0 < n <= m.groups[e].1.len() {
        entry_text(m, e, n - 1) + map_text(m.groups[e].1[n - 1].map)
    } else {
        Seq::empty()
    }
}

impl FieldMap {
    /// The map as FIX text: each field, followed by the groups of its tag.
    pub fn to_fix_string(&self) -> (r: String)
        requires
            self.wf(),
        ensures
            r@ == map_text(self@),
        decreases self,
    {
        let ghost m = self@;
        proof {
            lemma_map_model(*self);
        }
        let mut results = String::new();
        let mut k: usize = 0;
        while k < self.fields.len()
            invariant
                k <= self.fields@.len(),
                m == self@,
                m.wf(),
                m.fields == self.fields@.map_values(|f: Field| field_pair(f)),
                m.groups == groups_model(self.groups@),
                results@ == fields_text(m, k as int),
            decreases self.fields@.len() - k,
        {
            let field = &self.fields[k];
            let ft = field.to_fix_string();
            push_str(&mut results, ft.as_str());
            let ghost base = results@;
            match self.find_groups(field.tag) {
                Some(e) => {
                    let gs = &self.groups[e].1;
                    let mut i: usize = 0;
                    while i < gs.len()
                        invariant
                            i <= gs@.len(),
                            e < self.groups@.len(),
                            gs == self.groups@[e as int].1,
                            m.wf(),
                            m.groups == groups_model(self.groups@),
                            results@ == base + entry_text(m, e as int, i as int),
                        decreases gs@.len() - i,
                    {
                        proof {
                            assert(m.groups[e as int].1[i as int] == gs@[i as int]@);
                            assert(gs@[i as int]@.map.wf());
                            lemma_group_model(gs@[i as int]);
                        }
                        let gt = gs[i].fieldmap.to_fix_string();
                        push_str(&mut results, gt.as_str());
                        i += 1;
                        assert(results@ =~= base + entry_text(m, e as int, i as int));
                    }
                },
                None => {},
            }
            k += 1;
            assert(results@ =~= fields_text(m, k as int));
        }
        results
    }
}

impl Group {
    /// The group as FIX text.
    pub fn to_fix_string(&self) -> (r: String)
        requires
            self@.map.wf(),
        ensures
            r@ == map_text(self@.map),
    {
        self.fieldmap.to_fix_string()
    }
}

/// The sum of the byte length of the first `n` fields.
pub open spec fn fields_length(f: Seq<(u32, Seq<char>)>, n: int) -> nat
    decreases n,
{
    if n <= 0 || n > f.len() {
        0
    } else {
        fields_length(f, n - 1) + field_bytes(f[n - 1]).len()
    }
}

/// The byte length of a field map: of its fields, and of every group it holds (whatever
/// the fields say).
pub open spec fn map_length(m: FieldMapModel) -> nat
    decreases m, 2int, 0int,
{
    fields_length(m.fields, m.fields.len() as int) + entries_length(m, m.groups.len() as int)
}

/// The byte length of the groups of the first `n` entries.
pub open spec fn entries_length(m: FieldMapModel, n: int) -> nat
    decreases m, 1int, n,
{
    if n <= 0 || n > m.groups.len() {
        0
    } else {
        entries_length(m, n - 1) + entry_length(m, n - 1, m.groups[n - 1].1.len() as int)
    }
}

/// The byte length of the first `n` groups of the entry at `e`.
pub open spec fn entry_length(m: FieldMapModel, e: int, n: int) -> nat
    decreases m, 0int, n,
{
    if 0 <= e < m.groups.len() && 0 < n <= m.groups[e].1.len() {
        entry_length(m, e, n - 1) + map_length(m.groups[e].1[n - 1].map)
    } else {
        0
    }
}

proof fn lemma_fields_length_mono(f: Seq<(u32, Seq<char>)>, k: int, j: int)
    requires
        0 <= k <= j <= f.len(),
    ensures
        fields_length(f, k) <= fields_length(f, j),
    decreases j - k,
{
    if k < j {
        lemma_fields_length_mono(f, k, j - 1);
    }
}

proof fn lemma_entries_length_mono(m: FieldMapModel, k: int, j: int)
    requires
        0 <= k <= j <= m.groups.len(),
    ensures
        entries_length(m, k) <= entries_length(m, j),
    decreases j - k,
{
    if k < j {
        lemma_entries_length_mono(m, k, j - 1);
    }
}

proof fn lemma_entry_length_mono(m: FieldMapModel, e: int, k: int, j: int)
    requires
        0 <= e < m.groups.len(),
        0 <= k <= j <= m.groups[e].1.len(),
    ensures
        entry_length(m, e, k) <= entry_length(m, e, j),
    decreases j - k,
{
    if k < j {
        lemma_entry_length_mono(m, e, k, j - 1);
    }
}

impl FieldMap {
    /// The byte length of the fields and of every group held.
    pub fn calculate_length(&self) -> (r: usize)
        requires
            map_length(self@) <= usize::MAX,
        ensures
            r == map_length(self@),
        decreases self,
    {
        let ghost m = self@;
        let ghost total = map_length(m);
        proof {
            lemma_map_model(*self);
        }
        let mut acc: usize = 0;
        let mut k: usize = 0;
        while k < self.fields.len()
            invariant
                k <= self.fields@.len(),
                m == self@,
                total == map_length(m),
                total <= usize::MAX,
                m.fields == self.fields@.map_values(|f: Field| field_pair(f)),
                acc == fields_length(m.fields, k as int),
            decreases self.fields@.len() - k,
        {
            proof {
                lemma_fields_length_mono(m.fields, k + 1, m.fields.len() as int);
            }
            acc = acc + self.fields[k].length();
            k += 1;
        }
        let ghost base = acc as int;
        let mut e: usize = 0;
        while e < self.groups.len()
            invariant
                e <= self.groups@.len(),
                m == self@,
                total == map_length(m),
                total <= usize::MAX,
                base == fields_length(m.fields, m.fields.len() as int),
                m.groups == groups_model(self.groups@),
                acc == base + entries_length(m, e as int),
            decreases self.groups@.len() - e,
        {
            let gs = &self.groups[e].1;
            let ghost before = acc as int;
            let mut i: usize = 0;
            while i < gs.len()
                invariant
                    i <= gs@.len(),
                    e < self.groups@.len(),
                    gs == self.groups@[e as int].1,
                    total == map_length(m),
                    total <= usize::MAX,
                    base == fields_length(m.fields, m.fields.len() as int),
                    m.groups == groups_model(self.groups@),
                    before == base + entries_length(m, e as int),
                    acc == before + entry_length(m, e as int, i as int),
                decreases gs@.len() - i,
            {
                proof {
                    assert(m.groups[e as int].1[i as int] == gs@[i as int]@);
                    lemma_group_model(gs@[i as int]);
                    lemma_entry_length_mono(m, e as int, i + 1, m.groups[e as int].1.len() as int);
                    lemma_entries_length_mono(m, e + 1, m.groups.len() as int);
                }
                let part = gs[i].fieldmap.calculate_length();
                acc = acc + part;
                i += 1;
            }
            e += 1;
        }
        acc
    }
}

/// The sum of the byte sum of the first `n` fields.
pub open spec fn fields_checksum(f: Seq<(u32, Seq<char>)>, n: int) -> nat
    decreases n,
{
    if n <= 0 || n > f.len() {
        0
    } else {
        fields_checksum(f, n - 1) + byte_sum(field_bytes(f[n - 1]))
    }
}

/// The byte sum of a field map: of its fields, and of every group it holds (whatever
/// the fields say).
pub open spec fn map_checksum(m: FieldMapModel) -> nat
    decreases m, 2int, 0int,
{
    fields_checksum(m.fields, m.fields.len() as int) + entries_checksum(m, m.groups.len() as int)
}

/// The byte sum of the groups of the first `n` entries.
pub open spec fn entries_checksum(m: FieldMapModel, n: int) -> nat
    decreases m, 1int, n,
{
    if n <= 0 || n > m.groups.len() {
        0
    } else {
        entries_checksum(m, n - 1) + entry_checksum(m, n - 1, m.groups[n - 1].1.len() as int)
    }
}

/// The byte sum of the first `n` groups of the entry at `e`.
pub open spec fn entry_checksum(m: FieldMapModel, e: int, n: int) -> nat
    decreases m, 0int, n,
{
    if 0 <= e < m.groups.len() && 0 < n <= m.groups[e].1.len() {
        entry_checksum(m, e, n - 1) + map_checksum(m.groups[e].1[n - 1].map)
    } else {
        0
    }
}

proof fn lemma_fields_checksum_mono(f: Seq<(u32, Seq<char>)>, k: int, j: int)
    requires
        0 <= k <= j <= f.len(),
    ensures
        fields_checksum(f, k) <= fields_checksum(f, j),
    decreases j - k,
{
    if k < j {
        lemma_fields_checksum_mono(f, k, j - 1);
    }
}

proof fn lemma_entries_checksum_mono(m: FieldMapModel, k: int, j: int)
    requires
        0 <= k <= j <= m.groups.len(),
    ensures
        entries_checksum(m, k) <= entries_checksum(m, j),
    decreases j - k,
{
    if k < j {
        lemma_entries_checksum_mono(m, k, j - 1);
    }
}

proof fn lemma_entry_checksum_mono(m: FieldMapModel, e: int, k: int, j: int)
    requires
        0 <= e < m.groups.len(),
        0 <= k <= j <= m.groups[e].1.len(),
    ensures
        entry_checksum(m, e, k) <= entry_checksum(m, e, j),
    decreases j - k,
{
    if k < j {
        lemma_entry_checksum_mono(m, e, k, j - 1);
    }
}

impl FieldMap {
    /// The byte sum of the fields and of every group held.
    pub fn calculate_checksum(&self) -> (r: u32)
        requires
            map_checksum(self@) <= u32::MAX,
        ensures
            r == map_checksum(self@),
        decreases self,
    {
        let ghost m = self@;
        let ghost total = map_checksum(m);
        proof {
            lemma_map_model(*self);
        }
        let mut acc: u32 = 0;
        let mut k: usize = 0;
        while k < self.fields.len()
            invariant
                k <= self.fields@.len(),
                m == self@,
                total == map_checksum(m),
                total <= u32::MAX,
                m.fields == self.fields@.map_values(|f: Field| field_pair(f)),
                acc == fields_checksum(m.fields, k as int),
            decreases self.fields@.len() - k,
        {
            proof {
                lemma_fields_checksum_mono(m.fields, k + 1, m.fields.len() as int);
            }
            acc = acc + self.fields[k].checksum();
            k += 1;
        }
        let ghost base = acc as int;
        let mut e: usize = 0;
        while e < self.groups.len()
            invariant
                e <= self.groups@.len(),
                m == self@,
                total == map_checksum(m),
                total <= u32::MAX,
                base == fields_checksum(m.fields, m.fields.len() as int),
                m.groups == groups_model(self.groups@),
                acc == base + entries_checksum(m, e as int),
            decreases self.groups@.len() - e,
        {
            let gs = &self.groups[e].1;
            let ghost before = acc as int;
            let mut i: usize = 0;
            while i < gs.len()
                invariant
                    i <= gs@.len(),
                    e < self.groups@.len(),
                    gs == self.groups@[e as int].1,
                    total == map_checksum(m),
                    total <= u32::MAX,
                    base == fields_checksum(m.fields, m.fields.len() as int),
                    m.groups == groups_model(self.groups@),
                    before == base + entries_checksum(m, e as int),
                    acc == before + entry_checksum(m, e as int, i as int),
                decreases gs@.len() - i,
            {
                proof {
                    assert(m.groups[e as int].1[i as int] == gs@[i as int]@);
                    lemma_group_model(gs@[i as int]);
                    lemma_entry_checksum_mono(m, e as int, i + 1, m.groups[e as int].1.len() as int);
                    lemma_entries_checksum_mono(m, e + 1, m.groups.len() as int);
                }
                let part = gs[i].fieldmap.calculate_checksum();
                acc = acc + part;
                i += 1;
            }
            e += 1;
        }
        acc
    }
}

/// The key by which a tag is ordered.
pub open spec fn tag_key(t: u32) -> i32 {
    t as i32
}

fn key_of(t: u32) -> (r: i32)
    ensures
        r == tag_key(t),
{
    t as i32
}

/// Where a field goes among fields already sorted: in front of the first one
/// that comes after it.
pub open spec fn insert_position(
    o: MessageOrderView,
    s: Seq<(u32, Seq<char>)>,
    f: (u32, Seq<char>),
) -> int
    decreases s.len(),
{
    if s.len() == 0 {
        0
    } else if comes_after(o, tag_key(s[0].0), tag_key(f.0)) {
        0
    } else {
        1 + insert_position(o, s.drop_first(), f)
    }
}

/// The fields sorted in the order `o`, stably: each field in turn is put in
/// front of the first field already placed that comes after it.
pub open spec fn sorted_fields(o: MessageOrderView, s: Seq<(u32, Seq<char>)>) -> Seq<(u32, Seq<char>)>
    decreases s.len(),
{
    if s.len() == 0 {
        s
    } else {
        let r = sorted_fields(o, s.drop_last());
        r.insert(insert_position(o, r, s.last()), s.last())
    }
}

/// No field comes after a later one.
pub open spec fn is_sorted(o: MessageOrderView, s: Seq<(u32, Seq<char>)>) -> bool {
    forall|i: int, j: int|
        0 <= i < j < s.len() ==> !comes_after(o, tag_key(#[trigger] s[i].0), tag_key(#[trigger] s[j].0))
}

/// Under a trailer order, no two fields are CheckSum.
pub open spec fn one_check_sum_at_most(o: MessageOrderView, s: Seq<(u32, Seq<char>)>) -> bool {
    o.mode == CompareMode::Trailer ==> forall|i: int, j: int|
        0 <= i < j < s.len() ==> !(tag_key(#[trigger] s[i].0) == CHECK_SUM && tag_key(#[trigger] s[j].0) == CHECK_SUM)
}

proof fn lemma_insert_position_bounds(o: MessageOrderView, s: Seq<(u32, Seq<char>)>, f: (u32, Seq<char>))
    ensures
        0 <= insert_position(o, s, f) <= s.len(),
        forall|q: int| 0 <= q < insert_position(o, s, f) ==> !comes_after(o, tag_key(#[trigger] s[q].0), tag_key(f.0)),
        insert_position(o, s, f) < s.len() ==> comes_after(o, tag_key(s[insert_position(o, s, f)].0), tag_key(f.0)),
    decreases s.len(),
{
    if s.len() > 0 && !comes_after(o, tag_key(s[0].0), tag_key(f.0)) {
        lemma_insert_position_bounds(o, s.drop_first(), f);
        assert forall|q: int| 0 <= q < insert_position(o, s, f) implies !comes_after(o, tag_key(#[trigger] s[q].0), tag_key(f.0)) by {
            if q > 0 {
                assert(s[q] == s.drop_first()[q - 1]);
            }
        }
    }
}

/// Sorting keeps the fields: the result holds each of them as many times.
pub proof fn sorting_keeps_fields(o: MessageOrderView, s: Seq<(u32, Seq<char>)>)
    ensures
        sorted_fields(o, s).to_multiset() == s.to_multiset(),
        sorted_fields(o, s).len() == s.len(),
    decreases s.len(),
{
    broadcast use vstd::seq_lib::to_multiset_insert, vstd::seq_lib::to_multiset_build;

    if s.len() > 0 {
        let r = sorted_fields(o, s.drop_last());
        sorting_keeps_fields(o, s.drop_last());
        lemma_insert_position_bounds(o, r, s.last());
        assert(s.drop_last().push(s.last()) == s);
    }
}

/// Sorting puts the fields in order, where no two of them are CheckSum under a
/// trailer order.
pub proof fn sorting_sorts_fields(o: MessageOrderView, s: Seq<(u32, Seq<char>)>)
    requires
        one_check_sum_at_most(o, s),
    ensures
        is_sorted(o, sorted_fields(o, s)),
    decreases s.len(),
{
    broadcast use vstd::seq_lib::to_multiset_insert, vstd::seq_lib::to_multiset_build, vstd::seq_lib::to_multiset_contains;

    if s.len() > 0 {
        let p = s.drop_last();
        let f = s.last();
        assert(one_check_sum_at_most(o, p)) by {
            if o.mode == CompareMode::Trailer {
                assert forall|i: int, j: int| 0 <= i < j < p.len() implies !(tag_key(#[trigger] p[i].0) == CHECK_SUM
                    && tag_key(#[trigger] p[j].0) == CHECK_SUM) by {
                    assert(p[i] == s[i] && p[j] == s[j]);
                }
            }
        }
        sorting_sorts_fields(o, p);
        sorting_keeps_fields(o, p);
        let r = sorted_fields(o, p);
        let k = insert_position(o, r, f);
        lemma_insert_position_bounds(o, r, f);
        let t = r.insert(k, f);
        // the fields of r are those of p, so at most one of them and f is CheckSum
        assert forall|i: int| 0 <= i < r.len() implies !(o.mode == CompareMode::Trailer && tag_key(#[trigger] r[i].0) == CHECK_SUM
            && tag_key(f.0) == CHECK_SUM) by {
            if o.mode == CompareMode::Trailer && tag_key(r[i].0) == CHECK_SUM && tag_key(f.0) == CHECK_SUM {
                assert(r.contains(r[i]));
                assert(r.to_multiset().count(r[i]) > 0);
                assert(p.to_multiset().count(r[i]) > 0);
                assert(p.contains(r[i]));
                let j = choose|j: int| 0 <= j < p.len() && p[j] == r[i];
                assert(s[j] == p[j] && s[s.len() - 1] == f);
            }
        }
        assert forall|i: int, a: int| 0 <= i < r.len() && 0 <= a < r.len() && i != a implies !(o.mode == CompareMode::Trailer
            && tag_key(#[trigger] r[i].0) == CHECK_SUM && tag_key(#[trigger] r[a].0) == CHECK_SUM) by {
            if o.mode == CompareMode::Trailer && tag_key(r[i].0) == CHECK_SUM && tag_key(r[a].0) == CHECK_SUM {
                if i < a {
                    assert(!comes_after(o, tag_key(r[i].0), tag_key(r[a].0)));
                } else {
                    assert(!comes_after(o, tag_key(r[a].0), tag_key(r[i].0)));
                }
            }
        }
        assert forall|i: int, j: int| 0 <= i < j < t.len() implies !comes_after(o, tag_key(#[trigger] t[i].0), tag_key(#[trigger] t[j].0)) by {
            if j < k {
                assert(t[i] == r[i] && t[j] == r[j]);
            } else if j == k {
                assert(t[i] == r[i] && t[j] == f);
            } else if i == k {
                assert(t[j] == r[j - 1]);
                comes_after_is_asymmetric(o, tag_key(r[k].0), tag_key(f.0));
                if j - 1 > k {
                    not_after_is_transitive(o, tag_key(f.0), tag_key(r[k].0), tag_key(r[j - 1].0));
                }
            } else if i < k {
                assert(t[i] == r[i] && t[j] == r[j - 1]);
            } else {
                assert(t[i] == r[i - 1] && t[j] == r[j - 1]);
            }
        }
    }
}

/// Two tags compare equal in an order: neither comes after the other.
pub open spec fn compares_equal(o: MessageOrderView, t: i32, x: i32) -> bool {
    !comes_after(o, t, x) && !comes_after(o, x, t)
}

/// The fields whose tags compare equal to `x`, in the order they come.
pub open spec fn fields_equal_to(o: MessageOrderView, s: Seq<(u32, Seq<char>)>, x: i32) -> Seq<(u32, Seq<char>)>
    decreases s.len(),
{
    if s.len() == 0 {
        s
    } else if compares_equal(o, tag_key(s.last().0), x) {
        fields_equal_to(o, s.drop_last(), x).push(s.last())
    } else {
        fields_equal_to(o, s.drop_last(), x)
    }
}

proof fn lemma_fields_equal_to_concat(o: MessageOrderView, a: Seq<(u32, Seq<char>)>, b: Seq<(u32, Seq<char>)>, x: i32)
    ensures
        fields_equal_to(o, a + b, x) == fields_equal_to(o, a, x) + fields_equal_to(o, b, x),
    decreases b.len(),
{
    if b.len() == 0 {
        assert(a + b =~= a);
        assert(fields_equal_to(o, a, x) + fields_equal_to(o, b, x) =~= fields_equal_to(o, a, x));
    } else {
        assert((a + b).drop_last() =~= a + b.drop_last());
        lemma_fields_equal_to_concat(o, a, b.drop_last(), x);
        assert((fields_equal_to(o, a, x) + fields_equal_to(o, b.drop_last(), x)).push(b.last()) =~= fields_equal_to(
            o,
            a,
            x,
        ) + fields_equal_to(o, b.drop_last(), x).push(b.last()));
    }
}

proof fn lemma_fields_equal_to_none(o: MessageOrderView, s: Seq<(u32, Seq<char>)>, x: i32)
    requires
        forall|i: int| 0 <= i < s.len() ==> !compares_equal(o, tag_key(#[trigger] s[i].0), x),
    ensures
        fields_equal_to(o, s, x) == Seq::<(u32, Seq<char>)>::empty(),
    decreases s.len(),
{
    if s.len() > 0 {
        assert(!compares_equal(o, tag_key(s[s.len() - 1].0), x));
        lemma_fields_equal_to_none(o, s.drop_last(), x);
    }
}

/// A tag that comes after one tag of a class of equal tags comes after each of
/// them, and no tag of such a class comes after itself.
proof fn lemma_after_equal_class(o: MessageOrderView, a: i32, b: i32, c: i32, x: i32)
    requires
        compares_equal(o, b, x),
        compares_equal(o, c, x),
    ensures
        comes_after(o, a, b) ==> comes_after(o, a, c),
        !comes_after(o, c, c),
{
    ordering_is_rank_ordering(o, b, x);
    ordering_is_rank_ordering(o, x, b);
    ordering_is_rank_ordering(o, c, x);
    ordering_is_rank_ordering(o, x, c);
    ordering_is_rank_ordering(o, c, c);
    if !(o.mode == CompareMode::Trailer && a == CHECK_SUM) {
        ordering_is_rank_ordering(o, a, b);
        ordering_is_rank_ordering(o, a, c);
    }
}

/// Sorting is stable: the fields whose tags compare equal to a given tag keep,
/// among themselves, the order they had (where no two fields are CheckSum under
/// a trailer order).
pub proof fn sorting_is_stable(o: MessageOrderView, s: Seq<(u32, Seq<char>)>, x: i32)
    requires
        one_check_sum_at_most(o, s),
    ensures
        fields_equal_to(o, sorted_fields(o, s), x) == fields_equal_to(o, s, x),
    decreases s.len(),
{
    if s.len() > 0 {
        let p = s.drop_last();
        let f = s.last();
        assert(one_check_sum_at_most(o, p)) by {
            if o.mode == CompareMode::Trailer {
                assert forall|i: int, j: int| 0 <= i < j < p.len() implies !(tag_key(#[trigger] p[i].0) == CHECK_SUM
                    && tag_key(#[trigger] p[j].0) == CHECK_SUM) by {
                    assert(p[i] == s[i] && p[j] == s[j]);
                }
            }
        }
        sorting_is_stable(o, p, x);
        sorting_sorts_fields(o, p);
        let r = sorted_fields(o, p);
        let k = insert_position(o, r, f);
        lemma_insert_position_bounds(o, r, f);
        let t = r.insert(k, f);
        assert(t =~= r.take(k) + seq![f] + r.skip(k));
        assert(r =~= r.take(k) + r.skip(k));
        lemma_fields_equal_to_concat(o, r.take(k) + seq![f], r.skip(k), x);
        lemma_fields_equal_to_concat(o, r.take(k), seq![f], x);
        lemma_fields_equal_to_concat(o, r.take(k), r.skip(k), x);
        let one = seq![f];
        let none = Seq::<(u32, Seq<char>)>::empty();
        assert(one.drop_last() =~= none);
        assert(one.last() == f);
        assert(fields_equal_to(o, none, x) == none);
        assert(fields_equal_to(o, one, x) == if compares_equal(o, tag_key(f.0), x) {
            none.push(f)
        } else {
            none
        });
        assert(fields_equal_to(o, t, x) == fields_equal_to(o, r.take(k), x) + fields_equal_to(o, one, x)
            + fields_equal_to(o, r.skip(k), x));
        assert(fields_equal_to(o, r, x) == fields_equal_to(o, r.take(k), x) + fields_equal_to(o, r.skip(k), x));
        assert(s =~= p.push(f));
        if compares_equal(o, tag_key(f.0), x) {
            let rest = r.skip(k);
            assert forall|i: int| 0 <= i < rest.len() implies !compares_equal(o, tag_key(#[trigger] rest[i].0), x) by {
                if compares_equal(o, tag_key(rest[i].0), x) {
                    assert(rest[i] == r[k + i]);
                    lemma_after_equal_class(o, tag_key(r[k].0), tag_key(f.0), tag_key(r[k + i].0), x);
                }
            }
            lemma_fields_equal_to_none(o, rest, x);
            assert(fields_equal_to(o, r.take(k), x) + fields_equal_to(o, seq![f], x) + fields_equal_to(o, rest, x)
                =~= fields_equal_to(o, r, x).push(f));
        } else {
            assert(fields_equal_to(o, r.take(k), x) + fields_equal_to(o, seq![f], x) + fields_equal_to(o, r.skip(k), x)
                =~= fields_equal_to(o, r, x));
        }
    }
}

/// The fields written from byte `pos` on in a FIX text, one after the other, or
/// the fields read before the first that fails and its error.
pub open spec fn fields_from(b: Seq<u8>, pos: int) -> std::result::Result<
    Seq<(u32, Seq<char>)>,
    (Seq<(u32, Seq<char>)>, NativeErrorView),
>
    decreases b.len() - pos,
{
    if pos >= b.len() {
        Ok(Seq::empty())
    } else {
        match field_at(b, pos) {
            Err(e) => Err((Seq::empty(), e)),
            Ok((f, next)) => if next <= pos || next > b.len() {
                Ok(Seq::empty())
            } else {
                match fields_from(b, next) {
                    Ok(rest) => Ok(seq![f] + rest),
                    Err((done, e)) => Err((seq![f] + done, e)),
                }
            },
        }
    }
}

/// What the first position of a byte is.
proof fn lemma_byte_position(b: Seq<u8>, x: u8)
    ensures
        match byte_position(b, x) {
            Some(i) => 0 <= i < b.len() && b[i] == x && forall|j: int| 0 <= j < i ==> b[j] != x,
            None => forall|j: int| 0 <= j < b.len() ==> b[j] != x,
        },
{
    reveal(byte_position);
    if exists|i: int| 0 <= i < b.len() && b[i] == x {
        let i = choose|i: int| 0 <= i < b.len() && b[i] == x;
        lemma_first_byte_exists(b, x, i);
    }
}

proof fn lemma_first_byte_exists(b: Seq<u8>, x: u8, i: int)
    requires
        0 <= i < b.len(),
        b[i] == x,
    ensures
        exists|c: int| 0 <= c < b.len() && b[c] == x && forall|j: int| 0 <= j < c ==> b[j] != x,
    decreases i,
{
    if !(forall|j: int| 0 <= j < i ==> b[j] != x) {
        let j = choose|j: int| 0 <= j < i && b[j] == x;
        lemma_first_byte_exists(b, x, j);
    }
}

/// A field read from a boundary ends on one, further on.
proof fn lemma_field_at_next(b: Seq<u8>, pos: int)
    requires
        valid_utf8(b),
        is_char_boundary(b, pos),
        0 <= pos < b.len(),
        field_at(b, pos) is Ok,
    ensures
        pos < field_at(b, pos)->Ok_0.1 <= b.len(),
        is_char_boundary(b, field_at(b, pos)->Ok_0.1),
{
    let rest = b.subrange(pos, b.len() as int);
    assert(field_in(rest) is Ok);
    assert(tag_in(rest) is Ok);
    let e = tag_in(rest)->Ok_0.1;
    assert(byte_position(rest, 61) == Some(e)) by {
        reveal(tag_in);
    }
    lemma_byte_position(rest, 61);
    assert(0 <= e < rest.len());
    let after = rest.skip(e + 1);
    assert(byte_position(after, 1) is Some);
    let k = byte_position(after, 1)->0;
    lemma_byte_position(after, 1);
    assert(0 <= k < after.len() && after[k] == 1);
    let soh = pos + e + 1 + k;
    assert(b[soh] == rest.skip(e + 1)[k]);
    assert(b[soh] == 1);
    vstd::utf8::is_char_boundary_iff_not_is_continuation_byte(b, soh);
    lemma_boundary_after_ascii(b, soh);
}

impl FieldMap {
    /// Sorts the fields in the map's order, stably.
    pub fn sort_fields(&mut self)
        ensures
            final(self)@ == (FieldMapModel { fields: sorted_fields(old(self)@.order, old(self)@.fields), ..old(self)@ }),
    {
        let ghost o = self@.order;
        let ghost s = self@.fields;
        proof {
            lemma_map_model(*self);
        }
        let mut sorted: Vec<Field> = Vec::new();
        let mut k: usize = 0;
        while k < self.fields.len()
            invariant
                k <= self.fields@.len(),
                *self == *old(self),
                o == self.message_order@,
                s == self.fields@.map_values(|f: Field| field_pair(f)),
                sorted@.map_values(|f: Field| field_pair(f)) == sorted_fields(o, s.take(k as int)),
            decreases self.fields@.len() - k,
        {
            let f = self.fields[k].clone();
            let key = key_of(f.tag);
            let ghost ms = sorted@.map_values(|f: Field| field_pair(f));
            let ghost fp = field_pair(f);
            let mut p: usize = 0;
            assert(ms.skip(0) =~= ms);
            while p < sorted.len() && !self.message_order.goes_after(key_of(sorted[p].tag), key)
                invariant
                    p <= sorted@.len(),
                    o == self.message_order@,
                    ms == sorted@.map_values(|f: Field| field_pair(f)),
                    key == tag_key(fp.0),
                    insert_position(o, ms, fp) == p + insert_position(o, ms.skip(p as int), fp),
                decreases sorted@.len() - p,
            {
                proof {
                    assert(ms.skip(p as int).drop_first() =~= ms.skip(p + 1));
                }
                p += 1;
            }
            proof {
                if p < sorted@.len() {
                    assert(ms.skip(p as int)[0] == ms[p as int]);
                }
                assert(s.take(k + 1).drop_last() =~= s.take(k as int));
                assert(s.take(k + 1).last() == fp);
            }
            sorted.insert(p, f);
            k += 1;
            assert(sorted@.map_values(|f: Field| field_pair(f)) =~= ms.insert(p as int, fp));
        }
        assert(s.take(k as int) =~= s);
        self.fields = sorted;
    }

    /// Reads the fields of a FIX text into the emptied map, then sorts them. Where
    /// a field cannot be read, the fields read before it are left, unsorted.
    pub fn from_fix_string(&mut self, fix_string: &str) -> (r: Result<()>)
        ensures
            match fields_from(fix_string.spec_bytes(), 0) {
                Ok(fs) => r is Ok && final(self)@ == (FieldMapModel {
                    fields: sorted_fields(old(self)@.order, fs),
                    groups: Seq::empty(),
                    order: old(self)@.order,
                }),
                Err((done, e)) => r matches Err(err) && err@ == e && final(self)@ == (FieldMapModel {
                    fields: done,
                    groups: Seq::empty(),
                    order: old(self)@.order,
                }),
            },
            final(self).wf(),
    {
        let ghost b = fix_string.spec_bytes();
        proof {
            vstd::utf8::encode_utf8_valid_utf8(fix_string@);
            vstd::utf8::is_char_boundary_start_end_of_seq(b);
        }
        self.clear();
        let total = fix_string.as_bytes().len();
        let mut pos: usize = 0;
        while pos < total
            invariant
                total == b.len(),
                b == fix_string.spec_bytes(),
                valid_utf8(b),
                pos <= total,
                is_char_boundary(b, pos as int),
                self@.groups.len() == 0,
                self@.order == old(self)@.order,
                match fields_from(b, 0) {
                    Ok(fs) => fields_from(b, pos as int) matches Ok(rest) && fs == self@.fields + rest,
                    Err((done, e)) => fields_from(b, pos as int) matches Err((d2, e2)) && done == self@.fields + d2 && e == e2,
                },
            decreases total - pos,
        {
            proof {
                if field_at(b, pos as int) is Ok {
                    lemma_field_at_next(b, pos as int);
                }
            }
            let (field, new_pos) = match Field::parse_from_fix_string(fix_string, pos) {
                Ok(p) => p,
                Err(e) => {
                    assert(fields_from(b, pos as int) == std::result::Result::<
                        Seq<(u32, Seq<char>)>,
                        (Seq<(u32, Seq<char>)>, NativeErrorView),
                    >::Err((Seq::empty(), e@)));
                    assert(self@.fields + Seq::<(u32, Seq<char>)>::empty() =~= self@.fields);
                    assert(self@.groups =~= Seq::<(u32, Seq<GroupModel>)>::empty());
                    return Err(e);
                },
            };
            let ghost before = self@.fields;
            self.append_field(field);
            proof {
                assert(before.push(field_pair(field)) =~= before + seq![field_pair(field)]);
                match fields_from(b, new_pos as int) {
                    Ok(rest) => {
                        assert(before + (seq![field_pair(field)] + rest) =~= self@.fields + rest);
                    },
                    Err((d2, e2)) => {
                        assert(before + (seq![field_pair(field)] + d2) =~= self@.fields + d2);
                    },
                }
            }
            pos = new_pos;
        }
        assert(self@.fields + Seq::<(u32, Seq<char>)>::empty() =~= self@.fields);
        self.sort_fields();
        assert(self@.groups =~= Seq::<(u32, Seq<GroupModel>)>::empty());
        Ok(())
    }
}

/// The map after setting each field of a list in turn.
pub open spec fn with_fields(m: FieldMapModel, fs: Seq<(u32, Seq<char>)>) -> FieldMapModel
    decreases fs.len(),
{
    if fs.len() == 0 {
        m
    } else {
        with_fields(m, fs.drop_last()).with_field(fs.last().0, fs.last().1)
    }
}

/// The map after adding each group of a list in turn.
pub open spec fn with_groups(m: FieldMapModel, gs: Seq<GroupModel>) -> FieldMapModel
    decreases gs.len(),
{
    if gs.len() == 0 {
        m
    } else {
        with_groups(m, gs.drop_last()).with_group(gs.last())
    }
}

/// All the groups of a list of entries, entry after entry.
pub open spec fn all_groups(entries: Seq<(u32, Seq<GroupModel>)>) -> Seq<GroupModel>
    decreases entries.len(),
{
    if entries.len() == 0 {
        Seq::empty()
    } else {
        all_groups(entries.drop_last()) + entries.last().1
    }
}

/// Adding a group adds it to the groups of its own tag and to no other.
pub proof fn lemma_with_group_groups_of(m: FieldMapModel, g: GroupModel, t: u32)
    requires
        m.wf(),
    ensures
        m.with_group(g).groups_of(t) == if t == g.field_id {
            m.groups_of(t).push(g)
        } else {
            m.groups_of(t)
        },
        keys_distinct(m.with_group(g).groups),
{
    let tag = g.field_id;
    let gs = m.groups_of(tag).push(g);
    let n = m.with_group(g).groups;
    if has_key(m.groups, tag) {
        let i = key_index(m.groups, tag);
        lemma_assoc_update(m.groups, i, gs);
        if has_key(m.groups, t) {
            let j = key_index(m.groups, t);
            assert(n[j].0 == t);
            lemma_key_index(n, j);
        } else {
            assert(!has_key(n, t)) by {
                if has_key(n, t) {
                    let j = choose|j: int| 0 <= j < n.len() && n[j].0 == t;
                    assert(m.groups[j].0 == t);
                }
            }
        }
    } else {
        lemma_assoc_push(m.groups, tag, gs);
        if has_key(m.groups, t) {
            let j = key_index(m.groups, t);
            assert(n[j].0 == t);
            lemma_key_index(n, j);
        } else if t == tag {
            assert(n[m.groups.len() as int].0 == t);
            lemma_key_index(n, m.groups.len() as int);
            assert(m.groups_of(t) =~= Seq::<GroupModel>::empty());
        } else {
            assert(!has_key(n, t)) by {
                if has_key(n, t) {
                    let j = choose|j: int| 0 <= j < n.len() && n[j].0 == t;
                    assert(m.groups[j].0 == t);
                }
            }
        }
    }
}

/// How many of these groups belong to the tag `t`.
pub open spec fn groups_for_tag(gs: Seq<GroupModel>, t: u32) -> nat
    decreases gs.len(),
{
    if gs.len() == 0 {
        0
    } else {
        groups_for_tag(gs.drop_last(), t) + if gs.last().field_id == t {
            1nat
        } else {
            0nat
        }
    }
}

proof fn lemma_groups_for_tag_take(gs: Seq<GroupModel>, j: int, t: u32)
    requires
        0 <= j <= gs.len(),
    ensures
        groups_for_tag(gs.take(j), t) <= groups_for_tag(gs, t),
    decreases gs.len(),
{
    if j < gs.len() {
        assert(gs.drop_last().take(j) =~= gs.take(j));
        lemma_groups_for_tag_take(gs.drop_last(), j, t);
    } else {
        assert(gs.take(j) =~= gs);
    }
}

proof fn lemma_groups_for_tag_concat(a: Seq<GroupModel>, b: Seq<GroupModel>, t: u32)
    ensures
        groups_for_tag(a + b, t) == groups_for_tag(a, t) + groups_for_tag(b, t),
    decreases b.len(),
{
    if b.len() == 0 {
        assert(a + b =~= a);
    } else {
        assert((a + b).drop_last() =~= a + b.drop_last());
        lemma_groups_for_tag_concat(a, b.drop_last(), t);
    }
}

proof fn lemma_all_groups_for_tag_prefix(entries: Seq<(u32, Seq<GroupModel>)>, k: int, t: u32)
    requires
        0 <= k <= entries.len(),
    ensures
        groups_for_tag(all_groups(entries.take(k)), t) <= groups_for_tag(all_groups(entries), t),
    decreases entries.len(),
{
    if k < entries.len() {
        assert(entries.drop_last().take(k) =~= entries.take(k));
        lemma_all_groups_for_tag_prefix(entries.drop_last(), k, t);
        lemma_groups_for_tag_concat(all_groups(entries.drop_last()), entries.last().1, t);
    } else {
        assert(entries.take(k) =~= entries);
    }
}

impl FieldMap {
    /// Sets each field of another map here, then adds a copy of each of its
    /// groups, entry after entry.
    pub fn copy_from(&mut self, other: &FieldMap)
        requires
            old(self).wf(),
            other.wf(),
            forall|t: u32|
                old(self)@.groups_of(t).len() + groups_for_tag(all_groups(other@.groups), t) < u32::MAX,
        ensures
            final(self)@ == with_groups(with_fields(old(self)@, other@.fields), all_groups(other@.groups)),
            final(self).wf(),
    {
        proof {
            lemma_map_model(*other);
        }
        let ghost om = other@;
        let mut k: usize = 0;
        while k < other.fields.len()
            invariant
                k <= other.fields@.len(),
                om == other@,
                om.fields == other.fields@.map_values(|f: Field| field_pair(f)),
                self@ == with_fields(old(self)@, om.fields.take(k as int)),
                self@.groups == old(self)@.groups,
                self.wf(),
            decreases other.fields@.len() - k,
        {
            proof {
                assert(om.fields.take(k + 1).drop_last() =~= om.fields.take(k as int));
            }
            self.set_field(other.fields[k].tag, other.fields[k].value.clone());
            k += 1;
        }
        assert(om.fields.take(k as int) =~= om.fields);
        let ghost mid = self@;
        assert(forall|t: u32| mid.groups_of(t) == old(self)@.groups_of(t));
        assert(om.groups.take(0) =~= Seq::<(u32, Seq<GroupModel>)>::empty());
        let mut e: usize = 0;
        while e < other.groups.len()
            invariant
                e <= other.groups@.len(),
                om == other@,
                om.wf(),
                om.groups == groups_model(other.groups@),
                mid.groups == old(self)@.groups,
                self@ == with_groups(mid, all_groups(om.groups.take(e as int))),
                self.wf(),
                forall|t: u32|
                    #[trigger] self@.groups_of(t).len() == mid.groups_of(t).len() + groups_for_tag(
                        all_groups(om.groups.take(e as int)),
                        t,
                    ),
                forall|t: u32| #[trigger] mid.groups_of(t).len() + groups_for_tag(all_groups(om.groups), t) < u32::MAX,
            decreases other.groups@.len() - e,
        {
            let gs = &other.groups[e].1;
            let ghost done = all_groups(om.groups.take(e as int));
            proof {
                assert(om.groups.take(e + 1).drop_last() =~= om.groups.take(e as int));
                assert(all_groups(om.groups.take(e + 1)) == done + group_models(gs@));
                assert(group_models(gs@).take(0) =~= Seq::<GroupModel>::empty());
                assert(done + group_models(gs@).take(0) =~= done);
            }
            let mut i: usize = 0;
            while i < gs.len()
                invariant
                    i <= gs@.len(),
                    e < other.groups@.len(),
                    gs == other.groups@[e as int].1,
                    om.wf(),
                    om.groups == groups_model(other.groups@),
                    done == all_groups(om.groups.take(e as int)),
                    all_groups(om.groups.take(e + 1)) == done + group_models(gs@),
                    self@ == with_groups(mid, done + group_models(gs@).take(i as int)),
                    self.wf(),
                    forall|t: u32|
                        #[trigger] self@.groups_of(t).len() == mid.groups_of(t).len() + groups_for_tag(
                            done + group_models(gs@).take(i as int),
                            t,
                        ),
                    forall|t: u32| #[trigger] mid.groups_of(t).len() + groups_for_tag(all_groups(om.groups), t) < u32::MAX,
                decreases gs@.len() - i,
            {
                let g = gs[i].clone();
                proof {
                    assert(om.groups[e as int].1[i as int] == gs@[i as int]@);
                    assert(g@.map.wf());
                    let before = self@;
                    let fid = g@.field_id;
                    let pre = done + group_models(gs@).take(i as int);
                    let next = done + group_models(gs@).take(i + 1);
                    assert(next.drop_last() =~= pre);
                    assert(next.last() == g@);
                    let whole = done + group_models(gs@);
                    assert(next =~= whole.take(done.len() + i + 1));
                    lemma_groups_for_tag_take(whole, done.len() + i + 1, fid);
                    lemma_all_groups_for_tag_prefix(om.groups, e + 1, fid);
                    assert(before.groups_of(fid).len() == mid.groups_of(fid).len() + groups_for_tag(pre, fid));
                    assert(mid.groups_of(fid).len() + groups_for_tag(all_groups(om.groups), fid) < u32::MAX);
                    assert forall|t: u32|
                        #[trigger] before.with_group(g@).groups_of(t).len() == mid.groups_of(t).len() + groups_for_tag(
                            next,
                            t,
                        ) by {
                        lemma_with_group_groups_of(before, g@, t);
                    }
                }
                self.add_group(g);
                i += 1;
            }
            proof {
                assert(group_models(gs@).take(i as int) =~= group_models(gs@));
            }
            e += 1;
        }
        assert(om.groups.take(e as int) =~= om.groups);
    }
}

impl Default for FieldMap {
    fn default() -> (r: Self)
        ensures
            r@.fields.len() == 0,
            r@.groups.len() == 0,
            r@.order == normal_order(),
            r@.wf(),
    {
        FieldMap::new()
    }
}

/// The sum of the first `k` bytes, one byte at a time, stays within the whole sum.
proof fn lemma_byte_sum_prefix(b: Seq<u8>, k: int)
    requires
        0 <= k <= b.len(),
    ensures
        byte_sum(b.take(k)) <= byte_sum(b),
    decreases b.len() - k,
{
    if k < b.len() {
        lemma_byte_sum_prefix(b, k + 1);
        assert(b.take(k + 1).drop_last() =~= b.take(k));
    } else {
        assert(b.take(k) =~= b);
    }
}

// ---------------------------------------------------------------------------
// Laws
// ---------------------------------------------------------------------------

/// Setting a field and reading it back gives the value set; every other tag
/// keeps its value, and the groups stay.
pub proof fn set_then_get(m: FieldMapModel, tag: u32, v: Seq<char>, t: u32)
    ensures
        m.with_field(tag, v).value(tag) == Some(v),
        t != tag ==> m.with_field(tag, v).value(t) == m.value(t),
        m.with_field(tag, v).groups == m.groups,
{
    lemma_without_tag(m.fields, tag);
    lemma_value_of_push(without_tag(m.fields, tag), (tag, v), tag);
    lemma_value_of_push(without_tag(m.fields, tag), (tag, v), t);
}

/// Setting a field twice keeps one field of that tag, with the second value.
pub proof fn set_twice_keeps_one(m: FieldMapModel, tag: u32, v: Seq<char>, w: Seq<char>)
    ensures
        m.with_field(tag, v).with_field(tag, w).value(tag) == Some(w),
        m.with_field(tag, v).with_field(tag, w).fields.len() == m.with_field(tag, w).fields.len(),
{
    set_then_get(m.with_field(tag, v), tag, w, tag);
    lemma_without_tag(m.fields, tag);
    lemma_without_tag_absent(without_tag(m.fields, tag), tag);
    assert(without_tag(m.fields, tag).push((tag, v)).drop_last() == without_tag(m.fields, tag));
}

/// Dropping a tag that no field has changes nothing.
proof fn lemma_without_tag_absent(s: Seq<(u32, Seq<char>)>, tag: u32)
    requires
        !has_tag(s, tag),
    ensures
        without_tag(s, tag) == s,
    decreases s.len(),
{
    if s.len() > 0 {
        assert(!has_tag(s.drop_last(), tag)) by {
            if has_tag(s.drop_last(), tag) {
                let i = choose|i: int| 0 <= i < s.drop_last().len() && s.drop_last()[i].0 == tag;
                assert(s[i].0 == tag);
            }
        }
        lemma_without_tag_absent(s.drop_last(), tag);
        assert(s.last().0 != tag);
        assert(s.drop_last().push(s.last()) =~= s);
    }
}

/// An integer set into a field reads back as itself.
pub proof fn int_reads_back(m: FieldMapModel, tag: u32, n: u32)
    ensures
        m.with_field(tag, decimal_digits(n as nat)).value(tag) == Some(decimal_digits(n as nat)),
        parse_unsigned(encode_utf8(decimal_digits(n as nat)), u32::MAX as nat) == Some(n as nat),
{
    set_then_get(m, tag, decimal_digits(n as nat), tag);
    decimal_reads_back(n as nat, u32::MAX as nat);
}

/// A truth value set into a field (`Y` or `N`) reads back as itself: the text is
/// ASCII, and in upper case it stands for the value.
pub proof fn bool_reads_back(m: FieldMapModel, tag: u32, b: bool)
    ensures
        m.with_field(tag, if b { "Y"@ } else { "N"@ }).value(tag) == Some(if b { "Y"@ } else { "N"@ }),
        all_ascii(if b { "Y"@ } else { "N"@ }),
        bool_text(ascii_upper(if b { "Y"@ } else { "N"@ })) == Some(b),
{
    reveal_strlit("Y");
    reveal_strlit("N");
    reveal_strlit("YES");
    reveal_strlit("TRUE");
    reveal_strlit("NO");
    reveal_strlit("FALSE");
    set_then_get(m, tag, if b { "Y"@ } else { "N"@ }, tag);
    assert(ascii_upper("Y"@) =~= "Y"@);
    assert(ascii_upper("N"@) =~= "N"@);
    assert("N"@[0] != "Y"@[0]);
    assert("N"@.len() != "YES"@.len() && "N"@.len() != "TRUE"@.len());
    assert("N"@ != "Y"@);
}

/// A character set into a field reads back as its first character.
pub proof fn char_reads_back(m: FieldMapModel, tag: u32, c: char)
    ensures
        m.with_field(tag, seq![c]).value(tag) == Some(seq![c]),
        seq![c].len() > 0 && seq![c][0] == c,
{
    set_then_get(m, tag, seq![c], tag);
}

/// Adding a group adds it to the groups of its tag, sets the field of that tag
/// to their number, and leaves the groups of every other tag alone.
pub proof fn add_group_counts(m: FieldMapModel, g: GroupModel, t: u32)
    requires
        m.wf(),
    ensures
        m.with_group(g).groups_of(g.field_id) == m.groups_of(g.field_id).push(g),
        m.with_group(g).value(g.field_id) == Some(decimal_digits(m.groups_of(g.field_id).len() + 1)),
        t != g.field_id ==> m.with_group(g).groups_of(t) == m.groups_of(t),
        t != g.field_id ==> m.with_group(g).value(t) == m.value(t),
{
    lemma_with_group_groups_of(m, g, g.field_id);
    lemma_with_group_groups_of(m, g, t);
    let tag = g.field_id;
    let gs = m.groups_of(tag).push(g);
    let groups = if has_key(m.groups, tag) {
        m.groups.update(key_index(m.groups, tag), (tag, gs))
    } else {
        m.groups.push((tag, gs))
    };
    let mid = FieldMapModel { groups, ..m };
    set_then_get(mid, tag, decimal_digits(gs.len()), tag);
    set_then_get(mid, tag, decimal_digits(gs.len()), t);
}

/// The bytes of a character other than SOH hold no SOH byte.
proof fn lemma_scalar_no_soh(c: char)
    requires
        c != SOH,
    ensures
        forall|i: int|
            0 <= i < vstd::utf8::encode_scalar(c as u32).len() ==> #[trigger] vstd::utf8::encode_scalar(
                c as u32,
            )[i] != 1,
{
    let v = c as u32;
    assert(v != 1);
    assert(v <= 0x7f && v != 1 ==> (v & 0x7f) as u8 != 1u8) by (bit_vector);
    assert(((0xC0u32 as u8) | ((v >> 6) & 0x1F) as u8) != 1u8) by (bit_vector);
    assert(((0xE0u32 as u8) | ((v >> 12) & 0x0F) as u8) != 1u8) by (bit_vector);
    assert(((0xF0u32 as u8) | ((v >> 18) & 0x7) as u8) != 1u8) by (bit_vector);
    assert(((0x80u32 as u8) | (v & 0x3F) as u8) != 1u8) by (bit_vector);
    assert(((0x80u32 as u8) | ((v >> 6) & 0x3F) as u8) != 1u8) by (bit_vector);
    assert(((0x80u32 as u8) | ((v >> 12) & 0x3F) as u8) != 1u8) by (bit_vector);
}

/// The bytes of a text without SOH hold no SOH byte.
proof fn lemma_encode_no_soh(v: Seq<char>)
    requires
        !v.contains(SOH),
    ensures
        forall|i: int| 0 <= i < encode_utf8(v).len() ==> #[trigger] encode_utf8(v)[i] != 1,
    decreases v.len(),
{
    if v.len() > 0 {
        assert(v[0] != SOH);
        lemma_scalar_no_soh(v[0]);
        assert(!v.drop_first().contains(SOH)) by {
            if v.drop_first().contains(SOH) {
                let i = choose|i: int| 0 <= i < v.drop_first().len() && v.drop_first()[i] == SOH;
                assert(v[i + 1] == SOH);
            }
        }
        lemma_encode_no_soh(v.drop_first());
        let h = vstd::utf8::encode_scalar(v[0] as u32);
        let t = encode_utf8(v.drop_first());
        assert forall|i: int| 0 <= i < encode_utf8(v).len() implies #[trigger] encode_utf8(v)[i] != 1 by {
            if i < h.len() {
                assert(encode_utf8(v)[i] == h[i]);
            } else {
                assert(encode_utf8(v)[i] == t[i - h.len()]);
            }
        }
    }
}

/// Where a byte is first found.
proof fn lemma_byte_position_at(b: Seq<u8>, x: u8, i: int)
    requires
        0 <= i < b.len(),
        b[i] == x,
        forall|j: int| 0 <= j < i ==> b[j] != x,
    ensures
        byte_position(b, x) == Some(i),
{
    lemma_byte_position(b, x);
    let c = byte_position(b, x)->0;
    if c < i {
        assert(b[c] != x);
    }
    if i < c {
        assert(b[i] != x);
    }
}

/// A field reads back from its FIX text, whatever follows the text, where its
/// value holds no SOH.
pub proof fn field_reads_back_before(f: (u32, Seq<char>), rest: Seq<u8>)
    requires
        !f.1.contains(SOH),
    ensures
        field_in(field_bytes(f) + rest) == Ok::<((u32, Seq<char>), int), NativeErrorView>(
            (f, field_bytes(f).len() as int),
        ),
{
    let d = decimal_digits(f.0 as nat);
    let db = encode_utf8(d);
    let vb = encode_utf8(f.1);
    let eq_b = encode_utf8(seq!['=']);
    let soh_b = encode_utf8(seq![SOH]);
    lemma_encode_concat(d, seq!['=']);
    lemma_encode_concat(d + seq!['='], f.1);
    lemma_encode_concat(d + seq!['='] + f.1, seq![SOH]);
    vstd::utf8::is_ascii_chars_encode_utf8(seq!['=']);
    vstd::utf8::is_ascii_chars_encode_utf8(seq![SOH]);
    assert(eq_b =~= seq![61u8]);
    assert(soh_b =~= seq![1u8]);
    assert(field_bytes(f) =~= db + seq![61u8] + vb + seq![1u8]);
    let b = field_bytes(f) + rest;
    assert(b =~= db + seq![61u8] + vb + seq![1u8] + rest);
    lemma_decimal_bytes(f.0 as nat);
    // the first `=` closes the tag
    assert forall|j: int| 0 <= j < db.len() implies b[j] != 61 by {
        assert(b[j] == db[j]);
    }
    lemma_byte_position_at(b, 61, db.len() as int);
    assert(b.take(db.len() as int) =~= db);
    decimal_reads_back(f.0 as nat, u32::MAX as nat);
    assert(tag_in(b) == Ok::<(u32, int), NativeErrorView>((f.0, db.len() as int))) by {
        reveal(tag_in);
    }
    // the first SOH after it closes the value
    let after = b.skip(db.len() as int + 1);
    assert(after =~= vb + seq![1u8] + rest);
    lemma_encode_no_soh(f.1);
    assert forall|j: int| 0 <= j < vb.len() implies after[j] != 1 by {
        assert(after[j] == vb[j]);
    }
    lemma_byte_position_at(after, 1, vb.len() as int);
    assert(b.subrange(db.len() as int + 1, db.len() as int + 1 + vb.len() as int) =~= vb);
    vstd::utf8::encode_utf8_decode_utf8(f.1);
}

/// A field reads back from its FIX text, where its value holds no SOH.
pub proof fn field_reads_back(f: (u32, Seq<char>))
    requires
        !f.1.contains(SOH),
    ensures
        field_in(field_bytes(f)) == Ok::<((u32, Seq<char>), int), NativeErrorView>(
            (f, field_bytes(f).len() as int),
        ),
{
    field_reads_back_before(f, Seq::empty());
    assert(field_bytes(f) + Seq::<u8>::empty() =~= field_bytes(f));
}

/// A field written after any bytes reads back from the position where its text
/// starts, whatever follows it, where its value holds no SOH.
pub proof fn field_reads_back_after(p: Seq<u8>, f: (u32, Seq<char>), rest: Seq<u8>)
    requires
        !f.1.contains(SOH),
    ensures
        field_at(p + field_bytes(f) + rest, p.len() as int) == Ok::<((u32, Seq<char>), int), NativeErrorView>(
            (f, (p.len() + field_bytes(f).len()) as int),
        ),
{
    let b = p + field_bytes(f) + rest;
    assert(b.subrange(p.len() as int, b.len() as int) =~= field_bytes(f) + rest);
    field_reads_back_before(f, rest);
}

proof fn lemma_fields_text_step(m: FieldMapModel, i: int)
    requires
        m.groups.len() == 0,
        0 <= i < m.fields.len(),
    ensures
        encode_utf8(fields_text(m, i + 1)) == encode_utf8(fields_text(m, i)) + field_bytes(m.fields[i]),
{
    assert(!has_key(m.groups, m.fields[i].0));
    assert(fields_text(m, i + 1) =~= fields_text(m, i) + field_text(m.fields[i]));
    lemma_encode_concat(fields_text(m, i), field_text(m.fields[i]));
}

proof fn lemma_fields_text_prefix(m: FieldMapModel, i: int, j: int)
    requires
        m.groups.len() == 0,
        0 <= i <= j <= m.fields.len(),
    ensures
        encode_utf8(fields_text(m, i)).len() <= encode_utf8(fields_text(m, j)).len(),
        encode_utf8(fields_text(m, j)).take(encode_utf8(fields_text(m, i)).len() as int) == encode_utf8(
            fields_text(m, i),
        ),
    decreases j - i,
{
    if i < j {
        lemma_fields_text_prefix(m, i, j - 1);
        lemma_fields_text_step(m, j - 1);
        let a = encode_utf8(fields_text(m, i));
        let c = encode_utf8(fields_text(m, j - 1));
        assert((c + field_bytes(m.fields[j - 1])).take(a.len() as int) =~= c.take(a.len() as int));
    } else {
        let a = encode_utf8(fields_text(m, i));
        assert(a.take(a.len() as int) =~= a);
    }
}

proof fn lemma_fields_from_at(m: FieldMapModel, i: int)
    requires
        m.groups.len() == 0,
        0 <= i <= m.fields.len(),
        forall|k: int| 0 <= k < m.fields.len() ==> !(#[trigger] m.fields[k]).1.contains(SOH),
    ensures
        fields_from(encode_utf8(map_text(m)), encode_utf8(fields_text(m, i)).len() as int) == Ok::<
            Seq<(u32, Seq<char>)>,
            (Seq<(u32, Seq<char>)>, NativeErrorView),
        >(m.fields.skip(i)),
    decreases m.fields.len() - i,
{
    let n = m.fields.len() as int;
    let t = encode_utf8(map_text(m));
    let p = encode_utf8(fields_text(m, i)).len() as int;
    lemma_fields_text_prefix(m, i, n);
    if i == n {
        assert(m.fields.skip(i) =~= Seq::<(u32, Seq<char>)>::empty());
    } else {
        lemma_fields_from_at(m, i + 1);
        lemma_fields_text_step(m, i);
        lemma_fields_text_prefix(m, i + 1, n);
        let f = m.fields[i];
        let q = encode_utf8(fields_text(m, i + 1)).len() as int;
        let a = encode_utf8(fields_text(m, i));
        assert(q == p + field_bytes(f).len());
        assert(t.take(q) == a + field_bytes(f));
        assert(t.subrange(p, t.len() as int) =~= field_bytes(f) + t.subrange(q, t.len() as int)) by {
            assert forall|k: int| 0 <= k < t.len() - p implies #[trigger] t.subrange(p, t.len() as int)[k] == (
            field_bytes(f) + t.subrange(q, t.len() as int))[k] by {
                if k < field_bytes(f).len() {
                    assert(t.take(q)[p + k] == (a + field_bytes(f))[p + k]);
                }
            }
        }
        field_reads_back_before(f, t.subrange(q, t.len() as int));
        assert(field_bytes(f).len() > 0) by {
            lemma_encode_concat(decimal_digits(f.0 as nat) + seq!['='] + f.1, seq![SOH]);
        }
        assert(seq![f] + m.fields.skip(i + 1) =~= m.fields.skip(i));
    }
}

/// The fields of a map without groups read back from its FIX text, in order,
/// where no value holds a SOH.
pub proof fn fields_read_back(m: FieldMapModel)
    requires
        m.groups.len() == 0,
        forall|k: int| 0 <= k < m.fields.len() ==> !(#[trigger] m.fields[k]).1.contains(SOH),
    ensures
        fields_from(encode_utf8(map_text(m)), 0) == Ok::<
            Seq<(u32, Seq<char>)>,
            (Seq<(u32, Seq<char>)>, NativeErrorView),
        >(m.fields),
{
    lemma_fields_from_at(m, 0);
    assert(encode_utf8(fields_text(m, 0)) =~= Seq::<u8>::empty());
    assert(m.fields.skip(0) =~= m.fields);
}

/// How many of the first `n` fields carry a tag.
pub open spec fn tag_count(f: Seq<(u32, Seq<char>)>, tag: u32, n: int) -> nat
    decreases n,
{
    if n <= 0 || n > f.len() {
        0
    } else {
        tag_count(f, tag, n - 1) + if f[n - 1].0 == tag {
            1nat
        } else {
            0nat
        }
    }
}

/// Each entry of groups follows exactly one field of its tag, here and in every
/// group inside: the text of the map then holds each group once.
pub open spec fn groups_counted(m: FieldMapModel) -> bool
    decreases m,
{
    &&& forall|e: int|
        0 <= e < m.groups.len() ==> tag_count(m.fields, #[trigger] m.groups[e].0, m.fields.len() as int) == 1
    &&& forall|e: int, i: int|
        0 <= e < m.groups.len() && 0 <= i < m.groups[e].1.len() ==> groups_counted(
            (#[trigger] m.groups[e].1[i]).map,
        )
}

/// The weight of the entry each of the first `n` fields is followed by.
pub open spec fn weight_by_fields(m: FieldMapModel, w: spec_fn(int) -> nat, n: int) -> nat
    decreases n,
{
    if n <= 0 || n > m.fields.len() {
        0
    } else {
        weight_by_fields(m, w, n - 1) + if has_key(m.groups, m.fields[n - 1].0) {
            w(key_index(m.groups, m.fields[n - 1].0))
        } else {
            0
        }
    }
}

/// The weight of the first `k` entries whose tag is among the first `n` fields.
pub open spec fn weight_by_entries(m: FieldMapModel, w: spec_fn(int) -> nat, n: int, k: int) -> nat
    decreases k,
{
    if k <= 0 || k > m.groups.len() {
        0
    } else {
        weight_by_entries(m, w, n, k - 1) + if tag_count(m.fields, m.groups[k - 1].0, n) > 0 {
            w(k - 1)
        } else {
            0
        }
    }
}

/// The weight of the first `k` entries.
pub open spec fn weight_total(m: FieldMapModel, w: spec_fn(int) -> nat, k: int) -> nat
    decreases k,
{
    if k <= 0 || k > m.groups.len() {
        0
    } else {
        weight_total(m, w, k - 1) + w(k - 1)
    }
}

proof fn lemma_tag_count_step(f: Seq<(u32, Seq<char>)>, tag: u32, n: int, total: int)
    requires
        0 <= n < total <= f.len(),
        f[n].0 == tag,
    ensures
        tag_count(f, tag, total) >= tag_count(f, tag, n) + 1,
    decreases total - n,
{
    if total > n + 1 {
        lemma_tag_count_step(f, tag, n, total - 1);
    }
}

proof fn lemma_entries_step(m: FieldMapModel, w: spec_fn(int) -> nat, n: int, k: int)
    requires
        keys_distinct(m.groups),
        0 <= n < m.fields.len(),
        0 <= k <= m.groups.len(),
    ensures
        weight_by_entries(m, w, n + 1, k) == weight_by_entries(m, w, n, k) + if has_key(
            m.groups,
            m.fields[n].0,
        ) && key_index(m.groups, m.fields[n].0) < k && tag_count(m.fields, m.fields[n].0, n) == 0 {
            w(key_index(m.groups, m.fields[n].0))
        } else {
            0
        },
    decreases k,
{
    if k > 0 {
        lemma_entries_step(m, w, n, k - 1);
        lemma_key_index(m.groups, k - 1);
        if m.groups[k - 1].0 == m.fields[n].0 {
            assert(has_key(m.groups, m.fields[n].0));
        } else if has_key(m.groups, m.fields[n].0) {
            let j = key_index(m.groups, m.fields[n].0);
            assert(j != k - 1);
        }
    }
}

proof fn lemma_fields_entries(m: FieldMapModel, w: spec_fn(int) -> nat, n: int)
    requires
        m.wf(),
        groups_counted(m),
        0 <= n <= m.fields.len(),
    ensures
        weight_by_fields(m, w, n) == weight_by_entries(m, w, n, m.groups.len() as int),
    decreases n,
{
    if n == 0 {
        lemma_entries_none(m, w, m.groups.len() as int);
    } else {
        lemma_fields_entries(m, w, n - 1);
        lemma_entries_step(m, w, n - 1, m.groups.len() as int);
        let t = m.fields[n - 1].0;
        if has_key(m.groups, t) {
            let e = key_index(m.groups, t);
            assert(0 <= e < m.groups.len() && m.groups[e].0 == t);
            assert(tag_count(m.fields, m.groups[e].0, m.fields.len() as int) == 1);
            if tag_count(m.fields, t, n - 1) > 0 {
                lemma_tag_count_step(m.fields, t, n - 1, m.fields.len() as int);
            }
        }
    }
}

proof fn lemma_entries_none(m: FieldMapModel, w: spec_fn(int) -> nat, k: int)
    requires
        0 <= k <= m.groups.len(),
    ensures
        weight_by_entries(m, w, 0, k) == 0,
    decreases k,
{
    if k > 0 {
        lemma_entries_none(m, w, k - 1);
    }
}

proof fn lemma_entries_all(m: FieldMapModel, w: spec_fn(int) -> nat, k: int)
    requires
        groups_counted(m),
        0 <= k <= m.groups.len(),
    ensures
        weight_by_entries(m, w, m.fields.len() as int, k) == weight_total(m, w, k),
    decreases k,
{
    if k > 0 {
        lemma_entries_all(m, w, k - 1);
        assert(tag_count(m.fields, m.groups[k - 1].0, m.fields.len() as int) == 1);
    }
}

/// The byte length and the byte sum of the groups of an entry, as weights.
pub open spec fn entry_length_weight(m: FieldMapModel) -> spec_fn(int) -> nat {
    |e: int| if 0 <= e < m.groups.len() { entry_length(m, e, m.groups[e].1.len() as int) } else { 0 }
}

/// The byte sum of the groups of an entry, as a weight.
pub open spec fn entry_checksum_weight(m: FieldMapModel) -> spec_fn(int) -> nat {
    |e: int| if 0 <= e < m.groups.len() { entry_checksum(m, e, m.groups[e].1.len() as int) } else { 0 }
}

proof fn lemma_totals(m: FieldMapModel, k: int)
    requires
        0 <= k <= m.groups.len(),
    ensures
        weight_total(m, entry_length_weight(m), k) == entries_length(m, k),
        weight_total(m, entry_checksum_weight(m), k) == entries_checksum(m, k),
    decreases k,
{
    if k > 0 {
        lemma_totals(m, k - 1);
    }
}

/// The byte length and the byte sum of a map are those of its FIX text, where
/// each entry of groups follows exactly one field of its tag, at every depth
/// (as adding groups makes it): the text then holds every group once.
pub proof fn length_is_text_length(m: FieldMapModel)
    requires
        m.wf(),
        groups_counted(m),
    ensures
        map_length(m) == encode_utf8(map_text(m)).len(),
        map_checksum(m) == byte_sum(encode_utf8(map_text(m))),
    decreases m, 2int, 0int,
{
    let n = m.fields.len() as int;
    lemma_fields_text_bytes(m, n);
    lemma_fields_entries(m, entry_length_weight(m), n);
    lemma_fields_entries(m, entry_checksum_weight(m), n);
    lemma_entries_all(m, entry_length_weight(m), m.groups.len() as int);
    lemma_entries_all(m, entry_checksum_weight(m), m.groups.len() as int);
    lemma_totals(m, m.groups.len() as int);
}

proof fn lemma_fields_text_bytes(m: FieldMapModel, n: int)
    requires
        m.wf(),
        groups_counted(m),
        0 <= n <= m.fields.len(),
    ensures
        encode_utf8(fields_text(m, n)).len() == fields_length(m.fields, n) + weight_by_fields(
            m,
            entry_length_weight(m),
            n,
        ),
        byte_sum(encode_utf8(fields_text(m, n))) == fields_checksum(m.fields, n) + weight_by_fields(
            m,
            entry_checksum_weight(m),
            n,
        ),
    decreases m, 1int, n,
{
    if n > 0 {
        lemma_fields_text_bytes(m, n - 1);
        let f = m.fields[n - 1];
        let e = key_index(m.groups, f.0);
        let g = if 0 <= e < m.groups.len() {
            entry_text(m, e, m.groups[e].1.len() as int)
        } else {
            Seq::<char>::empty()
        };
        assert(fields_text(m, n) == fields_text(m, n - 1) + field_text(f) + g);
        lemma_encode_concat(fields_text(m, n - 1), field_text(f));
        lemma_encode_concat(fields_text(m, n - 1) + field_text(f), g);
        lemma_byte_sum_concat(encode_utf8(fields_text(m, n - 1)), field_bytes(f));
        lemma_byte_sum_concat(encode_utf8(fields_text(m, n - 1) + field_text(f)), encode_utf8(g));
        if 0 <= e < m.groups.len() {
            lemma_entry_text_bytes(m, e, m.groups[e].1.len() as int);
            assert(has_key(m.groups, f.0));
        } else {
            assert(encode_utf8(Seq::<char>::empty()) =~= Seq::<u8>::empty());
            if has_key(m.groups, f.0) {
                let j = choose|j: int| 0 <= j < m.groups.len() && m.groups[j].0 == f.0;
                assert(0 <= e < m.groups.len());
            }
        }
    } else {
        assert(encode_utf8(Seq::<char>::empty()) =~= Seq::<u8>::empty());
    }
}

proof fn lemma_entry_text_bytes(m: FieldMapModel, e: int, n: int)
    requires
        m.wf(),
        groups_counted(m),
        0 <= e < m.groups.len(),
        0 <= n <= m.groups[e].1.len(),
    ensures
        encode_utf8(entry_text(m, e, n)).len() == entry_length(m, e, n),
        byte_sum(encode_utf8(entry_text(m, e, n))) == entry_checksum(m, e, n),
    decreases m, 0int, n,
{
    if n > 0 {
        lemma_entry_text_bytes(m, e, n - 1);
        let sub = m.groups[e].1[n - 1].map;
        assert(sub.wf());
        assert(groups_counted(sub));
        length_is_text_length(sub);
        lemma_encode_concat(entry_text(m, e, n - 1), map_text(sub));
        lemma_byte_sum_concat(encode_utf8(entry_text(m, e, n - 1)), encode_utf8(map_text(sub)));
    } else {
        assert(encode_utf8(Seq::<char>::empty()) =~= Seq::<u8>::empty());
    }
}

proof fn lemma_tag_count_prefix(s: Seq<(u32, Seq<char>)>, f: (u32, Seq<char>), t: u32, n: int)
    requires
        0 <= n <= s.len(),
    ensures
        tag_count(s.push(f), t, n) == tag_count(s, t, n),
    decreases n,
{
    if n > 0 {
        lemma_tag_count_prefix(s, f, t, n - 1);
    }
}

proof fn lemma_tag_count_push(s: Seq<(u32, Seq<char>)>, f: (u32, Seq<char>), t: u32, n: int)
    requires
        n == s.len(),
    ensures
        tag_count(s.push(f), t, s.len() + 1int) == tag_count(s, t, s.len() as int) + if f.0 == t {
            1nat
        } else {
            0nat
        },
{
    lemma_tag_count_prefix(s, f, t, n);
}

proof fn lemma_tag_count_without(s: Seq<(u32, Seq<char>)>, tag: u32, t: u32)
    ensures
        tag_count(without_tag(s, tag), t, without_tag(s, tag).len() as int) == if t == tag {
            0nat
        } else {
            tag_count(s, t, s.len() as int)
        },
    decreases s.len(),
{
    if s.len() > 0 {
        let p = s.drop_last();
        lemma_tag_count_without(p, tag, t);
        lemma_tag_count_push(p, s.last(), t, p.len() as int);
        assert(p.push(s.last()) == s);
        let r = without_tag(p, tag);
        if s.last().0 != tag {
            lemma_tag_count_push(r, s.last(), t, r.len() as int);
        }
    }
}

proof fn lemma_tag_count_with_field(m: FieldMapModel, tag: u32, value: Seq<char>, t: u32)
    ensures
        tag_count(m.with_field(tag, value).fields, t, m.with_field(tag, value).fields.len() as int) == if t
            == tag {
            1nat
        } else {
            tag_count(m.fields, t, m.fields.len() as int)
        },
{
    let r = without_tag(m.fields, tag);
    lemma_tag_count_without(m.fields, tag, t);
    lemma_tag_count_push(r, (tag, value), t, r.len() as int);
}

/// Setting a field keeps every entry of groups after exactly one field of its
/// tag.
pub proof fn setting_keeps_groups_counted(m: FieldMapModel, tag: u32, value: Seq<char>)
    requires
        groups_counted(m),
    ensures
        groups_counted(m.with_field(tag, value)),
{
    let m2 = m.with_field(tag, value);
    assert forall|e: int| 0 <= e < m2.groups.len() implies tag_count(
        m2.fields,
        #[trigger] m2.groups[e].0,
        m2.fields.len() as int,
    ) == 1 by {
        lemma_tag_count_with_field(m, tag, value, m2.groups[e].0);
    }
    assert forall|e: int, i: int| 0 <= e < m2.groups.len() && 0 <= i < m2.groups[e].1.len() implies groups_counted(
        (#[trigger] m2.groups[e].1[i]).map,
    ) by {
        assert(m2.groups[e].1[i] == m.groups[e].1[i]);
    }
}

/// Adding a group keeps every entry of groups after exactly one field of its
/// tag, the group's own map being so.
pub proof fn adding_group_keeps_groups_counted(m: FieldMapModel, g: GroupModel)
    requires
        m.wf(),
        groups_counted(m),
        groups_counted(g.map),
    ensures
        groups_counted(m.with_group(g)),
{
    let tag = g.field_id;
    let gs = m.groups_of(tag).push(g);
    let groups = if has_key(m.groups, tag) {
        m.groups.update(key_index(m.groups, tag), (tag, gs))
    } else {
        m.groups.push((tag, gs))
    };
    let m1 = FieldMapModel { groups, ..m };
    let m2 = m.with_group(g);
    assert(m2 == m1.with_field(tag, decimal_digits(gs.len())));
    if has_key(m.groups, tag) {
        let k = key_index(m.groups, tag);
        assert(0 <= k < m.groups.len() && m.groups[k].0 == tag);
    }
    assert forall|e: int| 0 <= e < m2.groups.len() implies tag_count(
        m2.fields,
        #[trigger] m2.groups[e].0,
        m2.fields.len() as int,
    ) == 1 by {
        lemma_tag_count_with_field(m1, tag, decimal_digits(gs.len()), m2.groups[e].0);
        if m2.groups[e].0 != tag {
            assert(e < m.groups.len());
            assert(m2.groups[e] == m.groups[e]);
        }
    }
    assert forall|e: int, i: int| 0 <= e < m2.groups.len() && 0 <= i < m2.groups[e].1.len() implies groups_counted(
        (#[trigger] m2.groups[e].1[i]).map,
    ) by {
        if m2.groups[e].0 == tag {
            if i < m2.groups[e].1.len() - 1 {
                if has_key(m.groups, tag) {
                    let k = key_index(m.groups, tag);
                    lemma_key_index(m.groups, k);
                    if e != k {
                        assert(m.groups[e].0 == tag);
                    }
                    assert(m2.groups[e].1[i] == m.groups[k].1[i]);
                } else {
                    assert(e == m.groups.len());
                }
            } else {
                assert(m2.groups[e].1[i] == g);
            }
        } else {
            assert(e < m.groups.len());
            assert(m2.groups[e] == m.groups[e]);
        }
    }
}

} // verus!
