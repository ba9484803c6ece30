//! Named key/value settings, read back as text, integers, truth values and days.
//!
//! Keys and values are stored trimmed and in upper case; lookups trim the key and
//! put it in upper case first.

use vstd::prelude::*;
use vstd::string::StringSliceAdditionalSpecFns;
use vstd::utf8::{decode_utf8, encode_utf8, is_char_boundary};
use crate::assoc::{
    assoc_map, find_text_key, has_key, keys_distinct, lemma_assoc_at, lemma_assoc_len,
    lemma_assoc_push, lemma_assoc_update,
};
use crate::errors::{NativeError, NativeErrorView, Result};
use crate::text::{
    all_ascii, ascii_upper, ascii_upper_char, i32_to_decimal, int_decimal, lowercase, parse_i32, parse_signed, push_str, text_eq, to_lowercase,
    to_uppercase, trim, trim_string, uppercase,
};

verus! {

/// Named settings.
#[derive(Debug)]
pub struct Dictionary {
    name: String,
    data: Vec<(String, String)>,
}

/// What a dictionary holds: its name and its settings.
pub struct DictionaryModel {
    pub name: Seq<char>,
    pub data: Map<Seq<char>, Seq<char>>,
}

/// The texts of a list of string pairs.
pub open spec fn text_pairs(s: Seq<(String, String)>) -> Seq<(Seq<char>, Seq<char>)> {
    s.map_values(|p: (String, String)| (p.0@, p.1@))
}

impl View for Dictionary {
    type V = DictionaryModel;

    closed spec fn view(&self) -> DictionaryModel {
        DictionaryModel { name: self.name@, data: assoc_map(text_pairs(self.data@)) }
    }
}

/// The form in which keys and values are stored: trimmed, in upper case.
pub open spec fn stored(s: Seq<char>) -> Seq<char> {
    uppercase(trim(s))
}

/// `{key} not defined`.
pub open spec fn undefined_error(key: Seq<char>) -> NativeErrorView {
    NativeErrorView::ConfigError(key + " not defined"@)
}

/// `Illegal value {value} for {key}`, with the given ending.
pub open spec fn illegal_error(value: Seq<char>, key: Seq<char>, end: Seq<char>) -> NativeErrorView {
    NativeErrorView::FieldConvertError("Illegal value "@ + value + " for "@ + key + end)
}

/// The truth value a text stands for once in upper case: `Y` or `N`.
pub open spec fn yes_no(up: Seq<char>) -> Option<bool> {
    if up == "Y"@ {
        Some(true)
    } else if up == "N"@ {
        Some(false)
    } else {
        None
    }
}

/// The day a two-letter abbreviation stands for, in lower case: Sunday is 1.
pub open spec fn day_number(two: Seq<char>) -> Option<i32> {
    if two == "su"@ {
        Some(1)
    } else if two == "mo"@ {
        Some(2)
    } else if two == "tu"@ {
        Some(3)
    } else if two == "we"@ {
        Some(4)
    } else if two == "th"@ {
        Some(5)
    } else if two == "fr"@ {
        Some(6)
    } else if two == "sa"@ {
        Some(7)
    } else {
        None
    }
}

/// The abbreviation stored for a day number, Sunday being 1.
pub open spec fn day_name(d: i32) -> Option<Seq<char>> {
    if d == 1 {
        Some("SU"@)
    } else if d == 2 {
        Some("MO"@)
    } else if d == 3 {
        Some("TU"@)
    } else if d == 4 {
        Some("WE"@)
    } else if d == 5 {
        Some("TH"@)
    } else if d == 6 {
        Some("FR"@)
    } else if d == 7 {
        Some("SA"@)
    } else {
        None
    }
}

/// Where a value's text may be cut after its second byte (or is shorter).
pub open spec fn day_text_ok(v: Seq<char>) -> bool {
    encode_utf8(v).len() >= 2 ==> is_char_boundary(encode_utf8(v), 2)
}

/// The day a value stands for: its first two bytes' text, in lower case, names
/// a day.
pub open spec fn day_result(v: Seq<char>, key: Seq<char>) -> std::result::Result<i32, NativeErrorView> {
    if encode_utf8(v).len() < 2 {
        Err(illegal_error(v, key, Seq::empty()))
    } else {
        match day_number(lowercase(decode_utf8(encode_utf8(v).take(2)))) {
            Some(d) => Ok(d),
            None => Err(illegal_error(v, key, Seq::empty())),
        }
    }
}

fn illegal(value: &str, key: &str, end: &str) -> (r: NativeError)
    ensures
        r@ == illegal_error(value@, key@, end@),
{
    let mut s = String::from_str("Illegal value ");
    push_str(&mut s, value);
    push_str(&mut s, " for ");
    push_str(&mut s, key);
    push_str(&mut s, end);
    NativeError::FieldConvertError(s)
}

impl Dictionary {
    /// No key is stored twice.
    #[verifier::type_invariant]
    spec fn wf(&self) -> bool {
        keys_distinct(text_pairs(self.data@))
    }

    /// An empty dictionary with this name.
    pub fn new(name: String) -> (r: Self)
        ensures
            r@.name == name@,
            r@.data == Map::<Seq<char>, Seq<char>>::empty(),
    {
        let r = Dictionary { name, data: Vec::new() };
        assert(r@.data =~= Map::<Seq<char>, Seq<char>>::empty());
        r
    }

    /// The name.
    pub fn get_name(&self) -> (r: &str)
        ensures
            r@ == self@.name,
    {
        self.name.as_str()
    }

    /// The number of settings.
    pub fn size(&self) -> (r: usize)
        ensures
            r == self@.data.len(),
    {
        proof {
            use_type_invariant(self);
        }
        proof {
            lemma_assoc_len(text_pairs(self.data@));
        }
        self.data.len()
    }

    fn find(&self, key: &str) -> (r: Option<usize>)
        ensures
            match r {
                Some(i) => i < self.data@.len() && self@.data.contains_key(key@) && self@.data[key@]
                    == self.data@[i as int].1@,
                None => !self@.data.contains_key(key@),
            },
    {
        proof {
            use_type_invariant(self);
        }
        let r = find_text_key(&self.data, key);
        proof {
            let t = text_pairs(self.data@);
            match r {
                Some(i) => {
                    assert(t[i as int].0 == key@);
                    lemma_assoc_at(t, i as int);
                },
                None => {
                    if has_key(t, key@) {
                        let j = choose|j: int| 0 <= j < t.len() && t[j].0 == key@;
                        assert(self.data@[j].0@ == key@);
                    }
                },
            }
        }
        r
    }

    /// Whether there is a setting under a key (trimmed, in upper case, as it is
    /// stored).
    pub fn has(&self, key: &str) -> (r: bool)
        ensures
            r == self@.data.contains_key(stored(key@)),
    {
        let t = trim_string(key);
        let normalized_key = to_uppercase(t.as_str());
        self.find(normalized_key.as_str()).is_some()
    }

    /// The setting under a key (trimmed, in upper case), in upper case where
    /// `capitalize` asks for it.
    pub fn get_string(&self, key: &str, capitalize: bool) -> (r: Result<String>)
        ensures
            self@.data.contains_key(stored(key@)) ==> (r matches Ok(v) && v@ == (if capitalize {
                uppercase(self@.data[stored(key@)])
            } else {
                self@.data[stored(key@)]
            })),
            self@.data.contains_key(stored(key@)) && capitalize && all_ascii(self@.data[stored(key@)]) ==> (r matches Ok(
                v,
            ) && v@ == ascii_upper(self@.data[stored(key@)])),
            !self@.data.contains_key(stored(key@)) ==> (r matches Err(e) && e@ == undefined_error(key@)),
    {
        let t = trim_string(key);
        let normalized_key = to_uppercase(t.as_str());
        match self.find(normalized_key.as_str()) {
            Some(i) => {
                let value = &self.data[i].1;
                if capitalize {
                    Ok(to_uppercase(value.as_str()))
                } else {
                    Ok(value.clone())
                }
            },
            None => {
                let mut s = String::from_str(key);
                push_str(&mut s, " not defined");
                Err(NativeError::ConfigError(s))
            },
        }
    }

    /// The setting under a key as a signed integer.
    pub fn get_int(&self, key: &str) -> (r: Result<i32>)
        ensures
            self@.data.contains_key(stored(key@)) ==> match parse_signed(
                encode_utf8(self@.data[stored(key@)]),
                i32::MIN as int,
                i32::MAX as nat,
            ) {
                Some(n) => r == Ok::<i32, NativeError>(n as i32),
                None => r matches Err(e) && e@ == illegal_error(self@.data[stored(key@)], key@, " "@),
            },
            !self@.data.contains_key(stored(key@)) ==> (r matches Err(e) && e@ == undefined_error(key@)),
    {
        let value = self.get_string(key, false)?;
        match parse_i32(value.as_str()) {
            Some(n) => Ok(n),
            None => Err(illegal(value.as_str(), key, " ")),
        }
    }

    /// The setting under a key as a truth value: `Y` (in any case) is true, `N`
    /// is false.
    pub fn get_bool(&self, key: &str) -> (r: Result<bool>)
        ensures
            self@.data.contains_key(stored(key@)) ==> match yes_no(uppercase(self@.data[stored(key@)])) {
                Some(b) => r == Ok::<bool, NativeError>(b),
                None => r matches Err(e) && e@ == illegal_error(self@.data[stored(key@)], key@, Seq::empty()),
            },
            !self@.data.contains_key(stored(key@)) ==> (r matches Err(e) && e@ == undefined_error(key@)),
    {
        let value = self.get_string(key, false)?;
        match Self::convert_bool(value.as_str()) {
            Some(b) => Ok(b),
            None => {
                proof {
                    reveal_strlit("");
                }
                Err(illegal(value.as_str(), key, ""))
            },
        }
    }

    /// The setting under a key as a day of the week, from its first two letters
    /// (Sunday is 1). Its first two bytes must make whole characters.
    pub fn get_day(&self, key: &str) -> (r: Result<i32>)
        requires
            self@.data.contains_key(stored(key@)) ==> day_text_ok(self@.data[stored(key@)]),
        ensures
            self@.data.contains_key(stored(key@)) ==> match day_result(self@.data[stored(key@)], key@) {
                Ok(d) => r == Ok::<i32, NativeError>(d),
                Err(e) => r matches Err(err) && err@ == e,
            },
            !self@.data.contains_key(stored(key@)) ==> (r matches Err(e) && e@ == undefined_error(key@)),
    {
        let value = self.get_string(key, false)?;
        proof {
            reveal_strlit("");
        }
        let vb = value.as_str().as_bytes();
        if vb.len() < 2 {
            return Err(illegal(value.as_str(), key, ""));
        }
        let (two, _) = value.as_str().split_at(2);
        proof {
            vstd::utf8::encode_utf8_decode_utf8(two@);
            assert(two.spec_bytes() =~= encode_utf8(value@).take(2));
        }
        let first_two = to_lowercase(two);
        let f = first_two.as_str();
        if text_eq(f, "su") {
            Ok(1)
        } else if text_eq(f, "mo") {
            Ok(2)
        } else if text_eq(f, "tu") {
            Ok(3)
        } else if text_eq(f, "we") {
            Ok(4)
        } else if text_eq(f, "th") {
            Ok(5)
        } else if text_eq(f, "fr") {
            Ok(6)
        } else if text_eq(f, "sa") {
            Ok(7)
        } else {
            Err(illegal(value.as_str(), key, ""))
        }
    }

    /// The setting under a key as a day of the week, where its first two bytes make
    /// whole characters (or it is shorter); `None` where they do not.
    pub fn day_of(&self, key: &str) -> (r: Option<Result<i32>>)
        ensures
            self@.data.contains_key(stored(key@)) && !day_text_ok(self@.data[stored(key@)]) ==> r is None,
            self@.data.contains_key(stored(key@)) && day_text_ok(self@.data[stored(key@)]) ==> match day_result(
                self@.data[stored(key@)],
                key@,
            ) {
                Ok(d) => r == Some(Ok::<i32, NativeError>(d)),
                Err(e) => r matches Some(Err(err)) && err@ == e,
            },
            !self@.data.contains_key(stored(key@)) ==> (r matches Some(Err(e)) && e@ == undefined_error(key@)),
    {
        match self.get_string(key, false) {
            Ok(value) => {
                let s = value.as_str();
                if s.as_bytes().len() >= 2 && !s.is_char_boundary(2) {
                    None
                } else {
                    Some(self.get_day(key))
                }
            },
            Err(_) => Some(self.get_day(key)),
        }
    }

    /// Sets a key to a value, both trimmed and put in upper case.
    pub fn set_string(&mut self, key: &str, value: &str)
        ensures
            final(self)@.name == old(self)@.name,
            final(self)@.data == old(self)@.data.insert(stored(key@), stored(value@)),
            all_ascii(trim(value@)) ==> final(self)@.data[stored(key@)] == ascii_upper(trim(value@)),
    {
        let tk = trim_string(key);
        let k = to_uppercase(tk.as_str());
        let tv = trim_string(value);
        let v = to_uppercase(tv.as_str());
        proof {
            use_type_invariant(&*self);
        }
        let mut data: Vec<(String, String)> = Vec::new();
        std::mem::swap(&mut data, &mut self.data);
        let ghost t = text_pairs(data@);
        let ghost kv = (k@, v@);
        match find_text_key(&data, k.as_str()) {
            Some(i) => {
                proof {
                    lemma_assoc_update(t, i as int, v@);
                    assert(text_pairs(data@.update(i as int, (k, v))) =~= t.update(i as int, (t[i as int].0, v@)));
                }
                data.set(i, (k, v));
            },
            None => {
                proof {
                    assert(!has_key(t, kv.0)) by {
                        if has_key(t, kv.0) {
                            let j = choose|j: int| 0 <= j < t.len() && t[j].0 == kv.0;
                            assert(data@[j].0@ == kv.0);
                        }
                    }
                    lemma_assoc_push(t, kv.0, kv.1);
                    assert(text_pairs(data@.push((k, v))) =~= t.push(kv));
                }
                data.push((k, v));
            },
        }
        self.data = data;
    }

    /// Sets a key to a signed integer, written in decimal.
    pub fn set_int(&mut self, key: &str, value: i32)
        ensures
            final(self)@.name == old(self)@.name,
            final(self)@.data == old(self)@.data.insert(stored(key@), stored(int_decimal(value as int))),
    {
        let text = i32_to_decimal(value);
        self.set_string(key, text.as_str());
    }

    /// Sets a key to `Y` or `N`.
    pub fn set_bool(&mut self, key: &str, value: bool)
        ensures
            final(self)@.name == old(self)@.name,
            final(self)@.data == old(self)@.data.insert(stored(key@), stored(if value { "Y"@ } else { "N"@ })),
    {
        let val = if value { "Y" } else { "N" };
        self.set_string(key, val);
    }

    /// Sets a key to the abbreviation of a day (Sunday is 1); other numbers change
    /// nothing.
    pub fn set_day(&mut self, key: &str, value: i32)
        ensures
            final(self)@.name == old(self)@.name,
            final(self)@.data == match day_name(value) {
                Some(n) => old(self)@.data.insert(stored(key@), stored(n)),
                None => old(self)@.data,
            },
    {
        let val = if value == 1 {
            "SU"
        } else if value == 2 {
            "MO"
        } else if value == 3 {
            "TU"
        } else if value == 4 {
            "WE"
        } else if value == 5 {
            "TH"
        } else if value == 6 {
            "FR"
        } else if value == 7 {
            "SA"
        } else {
            return;
        };
        self.set_string(key, val);
    }

    /// Adds the settings of another dictionary under the keys this one lacks.
    pub fn merge(&mut self, dict: &Dictionary) -> (r: Result<()>)
        ensures
            r is Ok,
            final(self)@.name == old(self)@.name,
            final(self)@.data == dict@.data.union_prefer_right(old(self)@.data),
    {
        proof {
            use_type_invariant(&*self);
            use_type_invariant(dict);
        }
        let mut data: Vec<(String, String)> = Vec::new();
        std::mem::swap(&mut data, &mut self.data);
        let ghost d = text_pairs(dict.data@);
        let mut i: usize = 0;
        while i < dict.data.len()
            invariant
                i <= dict.data@.len(),
                d == text_pairs(dict.data@),
                keys_distinct(d),
                keys_distinct(text_pairs(data@)),
                self.name@ == old(self)@.name,
                assoc_map(text_pairs(data@)) == assoc_map(d.take(i as int)).union_prefer_right(old(self)@.data),
            decreases dict.data@.len() - i,
        {
            let ghost before = assoc_map(text_pairs(data@));
            let ghost t = text_pairs(data@);
            let k = dict.data[i].0.as_str();
            proof {
                assert(d.take(i + 1) =~= d.take(i as int).push(d[i as int]));
                assert(keys_distinct(d.take(i as int))) by {
                    assert forall|a: int, b: int|
                        0 <= a < d.take(i as int).len() && 0 <= b < d.take(i as int).len() && a != b implies
                        d.take(i as int)[a].0 != d.take(i as int)[b].0 by {
                        assert(d.take(i as int)[a] == d[a] && d.take(i as int)[b] == d[b]);
                    }
                }
                assert(!has_key(d.take(i as int), d[i as int].0)) by {
                    if has_key(d.take(i as int), d[i as int].0) {
                        let j = choose|j: int| 0 <= j < d.take(i as int).len() && d.take(i as int)[j].0 == d[i as int].0;
                        assert(d[j].0 == d[i as int].0);
                    }
                }
                lemma_assoc_push(d.take(i as int), d[i as int].0, d[i as int].1);
            }
            match find_text_key(&data, k) {
                Some(j) => {
                    proof {
                        assert(t[j as int].0 == k@);
                        lemma_assoc_at(t, j as int);
                        assert(d[i as int].0 == k@);
                        assert(!assoc_map(d.take(i as int)).contains_key(k@));
                        assert(old(self)@.data.contains_key(k@));
                        let a = assoc_map(d.take(i as int));
                        assert(assoc_map(text_pairs(data@)) == a.union_prefer_right(old(self)@.data));
                        assert(assoc_map(d.take(i + 1)) == a.insert(k@, d[i as int].1));
                        assert(a.insert(k@, d[i as int].1).union_prefer_right(old(self)@.data) =~= a.union_prefer_right(
                            old(self)@.data,
                        ));
                    }
                },
                None => {
                    let v = dict.data[i].1.clone();
                    let ks = String::from_str(k);
                    proof {
                        assert(!has_key(t, k@)) by {
                            if has_key(t, k@) {
                                let j = choose|j: int| 0 <= j < t.len() && t[j].0 == k@;
                                assert(data@[j].0@ == k@);
                            }
                        }
                        lemma_assoc_push(t, k@, v@);
                        assert(text_pairs(data@.push((ks, v))) =~= t.push((k@, v@)));
                        assert(!before.contains_key(k@));
                        assert(!old(self)@.data.contains_key(k@));
                    }
                    data.push((ks, v));
                    proof {
                        let a = assoc_map(d.take(i as int));
                        assert(d[i as int].0 == k@);
                        assert(d[i as int].1 == v@);
                        assert(assoc_map(d.take(i + 1)) == a.insert(k@, v@));
                        assert(assoc_map(text_pairs(data@)) =~= a.insert(k@, v@).union_prefer_right(old(self)@.data));
                    }
                },
            }
            i += 1;
        }
        assert(d.take(i as int) =~= d);
        self.data = data;
        Ok(())
    }

    /// The settings as (key, value) pairs, each key once, in no particular order.
    pub fn into_iter(&self) -> (r: Vec<(String, String)>)
        ensures
            keys_distinct(text_pairs(r@)),
            assoc_map(text_pairs(r@)) == self@.data,
    {
        proof {
            use_type_invariant(self);
        }
        let mut data: Vec<(String, String)> = Vec::new();
        let mut i: usize = 0;
        while i < self.data.len()
            invariant
                i <= self.data@.len(),
                data@.len() == i,
                forall|j: int| 0 <= j < i ==> (#[trigger] data@[j]).0@ == self.data@[j].0@ && data@[j].1@ == self.data@[j].1@,
            decreases self.data@.len() - i,
        {
            data.push((self.data[i].0.clone(), self.data[i].1.clone()));
            i += 1;
        }
        assert(text_pairs(data@) =~= text_pairs(self.data@));
        data
    }

    /// The truth value a text stands for: `Y` or `N` in any case.
    pub fn convert_bool(value: &str) -> (r: Option<bool>)
        ensures
            r == yes_no(uppercase(value@)),
    {
        let up = to_uppercase(value);
        let u = up.as_str();
        if text_eq(u, "Y") {
            Some(true)
        } else if text_eq(u, "N") {
            Some(false)
        } else {
            None
        }
    }
}

impl Default for Dictionary {
    fn default() -> (r: Self)
        ensures
            r@.name == Seq::<char>::empty(),
            r@.data == Map::<Seq<char>, Seq<char>>::empty(),
    {
        Dictionary::new(String::new())
    }
}

impl Clone for Dictionary {
    fn clone(&self) -> (r: Self)
        ensures
            r@ == self@,
    {
        proof {
            use_type_invariant(self);
        }
        let mut data: Vec<(String, String)> = Vec::new();
        let mut i: usize = 0;
        while i < self.data.len()
            invariant
                i <= self.data@.len(),
                data@.len() == i,
                forall|j: int| 0 <= j < i ==> (#[trigger] data@[j]).0@ == self.data@[j].0@ && data@[j].1@ == self.data@[j].1@,
            decreases self.data@.len() - i,
        {
            data.push((self.data[i].0.clone(), self.data[i].1.clone()));
            i += 1;
        }
        assert(text_pairs(data@) =~= text_pairs(self.data@));
        Dictionary { name: self.name.clone(), data }
    }
}

/// Days are numbered in calendar order from Sunday: `su` is 1, `mo` 2, `tu` 3,
/// `we` 4, `th` 5, `fr` 6 and `sa` 7, each stored as the same two letters in
/// upper case; no other number names a day.
pub proof fn days_in_calendar_order(d: i32)
    ensures
        day_number("su"@) == Some(1i32) && day_name(1i32) == Some("SU"@),
        day_number("mo"@) == Some(2i32) && day_name(2i32) == Some("MO"@),
        day_number("tu"@) == Some(3i32) && day_name(3i32) == Some("TU"@),
        day_number("we"@) == Some(4i32) && day_name(4i32) == Some("WE"@),
        day_number("th"@) == Some(5i32) && day_name(5i32) == Some("TH"@),
        day_number("fr"@) == Some(6i32) && day_name(6i32) == Some("FR"@),
        day_number("sa"@) == Some(7i32) && day_name(7i32) == Some("SA"@),
        (d < 1 || d > 7) ==> day_name(d) is None,
{
    reveal_strlit("su");
    reveal_strlit("mo");
    reveal_strlit("tu");
    reveal_strlit("we");
    reveal_strlit("th");
    reveal_strlit("fr");
    reveal_strlit("sa");
    assert("mo"@[0] != "su"@[0]);
    assert("tu"@[0] != "su"@[0]);
    assert("tu"@[0] != "mo"@[0]);
    assert("we"@[0] != "su"@[0]);
    assert("we"@[0] != "mo"@[0]);
    assert("we"@[0] != "tu"@[0]);
    assert("th"@[0] != "su"@[0]);
    assert("th"@[0] != "mo"@[0]);
    assert("th"@[1] != "tu"@[1]);
    assert("th"@[0] != "we"@[0]);
    assert("fr"@[0] != "su"@[0]);
    assert("fr"@[0] != "mo"@[0]);
    assert("fr"@[0] != "tu"@[0]);
    assert("fr"@[0] != "we"@[0]);
    assert("fr"@[0] != "th"@[0]);
    assert("sa"@[1] != "su"@[1]);
    assert("sa"@[0] != "mo"@[0]);
    assert("sa"@[0] != "tu"@[0]);
    assert("sa"@[0] != "we"@[0]);
    assert("sa"@[0] != "th"@[0]);
    assert("sa"@[0] != "fr"@[0]);
}

/// `Y` stands for true and `N` for false; no other text is a truth value.
pub proof fn truth_values(t: Seq<char>)
    ensures
        yes_no("Y"@) == Some(true),
        yes_no("N"@) == Some(false),
        t != "Y"@ && t != "N"@ ==> yes_no(t) is None,
{
    reveal_strlit("Y");
    reveal_strlit("N");
    assert("Y"@[0] != "N"@[0]);
}

/// A setting read right after it was written gives the stored form (trimmed, in
/// upper case) of the value written.
pub proof fn setting_reads_back(data: Map<Seq<char>, Seq<char>>, key: Seq<char>, value: Seq<char>)
    ensures
        data.insert(stored(key), stored(value)).contains_key(stored(key)),
        data.insert(stored(key), stored(value))[stored(key)] == stored(value),
{
}

/// An ASCII value written and then read in upper case gives its stored form
/// back: the stored form of an ASCII text (trimmed, in upper case) is ASCII, and
/// putting it in upper case again leaves it as it is.
pub proof fn capitalized_setting_reads_back(data: Map<Seq<char>, Seq<char>>, key: Seq<char>, value: Seq<char>)
    requires
        all_ascii(trim(value)),
    ensures
        all_ascii(data.insert(stored(key), ascii_upper(trim(value)))[stored(key)]),
        ascii_upper(data.insert(stored(key), ascii_upper(trim(value)))[stored(key)]) == ascii_upper(trim(value)),
{
    let t = trim(value);
    let u = ascii_upper(t);
    assert forall|i: int| 0 <= i < u.len() implies (#[trigger] u[i] as u32) < 128 by {
        assert(t[i] as u32 >= 0);
    }
    assert forall|i: int| 0 <= i < u.len() implies ascii_upper_char(#[trigger] u[i]) == u[i] by {
        let c = t[i];
        if 'a' <= c && c <= 'z' {
            assert((c as u32) - 32 < 'a' as u32);
        }
    }
    assert(ascii_upper(u) =~= u);
}

/// Writing a key that is already set leaves the number of settings unchanged;
/// writing a new one adds one.
pub proof fn setting_count(data: Map<Seq<char>, Seq<char>>, key: Seq<char>, value: Seq<char>)
    requires
        data.dom().finite(),
    ensures
        data.contains_key(stored(key)) ==> data.insert(stored(key), stored(value)).len() == data.len(),
        !data.contains_key(stored(key)) ==> data.insert(stored(key), stored(value)).len() == data.len() + 1,
{
    if data.contains_key(stored(key)) {
        assert(data.insert(stored(key), stored(value)).dom() =~= data.dom());
    }
}

/// Merging keeps every setting already present and adds the others' settings
/// under the keys that were missing.
pub proof fn merge_keeps_existing(mine: Map<Seq<char>, Seq<char>>, other: Map<Seq<char>, Seq<char>>, k: Seq<char>)
    ensures
        other.union_prefer_right(mine).contains_key(k) <==> (mine.contains_key(k) || other.contains_key(k)),
        mine.contains_key(k) ==> other.union_prefer_right(mine)[k] == mine[k],
        !mine.contains_key(k) && other.contains_key(k) ==> other.union_prefer_right(mine)[k] == other[k],
{
}

} // verus!
