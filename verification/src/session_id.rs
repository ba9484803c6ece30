//! Session identifiers: `BEGIN:SENDER->TARGET`, with an optional `:QUALIFIER`.

use vstd::prelude::*;
use crate::fields::{BeginString, SenderCompID, TargetCompID};
use crate::text::{chars_of, push_str, string_from_range};

verus! {

/// A session identifier: who speaks which FIX version to whom, and an optional
/// qualifier, with its text kept.
#[derive(Debug, Clone, PartialEq, Eq, PartialOrd, Ord)]
pub struct SessionID {
    begin_string: BeginString,
    sender_comp_id: SenderCompID,
    target_comp_id: TargetCompID,
    session_qualifier: String,
    is_fixt: bool,
    frozen_string: String,
}

/// What a session identifier holds.
pub struct SessionIdView {
    pub begin_string: Seq<char>,
    pub sender_comp_id: Seq<char>,
    pub target_comp_id: Seq<char>,
    pub session_qualifier: Seq<char>,
    pub is_fixt: bool,
    pub frozen_string: Seq<char>,
}

impl View for SessionID {
    type V = SessionIdView;

    closed spec fn view(&self) -> SessionIdView {
        SessionIdView {
            begin_string: self.begin_string@,
            sender_comp_id: self.sender_comp_id@,
            target_comp_id: self.target_comp_id@,
            session_qualifier: self.session_qualifier@,
            is_fixt: self.is_fixt,
            frozen_string: self.frozen_string@,
        }
    }
}

/// The version names FIXT (it starts with `FIXT`).
pub open spec fn names_fixt(b: Seq<char>) -> bool {
    b.len() >= 4 && b[0] == 'F' && b[1] == 'I' && b[2] == 'X' && b[3] == 'T'
}

/// The text of a session identifier: `BEGIN:SENDER->TARGET`, and `:QUALIFIER`
/// where the qualifier is not empty.
pub open spec fn session_text(b: Seq<char>, s: Seq<char>, t: Seq<char>, q: Seq<char>) -> Seq<char> {
    b + seq![':'] + s + seq!['-', '>'] + t + if q.len() == 0 {
        Seq::empty()
    } else {
        seq![':'] + q
    }
}

/// The session identifier made of these parts.
pub open spec fn session_of(b: Seq<char>, s: Seq<char>, t: Seq<char>, q: Seq<char>) -> SessionIdView {
    SessionIdView {
        begin_string: b,
        sender_comp_id: s,
        target_comp_id: t,
        session_qualifier: q,
        is_fixt: names_fixt(b),
        frozen_string: session_text(b, s, t, q),
    }
}

/// Position of the first `c`.
pub open spec fn first_of(s: Seq<char>, c: char) -> Option<int>
    decreases s.len(),
{
    if s.len() == 0 {
        None
    } else if s[0] == c {
        Some(0)
    } else {
        match first_of(s.drop_first(), c) {
            Some(i) => Some(i + 1),
            None => None,
        }
    }
}

/// Position of the first `->`.
pub open spec fn first_arrow(s: Seq<char>) -> Option<int>
    decreases s.len(),
{
    if s.len() < 2 {
        None
    } else if s[0] == '-' && s[1] == '>' {
        Some(0)
    } else {
        match first_arrow(s.drop_first()) {
            Some(i) => Some(i + 1),
            None => None,
        }
    }
}

/// Position of the last `c`.
pub open spec fn last_of(s: Seq<char>, c: char) -> Option<int>
    decreases s.len(),
{
    if s.len() == 0 {
        None
    } else if s.last() == c {
        Some(s.len() - 1)
    } else {
        last_of(s.drop_last(), c)
    }
}

/// The parts of a session identifier's text: the version up to the first `:`,
/// the sender from there to the first `->`, then the target, up to the last `:`
/// where that is not the first, and the qualifier after it.
pub open spec fn session_parts(s: Seq<char>) -> Option<(Seq<char>, Seq<char>, Seq<char>, Seq<char>)> {
    match (first_of(s, ':'), first_arrow(s), last_of(s, ':')) {
        (Some(f), Some(a), Some(l)) => Some(
            (
                s.take(f),
                s.subrange(f + 1, a),
                if f == l {
                    s.skip(a + 2)
                } else {
                    s.subrange(a + 2, l)
                },
                if f == l {
                    Seq::empty()
                } else {
                    s.skip(l + 1)
                },
            ),
        ),
        _ => None,
    }
}

/// The parts of the text come in order: the first `:` before the first `->`,
/// and a last `:` other than the first after it.
pub open spec fn session_text_in_order(s: Seq<char>) -> bool {
    match (first_of(s, ':'), first_arrow(s), last_of(s, ':')) {
        (Some(f), Some(a), Some(l)) => f < a && (f == l || a + 2 <= l),
        _ => true,
    }
}

proof fn lemma_first_of_bounds(s: Seq<char>, c: char)
    ensures
        first_of(s, c) matches Some(i) ==> 0 <= i < s.len() && s[i] == c && forall|j: int|
            0 <= j < i ==> s[j] != c,
        first_of(s, c) is None ==> forall|j: int| 0 <= j < s.len() ==> s[j] != c,
    decreases s.len(),
{
    if s.len() > 0 {
        lemma_first_of_bounds(s.drop_first(), c);
        if s[0] != c {
            assert forall|j: int| 0 < j < s.len() implies s[j] == s.drop_first()[j - 1] by {}
        }
    }
}

proof fn lemma_first_arrow_bounds(s: Seq<char>)
    ensures
        first_arrow(s) matches Some(i) ==> 0 <= i && i + 1 < s.len() && s[i] == '-' && s[i + 1] == '>',
    decreases s.len(),
{
    if s.len() >= 2 {
        lemma_first_arrow_bounds(s.drop_first());
    }
}

proof fn lemma_last_of_bounds(s: Seq<char>, c: char)
    ensures
        last_of(s, c) matches Some(i) ==> 0 <= i < s.len() && s[i] == c && forall|j: int|
            i < j < s.len() ==> s[j] != c,
    decreases s.len(),
{
    if s.len() > 0 && s.last() != c {
        lemma_last_of_bounds(s.drop_last(), c);
        if let Some(i) = last_of(s, c) {
            assert forall|j: int| i < j < s.len() implies s[j] != c by {
                if j < s.len() - 1 {
                    assert(s[j] == s.drop_last()[j]);
                }
            }
        }
    }
}

proof fn lemma_part_positions(s: Seq<char>)
    ensures
        first_of(s, ':') matches Some(f) ==> 0 <= f < s.len(),
        first_arrow(s) matches Some(a) ==> 0 <= a && a + 2 <= s.len(),
        last_of(s, ':') matches Some(l) ==> 0 <= l < s.len(),
{
    lemma_first_of_bounds(s, ':');
    lemma_first_arrow_bounds(s);
    lemma_last_of_bounds(s, ':');
}

fn find_first(v: &Vec<char>, c: char) -> (r: Option<usize>)
    ensures
        match r {
            Some(k) => first_of(v@, c) == Some(k as int),
            None => first_of(v@, c).is_none(),
        },
{
    let mut i: usize = 0;
    assert(v@.skip(0) =~= v@);
    while i < v.len()
        invariant
            i <= v@.len(),
            first_of(v@, c) == match first_of(v@.skip(i as int), c) {
                Some(k) => Some(k + i),
                None => None::<int>,
            },
        decreases v@.len() - i,
    {
        if v[i] == c {
            return Some(i);
        }
        assert(v@.skip(i as int).drop_first() =~= v@.skip(i + 1));
        i += 1;
    }
    None
}

fn find_arrow(v: &Vec<char>) -> (r: Option<usize>)
    ensures
        match r {
            Some(k) => first_arrow(v@) == Some(k as int),
            None => first_arrow(v@).is_none(),
        },
{
    let mut i: usize = 0;
    assert(v@.skip(0) =~= v@);
    while v.len() - i >= 2
        invariant
            i <= v@.len(),
            first_arrow(v@) == match first_arrow(v@.skip(i as int)) {
                Some(k) => Some(k + i),
                None => None::<int>,
            },
        decreases v@.len() - i,
    {
        if v[i] == '-' && v[i + 1] == '>' {
            return Some(i);
        }
        assert(v@.skip(i as int).drop_first() =~= v@.skip(i + 1));
        i += 1;
    }
    None
}

fn find_last(v: &Vec<char>, c: char) -> (r: Option<usize>)
    ensures
        match r {
            Some(k) => last_of(v@, c) == Some(k as int),
            None => last_of(v@, c).is_none(),
        },
{
    let mut n: usize = v.len();
    assert(v@.take(n as int) =~= v@);
    while n > 0
        invariant
            n <= v@.len(),
            last_of(v@, c) == last_of(v@.take(n as int), c),
        decreases n,
    {
        if v[n - 1] == c {
            return Some(n - 1);
        }
        assert(v@.take(n as int).drop_last() =~= v@.take(n - 1));
        n -= 1;
    }
    None
}

fn starts_with_fixt(b: &str) -> (r: bool)
    ensures
        r == names_fixt(b@),
{
    let v = chars_of(b);
    v.len() >= 4 && v[0] == 'F' && v[1] == 'I' && v[2] == 'X' && v[3] == 'T'
}

impl SessionID {
    /// The session identifier made of these parts, its text kept.
    pub fn new(
        begin_string: String,
        sender_comp_id: String,
        target_comp_id: String,
        session_qualifier: String,
    ) -> (r: Self)
        ensures
            r@ == session_of(begin_string@, sender_comp_id@, target_comp_id@, session_qualifier@),
    {
        let is_fixt = starts_with_fixt(begin_string.as_str());
        let begin_string = BeginString::new(begin_string);
        let mut session_id = SessionID {
            begin_string,
            sender_comp_id: SenderCompID::new(sender_comp_id),
            target_comp_id: TargetCompID::new(target_comp_id),
            session_qualifier,
            is_fixt,
            frozen_string: String::new(),
        };
        session_id.update_frozen_string();
        session_id
    }

    /// The FIX version.
    pub fn get_begin_string(&self) -> (r: &BeginString)
        ensures
            r@ == self@.begin_string,
    {
        &self.begin_string
    }

    /// The sender.
    pub fn get_sender_comp_id(&self) -> (r: &SenderCompID)
        ensures
            r@ == self@.sender_comp_id,
    {
        &self.sender_comp_id
    }

    /// The target.
    pub fn get_target_comp_id(&self) -> (r: &TargetCompID)
        ensures
            r@ == self@.target_comp_id,
    {
        &self.target_comp_id
    }

    /// The qualifier, empty where there is none.
    pub fn get_session_qualifier(&self) -> (r: &str)
        ensures
            r@ == self@.session_qualifier,
    {
        self.session_qualifier.as_str()
    }

    /// Whether the version is FIXT.
    pub fn is_fixt(&self) -> (r: bool)
        ensures
            r == self@.is_fixt,
    {
        self.is_fixt
    }

    /// The text of the identifier.
    pub fn to_string_frozen(&self) -> (r: &str)
        ensures
            r@ == self@.frozen_string,
    {
        self.frozen_string.as_str()
    }

    /// Whether the parts of a text come in the order `from_string` reads them in.
    pub fn is_text_in_order(s: &str) -> (r: bool)
        ensures
            r == session_text_in_order(s@),
    {
        let v = chars_of(s);
        proof {
            lemma_part_positions(v@);
        }
        match (find_first(&v, ':'), find_arrow(&v), find_last(&v, ':')) {
            (Some(f), Some(a), Some(l)) => f < a && (f == l || (a <= l && l - a >= 2)),
            _ => true,
        }
    }

    /// Reads a session identifier from its text; `None` where it lacks a `:` or a
    /// `->`.
    pub fn from_string(s: &str) -> (r: Option<Self>)
        requires
            session_text_in_order(s@),
        ensures
            match session_parts(s@) {
                Some((b, snd, t, q)) => r matches Some(id) && id@ == session_of(b, snd, t, q),
                None => r.is_none(),
            },
    {
        let v = chars_of(s);
        proof {
            lemma_part_positions(v@);
        }
        let first = match find_first(&v, ':') {
            Some(i) => i,
            None => {
                return None;
            },
        };
        let second = match find_arrow(&v) {
            Some(i) => i,
            None => {
                return None;
            },
        };
        let third = match find_last(&v, ':') {
            Some(i) => i,
            None => {
                return None;
            },
        };
        assert(first_of(v@, ':') == Some(first as int));
        assert(first_arrow(v@) == Some(second as int));
        assert(last_of(v@, ':') == Some(third as int));
        assert(session_text_in_order(v@));
        assert(first < second);
        assert(second + 2 <= v@.len());
        assert(third < v@.len());
        let len = v.len();
        assert(second + 2 <= len);
        let target_start = second + 2;
        let begin_string = string_from_range(&v, 0, first);
        let sender_comp_id = string_from_range(&v, first + 1, second);
        assert(v@.subrange(0, first as int) =~= v@.take(first as int));
        let (target_comp_id, session_qualifier) = if first == third {
            assert(v@.subrange(second + 2, v@.len() as int) =~= v@.skip(second + 2));
            (string_from_range(&v, target_start, len), String::new())
        } else {
            assert(v@.subrange(third + 1, v@.len() as int) =~= v@.skip(third + 1));
            let q_start = third + 1;
            let target = string_from_range(&v, target_start, third);
            (target, string_from_range(&v, q_start, len))
        };
        Some(Self::new(begin_string, sender_comp_id, target_comp_id, session_qualifier))
    }

    fn update_frozen_string(&mut self)
        ensures
            final(self)@ == (SessionIdView {
                frozen_string: session_text(
                    old(self)@.begin_string,
                    old(self)@.sender_comp_id,
                    old(self)@.target_comp_id,
                    old(self)@.session_qualifier,
                ),
                ..old(self)@
            }),
    {
        let mut f = String::new();
        push_str(&mut f, self.begin_string.get_value());
        push_str(&mut f, ":");
        push_str(&mut f, self.sender_comp_id.get_value());
        push_str(&mut f, "->");
        push_str(&mut f, self.target_comp_id.get_value());
        proof {
            reveal_strlit(":");
            reveal_strlit("->");
        }
        if !self.session_qualifier.as_str().is_empty() {
            push_str(&mut f, ":");
            push_str(&mut f, self.session_qualifier.as_str());
        }
        proof {
            assert(f@ =~= session_text(
                self@.begin_string,
                self@.sender_comp_id,
                self@.target_comp_id,
                self@.session_qualifier,
            ));
        }
        self.frozen_string = f;
    }
}

/// Some `->` is in the text.
pub open spec fn has_arrow(x: Seq<char>) -> bool {
    exists|i: int| 0 <= i && i + 1 < x.len() && #[trigger] x[i] == '-' && x[i + 1] == '>'
}

proof fn lemma_first_of_skip(s: Seq<char>, c: char, n: int)
    requires
        0 <= n <= s.len(),
        forall|i: int| 0 <= i < n ==> s[i] != c,
    ensures
        first_of(s, c) == match first_of(s.skip(n), c) {
            Some(k) => Some(k + n),
            None => None::<int>,
        },
    decreases n,
{
    if n == 0 {
        assert(s.skip(0) =~= s);
    } else {
        lemma_first_of_skip(s.drop_first(), c, n - 1);
        assert(s.drop_first().skip(n - 1) =~= s.skip(n));
    }
}

proof fn lemma_first_arrow_skip(s: Seq<char>, n: int)
    requires
        0 <= n <= s.len(),
        forall|i: int| 0 <= i < n && i + 1 < s.len() ==> !(#[trigger] s[i] == '-' && s[i + 1] == '>'),
    ensures
        first_arrow(s) == match first_arrow(s.skip(n)) {
            Some(k) => Some(k + n),
            None => None::<int>,
        },
    decreases n,
{
    if n == 0 {
        assert(s.skip(0) =~= s);
    } else if s.len() < 2 {
        assert(s.skip(n).len() < 2);
    } else {
        assert forall|i: int| 0 <= i < n - 1 && i + 1 < s.drop_first().len() implies !(
        #[trigger] s.drop_first()[i] == '-' && s.drop_first()[i + 1] == '>') by {
            assert(s.drop_first()[i] == s[i + 1] && s.drop_first()[i + 1] == s[i + 2]);
        }
        lemma_first_arrow_skip(s.drop_first(), n - 1);
        assert(s.drop_first().skip(n - 1) =~= s.skip(n));
    }
}

proof fn lemma_last_of_take(s: Seq<char>, c: char, n: int)
    requires
        0 <= n <= s.len(),
        forall|i: int| n <= i < s.len() ==> s[i] != c,
    ensures
        last_of(s, c) == last_of(s.take(n), c),
    decreases s.len() - n,
{
    if n == s.len() {
        assert(s.take(n) =~= s);
    } else {
        assert(s.last() != c);
        assert forall|i: int| n <= i < s.drop_last().len() implies s.drop_last()[i] != c by {
            assert(s.drop_last()[i] == s[i]);
        }
        lemma_last_of_take(s.drop_last(), c, n);
        assert(s.drop_last().take(n) =~= s.take(n));
    }
}

/// The text of a session identifier reads back as its parts, where no part holds
/// a `:` and neither the version nor the sender holds a `->`.
pub proof fn session_text_reads_back(b: Seq<char>, s: Seq<char>, t: Seq<char>, q: Seq<char>)
    requires
        !b.contains(':'),
        !s.contains(':'),
        !t.contains(':'),
        !q.contains(':'),
        !has_arrow(b),
        !has_arrow(s),
    ensures
        session_parts(session_text(b, s, t, q)) == Some((b, s, t, q)),
        session_text_in_order(session_text(b, s, t, q)),
{
    let f = session_text(b, s, t, q);
    let n1 = b.len() as int;
    let n2 = n1 + 1 + s.len();
    let tail: Seq<char> = if q.len() == 0 {
        Seq::empty()
    } else {
        seq![':'] + q
    };
    assert(f =~= b + seq![':'] + s + seq!['-', '>'] + t + tail);
    assert(f.len() == n2 + 2 + t.len() + tail.len());
    assert forall|i: int| 0 <= i < n1 implies f[i] == b[i] by {}
    assert forall|i: int| n1 < i < n2 implies f[i] == s[i - n1 - 1] by {}
    assert forall|i: int| n2 + 2 <= i < n2 + 2 + t.len() implies f[i] == t[i - n2 - 2] by {}
    assert(f[n1] == ':');
    assert(f[n2] == '-' && f[n2 + 1] == '>');
    // the first `:` closes the version
    assert forall|i: int| 0 <= i < n1 implies f[i] != ':' by {
        assert(b[i] == f[i]);
        assert(!(b[i] == ':'));
    }
    lemma_first_of_skip(f, ':', n1);
    assert(f.skip(n1)[0] == ':');
    assert(first_of(f, ':') == Some(n1));
    // the first `->` closes the sender
    assert forall|i: int| 0 <= i < n2 && i + 1 < f.len() implies !(#[trigger] f[i] == '-' && f[i + 1] == '>') by {
        if i + 1 < n1 {
            if b[i] == '-' && b[i + 1] == '>' {
                assert(has_arrow(b));
            }
        } else if n1 < i && i + 1 < n2 {
            if s[i - n1 - 1] == '-' && s[i - n1] == '>' {
                assert(has_arrow(s));
            }
        }
    }
    lemma_first_arrow_skip(f, n2);
    assert(f.skip(n2)[0] == '-' && f.skip(n2)[1] == '>');
    assert(first_arrow(f) == Some(n2));
    // the last `:` is the first where there is no qualifier, else the one in front of it
    let p = n2 + 2 + t.len();
    if q.len() == 0 {
        assert forall|i: int| n1 + 1 <= i < f.len() implies f[i] != ':' by {
            if n1 < i < n2 {
                assert(s[i - n1 - 1] == f[i]);
                assert(!(s[i - n1 - 1] == ':'));
            } else if p > i >= n2 + 2 {
                assert(t[i - n2 - 2] == f[i]);
                assert(!(t[i - n2 - 2] == ':'));
            }
        }
        lemma_last_of_take(f, ':', n1 + 1);
        assert(last_of(f, ':') == Some(n1));
        assert(f.take(n1) =~= b);
        assert(f.subrange(n1 + 1, n2) =~= s);
        assert(f.skip(n2 + 2) =~= t);
    } else {
        assert(f[p] == ':');
        assert forall|i: int| p + 1 <= i < f.len() implies f[i] != ':' by {
            assert(q[i - p - 1] == f[i]);
            assert(!(q[i - p - 1] == ':'));
        }
        lemma_last_of_take(f, ':', p + 1);
        assert(last_of(f, ':') == Some(p));
        assert(f.take(n1) =~= b);
        assert(f.subrange(n1 + 1, n2) =~= s);
        assert(f.subrange(n2 + 2, p) =~= t);
        assert(f.skip(p + 1) =~= q);
    }
}

/// The session identifier a text stands for, where its parts are there and in
/// order.
pub open spec fn text_session(s: Seq<char>) -> Option<SessionIdView> {
    if session_text_in_order(s) {
        match session_parts(s) {
            Some((b, snd, t, q)) => Some(session_of(b, snd, t, q)),
            None => None,
        }
    } else {
        None
    }
}

/// The refusal of a text that is no session identifier.
pub open spec fn invalid_session_text() -> Seq<char> {
    "Invalid SessionID format"@
}

impl SessionID {
    /// Reads a session identifier from its text; a text that lacks a `:` or a
    /// `->`, or whose parts are out of order, is refused.
    pub fn try_from_text(value: &str) -> (r: Result<SessionID, &'static str>)
        ensures
            match text_session(value@) {
                Some(v) => r is Ok && r->Ok_0@ == v,
                None => r is Err && r->Err_0@ == invalid_session_text(),
            },
    {
        if !SessionID::is_text_in_order(value) {
            return Err("Invalid SessionID format");
        }
        match SessionID::from_string(value) {
            Some(id) => Ok(id),
            None => Err("Invalid SessionID format"),
        }
    }
}

impl<'a> TryFrom<&'a str> for SessionID {
    type Error = &'static str;

    fn try_from(value: &'a str) -> (r: Result<Self, Self::Error>)
        ensures
            match text_session(value@) {
                Some(v) => r is Ok && r->Ok_0@ == v,
                None => r is Err && r->Err_0@ == invalid_session_text(),
            },
    {
        SessionID::try_from_text(value)
    }
}

impl TryFrom<String> for SessionID {
    type Error = &'static str;

    fn try_from(value: String) -> (r: Result<Self, Self::Error>)
        ensures
            match text_session(value@) {
                Some(v) => r is Ok && r->Ok_0@ == v,
                None => r is Err && r->Err_0@ == invalid_session_text(),
            },
    {
        SessionID::try_from_text(value.as_str())
    }
}

impl<'a> vstd::std_specs::convert::TryFromSpecImpl<&'a str> for SessionID {
    open spec fn obeys_try_from_spec() -> bool {
        false
    }

    open spec fn try_from_spec(v: &'a str) -> Result<Self, Self::Error> {
        arbitrary()
    }
}

impl vstd::std_specs::convert::TryFromSpecImpl<String> for SessionID {
    open spec fn obeys_try_from_spec() -> bool {
        false
    }

    open spec fn try_from_spec(v: String) -> Result<Self, Self::Error> {
        arbitrary()
    }
}

} // verus!
