//! The order in which the fields of a header, a trailer, a body or a
//! repeating group are written.

use std::cmp::Ordering;
use vstd::prelude::*;

verus! {

/// Tag of BeginString, first field of a header.
pub const BEGIN_STRING: i32 = 8;

/// Tag of BodyLength, second field of a header.
pub const BODY_LENGTH: i32 = 9;

/// Tag of MsgType, third field of a header.
pub const MSG_TYPE: i32 = 35;

/// Tag of CheckSum, last field of a trailer.
pub const CHECK_SUM: i32 = 10;

/// Tag of SignatureLength, first field of a trailer.
pub const SIGNATURE_LENGTH: i32 = 93;

/// Tag of Signature, second field of a trailer.
pub const SIGNATURE: i32 = 89;

/// Which rule orders the fields.
#[derive(Clone, Copy, Debug, PartialEq, Eq, Structural)]
pub enum CompareMode {
    Header,
    Trailer,
    Normal,
    Group,
}

/// A field order.
#[derive(Debug)]
pub struct MessageOrder {
    compare_mode: CompareMode,
    largest: i32,
    group_order: Option<Vec<i32>>,
}

/// What a field order is: its rule, and for a group its list of positions
/// (indexed by tag) and the largest entry of that list.
pub struct MessageOrderView {
    pub mode: CompareMode,
    pub largest: i32,
    pub list: Option<Seq<i32>>,
}

impl View for MessageOrder {
    type V = MessageOrderView;

    closed spec fn view(&self) -> MessageOrderView {
        MessageOrderView {
            mode: self.compare_mode,
            largest: self.largest,
            list: match &self.group_order {
                Some(v) => Some(v@),
                None => None,
            },
        }
    }
}

/// The position of a header field that comes first, if it is one.
pub open spec fn header_position(f: i32) -> Option<i32> {
    if f == BEGIN_STRING {
        Some(1)
    } else if f == BODY_LENGTH {
        Some(2)
    } else if f == MSG_TYPE {
        Some(3)
    } else {
        None
    }
}

/// The position of a trailer field that comes first, if it is one.
pub open spec fn trailer_position(f: i32) -> Option<i32> {
    if f == SIGNATURE_LENGTH {
        Some(1)
    } else if f == SIGNATURE {
        Some(2)
    } else {
        None
    }
}

/// The entry of a group order list at the index of a tag; 0 where there is none.
pub open spec fn group_position(order: Seq<i32>, x: i32) -> i32 {
    if 0 <= x && (x as int) < order.len() {
        order[x as int]
    } else {
        0
    }
}

/// The order of two tags or positions.
pub open spec fn int_ordering(x: i32, y: i32) -> Ordering {
    if x < y {
        Ordering::Less
    } else if x == y {
        Ordering::Equal
    } else {
        Ordering::Greater
    }
}

/// Lexicographic order of pairs.
pub open spec fn pair_ordering(a: (int, int), b: (int, int)) -> Ordering {
    if a.0 < b.0 || (a.0 == b.0 && a.1 < b.1) {
        Ordering::Less
    } else if a == b {
        Ordering::Equal
    } else {
        Ordering::Greater
    }
}

fn group_position_of(order: &Vec<i32>, x: i32) -> (r: i32)
    ensures
        r == group_position(order@, x),
{
    if 0 <= x && (x as usize) < order.len() {
        order[x as usize]
    } else {
        0
    }
}

fn int_order(x: i32, y: i32) -> (r: Ordering)
    ensures
        r == int_ordering(x, y),
{
    if x < y {
        Ordering::Less
    } else if x == y {
        Ordering::Equal
    } else {
        Ordering::Greater
    }
}

/// The largest entry of a list, 0 for an empty list.
pub open spec fn max_or_zero(s: Seq<i32>) -> i32
    decreases s.len(),
{
    if s.len() == 0 {
        0
    } else if s.len() == 1 {
        s[0]
    } else {
        let m = max_or_zero(s.drop_last());
        if s.last() > m {
            s.last()
        } else {
            m
        }
    }
}

fn largest_of(order: &Vec<i32>) -> (r: i32)
    ensures
        r == max_or_zero(order@),
{
    if order.len() == 0 {
        return 0;
    }
    let mut m = order[0];
    let mut i: usize = 1;
    assert(order@.take(1).drop_last() =~= Seq::<i32>::empty());
    while i < order.len()
        invariant
            1 <= i <= order@.len(),
            m == max_or_zero(order@.take(i as int)),
        decreases order@.len() - i,
    {
        assert(order@.take(i + 1).drop_last() =~= order@.take(i as int));
        if order[i] > m {
            m = order[i];
        }
        i += 1;
    }
    assert(order@.take(order@.len() as int) =~= order@);
    m
}

/// `x` comes after `y` in the order `o`.
pub open spec fn comes_after(o: MessageOrderView, x: i32, y: i32) -> bool {
    o.ordering_of(x, y) == Ordering::Greater
}

/// The order of body fields: by tag.
pub open spec fn normal_order() -> MessageOrderView {
    MessageOrderView { mode: CompareMode::Normal, largest: 0, list: None }
}

impl MessageOrderView {
    /// The list of a group order goes with the group rule, and its largest
    /// entry is recorded; the other rules have neither.
    pub open spec fn wf(self) -> bool {
        if self.mode == CompareMode::Group {
            self.list matches Some(l) && self.largest == max_or_zero(l)
        } else {
            self.list is None && self.largest == 0
        }
    }

    /// How two tags compare in this order.
    pub open spec fn ordering_of(self, x: i32, y: i32) -> Ordering {
        match self.mode {
            CompareMode::Group => {
                let order = self.list->0;
                let largest = self.largest;
                if x <= largest && y <= largest {
                    let ix = group_position(order, x);
                    let iy = group_position(order, y);
                    if ix == 0 && iy == 0 {
                        int_ordering(x, y)
                    } else if ix == 0 {
                        Ordering::Greater
                    } else if iy == 0 {
                        Ordering::Less
                    } else {
                        int_ordering(ix, iy)
                    }
                } else if x <= largest {
                    Ordering::Less
                } else if y <= largest {
                    Ordering::Greater
                } else {
                    int_ordering(x, y)
                }
            },
            CompareMode::Header => match (header_position(x), header_position(y)) {
                (Some(px), Some(py)) => int_ordering(px, py),
                (Some(_), None) => Ordering::Less,
                (None, Some(_)) => Ordering::Greater,
                (None, None) => int_ordering(x, y),
            },
            CompareMode::Trailer => {
                if x == CHECK_SUM {
                    Ordering::Greater
                } else if y == CHECK_SUM {
                    Ordering::Less
                } else {
                    match (trailer_position(x), trailer_position(y)) {
                        (Some(px), Some(py)) => int_ordering(px, py),
                        (Some(_), None) => Ordering::Less,
                        (None, Some(_)) => Ordering::Greater,
                        (None, None) => int_ordering(x, y),
                    }
                }
            },
            CompareMode::Normal => int_ordering(x, y),
        }
    }

    /// The rank of a tag: tags compare the way their ranks do, pairs compared
    /// lexicographically (save two CheckSum tags of a trailer order).
    pub open spec fn rank(self, x: i32) -> (int, int) {
        match self.mode {
            CompareMode::Group => {
                if x <= self.largest {
                    let ix = group_position(self.list->0, x);
                    if ix != 0 {
                        (0, ix as int)
                    } else {
                        (1, x as int)
                    }
                } else {
                    (2, x as int)
                }
            },
            CompareMode::Header => match header_position(x) {
                Some(p) => (0, p as int),
                None => (1, x as int),
            },
            CompareMode::Trailer => {
                if x == CHECK_SUM {
                    (2, 0)
                } else {
                    match trailer_position(x) {
                        Some(p) => (0, p as int),
                        None => (1, x as int),
                    }
                }
            },
            CompareMode::Normal => (0, x as int),
        }
    }
}

impl MessageOrder {
    /// The order of a group with this list of positions.
    pub open spec fn group_view(order: Seq<i32>) -> MessageOrderView {
        MessageOrderView { mode: CompareMode::Group, largest: max_or_zero(order), list: Some(order) }
    }

    #[verifier::type_invariant]
    closed spec fn well_formed(self) -> bool {
        self@.wf()
    }

    /// Order of header fields: BeginString, BodyLength, MsgType, then by tag.
    pub fn header() -> (r: Self)
        ensures
            r@ == (MessageOrderView { mode: CompareMode::Header, largest: 0, list: None }),
    {
        MessageOrder { compare_mode: CompareMode::Header, largest: 0, group_order: None }
    }

    /// Order of trailer fields: SignatureLength, Signature, others by tag, CheckSum last.
    pub fn trailer() -> (r: Self)
        ensures
            r@ == (MessageOrderView { mode: CompareMode::Trailer, largest: 0, list: None }),
    {
        MessageOrder { compare_mode: CompareMode::Trailer, largest: 0, group_order: None }
    }

    /// Order of body fields: by tag.
    pub fn normal() -> (r: Self)
        ensures
            r@ == normal_order(),
    {
        MessageOrder { compare_mode: CompareMode::Normal, largest: 0, group_order: None }
    }

    /// Order of the fields of a repeating group: the list gives, at the index of
    /// a tag, its position (0 for none).
    pub fn group(order: Vec<i32>) -> (r: Self)
        ensures
            r@ == Self::group_view(order@),
    {
        let largest = largest_of(&order);
        MessageOrder { compare_mode: CompareMode::Group, largest, group_order: Some(order) }
    }

    /// How two tags compare in this order.
    pub fn compare(&self, x: i32, y: i32) -> (r: Ordering)
        ensures
            r == self@.ordering_of(x, y),
    {
        proof {
            use_type_invariant(self);
        }
        match self.compare_mode {
            CompareMode::Group => {
                match &self.group_order {
                    Some(order) => self.compare_group(x, y, order, self.largest),
                    None => Ordering::Equal,
                }
            },
            CompareMode::Header => self.compare_header(x, y),
            CompareMode::Trailer => self.compare_trailer(x, y),
            CompareMode::Normal => int_order(x, y),
        }
    }

    fn compare_group(&self, x: i32, y: i32, order: &Vec<i32>, largest: i32) -> (r: Ordering)
        requires
            self@.mode == CompareMode::Group,
            self@.list == Some(order@),
            self@.largest == largest,
        ensures
            r == self@.ordering_of(x, y),
    {
        if x <= largest && y <= largest {
            let ix = group_position_of(order, x);
            let iy = group_position_of(order, y);
            if ix == 0 && iy == 0 {
                int_order(x, y)
            } else if ix == 0 {
                Ordering::Greater
            } else if iy == 0 {
                return Ordering::Less;
            } else {
                int_order(ix, iy)
            }
        } else if x <= largest {
            Ordering::Less
        } else if y <= largest {
            Ordering::Greater
        } else {
            int_order(x, y)
        }
    }

    fn compare_header(&self, x: i32, y: i32) -> (r: Ordering)
        requires
            self@.mode == CompareMode::Header,
        ensures
            r == self@.ordering_of(x, y),
    {
        let ordered_x = self.get_header_position(x);
        let ordered_y = self.get_header_position(y);
        match (ordered_x, ordered_y) {
            (Some(px), Some(py)) => int_order(px, py),
            (Some(_), None) => Ordering::Less,
            (None, Some(_)) => Ordering::Greater,
            (None, None) => int_order(x, y),
        }
    }

    fn compare_trailer(&self, x: i32, y: i32) -> (r: Ordering)
        requires
            self@.mode == CompareMode::Trailer,
        ensures
            r == self@.ordering_of(x, y),
    {
        if x == CHECK_SUM {
            return Ordering::Greater;
        } else if y == CHECK_SUM {
            return Ordering::Less;
        }
        let ordered_x = self.get_trailer_position(x);
        let ordered_y = self.get_trailer_position(y);
        match (ordered_x, ordered_y) {
            (Some(px), Some(py)) => int_order(px, py),
            (Some(_), None) => Ordering::Less,
            (None, Some(_)) => Ordering::Greater,
            (None, None) => int_order(x, y),
        }
    }

    fn get_header_position(&self, field_id: i32) -> (r: Option<i32>)
        ensures
            r == header_position(field_id),
    {
        if field_id == BEGIN_STRING {
            Some(1)
        } else if field_id == BODY_LENGTH {
            Some(2)
        } else if field_id == MSG_TYPE {
            Some(3)
        } else {
            None
        }
    }

    fn get_trailer_position(&self, field_id: i32) -> (r: Option<i32>)
        ensures
            r == trailer_position(field_id),
    {
        if field_id == SIGNATURE_LENGTH {
            Some(1)
        } else if field_id == SIGNATURE {
            Some(2)
        } else {
            None
        }
    }

    /// Whether `x` comes after `y` in this order.
    pub fn goes_after(&self, x: i32, y: i32) -> (r: bool)
        ensures
            r == comes_after(self@, x, y),
    {
        match self.compare(x, y) {
            Ordering::Greater => true,
            _ => false,
        }
    }
}

impl Clone for MessageOrder {
    fn clone(&self) -> (r: Self)
        ensures
            r@ == self@,
    {
        proof {
            use_type_invariant(self);
        }
        let group_order = match &self.group_order {
            Some(v) => Some(v.clone()),
            None => None,
        };
        MessageOrder { compare_mode: self.compare_mode, largest: self.largest, group_order }
    }
}

/// Two tags compare the way their ranks do, except two CheckSum tags in a
/// trailer order, which the trailer order puts each after the other.
pub proof fn ordering_is_rank_ordering(o: MessageOrderView, x: i32, y: i32)
    requires
        !(o.mode == CompareMode::Trailer && x == CHECK_SUM && y == CHECK_SUM),
    ensures
        o.ordering_of(x, y) == pair_ordering(o.rank(x), o.rank(y)),
{
}

/// The order is a total preorder on tags (CheckSum tags of a trailer order
/// excepted): every tag compares equal to itself, swapping the tags swaps Less
/// and Greater, and "not greater" is transitive.
pub proof fn ordering_is_total_preorder(o: MessageOrderView, x: i32, y: i32, z: i32)
    requires
        !(o.mode == CompareMode::Trailer && (x == CHECK_SUM || y == CHECK_SUM || z == CHECK_SUM)),
    ensures
        o.ordering_of(x, x) == Ordering::Equal,
        o.ordering_of(x, y) == Ordering::Less <==> o.ordering_of(y, x) == Ordering::Greater,
        o.ordering_of(x, y) == Ordering::Equal <==> o.ordering_of(y, x) == Ordering::Equal,
        o.ordering_of(x, y) != Ordering::Greater && o.ordering_of(y, z) != Ordering::Greater
            ==> o.ordering_of(x, z) != Ordering::Greater,
{
    ordering_is_rank_ordering(o, x, x);
    ordering_is_rank_ordering(o, x, y);
    ordering_is_rank_ordering(o, y, x);
    ordering_is_rank_ordering(o, y, z);
    ordering_is_rank_ordering(o, x, z);
}

/// Of two tags that are not both CheckSum under a trailer order, at most one
/// comes after the other.
pub proof fn comes_after_is_asymmetric(o: MessageOrderView, x: i32, y: i32)
    requires
        !(o.mode == CompareMode::Trailer && x == CHECK_SUM && y == CHECK_SUM),
    ensures
        comes_after(o, x, y) ==> !comes_after(o, y, x),
        comes_after(o, x, y) || comes_after(o, y, x) || o.ordering_of(x, y) == Ordering::Equal,
{
    ordering_is_rank_ordering(o, x, y);
    ordering_is_rank_ordering(o, y, x);
}

/// "Does not come after" is transitive over tags of which no two are CheckSum
/// under a trailer order.
pub proof fn not_after_is_transitive(o: MessageOrderView, x: i32, y: i32, z: i32)
    requires
        !(o.mode == CompareMode::Trailer && ((x == CHECK_SUM && y == CHECK_SUM) || (y == CHECK_SUM
            && z == CHECK_SUM) || (x == CHECK_SUM && z == CHECK_SUM))),
    ensures
        !comes_after(o, x, y) && !comes_after(o, y, z) ==> !comes_after(o, x, z),
{
    ordering_is_rank_ordering(o, x, y);
    ordering_is_rank_ordering(o, y, z);
    ordering_is_rank_ordering(o, x, z);
}

/// In a trailer order CheckSum comes after every other tag.
pub proof fn check_sum_is_last_in_trailer(o: MessageOrderView, x: i32)
    requires
        o.mode == CompareMode::Trailer,
        x != CHECK_SUM,
    ensures
        o.ordering_of(x, CHECK_SUM) == Ordering::Less,
        o.ordering_of(CHECK_SUM, x) == Ordering::Greater,
{
}

/// A header order puts BeginString (8) first, BodyLength (9) second and MsgType
/// (35) third, before every other tag; other tags come by number.
pub proof fn header_order_starts_with_standard_fields(o: MessageOrderView, x: i32, y: i32)
    requires
        o.mode == CompareMode::Header,
        x != 8i32 && x != 9i32 && x != 35i32,
        y != 8i32 && y != 9i32 && y != 35i32,
    ensures
        o.ordering_of(8i32, 9i32) == Ordering::Less,
        o.ordering_of(9i32, 35i32) == Ordering::Less,
        o.ordering_of(8i32, 35i32) == Ordering::Less,
        o.ordering_of(8i32, x) == Ordering::Less,
        o.ordering_of(9i32, x) == Ordering::Less,
        o.ordering_of(35i32, x) == Ordering::Less,
        x < y ==> o.ordering_of(x, y) == Ordering::Less,
        x == y ==> o.ordering_of(x, y) == Ordering::Equal,
{
}

/// A trailer order puts SignatureLength (93) first and Signature (89) second,
/// before every other tag but CheckSum (10), which comes last; other tags come
/// by number.
pub proof fn trailer_order_frames_other_fields(o: MessageOrderView, x: i32, y: i32)
    requires
        o.mode == CompareMode::Trailer,
        x != 93i32 && x != 89i32 && x != 10i32,
        y != 93i32 && y != 89i32 && y != 10i32,
    ensures
        o.ordering_of(93i32, 89i32) == Ordering::Less,
        o.ordering_of(93i32, x) == Ordering::Less,
        o.ordering_of(89i32, x) == Ordering::Less,
        o.ordering_of(x, 10i32) == Ordering::Less,
        o.ordering_of(89i32, 10i32) == Ordering::Less,
        x < y ==> o.ordering_of(x, y) == Ordering::Less,
        x == y ==> o.ordering_of(x, y) == Ordering::Equal,
{
}

/// Body fields come by tag number.
pub proof fn body_order_is_by_tag(x: i32, y: i32)
    ensures
        x < y <==> normal_order().ordering_of(x, y) == Ordering::Less,
        x == y <==> normal_order().ordering_of(x, y) == Ordering::Equal,
{
}

} // verus!
