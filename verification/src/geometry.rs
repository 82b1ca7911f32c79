//! Points and rectangles of the overlay.
//!
//! A logical coordinate is a single-precision number. It is held here by its
//! rank: the integer with the number's bit pattern if the number is positive,
//! and the negated pattern of its absolute value if not. Among numbers, the
//! infinite ones included, ranks order as the numbers do, so storing and
//! comparing coordinates needs no arithmetic on them. A pattern that is no
//! number has a rank beyond those of the infinite numbers; no comparison with
//! it holds, and of it and a number the number is both the lesser and the
//! greater.

use vstd::prelude::*;

verus! {

/// The bit that makes a single-precision number negative.
pub const SIGN_BIT: u32 = 0x8000_0000;

/// The rank of the number with the given bit pattern.
pub open spec fn rank_of(bits: u32) -> int {
    if bits < SIGN_BIT {
        bits as int
    } else {
        SIGN_BIT - bits
    }
}

/// The rank of the number with the given bit pattern.
pub fn rank(bits: u32) -> (r: i32)
    ensures
        r == rank_of(bits),
        r > i32::MIN,
{
    if bits < SIGN_BIT {
        bits as i32
    } else {
        -((bits - SIGN_BIT) as i32)
    }
}

/// The bit pattern of the number with the given rank.
pub fn bits(rank: i32) -> (r: u32)
    requires
        rank > i32::MIN,
    ensures
        rank_of(r) == rank,
        rank == 0 ==> r == 0,
{
    if rank >= 0 {
        rank as u32
    } else {
        SIGN_BIT + (-rank) as u32
    }
}

/// A rank belongs to one number: the two zeros, which are equal, apart.
pub proof fn law_rank_is_unique(a: u32, b: u32)
    requires
        a != SIGN_BIT,
        b != SIGN_BIT,
        rank_of(a) == rank_of(b),
    ensures
        a == b,
{
}

/// Ranks order positive numbers as their patterns, negative ones the other way
/// round, and every negative number before every positive one.
pub proof fn law_ranks_are_ordered(a: u32, b: u32)
    ensures
        a < SIGN_BIT && b < SIGN_BIT ==> (rank_of(a) < rank_of(b) <==> a < b),
        a >= SIGN_BIT && b >= SIGN_BIT ==> (rank_of(a) < rank_of(b) <==> b < a),
        a > SIGN_BIT && b < SIGN_BIT ==> rank_of(a) < rank_of(b),
        rank_of(SIGN_BIT) == rank_of(0),
{
}

/// The rank of positive infinity.
pub const INFINITY_RANK: i32 = 0x7f80_0000;

/// The rank is that of a number.
pub open spec fn is_number(rank: i32) -> bool {
    -INFINITY_RANK <= rank <= INFINITY_RANK
}

/// Both are numbers, and the first is at most the second.
pub open spec fn at_most(a: i32, b: i32) -> bool {
    is_number(a) && is_number(b) && a <= b
}

/// Both are numbers, and the first is more than the second.
pub open spec fn more_than(a: i32, b: i32) -> bool {
    is_number(a) && is_number(b) && a > b
}

/// The lesser of two numbers; the number, if only one is.
pub open spec fn lesser(a: i32, b: i32) -> i32 {
    if at_most(a, b) || !is_number(b) {
        a
    } else {
        b
    }
}

/// The greater of two numbers; the number, if only one is.
pub open spec fn greater(a: i32, b: i32) -> i32 {
    if at_most(b, a) || !is_number(b) {
        a
    } else {
        b
    }
}

/// Whether the rank is that of a number.
fn number(rank: i32) -> (r: bool)
    ensures
        r == is_number(rank),
{
    -INFINITY_RANK <= rank && rank <= INFINITY_RANK
}

/// Whether both are numbers and the first is at most the second.
fn no_more(a: i32, b: i32) -> (r: bool)
    ensures
        r == at_most(a, b),
{
    number(a) && number(b) && a <= b
}

/// Whether both are numbers and the first is more than the second.
pub fn exceeds(a: i32, b: i32) -> (r: bool)
    ensures
        r == more_than(a, b),
{
    number(a) && number(b) && a > b
}

/// The lesser of two numbers; the number, if only one is.
fn lesser_of(a: i32, b: i32) -> (r: i32)
    ensures
        r == lesser(a, b),
{
    if no_more(a, b) || !number(b) {
        a
    } else {
        b
    }
}

/// The greater of two numbers; the number, if only one is.
fn greater_of(a: i32, b: i32) -> (r: i32)
    ensures
        r == greater(a, b),
{
    if no_more(b, a) || !number(b) {
        a
    } else {
        b
    }
}

/// A point of the overlay, each coordinate held by its rank.
#[derive(Clone, Copy, Debug, PartialEq, Eq, Structural)]
pub struct Pos2 {
    pub x: i32,
    pub y: i32,
}

/// An axis-aligned rectangle of the overlay.
#[derive(Clone, Copy, Debug, PartialEq, Eq, Structural)]
pub struct Rect {
    pub min: Pos2,
    pub max: Pos2,
}

impl Rect {
    /// The smallest rectangle that holds both points.
    pub open spec fn spanning(a: Pos2, b: Pos2) -> Rect {
        Rect {
            min: Pos2 { x: lesser(a.x, b.x), y: lesser(a.y, b.y) },
            max: Pos2 { x: greater(a.x, b.x), y: greater(a.y, b.y) },
        }
    }

    /// The point lies in the rectangle, its edges among it.
    pub open spec fn covers(self, p: Pos2) -> bool {
        &&& at_most(self.min.x, p.x)
        &&& at_most(p.x, self.max.x)
        &&& at_most(self.min.y, p.y)
        &&& at_most(p.y, self.max.y)
    }

    /// The smallest rectangle that holds both points.
    pub fn from_two_pos(a: Pos2, b: Pos2) -> (r: Rect)
        ensures
            r == Rect::spanning(a, b),
    {
        Rect {
            min: Pos2 { x: lesser_of(a.x, b.x), y: lesser_of(a.y, b.y) },
            max: Pos2 { x: greater_of(a.x, b.x), y: greater_of(a.y, b.y) },
        }
    }

    /// The point lies in the rectangle, its edges among it.
    pub fn contains(&self, p: Pos2) -> (r: bool)
        ensures
            r == self.covers(p),
    {
        no_more(self.min.x, p.x) && no_more(p.x, self.max.x) && no_more(self.min.y, p.y) && no_more(
            p.y,
            self.max.y,
        )
    }
}

/// A rectangle spans the same points whichever corner comes first, and holds
/// each of them that is made of numbers.
pub proof fn law_span_is_symmetric(a: Pos2, b: Pos2)
    requires
        is_number(a.x) || is_number(b.x),
        is_number(a.y) || is_number(b.y),
    ensures
        Rect::spanning(a, b) == Rect::spanning(b, a),
        is_number(a.x) && is_number(a.y) ==> Rect::spanning(a, b).covers(a),
        is_number(b.x) && is_number(b.y) ==> Rect::spanning(a, b).covers(b),
{
}

/// No comparison with what is no number holds.
pub proof fn law_no_number_compares(a: i32, b: i32)
    requires
        !is_number(a) || !is_number(b),
    ensures
        !at_most(a, b),
        !more_than(a, b),
{
}

/// Among numbers a rectangle holds a point exactly if the point is at or beyond
/// its least corner and at or before its greatest, both ways.
pub proof fn law_rectangle_holds_what_is_between(r: Rect, p: Pos2)
    requires
        is_number(r.min.x) && is_number(r.min.y) && is_number(r.max.x) && is_number(r.max.y),
        is_number(p.x) && is_number(p.y),
    ensures
        r.covers(p) <==> r.min.x <= p.x && p.x <= r.max.x && r.min.y <= p.y && p.y <= r.max.y,
{
}

/// The rectangle that two points span lies in every rectangle that holds both.
pub proof fn law_span_is_smallest(a: Pos2, b: Pos2, r: Rect, p: Pos2)
    requires
        r.covers(a),
        r.covers(b),
        Rect::spanning(a, b).covers(p),
    ensures
        r.covers(p),
{
}

/// Numbers reach from negative to positive infinity.
pub proof fn law_numbers_end_at_infinity(rank: i32)
    ensures
        is_number(rank) <==> -0x7f80_0000 <= rank <= 0x7f80_0000,
{
}

/// Comparing numbers compares their ranks.
pub proof fn law_numbers_compare_by_rank(a: i32, b: i32)
    requires
        is_number(a),
        is_number(b),
    ensures
        at_most(a, b) <==> a <= b,
        more_than(a, b) <==> a > b,
        lesser(a, b) <= a && lesser(a, b) <= b,
        greater(a, b) >= a && greater(a, b) >= b,
        lesser(a, b) + greater(a, b) == a + b,
{
}

} // verus!
