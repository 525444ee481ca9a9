//! Where a node sits on its orbit, and which way an arc between two nodes of
//! one orbit turns.
use vstd::arithmetic::div_mod::*;
use vstd::prelude::*;

verus! {

/// An integer point of the layout.
#[derive(Debug, Clone, Copy, PartialEq, Eq, Structural)]
pub struct Coord {
    pub x: i32,
    pub y: i32,
}

/// An angle as the fraction `num / den` of a full turn, measured clockwise
/// from straight up.
#[derive(Debug, Clone, Copy, PartialEq, Eq, Structural)]
pub struct SlotAngle {
    pub num: u32,
    pub den: u32,
}

/// The direction in which an arc is drawn.
#[derive(Debug, Clone, Copy, PartialEq, Eq, Structural)]
pub enum Sweep {
    Clockwise,
    CounterClockwise,
}

/// The curated angle, in degrees, of each slot of a 16-slot orbit.
pub open spec fn angle_16(i: int) -> u32 {
    if i == 0 { 0 }
    else if i == 1 { 30 }
    else if i == 2 { 45 }
    else if i == 3 { 60 }
    else if i == 4 { 90 }
    else if i == 5 { 120 }
    else if i == 6 { 135 }
    else if i == 7 { 150 }
    else if i == 8 { 180 }
    else if i == 9 { 210 }
    else if i == 10 { 225 }
    else if i == 11 { 240 }
    else if i == 12 { 270 }
    else if i == 13 { 300 }
    else if i == 14 { 315 }
    else { 330 }
}

/// The curated angle, in degrees, of each slot of a 40-slot orbit: every ten
/// degrees, and the four diagonals.
pub open spec fn angle_40(i: int) -> u32 {
    if i < 5 { (10 * i) as u32 }
    else if i == 5 { 45 }
    else if i < 15 { (10 * (i - 1)) as u32 }
    else if i == 15 { 135 }
    else if i < 25 { (10 * (i - 2)) as u32 }
    else if i == 25 { 225 }
    else if i < 35 { (10 * (i - 3)) as u32 }
    else if i == 35 { 315 }
    else { (10 * (i - 4)) as u32 }
}

/// The angle of slot `index` on an orbit of `slots` slots: orbits of 16 and
/// 40 slots follow curated tables in degrees, any other orbit is divided
/// evenly, slot `i` of `n` lying at `i / n` of a turn (`360 / n * i` degrees).
pub open spec fn slot_angle_of(slots: u32, index: u32) -> SlotAngle {
    if slots == 16 {
        SlotAngle { num: angle_16(index as int), den: 360 }
    } else if slots == 40 {
        SlotAngle { num: angle_40(index as int), den: 360 }
    } else {
        SlotAngle { num: index, den: slots }
    }
}

/// Slot indices that an orbit can hold.
pub open spec fn valid_slot(slots: u32, index: u32) -> bool {
    &&& slots > 0
    &&& slots == 16 ==> index < 16
    &&& slots == 40 ==> index < 40
}

/// The direction of the arc from angle `from` to angle `to` of one orbit:
/// clockwise when the rotation `from - to`, taken into one turn, exceeds a
/// half turn.
pub open spec fn sweep_of(from: SlotAngle, to: SlotAngle) -> Sweep {
    if 2 * ((from.num - to.num) % (from.den as int)) > from.den {
        Sweep::Clockwise
    } else {
        Sweep::CounterClockwise
    }
}

fn curated_16(i: u32) -> (r: u32)
    ensures
        r == angle_16(i as int),
{
    match i {
        0 => 0,
        1 => 30,
        2 => 45,
        3 => 60,
        4 => 90,
        5 => 120,
        6 => 135,
        7 => 150,
        8 => 180,
        9 => 210,
        10 => 225,
        11 => 240,
        12 => 270,
        13 => 300,
        14 => 315,
        _ => 330,
    }
}

fn curated_40(i: u32) -> (r: u32)
    requires
        i < 40,
    ensures
        r == angle_40(i as int),
{
    if i < 5 {
        10 * i
    } else if i == 5 {
        45
    } else if i < 15 {
        10 * (i - 1)
    } else if i == 15 {
        135
    } else if i < 25 {
        10 * (i - 2)
    } else if i == 25 {
        225
    } else if i < 35 {
        10 * (i - 3)
    } else if i == 35 {
        315
    } else {
        10 * (i - 4)
    }
}

/// The angle of slot `index` on an orbit of `slots` slots.
pub fn slot_angle(slots: u32, index: u32) -> (r: SlotAngle)
    requires
        valid_slot(slots, index),
    ensures
        r == slot_angle_of(slots, index),
        slots == 16 ==> r.den == 360 && r.num == angle_16(index as int),
        slots == 40 ==> r.den == 360 && r.num == angle_40(index as int),
        slots != 16 && slots != 40 ==> r.num == index && r.den == slots,
{
    if slots == 16 {
        SlotAngle { num: curated_16(index), den: 360 }
    } else if slots == 40 {
        SlotAngle { num: curated_40(index), den: 360 }
    } else {
        SlotAngle { num: index, den: slots }
    }
}

/// The direction of the arc between two slots of one orbit.
pub fn sweep_between(from: SlotAngle, to: SlotAngle) -> (r: Sweep)
    requires
        from.den == to.den,
        from.den > 0,
    ensures
        r == sweep_of(from, to),
{
    let d = from.den as u64;
    let a = from.num as u64 % d;
    let b = to.num as u64 % d;
    let rot = (a + d - b) % d;
    proof {
        let m = d as int;
        lemma_sub_mod_noop(from.num as int, to.num as int, m);
        lemma_mod_add_multiples_vanish(a - b, m);
        assert(rot == (from.num - to.num) % m);
    }
    if 2 * rot > d {
        Sweep::Clockwise
    } else {
        Sweep::CounterClockwise
    }
}

} // verus!
