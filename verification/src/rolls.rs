//! The die roller and the four composition rules built on top of it.

use vstd::prelude::*;
use rand::RngExt;

verus! {

/// A value that one d20 roll can produce: a whole number between 1 and 20.
pub open spec fn valid_roll(r: u8) -> bool {
    1 <= r <= 20
}

/// The higher of two roll outcomes.
pub open spec fn higher(a: u8, b: u8) -> u8 {
    if a >= b {
        a
    } else {
        b
    }
}

/// The lower of two roll outcomes.
pub open spec fn lower(a: u8, b: u8) -> u8 {
    if a <= b {
        a
    } else {
        b
    }
}

/// Relies on rand's `RngExt::random_range` on the thread-local generator:
/// it returns a value drawn from the given range, and `1..=20` is non-empty,
/// so the call does not panic.
#[verifier::external_body]
fn roll_d20() -> (r: u8)
    ensures
        valid_roll(r),
{
    rand::rng().random_range(1..=20)
}

/// The advantage rule applied to two completed rolls: the higher one wins;
/// on a tie both operands are the same value, so either may be returned.
pub fn adv_of(roll_1: u8, roll_2: u8) -> (r: u8)
    ensures
        r == higher(roll_1, roll_2),
{
    if roll_1 >= roll_2 {
        roll_1
    } else {
        roll_2
    }
}

/// The disadvantage rule applied to two completed rolls: the lower one wins.
pub fn dis_of(roll_1: u8, roll_2: u8) -> (r: u8)
    ensures
        r == lower(roll_1, roll_2),
{
    if roll_1 <= roll_2 {
        roll_1
    } else {
        roll_2
    }
}

/// Roll twice and return the higher result.
pub fn roll_adv() -> (r: u8)
    ensures
        valid_roll(r),
{
    let roll_1 = roll_d20();
    let roll_2 = roll_d20();
    adv_of(roll_1, roll_2)
}

/// Roll twice and return the lower result.
pub fn roll_dis() -> (r: u8)
    ensures
        valid_roll(r),
{
    let roll_1 = roll_d20();
    let roll_2 = roll_d20();
    dis_of(roll_1, roll_2)
}

/// Roll at disadvantage twice and return the higher result.
pub fn roll_adv_dis() -> (r: u8)
    ensures
        valid_roll(r),
{
    let roll_1 = roll_dis();
    let roll_2 = roll_dis();
    adv_of(roll_1, roll_2)
}

/// Roll at advantage twice and return the lower result.
pub fn roll_dis_adv() -> (r: u8)
    ensures
        valid_roll(r),
{
    let roll_1 = roll_adv();
    let roll_2 = roll_adv();
    dis_of(roll_1, roll_2)
}

/// `roll_adv_dis` on four known underlying draws: the first pair and the
/// second pair are each resolved at disadvantage, and the higher of the two
/// survivors is returned.
pub fn adv_dis_of(d1: u8, d2: u8, d3: u8, d4: u8) -> (r: u8)
    ensures
        r == higher(lower(d1, d2), lower(d3, d4)),
{
    let roll_1 = dis_of(d1, d2);
    let roll_2 = dis_of(d3, d4);
    adv_of(roll_1, roll_2)
}

/// `roll_dis_adv` on four known underlying draws: the first pair and the
/// second pair are each resolved at advantage, and the lower of the two
/// survivors is returned.
pub fn dis_adv_of(d1: u8, d2: u8, d3: u8, d4: u8) -> (r: u8)
    ensures
        r == lower(higher(d1, d2), higher(d3, d4)),
{
    let roll_1 = adv_of(d1, d2);
    let roll_2 = adv_of(d3, d4);
    dis_of(roll_1, roll_2)
}

/// Pointwise domination behind the ordering of the mean outcomes: resolved
/// over the same two draws, the disadvantage rule never beats a plain roll
/// (the first draw alone), which never beats the advantage rule.
pub proof fn lemma_dis_le_plain_le_adv(draw_1: u8, draw_2: u8)
    ensures
        lower(draw_1, draw_2) <= draw_1 <= higher(draw_1, draw_2),
{
}

/// Whether a progress message is due at this iteration: one is logged every
/// ten thousand iterations.
pub fn print_progress(index: isize) -> (due: bool)
    ensures
        due <==> index as int % 10000 == 0,
{
    index % 10000 == 0
}

/// The three composition rules the simulation passes draw from.
#[derive(Clone, Copy, PartialEq, Eq, Structural, Debug)]
pub enum RollKind {
    /// A plain d20 roll.
    Plain,
    /// The higher of two disadvantage rolls.
    AdvDis,
    /// The lower of two advantage rolls.
    DisAdv,
}

/// Roll `count` dice under the given rule and collect the outcomes in order.
pub fn roll_population(kind: RollKind, count: usize) -> (population: Vec<u8>)
    ensures
        population@.len() == count,
        forall|i: int| 0 <= i < population@.len() ==> valid_roll(#[trigger] population@[i]),
{
    let mut population: Vec<u8> = Vec::new();
    let mut idx: usize = 0;
    while idx < count
        invariant
            idx <= count,
            population@.len() == idx,
            forall|i: int| 0 <= i < population@.len() ==> valid_roll(#[trigger] population@[i]),
        decreases count - idx,
    {
        let roll = match kind {
            RollKind::Plain => roll_d20(),
            RollKind::AdvDis => roll_adv_dis(),
            RollKind::DisAdv => roll_dis_adv(),
        };
        population.push(roll);
        idx = idx + 1;
    }
    population
}

} // verus!
