use vstd::prelude::*;

use rand::Rng;

use crate::models::Card;

verus! {

/// The number of cards in a hand.
pub const HAND_SIZE: usize = 5;

/// Relies on rand's `Rng::gen_range` (rand 0.7) on the thread's generator,
/// which returns a value in `[low, high)` and panics when `low >= high`.
#[verifier::external_body]
fn random_in_range(low: u8, high: u8) -> (r: u8)
    requires
        low < high,
    ensures
        low <= r < high,
{
    rand::thread_rng().gen_range(low, high)
}

impl Card {
    /// A random card: a colour and an element each drawn from their three
    /// kinds, and a value drawn from 1 to 10.
    pub fn new() -> (r: Card)
        ensures
            r.is_valid(),
    {
        let color_draw = random_in_range(0, 3);
        let element_draw = random_in_range(0, 3);
        let value = random_in_range(1, 11);
        Card::from_draws(color_draw, element_draw, value)
    }
}

/// Deals a hand of five random cards, each drawn on its own (two may be equal).
pub fn deal_hand() -> (r: Vec<Card>)
    ensures
        r@.len() == HAND_SIZE,
        forall|i: int| 0 <= i < r@.len() ==> (#[trigger] r@[i]).is_valid(),
{
    let mut hand: Vec<Card> = Vec::new();
    while hand.len() < HAND_SIZE
        invariant
            hand@.len() <= HAND_SIZE,
            forall|i: int| 0 <= i < hand@.len() ==> (#[trigger] hand@[i]).is_valid(),
        decreases HAND_SIZE - hand@.len(),
    {
        hand.push(Card::new());
    }
    hand
}

} // verus!
