use vstd::prelude::*;

use crate::text::{parse_user_id, parses_as_u64};

verus! {

/// One challenge between two users.
///
/// The two participants are kept in canonical order (`user_one < user_two`)
/// so that a pair of users has one identity whoever asked; `challenger`
/// records which of the two issued the challenge. `accepted` is false while
/// the challenge is pending and true once it is ongoing. `winner` is part of
/// the record but no operation of this library sets it.
#[derive(Clone, Copy, Debug, PartialEq, Eq, Structural)]
pub struct Challenge {
    pub id: i64,
    pub user_one: u64,
    pub user_two: u64,
    pub challenger: u64,
    pub accepted: bool,
    pub winner: Option<u64>,
}

impl Challenge {
    /// The participants are distinct, stored in order, and the challenger is one of them.
    pub open spec fn well_formed(&self) -> bool {
        &&& self.user_one < self.user_two
        &&& (self.challenger == self.user_one || self.challenger == self.user_two)
    }

    /// The user takes part in this challenge.
    pub open spec fn involves(&self, user: u64) -> bool {
        self.user_one == user || self.user_two == user
    }

    /// The participant that is not `user` (the second one when `user` is neither).
    pub open spec fn other_of(&self, user: u64) -> u64 {
        if self.user_one == user {
            self.user_two
        } else {
            self.user_one
        }
    }

    /// The participant that is not `user`.
    pub fn other_participant(&self, user: u64) -> (r: u64)
        ensures
            r == self.other_of(user),
            self.well_formed() && self.involves(user) ==> r != user && self.involves(r),
    {
        if self.user_one == user {
            self.user_two
        } else {
            self.user_one
        }
    }
}

/// The colour of a card.
#[derive(Clone, Copy, Debug, PartialEq, Eq, Structural)]
pub enum Color {
    RED,
    GREEN,
    BLUE,
}

/// The element of a card.
#[derive(Clone, Copy, Debug, PartialEq, Eq, Structural)]
pub enum Element {
    FIRE,
    SNOW,
    WATER,
}

/// A card: a colour, an element and a value.
#[derive(Clone, Copy, Debug, PartialEq, Eq, Structural)]
pub struct Card {
    pub color: Color,
    pub element: Element,
    pub value: u8,
}

/// The colour that a draw in `0..3` stands for (red for any other).
pub open spec fn color_of_draw(draw: u8) -> Color {
    if draw == 1 {
        Color::GREEN
    } else if draw == 2 {
        Color::BLUE
    } else {
        Color::RED
    }
}

/// The element that a draw in `0..3` stands for (fire for any other).
pub open spec fn element_of_draw(draw: u8) -> Element {
    if draw == 1 {
        Element::SNOW
    } else if draw == 2 {
        Element::WATER
    } else {
        Element::FIRE
    }
}

impl Card {
    /// The value is one of 1 to 10.
    pub open spec fn is_valid(&self) -> bool {
        1 <= self.value <= 10
    }

    /// The card that three draws stand for: a colour draw and an element
    /// draw, each in `0..3`, and the value itself.
    pub fn from_draws(color_draw: u8, element_draw: u8, value: u8) -> (r: Card)
        ensures
            r.color == color_of_draw(color_draw),
            r.element == element_of_draw(element_draw),
            r.value == value,
    {
        let color = match color_draw {
            1 => Color::GREEN,
            2 => Color::BLUE,
            _ => Color::RED,
        };
        let element = match element_draw {
            1 => Element::SNOW,
            2 => Element::WATER,
            _ => Element::FIRE,
        };
        Card { color, element, value }
    }
}

/// The challenge that a stored row holds, its user ids written as text.
pub open spec fn row_challenge(
    id: i64,
    user_one: Seq<char>,
    user_two: Seq<char>,
    challenger: Seq<char>,
    accepted: bool,
    winner: Option<Seq<char>>,
) -> Option<Challenge> {
    match (parses_as_u64(user_one), parses_as_u64(user_two), parses_as_u64(challenger)) {
        (Some(one), Some(two), Some(by)) => match winner {
            None => Some(Challenge { id, user_one: one, user_two: two, challenger: by, accepted, winner: None }),
            Some(w) => match parses_as_u64(w) {
                Some(won) => Some(Challenge { id, user_one: one, user_two: two, challenger: by, accepted, winner: Some(won) }),
                None => None,
            },
        },
        _ => None,
    }
}

/// Reads a stored row whose user ids are text; `None` when one of them is
/// not a user id, so that the caller can skip that row.
pub fn challenge_from_row(
    id: i64,
    user_one: &str,
    user_two: &str,
    challenger: &str,
    accepted: bool,
    winner: Option<&str>,
) -> (r: Option<Challenge>)
    ensures
        r == row_challenge(id, user_one@, user_two@, challenger@, accepted, match winner {
            Some(w) => Some(w@),
            None => None,
        }),
{
    let one = parse_user_id(user_one);
    let two = parse_user_id(user_two);
    let by = parse_user_id(challenger);
    match (one, two, by) {
        (Some(one), Some(two), Some(by)) => match winner {
            None => Some(Challenge { id, user_one: one, user_two: two, challenger: by, accepted, winner: None }),
            Some(w) => match parse_user_id(w) {
                Some(won) => Some(Challenge { id, user_one: one, user_two: two, challenger: by, accepted, winner: Some(won) }),
                None => None,
            },
        },
        _ => None,
    }
}

} // verus!
