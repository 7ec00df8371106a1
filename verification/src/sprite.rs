//! Which picture a segment of the snake is drawn with, and how far it is
//! turned. Turns are counted in quarters of a full turn, clockwise on a screen
//! whose `y` grows downwards.

use vstd::prelude::*;
use crate::direction::Direction;
use crate::snake::Segment;

verus! {

/// The three pictures a snake is made of.
#[derive(Clone, Copy, Debug, PartialEq, Eq, Structural)]
pub enum Sprite {
    Head,
    /// A straight piece of the body, drawn lying horizontally.
    Straight,
    /// A bend of the body.
    Corner,
}

/// A picture and the number of quarter turns to draw it with.
#[derive(Clone, Copy, Debug, PartialEq, Eq, Structural)]
pub struct Drawing {
    pub sprite: Sprite,
    pub quarter_turns: u8,
}

/// `direction` runs along the x axis.
pub open spec fn is_horizontal(direction: Direction) -> bool {
    direction == Direction::Left || direction == Direction::Right
}

/// The quarter turns of the corner picture for a bend entered in `from` and
/// left in `to`.
pub open spec fn corner_turns(from: Direction, to: Direction) -> u8 {
    if (from == Direction::Right && to == Direction::Up) || (from == Direction::Down && to
        == Direction::Left) {
        1
    } else if (from == Direction::Down && to == Direction::Right) || (from == Direction::Left && to
        == Direction::Up) {
        2
    } else if (from == Direction::Up && to == Direction::Right) || (from == Direction::Left && to
        == Direction::Down) {
        3
    } else {
        0
    }
}

/// The head is drawn as it is. A piece entered and left along one axis is a
/// straight piece, turned once when that axis is vertical. Any other piece is
/// a corner.
pub open spec fn drawing_of(segment: Segment) -> Drawing {
    if segment.is_head {
        Drawing { sprite: Sprite::Head, quarter_turns: 0 }
    } else if is_horizontal(segment.direction_from) && is_horizontal(segment.direction_to) {
        Drawing { sprite: Sprite::Straight, quarter_turns: 0 }
    } else if !is_horizontal(segment.direction_from) && !is_horizontal(segment.direction_to) {
        Drawing { sprite: Sprite::Straight, quarter_turns: 1 }
    } else {
        Drawing {
            sprite: Sprite::Corner,
            quarter_turns: corner_turns(segment.direction_from, segment.direction_to),
        }
    }
}

/// The picture for `segment`.
pub fn drawing(segment: &Segment) -> (picture: Drawing)
    ensures
        picture == drawing_of(*segment),
{
    if segment.is_head {
        return Drawing { sprite: Sprite::Head, quarter_turns: 0 };
    }
    match (segment.direction_from, segment.direction_to) {
        (Direction::Right, Direction::Left)
        | (Direction::Right, Direction::Right)
        | (Direction::Left, Direction::Left)
        | (Direction::Left, Direction::Right) => Drawing {
            sprite: Sprite::Straight,
            quarter_turns: 0,
        },
        (Direction::Up, Direction::Down)
        | (Direction::Up, Direction::Up)
        | (Direction::Down, Direction::Down)
        | (Direction::Down, Direction::Up) => Drawing { sprite: Sprite::Straight, quarter_turns: 1 },
        (Direction::Right, Direction::Up) | (Direction::Down, Direction::Left) => Drawing {
            sprite: Sprite::Corner,
            quarter_turns: 1,
        },
        (Direction::Down, Direction::Right) | (Direction::Left, Direction::Up) => Drawing {
            sprite: Sprite::Corner,
            quarter_turns: 2,
        },
        (Direction::Up, Direction::Right) | (Direction::Left, Direction::Down) => Drawing {
            sprite: Sprite::Corner,
            quarter_turns: 3,
        },
        _ => Drawing { sprite: Sprite::Corner, quarter_turns: 0 },
    }
}

} // verus!
