//! The player as a stand-alone creature record.
//!
//! On an active level the player is `monsters[0]`; this record exists for
//! callers that track the player outside a level.

use vstd::prelude::*;

use crate::monster::Creature;
use crate::point::Point;
use crate::tile::Tile;

verus! {

/// The player's appearance and position.
pub struct Player {
    pub tile: Tile,
    pub pos: Point,
}

impl Creature for Player {
    open spec fn spec_pos(&self) -> Point {
        self.pos
    }

    fn get_pos(&self) -> (p: Point)
        ensures
            p == self.spec_pos(),
    {
        self.pos
    }

    fn set_pos(&mut self, pos: Point)
        ensures
            final(self).spec_pos() == pos,
    {
        self.pos = pos;
    }

    fn is_player(&self) -> bool {
        true
    }
}

} // verus!
