//! A bare chunk grid that tracks only ground type and tilled state per tile.

use vstd::prelude::*;
use crate::CHUNK_SIZE;
use crate::ground_type::GroundType;
use crate::map_pos::TilePos;

verus! {

/// A fixed-size square grid of ground types and tilled flags, addressed by
/// `x + y * CHUNK_SIZE`.
pub struct Chunk {
    pub ground: Vec<GroundType>,
    pub is_tilled: Vec<bool>,
}

impl Chunk {
    /// Both arrays cover the whole chunk.
    pub open spec fn wf(self) -> bool {
        &&& self.ground@.len() == CHUNK_SIZE * CHUNK_SIZE
        &&& self.is_tilled@.len() == CHUNK_SIZE * CHUNK_SIZE
    }

    /// The tilled flag at coordinates `(x, y)`.
    pub open spec fn spec_at(self, x: int, y: int) -> bool {
        self.is_tilled@[x + y * CHUNK_SIZE]
    }

    /// Whether the tile at `(x, y)` is tilled.
    pub fn at(&self, x: u32, y: u32) -> (r: bool)
        requires
            self.wf(),
            x < CHUNK_SIZE,
            y < CHUNK_SIZE,
        ensures
            r == self.spec_at(x as int, y as int),
    {
        proof {
            assert(x + y * (CHUNK_SIZE as u32) < CHUNK_SIZE * CHUNK_SIZE) by (nonlinear_arith)
                requires x < CHUNK_SIZE && y < CHUNK_SIZE;
        }
        self.is_tilled[x as usize + y as usize * CHUNK_SIZE]
    }

    pub fn at_pos(&self, pos: &TilePos) -> (r: bool)
        requires
            self.wf(),
            pos.wf(),
        ensures
            r == self.spec_at(pos.x as int, pos.y as int),
    {
        self.at(pos.x, pos.y)
    }

    /// Sets the tilled flag at `(x, y)`, leaving every other tile and all
    /// ground types unchanged.
    pub fn set_at(&mut self, x: u32, y: u32, value: bool)
        requires
            old(self).wf(),
            x < CHUNK_SIZE,
            y < CHUNK_SIZE,
        ensures
            final(self).wf(),
            final(self).is_tilled@
                == old(self).is_tilled@.update(x + y * CHUNK_SIZE, value),
            final(self).ground@ == old(self).ground@,
    {
        proof {
            assert(x + y * (CHUNK_SIZE as u32) < CHUNK_SIZE * CHUNK_SIZE) by (nonlinear_arith)
                requires x < CHUNK_SIZE && y < CHUNK_SIZE;
        }
        self.is_tilled.set(x as usize + y as usize * CHUNK_SIZE, value);
    }

    pub fn set_at_pos(&mut self, pos: &TilePos, value: bool)
        requires
            old(self).wf(),
            pos.wf(),
        ensures
            final(self).wf(),
            final(self).is_tilled@
                == old(self).is_tilled@.update(pos.spec_index(), value),
            final(self).ground@ == old(self).ground@,
    {
        self.set_at(pos.x, pos.y, value);
    }
}

impl Default for Chunk {
    /// Untilled grass everywhere.
    fn default() -> (r: Self)
        ensures
            r.wf(),
            forall|i: int| 0 <= i < CHUNK_SIZE * CHUNK_SIZE
                ==> r.ground@[i] == GroundType::Grass,
            forall|i: int| 0 <= i < CHUNK_SIZE * CHUNK_SIZE ==> !r.is_tilled@[i],
    {
        let n = CHUNK_SIZE * CHUNK_SIZE;
        let mut ground: Vec<GroundType> = Vec::new();
        let mut is_tilled: Vec<bool> = Vec::new();
        let mut i: usize = 0;
        while i < n
            invariant
                n == CHUNK_SIZE * CHUNK_SIZE,
                i <= n,
                ground@.len() == i,
                is_tilled@.len() == i,
                forall|j: int| 0 <= j < i ==> ground@[j] == GroundType::Grass,
                forall|j: int| 0 <= j < i ==> !is_tilled@[j],
            decreases n - i,
        {
            ground.push(GroundType::Grass);
            is_tilled.push(false);
            i = i + 1;
        }
        Chunk { ground, is_tilled }
    }
}

} // verus!
