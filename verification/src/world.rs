//! World storage containers: dimensions hold chunks, chunks hold 16x16x16
//! block sections, and a generator queues chunk coordinates to fill in.

use std::collections::HashMap;
use vstd::prelude::*;

verus! {

/// One block's state, as a palette id.
#[derive(Copy, Clone, Debug, PartialEq, Eq, Structural)]
pub struct BlockState(pub u16);

/// How many sections a chunk stacks vertically.
pub const SECTIONS_PER_CHUNK: usize = 24;

/// A 16x16x16 set of blocks; chunks consist of several of these. Blocks are
/// stored flat, x-major then y then z.
pub struct ChunkSection {
    blocks: Vec<BlockState>,
}

impl ChunkSection {
    /// The flat block storage.
    pub closed spec fn spec_blocks(&self) -> Seq<BlockState> {
        self.blocks@
    }

    /// A section holds exactly 16 * 16 * 16 blocks.
    pub open spec fn wf(&self) -> bool {
        self.spec_blocks().len() == 4096
    }

    /// The block at the given coordinates.
    pub open spec fn spec_block_at(&self, x: int, y: int, z: int) -> BlockState {
        self.spec_blocks()[x * 256 + y * 16 + z]
    }

    /// A section uniformly filled with one block state.
    pub fn new_filled(fill: BlockState) -> (r: ChunkSection)
        ensures
            r.wf(),
            forall|x: int, y: int, z: int|
                0 <= x < 16 && 0 <= y < 16 && 0 <= z < 16 ==> r.spec_block_at(x, y, z) == fill,
    {
        let mut blocks: Vec<BlockState> = Vec::new();
        let mut i: usize = 0;
        while i < 4096
            invariant
                i <= 4096,
                blocks@.len() == i,
                forall|j: int| 0 <= j < i ==> blocks@[j] == fill,
            decreases 4096 - i,
        {
            blocks.push(fill);
            i = i + 1;
        }
        ChunkSection { blocks }
    }

    /// A reference to the block state at the provided coordinates.
    pub fn get_blockstate(&self, x: usize, y: usize, z: usize) -> (r: &BlockState)
        requires
            self.wf(),
            x < 16,
            y < 16,
            z < 16,
        ensures
            *r == self.spec_block_at(x as int, y as int, z as int),
    {
        &self.blocks[x * 256 + y * 16 + z]
    }

    /// A mutable reference to the block state at the provided coordinates;
    /// the section afterwards holds whatever the caller leaves behind it.
    pub fn get_blockstate_mut(&mut self, x: usize, y: usize, z: usize) -> (r: &mut BlockState)
        requires
            old(self).wf(),
            x < 16,
            y < 16,
            z < 16,
        ensures
            *r == old(self).spec_block_at(x as int, y as int, z as int),
            final(self).spec_blocks() == old(self).spec_blocks().update(
                x * 256 + y * 16 + z,
                *final(r),
            ),
            final(self).wf(),
    {
        &mut self.blocks[x * 256 + y * 16 + z]
    }

    /// Sets the given block state at the given coordinates in the section.
    pub fn set_blockstate(&mut self, new_state: BlockState, x: usize, y: usize, z: usize)
        requires
            old(self).wf(),
            x < 16,
            y < 16,
            z < 16,
        ensures
            final(self).wf(),
            final(self).spec_blocks() == old(self).spec_blocks().update(
                x * 256 + y * 16 + z,
                new_state,
            ),
            final(self).spec_block_at(x as int, y as int, z as int) == new_state,
    {
        self.blocks.set(x * 256 + y * 16 + z, new_state);
    }
}

/// A vertical stack of sections at one chunk coordinate.
pub struct Chunk {
    x_pos: i64,
    z_pos: i64,
    sections: Vec<ChunkSection>,
}

impl Chunk {
    /// The stacked sections.
    pub closed spec fn spec_sections(&self) -> Seq<ChunkSection> {
        self.sections@
    }

    /// A chunk stacks exactly 24 well-formed sections.
    pub open spec fn wf(&self) -> bool {
        self.spec_sections().len() == 24 && (forall|i: int|
            0 <= i < 24 ==> self.spec_sections()[i].wf())
    }

    /// A chunk at the given coordinates, uniformly filled with one block
    /// state.
    pub fn new_filled(x_pos: i64, z_pos: i64, fill: BlockState) -> (r: Chunk)
        ensures
            r.wf(),
            forall|i: int, x: int, y: int, z: int|
                0 <= i < 24 && 0 <= x < 16 && 0 <= y < 16 && 0 <= z < 16
                    ==> r.spec_sections()[i].spec_block_at(x, y, z) == fill,
    {
        let mut sections: Vec<ChunkSection> = Vec::new();
        let mut i: usize = 0;
        while i < SECTIONS_PER_CHUNK
            invariant
                i <= 24,
                sections@.len() == i,
                forall|j: int| 0 <= j < i ==> sections@[j].wf(),
                forall|j: int, x: int, y: int, z: int|
                    0 <= j < i && 0 <= x < 16 && 0 <= y < 16 && 0 <= z < 16
                        ==> sections@[j].spec_block_at(x, y, z) == fill,
            decreases 24 - i,
        {
            sections.push(ChunkSection::new_filled(fill));
            i = i + 1;
        }
        Chunk { x_pos, z_pos, sections }
    }

    /// A mutable reference to the section at the index, which runs from -4 to
    /// 19.
    pub fn section(&mut self, index: i32) -> (r: &mut ChunkSection)
        requires
            old(self).wf(),
            -4 <= index <= 19,
        ensures
            *r == old(self).spec_sections()[index + 4],
            final(self).spec_sections() == old(self).spec_sections().update(index + 4, *final(r)),
            final(r).wf() ==> final(self).wf(),
    {
        &mut self.sections[(index + 4) as usize]
    }

    /// Recomputes derived chunk state; nothing is derived yet, so the chunk
    /// is left as it is.
    pub fn update(&mut self)
        ensures
            *final(self) == *old(self),
    {
    }
}

/// Options and the queue of chunk coordinates waiting to be generated.
pub struct ChunkGenerator {
    gen_queue: Vec<(i32, i32)>,
}

impl ChunkGenerator {
    /// The queued coordinates, oldest first.
    pub closed spec fn spec_queue(&self) -> Seq<(i32, i32)> {
        self.gen_queue@
    }

    /// A generator with nothing queued.
    pub fn new() -> (r: ChunkGenerator)
        ensures
            r.spec_queue() == Seq::<(i32, i32)>::empty(),
    {
        ChunkGenerator { gen_queue: Vec::new() }
    }
}

/// One dimension of the world: its chunks, keyed by coordinate, and its
/// generator.
pub struct Dimension {
    chunks: HashMap<(i32, i32), Chunk>,
    generator: ChunkGenerator,
}

impl Dimension {
    /// The chunks, keyed by coordinate.
    pub closed spec fn spec_chunks(&self) -> Map<(i32, i32), Chunk> {
        self.chunks@
    }

    /// A dimension with no chunks and nothing queued.
    pub fn new() -> (r: Dimension)
        ensures
            r.spec_chunks() == Map::<(i32, i32), Chunk>::empty(),
            r.generator_queue() == Seq::<(i32, i32)>::empty(),
    {
        Dimension { chunks: HashMap::new(), generator: ChunkGenerator::new() }
    }

    /// What the dimension's generator has queued.
    pub closed spec fn generator_queue(&self) -> Seq<(i32, i32)> {
        self.generator.spec_queue()
    }
}

} // verus!
