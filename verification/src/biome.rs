use crate::random::{hash_pair_into, hash_u64_into, next_draw, small_rng_from_seed};
use rand::rngs::SmallRng;
use std::collections::hash_map::DefaultHasher;
use std::hash::Hasher;
use vstd::prelude::*;

verus! {

/// Width, in blocks, of a chunk along x and z.
pub const CHUNK_SIZE: usize = 8;

/// Number of biome kinds a biome center can take.
pub const NUM_BIOMES: u64 = 5;

/// Largest number of layers that a biome can describe.
pub const MAX_NUMBER_LAYER: usize = 8;

/// Kinds of blocks and items of the world.
#[allow(non_camel_case_types)]
#[derive(Clone, Copy, Debug, PartialEq, Eq, Structural)]
pub enum Block {
    GRASS,
    DIRT,
    COBBELSTONE,
    OAKLOG,
    OAKLEAVES,
    SWORD,
}

/// One layer of a biome: from `start_y_from_top` blocks under the surface
/// downwards, the terrain is made of `block`.
#[derive(Clone, Copy, Debug, PartialEq, Eq, Structural)]
pub struct BiomeLayer {
    pub start_y_from_top: i32,
    pub block: Block,
}

/// Depth at which layer `i` starts.
pub open spec fn layer_start(layers: Seq<Option<BiomeLayer>>, i: int) -> i32 {
    layers[i]->0.start_y_from_top
}

/// The first `n` layers are all present and ordered from the shallowest to the
/// deepest, with `1 <= n <= layers.len()`.
pub open spec fn layers_valid(layers: Seq<Option<BiomeLayer>>, n: int) -> bool {
    &&& 1 <= n <= layers.len()
    &&& forall|i: int| 0 <= i < n ==> (#[trigger] layers[i]) is Some
    &&& forall|i: int, j: int|
        0 <= i < j < n ==> layer_start(layers, i) < layer_start(layers, j)
}

/// Index of the deepest layer among the first `n` that starts at or above
/// depth `y`, or -1 when there is none.
pub open spec fn last_layer_at(layers: Seq<Option<BiomeLayer>>, n: int, y: i32) -> int
    decreases n,
{
    if n <= 0 {
        -1
    } else if layer_start(layers, n - 1) <= y {
        n - 1
    } else {
        last_layer_at(layers, n - 1, y)
    }
}

/// Block found at depth `y` under the surface, for the first `n` layers.
pub open spec fn block_at(layers: Seq<Option<BiomeLayer>>, n: int, y: i32) -> Option<Block> {
    let i = last_layer_at(layers, n, y);
    if i < 0 {
        None
    } else {
        Some(layers[i]->0.block)
    }
}

/// The part of a biome that says which block lies at which depth.
///
/// The first `num_layer` entries of `layers` are present and ordered from the
/// shallowest to the deepest; the remaining ones are not read.
#[derive(Clone, Copy)]
pub struct BiomeConfig {
    pub name: &'static str,
    pub layers: [Option<BiomeLayer>; 8],
    pub num_layer: usize,
}

impl BiomeConfig {
    /// The layers respect the convention that `new` asks for.
    pub open spec fn wf(&self) -> bool {
        layers_valid(self.layers@, self.num_layer as int)
    }

    /// Checks that the first `num_layer` layers are present and strictly
    /// ordered, which `new` requires.
    pub fn layers_are_valid(layers: &[Option<BiomeLayer>; 8], num_layer: usize) -> (r: bool)
        ensures
            r == layers_valid(layers@, num_layer as int),
    {
        if num_layer == 0 || (num_layer == 1 && layers[0].is_none()) {
            return false;
        }
        if num_layer > MAX_NUMBER_LAYER {
            return false;
        }
        let mut i: usize = 0;
        while i < num_layer - 1
            invariant
                1 <= num_layer <= 8,
                layers@.len() == 8,
                num_layer >= 2 || layers@[0] is Some,
                0 <= i <= num_layer - 1,
                forall|k: int| 0 <= k < i ==> (#[trigger] layers@[k]) is Some,
                i > 0 ==> layers@[i as int] is Some,
                forall|a: int, b: int|
                    0 <= a < b <= i && b < num_layer ==> layer_start(layers@, a) < layer_start(
                        layers@,
                        b,
                    ),
            decreases num_layer - 1 - i,
        {
            match (layers[i], layers[i + 1]) {
                (Some(curr_layer), Some(next_layer)) => {
                    if next_layer.start_y_from_top <= curr_layer.start_y_from_top {
                        assert(!(layer_start(layers@, i as int) < layer_start(
                            layers@,
                            i + 1,
                        )));
                        return false;
                    }
                },
                _ => {
                    assert(!(layers@[i as int] is Some && layers@[i + 1] is Some));
                    return false;
                },
            }
            proof {
                assert forall|a: int, b: int|
                    0 <= a < b <= i + 1 && b < num_layer implies layer_start(layers@, a)
                    < layer_start(layers@, b) by {
                    if b == i + 1 && a < i {
                        assert(layer_start(layers@, a) < layer_start(layers@, i as int));
                    }
                }
            }
            i = i + 1;
        }
        assert(layers@[i as int] is Some);
        true
    }

    /// Builds a biome from layers that respect the convention (see
    /// `layers_are_valid`).
    pub fn new(name: &'static str, layers: [Option<BiomeLayer>; 8], num_layer: usize) -> (r: Self)
        requires
            layers_valid(layers@, num_layer as int),
        ensures
            r.name == name,
            r.layers == layers,
            r.num_layer == num_layer,
            r.wf(),
    {
        Self { name, layers, num_layer }
    }

    /// Block found at depth `y` under the surface: that of the deepest layer
    /// starting at or above `y`, or `None` above the first layer.
    pub fn get_block_at(&self, y: i32) -> (r: Option<Block>)
        requires
            self.wf(),
        ensures
            r == block_at(self.layers@, self.num_layer as int, y),
    {
        proof {
            lemma_first_layer(self.layers@, self.num_layer as int, y);
        }
        match self.layers[0] {
            None => {
                return None;
            },
            Some(first) => {
                if first.start_y_from_top > y {
                    return None;
                }
            },
        }
        let mut low: usize = 0;
        let mut high: usize = self.num_layer;
        while low < high
            invariant
                self.wf(),
                self.layers@.len() == 8,
                0 <= low <= high <= self.num_layer,
                forall|i: int| 0 <= i < low ==> layer_start(self.layers@, i) <= y,
                forall|i: int| high <= i < self.num_layer ==> layer_start(self.layers@, i) > y,
                layer_start(self.layers@, 0) <= y,
            decreases high - low,
        {
            let mid = low + (high - low) / 2;
            assert(self.layers@[mid as int] is Some);
            if self.layers[mid].unwrap().start_y_from_top <= y {
                proof {
                    assert forall|i: int| 0 <= i < mid + 1 implies layer_start(self.layers@, i)
                        <= y by {
                        if i < mid {
                            assert(layer_start(self.layers@, i) < layer_start(
                                self.layers@,
                                mid as int,
                            ));
                        }
                    }
                }
                low = mid + 1;
            } else {
                proof {
                    assert forall|i: int| mid <= i < self.num_layer implies layer_start(
                        self.layers@,
                        i,
                    ) > y by {
                        if i > mid {
                            assert(layer_start(self.layers@, mid as int) < layer_start(
                                self.layers@,
                                i,
                            ));
                        }
                    }
                }
                high = mid;
            }
        }
        proof {
            lemma_last_layer_split(self.layers@, self.num_layer as int, y, low as int);
        }
        assert(low >= 1);
        assert(self.layers@[low - 1] is Some);
        Some(self.layers[low - 1].unwrap().block)
    }
}

proof fn lemma_first_layer(layers: Seq<Option<BiomeLayer>>, n: int, y: i32)
    requires
        layers_valid(layers, n),
    ensures
        layer_start(layers, 0) > y ==> last_layer_at(layers, n, y) == -1,
        layers[0] is Some,
{
    assert(layers[0] is Some);
    if layer_start(layers, 0) > y {
        lemma_last_layer_split(layers, n, y, 0);
    }
}

proof fn lemma_last_layer_split(layers: Seq<Option<BiomeLayer>>, n: int, y: i32, k: int)
    requires
        0 <= k <= n,
        forall|i: int| 0 <= i < k ==> layer_start(layers, i) <= y,
        forall|i: int| k <= i < n ==> layer_start(layers, i) > y,
    ensures
        last_layer_at(layers, n, y) == k - 1,
    decreases n,
{
    if n > k {
        lemma_last_layer_split(layers, n - 1, y, k);
    }
}


/// Division of `a` by a positive `d`, rounded toward zero.
pub open spec fn div_toward_zero(a: int, d: int) -> int {
    if a >= 0 {
        a / d
    } else {
        -((-a) / d)
    }
}

/// World coordinates of the block at `coord_in_chunk` in the chunk at
/// `chunk_coord`; the result is truncated to 32 bits.
pub open spec fn world_coord(chunk_coord: int, coord_in_chunk: u64) -> i32 {
    (8 * chunk_coord + (coord_in_chunk as i64)) as i32
}

/// The blocks of a chunk at coordinate `c` (from `8 * c` to `8 * c + 7`)
/// have 64-bit world coordinates.
pub open spec fn chunk_blocks_fit(c: i64) -> bool {
    i64::MIN <= 8 * c && 8 * c + 7 <= i64::MAX
}

/// Largest ring level whose side, `2 * level + 1` chunks, is an `i64`.
pub const MAX_SHELL_LEVEL: i64 = 0x3FFF_FFFF_FFFF_FFFF;

/// The chunk offsets of a list, as pairs of integers.
pub open spec fn offsets(s: Seq<[i64; 2]>) -> Seq<(int, int)> {
    s.map_values(|p: [i64; 2]| (p[0] as int, p[1] as int))
}

/// Absolute value.
pub open spec fn abs(v: int) -> int {
    if v < 0 {
        -v
    } else {
        v
    }
}

/// Row `i` of the square ring at distance `level`: the whole side when it is
/// the first or the last row, else its two ends.
pub open spec fn shell_row(level: int, i: int) -> Seq<(int, int)> {
    let x = i - level;
    if abs(x) == level {
        Seq::new((2 * level + 1) as nat, |j: int| (x, j - level))
    } else {
        seq![(x, level), (x, -level)]
    }
}

/// The first `n` rows of the ring at distance `level`, one after the other.
pub open spec fn shell_rows(level: int, n: int) -> Seq<(int, int)>
    decreases n,
{
    if n <= 0 {
        Seq::empty()
    } else {
        shell_rows(level, n - 1) + shell_row(level, n - 1)
    }
}

/// Offsets of the chunks at distance exactly `level` (for the maximum norm)
/// from a chunk, row by row; empty for a negative level.
pub open spec fn chunk_shell(level: int) -> Seq<(int, int)> {
    if level < 0 {
        Seq::empty()
    } else {
        shell_rows(level, 2 * level + 1)
    }
}

/// Places the biome generator asks for.
pub struct BiomeGenerator {}

impl BiomeGenerator {
    /// Position of the chunk that holds the block at `world_pos`, each
    /// coordinate divided by the chunk size and rounded toward zero.
    pub fn get_chunk_coord(world_pos: [i32; 2]) -> (r: [i64; 2])
        ensures
            r[0] == div_toward_zero(world_pos[0] as int, CHUNK_SIZE as int),
            r[1] == div_toward_zero(world_pos[1] as int, CHUNK_SIZE as int),
    {
        let size = CHUNK_SIZE as i32;
        [(world_pos[0] / size) as i64, (world_pos[1] / size) as i64]
    }

    /// Pseudo-random generator of the chunk at `chunk_coord` in the world made
    /// with `seed`: seeded with the hash of the world seed and of the chunk
    /// position, so that each chunk always draws the same numbers.
    pub fn get_chunk_rng(seed: u64, chunk_coord: [i64; 2]) -> SmallRng {
        let mut hasher = DefaultHasher::new();
        hash_u64_into(seed, &mut hasher);
        hash_pair_into(chunk_coord, &mut hasher);
        let specific_seed_hash = hasher.finish();
        small_rng_from_seed(specific_seed_hash)
    }

    /// Biome center placed in the chunk at `chunk_coord` from three draws:
    /// the block at (`draw_x % 8`, `draw_z % 8`) in the chunk, of the biome
    /// kind `draw_type % NUM_BIOMES`.
    pub fn biome_center_from_draws(
        chunk_coord: [i64; 2],
        draw_x: u64,
        draw_z: u64,
        draw_type: u64,
    ) -> (r: (Option<[i32; 2]>, u64))
        requires
            chunk_blocks_fit(chunk_coord[0]),
            chunk_blocks_fit(chunk_coord[1]),
        ensures
            r.0 is Some,
            r.0->0[0] == world_coord(chunk_coord[0] as int, draw_x % 8),
            r.0->0[1] == world_coord(chunk_coord[1] as int, draw_z % 8),
            r.1 == draw_type % NUM_BIOMES,
    {
        let x = draw_x % 8;
        let z = draw_z % 8;
        (Some(Self::get_world_coord(chunk_coord, [x, z])), draw_type % NUM_BIOMES)
    }

    /// Draws the place and kind of the biome center of the chunk at
    /// `chunk_coord`, once the chunk is known to hold one: whatever `rng`
    /// gives, the center is a block of that chunk and its kind is below
    /// `NUM_BIOMES`.
    pub fn draw_biome_center(chunk_coord: [i64; 2], rng: &mut SmallRng) -> (r: (
        Option<[i32; 2]>,
        u64,
    ))
        requires
            chunk_blocks_fit(chunk_coord[0]),
            chunk_blocks_fit(chunk_coord[1]),
        ensures
            r.0 is Some,
            exists|dx: u64, dz: u64|
                #![trigger world_coord(chunk_coord[0] as int, dx), world_coord(chunk_coord[1] as int, dz)]
                dx < 8 && dz < 8 && r.0->0[0] == world_coord(chunk_coord[0] as int, dx)
                    && r.0->0[1] == world_coord(chunk_coord[1] as int, dz),
            r.1 < NUM_BIOMES,
    {
        let draw_x = next_draw(rng);
        let draw_z = next_draw(rng);
        let draw_type = next_draw(rng);
        let r = Self::biome_center_from_draws(chunk_coord, draw_x, draw_z, draw_type);
        assert(world_coord(chunk_coord[0] as int, draw_x % 8) == r.0->0[0]);
        assert(world_coord(chunk_coord[1] as int, draw_z % 8) == r.0->0[1]);
        r
    }

    /// Offsets of the ring of chunks at distance `level` around a chunk, row
    /// by row from `x == -level` to `x == level`.
    ///
    /// For `level == 1`, with `x` the center, the chunks `o`:
    /// ```text
    /// o o o
    /// o x o
    /// o o o
    /// ```
    pub fn get_chunk_shell(level: i64) -> (r: Vec<[i64; 2]>)
        requires
            i64::MIN / 2 <= level <= MAX_SHELL_LEVEL,
        ensures
            offsets(r@) == chunk_shell(level as int),
    {
        let num_side: i64 = 2 * level + 1;
        let half_side: i64 = num_side / 2;
        let mut chunks_in_shell: Vec<[i64; 2]> = vec![];
        if num_side <= 0 {
            assert(offsets(chunks_in_shell@) =~= chunk_shell(level as int));
            return chunks_in_shell;
        }
        assert(half_side == level);
        let mut i: i64 = 0;
        while i < num_side
            invariant
                0 <= level <= MAX_SHELL_LEVEL,
                num_side == 2 * level + 1,
                half_side == level,
                0 <= i <= num_side,
                offsets(chunks_in_shell@) == shell_rows(level as int, i as int),
            decreases num_side - i,
        {
            let x: i64 = i - half_side;
            let ghost before = chunks_in_shell@;
            if x == half_side || x == -half_side {
                let mut j: i64 = 0;
                while j < num_side
                    invariant
                        0 <= level <= MAX_SHELL_LEVEL,
                        num_side == 2 * level + 1,
                        half_side == level,
                        0 <= i < num_side,
                        x == i - half_side,
                        abs(x as int) == level,
                        0 <= j <= num_side,
                        offsets(chunks_in_shell@) == offsets(before) + shell_row(
                            level as int,
                            i as int,
                        ).take(j as int),
                    decreases num_side - j,
                {
                    let z: i64 = j - half_side;
                    let ghost prev = chunks_in_shell@;
                    chunks_in_shell.push([x, z]);
                    assert(shell_row(level as int, i as int)[j as int] == (x as int, z as int));
                    assert(offsets(chunks_in_shell@) =~= offsets(prev).push((x as int, z as int)));
                    assert(offsets(chunks_in_shell@) =~= offsets(before) + shell_row(
                        level as int,
                        i as int,
                    ).take(j + 1));
                    j = j + 1;
                }
                assert(shell_row(level as int, i as int).take(num_side as int) =~= shell_row(
                    level as int,
                    i as int,
                ));
            } else {
                chunks_in_shell.push([x, half_side]);
                chunks_in_shell.push([x, -half_side]);
                assert(offsets(chunks_in_shell@) =~= offsets(before) + shell_row(
                    level as int,
                    i as int,
                ));
            }
            i = i + 1;
        }
        chunks_in_shell
    }

    /// World position of the block at `coord_in_chunk` inside the chunk at
    /// `chunk_coord` (each coordinate truncated to 32 bits).
    pub fn get_world_coord(chunk_coord: [i64; 2], coord_in_chunk: [u64; 2]) -> (r: [i32; 2])
        requires
            i64::MIN <= 8 * chunk_coord[0] + (coord_in_chunk[0] as i64) <= i64::MAX,
            i64::MIN <= 8 * chunk_coord[1] + (coord_in_chunk[1] as i64) <= i64::MAX,
            i64::MIN <= 8 * chunk_coord[0] <= i64::MAX,
            i64::MIN <= 8 * chunk_coord[1] <= i64::MAX,
        ensures
            r[0] == world_coord(chunk_coord[0] as int, coord_in_chunk[0]),
            r[1] == world_coord(chunk_coord[1] as int, coord_in_chunk[1]),
    {
        let x: i32 = #[verifier::truncate] ((8 * chunk_coord[0] + #[verifier::truncate] (
        coord_in_chunk[0] as i64)) as i32);
        let z: i32 = #[verifier::truncate] ((8 * chunk_coord[1] + #[verifier::truncate] (
        coord_in_chunk[1] as i64)) as i32);
        [x, z]
    }
}


/// Going from a chunk to one of its blocks and back gives the chunk again,
/// for chunks at non-negative coordinates whose blocks have 32-bit
/// coordinates.
pub proof fn lemma_chunk_of_world_coord(chunk_coord: int, coord_in_chunk: u64)
    requires
        0 <= chunk_coord,
        coord_in_chunk < CHUNK_SIZE,
        8 * chunk_coord + coord_in_chunk <= i32::MAX,
    ensures
        div_toward_zero(world_coord(chunk_coord, coord_in_chunk) as int, CHUNK_SIZE as int)
            == chunk_coord,
{
    assert(world_coord(chunk_coord, coord_in_chunk) == 8 * chunk_coord + coord_in_chunk);
}

/// Distance of a chunk offset from the center chunk, for the maximum norm.
pub open spec fn ring_distance(p: (int, int)) -> int {
    if abs(p.0) >= abs(p.1) {
        abs(p.0)
    } else {
        abs(p.1)
    }
}

proof fn lemma_shell_rows_len(level: int, n: int)
    requires
        1 <= level,
        0 <= n <= 2 * level + 1,
    ensures
        shell_rows(level, n).len() == if n == 0 {
            0
        } else if n <= 2 * level {
            2 * level + 1 + 2 * (n - 1)
        } else {
            8 * level
        },
    decreases n,
{
    if n > 0 {
        lemma_shell_rows_len(level, n - 1);
    }
}

proof fn lemma_shell_rows_ring(level: int, n: int)
    requires
        0 <= level,
        0 <= n <= 2 * level + 1,
    ensures
        forall|k: int|
            0 <= k < shell_rows(level, n).len() ==> ring_distance(#[trigger] shell_rows(level, n)[k])
                == level,
    decreases n,
{
    if n > 0 {
        lemma_shell_rows_ring(level, n - 1);
        let prev = shell_rows(level, n - 1);
        let row = shell_row(level, n - 1);
        assert forall|k: int| 0 <= k < shell_rows(level, n).len() implies ring_distance(
            #[trigger] shell_rows(level, n)[k],
        ) == level by {
            if k >= prev.len() {
                assert(shell_rows(level, n)[k] == row[k - prev.len()]);
            } else {
                assert(shell_rows(level, n)[k] == prev[k]);
            }
        }
    }
}

proof fn lemma_shell_rows_prefix(level: int, m: int, n: int)
    requires
        0 <= m <= n,
    ensures
        shell_rows(level, m).len() <= shell_rows(level, n).len(),
        forall|k: int|
            0 <= k < shell_rows(level, m).len() ==> #[trigger] shell_rows(level, n)[k] == shell_rows(
                level,
                m,
            )[k],
    decreases n,
{
    if n > m {
        lemma_shell_rows_prefix(level, m, n - 1);
        assert forall|k: int| 0 <= k < shell_rows(level, m).len() implies #[trigger] shell_rows(
            level,
            n,
        )[k] == shell_rows(level, m)[k] by {
            assert(shell_rows(level, n)[k] == shell_rows(level, n - 1)[k]);
        }
    }
}

/// The ring of chunks at a level has one chunk for level 0 and `8 * level`
/// chunks above.
pub proof fn lemma_chunk_shell_len(level: int)
    requires
        0 <= level,
    ensures
        chunk_shell(level).len() == if level == 0 {
            1
        } else {
            8 * level
        },
{
    if level == 0 {
        assert(shell_rows(0, 1) =~= shell_rows(0, 0) + shell_row(0, 0));
    } else {
        lemma_shell_rows_len(level, 2 * level + 1);
    }
}

/// The ring of chunks at a level holds exactly the chunk offsets at that
/// distance from the center (for the maximum norm).
pub proof fn lemma_chunk_shell_is_ring(level: int)
    requires
        0 <= level,
    ensures
        forall|k: int|
            0 <= k < chunk_shell(level).len() ==> ring_distance(#[trigger] chunk_shell(level)[k])
                == level,
        forall|x: int, z: int|
            ring_distance((x, z)) == level ==> #[trigger] chunk_shell(level).contains((x, z)),
{
    lemma_shell_rows_ring(level, 2 * level + 1);
    assert forall|x: int, z: int| ring_distance((x, z)) == level implies #[trigger] chunk_shell(
        level,
    ).contains((x, z)) by {
        let i = x + level;
        let rows = shell_rows(level, i);
        let row = shell_row(level, i);
        let off = if abs(x) == level {
            z + level
        } else if z == level {
            0
        } else {
            1
        };
        assert(row[off] == (x, z));
        let full = shell_rows(level, i + 1);
        assert(full == rows + row);
        assert(full[rows.len() + off] == (x, z));
        lemma_shell_rows_prefix(level, i + 1, 2 * level + 1);
        assert(chunk_shell(level)[rows.len() + off] == (x, z));
    }
}


/// Manhattan distance between two points.
pub open spec fn manhattan(a: (int, int), b: (int, int)) -> int {
    abs(a.0 - b.0) + abs(a.1 - b.1)
}

/// Where a search for the closest biome center stands.
pub struct BiomeSearchState {
    /// The block whose biome is looked for.
    pub world_pos: (int, int),
    /// The chunk around which the rings are taken.
    pub center_chunk: (int, int),
    /// Distance of the ring of chunks being examined.
    pub level: int,
    /// Index, in that ring, of the next chunk to examine.
    pub next: int,
    /// Manhattan distance to the closest center seen, if any (an exact
    /// integer).
    pub shortest_dist: Option<int>,
    /// Biome kind of that center, `u64::MAX` while none was seen.
    pub closest_biome_type: u64,
    /// The centers handed in so far, with their kinds, in order.
    pub seen: Seq<((int, int), u64)>,
}

/// State in which the search for the biome of the block `(x, z)` starts.
pub open spec fn search_start(x: i32, z: i32) -> BiomeSearchState {
    BiomeSearchState {
        world_pos: (x as int, z as int),
        center_chunk: (
            div_toward_zero(x as int, CHUNK_SIZE as int),
            div_toward_zero(z as int, CHUNK_SIZE as int),
        ),
        level: 0,
        next: 0,
        shortest_dist: None,
        closest_biome_type: u64::MAX,
        seen: Seq::empty(),
    }
}

/// Smallest Manhattan distance from the block to a block of a chunk whose
/// offset from the center chunk is `level` or more, along one axis: the
/// block lies `lo` blocks past the first block of the center chunk.
pub open spec fn axis_bound(lo: int, level: int) -> int {
    if 8 * level - lo <= 8 * level - 7 + lo {
        8 * level - lo
    } else {
        8 * level - 7 + lo
    }
}

/// No block of a chunk at ring distance `level` or more from the center
/// chunk is closer to the block than this (Manhattan distance).
pub open spec fn ring_bound(s: BiomeSearchState, level: int) -> int {
    let bx = axis_bound(s.world_pos.0 - 8 * s.center_chunk.0, level);
    let bz = axis_bound(s.world_pos.1 - 8 * s.center_chunk.1, level);
    if bx <= bz {
        bx
    } else {
        bz
    }
}

/// State after the chunk being examined handed in the biome center `center`
/// (if any) of kind `biome_type`: a center strictly closer than all those seen
/// so far becomes the closest one, and the next chunk of the ring is due.
pub open spec fn after_center(s: BiomeSearchState, center: Option<[i32; 2]>, biome_type: u64) -> BiomeSearchState {
    let better = match center {
        Some(c) => s.shortest_dist is None || manhattan(s.world_pos, (c[0] as int, c[1] as int))
            < s.shortest_dist->0,
        None => false,
    };
    BiomeSearchState {
        world_pos: s.world_pos,
        center_chunk: s.center_chunk,
        level: s.level,
        next: s.next + 1,
        shortest_dist: if better {
            Some(manhattan(s.world_pos, (center->0[0] as int, center->0[1] as int)))
        } else {
            s.shortest_dist
        },
        closest_biome_type: if better {
            biome_type
        } else {
            s.closest_biome_type
        },
        seen: match center {
            Some(c) => s.seen.push(((c[0] as int, c[1] as int), biome_type)),
            None => s.seen,
        },
    }
}

/// One step of the search (see `after_center`). When the ring is exhausted,
/// the search ends with the kind of the closest center if no chunk of the
/// rings further out can hold a center as close (`ring_bound`); otherwise it
/// goes on with the next ring.
pub open spec fn search_step(s: BiomeSearchState, center: Option<[i32; 2]>, biome_type: u64) -> (
    BiomeSearchState,
    Option<u64>,
) {
    let t = after_center(s, center, biome_type);
    if t.next < chunk_shell(s.level).len() {
        (t, None)
    } else if t.shortest_dist matches Some(d) && d <= ring_bound(t, s.level + 1) {
        (t, Some(t.closest_biome_type))
    } else {
        (BiomeSearchState { level: s.level + 1, next: 0, ..t }, None)
    }
}

/// The step with `center` would go on past the ring at `MAX_SHELL_LEVEL`,
/// whose next ring has more chunks on a side than an `i64` counts.
pub open spec fn overruns(s: BiomeSearchState, center: Option<[i32; 2]>) -> bool {
    let t = after_center(s, center, 0);
    &&& t.next >= chunk_shell(s.level).len()
    &&& !(t.shortest_dist matches Some(d) && d <= ring_bound(t, s.level + 1))
    &&& s.level >= MAX_SHELL_LEVEL
}

/// Search for the closest biome center of a block, ring of chunks after ring
/// of chunks around the chunk of the block. The caller draws the biome center
/// of each chunk that `next_chunk` names and hands it to `on_chunk_center`,
/// until a biome kind comes back.
pub struct BiomeSearch {
    world_pos: [i32; 2],
    center_chunk: [i64; 2],
    level: i64,
    shell: Vec<[i64; 2]>,
    next: usize,
    shortest_dist: Option<u64>,
    closest_biome_type: u64,
    seen: Ghost<Seq<((int, int), u64)>>,
}

impl View for BiomeSearch {
    type V = BiomeSearchState;

    closed spec fn view(&self) -> BiomeSearchState {
        BiomeSearchState {
            world_pos: (self.world_pos[0] as int, self.world_pos[1] as int),
            center_chunk: (self.center_chunk[0] as int, self.center_chunk[1] as int),
            level: self.level as int,
            next: self.next as int,
            shortest_dist: match self.shortest_dist {
                Some(d) => Some(d as int),
                None => None,
            },
            closest_biome_type: self.closest_biome_type,
            seen: self.seen@,
        }
    }
}

impl BiomeSearch {
    /// The internal ring of chunks matches the state.
    pub closed spec fn wf(&self) -> bool {
        &&& 0 <= self.level <= MAX_SHELL_LEVEL
        &&& offsets(self.shell@) == chunk_shell(self.level as int)
        &&& self.next <= self.shell@.len()
        &&& self.center_chunk[0] == div_toward_zero(self.world_pos[0] as int, CHUNK_SIZE as int)
        &&& self.center_chunk[1] == div_toward_zero(self.world_pos[1] as int, CHUNK_SIZE as int)
        &&& self.shortest_dist matches Some(d) ==> d <= 0x2_0000_0000
    }

    /// The search has returned its result.
    pub open spec fn finished(&self) -> bool {
        self@.next >= chunk_shell(self@.level).len()
    }

    /// Starts the search for the biome of the block at `(x, z)`.
    pub fn new(x: i32, z: i32) -> (r: Self)
        ensures
            r.wf(),
            r@ == search_start(x, z),
            r@.world_pos == (x as int, z as int),
            !r.finished(),
    {
        let world_pos = [x, z];
        let shell = BiomeGenerator::get_chunk_shell(0);
        proof {
            lemma_chunk_shell_len(0);
        }
        Self {
            world_pos,
            center_chunk: BiomeGenerator::get_chunk_coord(world_pos),
            level: 0,
            shell,
            next: 0,
            shortest_dist: None,
            closest_biome_type: u64::MAX,
            seen: Ghost(Seq::empty()),
        }
    }

    /// The search has returned its result.
    pub fn is_finished(&self) -> (r: bool)
        requires
            self.wf(),
        ensures
            r == self.finished(),
    {
        self.next >= self.shell.len()
    }

    /// Chunk whose biome center the search needs next: the chunk of the
    /// block moved by the current offset of the ring.
    pub fn next_chunk(&self) -> (r: [i64; 2])
        requires
            self.wf(),
            !self.finished(),
        ensures
            r[0] == self@.center_chunk.0 + chunk_shell(self@.level)[self@.next].0,
            r[1] == self@.center_chunk.1 + chunk_shell(self@.level)[self@.next].1,
    {
        proof {
            lemma_chunk_shell_is_ring(self.level as int);
            assert(offsets(self.shell@)[self.next as int] == chunk_shell(self.level as int)[self.next as int]);
        }
        let offset = self.shell[self.next];
        [self.center_chunk[0] + offset[0], self.center_chunk[1] + offset[1]]
    }

    /// Smallest Manhattan distance from the block to a block of the rings past
    /// the current one (`ring_bound`).
    fn next_ring_bound(&self) -> (r: i128)
        requires
            self.wf(),
        ensures
            r == ring_bound(self@, self@.level + 1),
    {
        let level8: i128 = 8 * (self.level as i128 + 1);
        let lo_x: i128 = self.world_pos[0] as i128 - 8 * (self.center_chunk[0] as i128);
        let lo_z: i128 = self.world_pos[1] as i128 - 8 * (self.center_chunk[1] as i128);
        let bx: i128 = if level8 - lo_x <= level8 - 7 + lo_x {
            level8 - lo_x
        } else {
            level8 - 7 + lo_x
        };
        let bz: i128 = if level8 - lo_z <= level8 - 7 + lo_z {
            level8 - lo_z
        } else {
            level8 - 7 + lo_z
        };
        if bx <= bz {
            bx
        } else {
            bz
        }
    }

    /// Whether handing `center` in now would take the search past the ring at
    /// `MAX_SHELL_LEVEL` (see `overruns`), which `on_chunk_center` cannot do.
    pub fn goes_past_last_ring(&self, center: Option<[i32; 2]>) -> (r: bool)
        requires
            self.wf(),
            !self.finished(),
        ensures
            r == overruns(self@, center),
    {
        proof {
            assert(offsets(self.shell@).len() == self.shell@.len());
        }
        if self.shell.len() - self.next > 1 || self.level < MAX_SHELL_LEVEL {
            return false;
        }
        let mut shortest = self.shortest_dist;
        if let Some(c) = center {
            let dx: i64 = self.world_pos[0] as i64 - c[0] as i64;
            let dz: i64 = self.world_pos[1] as i64 - c[1] as i64;
            let adx: i64 = if dx < 0 { -dx } else { dx };
            let adz: i64 = if dz < 0 { -dz } else { dz };
            let new_dist: u64 = (adx + adz) as u64;
            let better = match self.shortest_dist {
                None => true,
                Some(d) => new_dist < d,
            };
            if better {
                shortest = Some(new_dist);
            }
        }
        match shortest {
            Some(d) => !((d as i128) <= self.next_ring_bound()),
            None => true,
        }
    }

    /// Takes the biome center of the chunk given by `next_chunk` (`None` when
    /// the chunk holds none) and its kind; returns the biome kind found once
    /// the search ends (see `search_step`).
    pub fn on_chunk_center(&mut self, center: Option<[i32; 2]>, biome_type: u64) -> (r: Option<u64>)
        requires
            old(self).wf(),
            !old(self).finished(),
            !overruns(old(self)@, center),
        ensures
            final(self).wf(),
            (final(self)@, r) == search_step(old(self)@, center, biome_type),
            r is Some <==> final(self).finished(),
    {
        proof {
            assert(offsets(self.shell@).len() == self.shell@.len());
        }
        if let Some(c) = center {
            let dx: i64 = self.world_pos[0] as i64 - c[0] as i64;
            let dz: i64 = self.world_pos[1] as i64 - c[1] as i64;
            let adx: i64 = if dx < 0 { -dx } else { dx };
            let adz: i64 = if dz < 0 { -dz } else { dz };
            let new_dist: u64 = (adx + adz) as u64;
            let better = match self.shortest_dist {
                None => true,
                Some(d) => new_dist < d,
            };
            if better {
                self.shortest_dist = Some(new_dist);
                self.closest_biome_type = biome_type;
            }
            self.seen = Ghost(self.seen@.push(((c[0] as int, c[1] as int), biome_type)));
        }
        let len = self.shell.len();
        assert(self.next < len);
        self.next = self.next + 1;
        if self.next < len {
            return None;
        }
        let bound = self.next_ring_bound();
        if let Some(d) = self.shortest_dist {
            if (d as i128) <= bound {
                return Some(self.closest_biome_type);
            }
        }
        assert(self.level < MAX_SHELL_LEVEL) by {
            assert(after_center(old(self)@, center, 0).shortest_dist == self@.shortest_dist);
        }
        self.level = self.level + 1;
        self.shell = BiomeGenerator::get_chunk_shell(self.level);
        self.next = 0;
        proof {
            lemma_chunk_shell_len(self.level as int);
        }
        None
    }
}

/// The search keeps, as its closest center, the first of the centers handed
/// in that is at the smallest Manhattan distance from the block, with its
/// kind; while none was handed in, it has no distance and the kind is
/// `u64::MAX`.
pub open spec fn keeps_closest(s: BiomeSearchState) -> bool {
    match s.shortest_dist {
        None => s.seen.len() == 0 && s.closest_biome_type == u64::MAX,
        Some(d) => {
            &&& forall|j: int|
                0 <= j < s.seen.len() ==> manhattan(s.world_pos, (#[trigger] s.seen[j]).0) >= d
            &&& exists|i: int|
                0 <= i < s.seen.len() && manhattan(s.world_pos, (#[trigger] s.seen[i]).0) == d
                    && s.seen[i].1 == s.closest_biome_type && forall|j: int|
                    0 <= j < i ==> manhattan(s.world_pos, (#[trigger] s.seen[j]).0) > d
        },
    }
}

/// The block `q` belongs to the chunk `c`.
pub open spec fn in_chunk(c: (int, int), q: (int, int)) -> bool {
    8 * c.0 <= q.0 < 8 * c.0 + 8 && 8 * c.1 <= q.1 < 8 * c.1 + 8
}

/// Offset of the chunk `c` from the center chunk of the search.
pub open spec fn chunk_offset(s: BiomeSearchState, c: (int, int)) -> (int, int) {
    (c.0 - s.center_chunk.0, c.1 - s.center_chunk.1)
}

/// The chunk `c` was examined: it lies on an earlier ring, or on the current
/// ring before the next chunk due.
pub open spec fn examined(s: BiomeSearchState, c: (int, int)) -> bool {
    let off = chunk_offset(s, c);
    ||| ring_distance(off) < s.level
    ||| ring_distance(off) == s.level && exists|j: int|
        0 <= j < s.next && #[trigger] chunk_shell(s.level)[j] == off
}

/// Chunk that the search examines next.
pub open spec fn due_chunk(s: BiomeSearchState) -> (int, int) {
    (
        s.center_chunk.0 + chunk_shell(s.level)[s.next].0,
        s.center_chunk.1 + chunk_shell(s.level)[s.next].1,
    )
}

/// `center` and `biome_type` are what `centers` gives for the chunk `c`:
/// the biome center of each chunk, if any, and its kind.
pub open spec fn fed_by(
    centers: spec_fn((int, int)) -> (Option<(int, int)>, u64),
    c: (int, int),
    center: Option<[i32; 2]>,
    biome_type: u64,
) -> bool {
    match center {
        None => centers(c).0 is None,
        Some(p) => centers(c).0 == Some((p[0] as int, p[1] as int)) && centers(c).1 == biome_type,
    }
}

/// The search was fed by `centers`: it keeps its closest center, and the
/// centers seen are exactly those of the examined chunks, with their kinds.
pub open spec fn follows(s: BiomeSearchState, centers: spec_fn((int, int)) -> (Option<(int, int)>, u64)) -> bool {
    &&& keeps_closest(s)
    &&& 0 <= s.level
    &&& 0 <= s.next <= chunk_shell(s.level).len()
    &&& forall|c: (int, int)|
        examined(s, c) && (#[trigger] centers(c)).0 is Some ==> s.seen.contains(
            (centers(c).0->0, centers(c).1),
        )
    &&& forall|i: int|
        0 <= i < s.seen.len() ==> exists|c: (int, int)|
            examined(s, c) && (#[trigger] centers(c)).0 == Some((#[trigger] s.seen[i]).0)
                && centers(c).1 == s.seen[i].1
}

proof fn lemma_keeps_closest_after_center(s: BiomeSearchState, center: Option<[i32; 2]>, biome_type: u64)
    requires
        keeps_closest(s),
    ensures
        keeps_closest(after_center(s, center, biome_type)),
{
    let t = after_center(s, center, biome_type);
    match center {
        None => {
            assert(t.seen == s.seen);
        },
        Some(c) => {
            let p = (c[0] as int, c[1] as int);
            let nd = manhattan(s.world_pos, p);
            assert(t.seen == s.seen.push((p, biome_type)));
            assert(t.seen[s.seen.len() as int] == (p, biome_type));
            match s.shortest_dist {
                None => {
                    assert(t.shortest_dist == Some(nd));
                    assert(manhattan(t.world_pos, t.seen[0].0) == nd);
                },
                Some(d) => {
                    let i = choose|i: int|
                        0 <= i < s.seen.len() && manhattan(s.world_pos, (#[trigger] s.seen[i]).0)
                            == d && s.seen[i].1 == s.closest_biome_type && forall|j: int|
                            0 <= j < i ==> manhattan(s.world_pos, (#[trigger] s.seen[j]).0) > d;
                    if nd < d {
                        let k = s.seen.len() as int;
                        assert(manhattan(t.world_pos, t.seen[k].0) == nd);
                        assert forall|j: int| 0 <= j < k implies manhattan(
                            t.world_pos,
                            (#[trigger] t.seen[j]).0,
                        ) > nd by {
                            assert(t.seen[j] == s.seen[j]);
                        }
                    } else {
                        assert(t.seen[i] == s.seen[i]);
                        assert forall|j: int| 0 <= j < i implies manhattan(
                            t.world_pos,
                            (#[trigger] t.seen[j]).0,
                        ) > d by {
                            assert(t.seen[j] == s.seen[j]);
                        }
                        assert forall|j: int| 0 <= j < t.seen.len() implies manhattan(
                            t.world_pos,
                            (#[trigger] t.seen[j]).0,
                        ) >= d by {
                            if j < s.seen.len() {
                                assert(t.seen[j] == s.seen[j]);
                            }
                        }
                    }
                },
            }
        },
    }
}

/// A block of a chunk at ring distance `level` or more from the center chunk
/// is at least `ring_bound(s, level)` away from the block of the search.
proof fn lemma_ring_bound(s: BiomeSearchState, level: int, c: (int, int), q: (int, int))
    requires
        0 <= level <= ring_distance(chunk_offset(s, c)),
        in_chunk(c, q),
    ensures
        manhattan(s.world_pos, q) >= ring_bound(s, level),
{
    let off = chunk_offset(s, c);
    let m = ring_distance(off);
    let lo_x = s.world_pos.0 - 8 * s.center_chunk.0;
    let lo_z = s.world_pos.1 - 8 * s.center_chunk.1;
    if abs(off.0) >= abs(off.1) {
        assert(abs(off.0) == m);
        assert(ring_bound(s, level) <= axis_bound(lo_x, level));
    } else {
        assert(abs(off.1) == m);
        assert(ring_bound(s, level) <= axis_bound(lo_z, level));
    }
}

/// The chunks examined once the ring at `level` is exhausted are those of
/// ring distance at most `level`.
proof fn lemma_examined_full_ring(s: BiomeSearchState, c: (int, int))
    requires
        0 <= s.level,
        s.next == chunk_shell(s.level).len(),
    ensures
        examined(s, c) <==> ring_distance(chunk_offset(s, c)) <= s.level,
{
    let off = chunk_offset(s, c);
    lemma_chunk_shell_is_ring(s.level);
    if ring_distance(off) == s.level {
        assert(chunk_shell(s.level).contains(off));
        let j = choose|j: int| 0 <= j < chunk_shell(s.level).len() && chunk_shell(s.level)[j] == off;
        assert(chunk_shell(s.level)[j] == off);
    }
}

proof fn lemma_follows_start(x: i32, z: i32, centers: spec_fn((int, int)) -> (Option<(int, int)>, u64))
    ensures
        follows(search_start(x, z), centers),
{
    let st = search_start(x, z);
    lemma_chunk_shell_len(0);
    assert forall|c: (int, int)| !examined(st, c) by {
        let off = chunk_offset(st, c);
        if ring_distance(off) == 0 {
            assert(!(exists|j: int| 0 <= j < 0 && #[trigger] chunk_shell(0)[j] == off));
        }
    }
}

#[verifier::rlimit(50)]
proof fn lemma_follows_after_center(
    s: BiomeSearchState,
    centers: spec_fn((int, int)) -> (Option<(int, int)>, u64),
    center: Option<[i32; 2]>,
    biome_type: u64,
)
    requires
        follows(s, centers),
        s.next < chunk_shell(s.level).len(),
        fed_by(centers, due_chunk(s), center, biome_type),
    ensures
        follows(after_center(s, center, biome_type), centers),
{
    let t = after_center(s, center, biome_type);
    let due = due_chunk(s);
    lemma_keeps_closest_after_center(s, center, biome_type);
    lemma_chunk_shell_is_ring(s.level);
    let due_off = chunk_shell(s.level)[s.next];
    assert(chunk_offset(s, due) == due_off);
    assert(ring_distance(due_off) == s.level);
    assert forall|c: (int, int)| examined(t, c) <==> examined(s, c) || c == due by {
        let off = chunk_offset(s, c);
        if c == due {
            assert(chunk_shell(t.level)[s.next] == off);
        }
        if examined(t, c) && ring_distance(off) == s.level && !examined(s, c) {
            let j = choose|j: int| 0 <= j < t.next && #[trigger] chunk_shell(t.level)[j] == off;
            if j < s.next {
                assert(chunk_shell(s.level)[j] == off);
            } else {
                assert(j == s.next);
            }
        }
        if examined(s, c) && ring_distance(off) == s.level {
            let j = choose|j: int| 0 <= j < s.next && #[trigger] chunk_shell(s.level)[j] == off;
            assert(chunk_shell(t.level)[j] == off);
        }
    }
    assert forall|c: (int, int)|
        examined(t, c) && (#[trigger] centers(c)).0 is Some implies t.seen.contains(
        (centers(c).0->0, centers(c).1),
    ) by {
        if examined(s, c) {
            assert(s.seen.contains((centers(c).0->0, centers(c).1)));
            let j = choose|j: int| 0 <= j < s.seen.len() && s.seen[j] == (centers(c).0->0, centers(c).1);
            match center {
                Some(p) => {
                    assert(t.seen[j] == s.seen[j]);
                },
                None => {},
            }
        } else {
            assert(c == due);
            let p = center->0;
            assert(t.seen[s.seen.len() as int] == ((p[0] as int, p[1] as int), biome_type));
        }
    }
    assert forall|i: int| 0 <= i < t.seen.len() implies exists|c: (int, int)|
        examined(t, c) && (#[trigger] centers(c)).0 == Some((#[trigger] t.seen[i]).0) && centers(
            c,
        ).1 == t.seen[i].1 by {
        if i < s.seen.len() {
            assert(t.seen[i] == s.seen[i]);
            let c = choose|c: (int, int)|
                examined(s, c) && (#[trigger] centers(c)).0 == Some((#[trigger] s.seen[i]).0)
                    && centers(c).1 == s.seen[i].1;
            assert(examined(t, c));
        } else {
            assert(examined(t, due));
            assert(centers(due).0 == Some(t.seen[i].0));
        }
    }
}

proof fn lemma_follows_next_ring(t: BiomeSearchState, centers: spec_fn((int, int)) -> (Option<(int, int)>, u64))
    requires
        follows(t, centers),
        t.next == chunk_shell(t.level).len(),
    ensures
        follows(BiomeSearchState { level: t.level + 1, next: 0, ..t }, centers),
{
    let u = BiomeSearchState { level: t.level + 1, next: 0, ..t };
    lemma_chunk_shell_len(t.level + 1);
    assert forall|c: (int, int)| examined(u, c) <==> examined(t, c) by {
        lemma_examined_full_ring(t, c);
        let off = chunk_offset(u, c);
        if ring_distance(off) == u.level {
            assert(!(exists|j: int| 0 <= j < 0 && #[trigger] chunk_shell(u.level)[j] == off));
        }
    }
    assert forall|c: (int, int)|
        examined(u, c) && (#[trigger] centers(c)).0 is Some implies u.seen.contains(
        (centers(c).0->0, centers(c).1),
    ) by {
        assert(examined(t, c));
    }
    assert forall|i: int| 0 <= i < u.seen.len() implies exists|c: (int, int)|
        examined(u, c) && (#[trigger] centers(c)).0 == Some((#[trigger] u.seen[i]).0) && centers(
            c,
        ).1 == u.seen[i].1 by {
        let c = choose|c: (int, int)|
            examined(t, c) && (#[trigger] centers(c)).0 == Some((#[trigger] t.seen[i]).0)
                && centers(c).1 == t.seen[i].1;
        assert(examined(u, c));
    }
}

proof fn lemma_nearest_at_stop(t: BiomeSearchState, centers: spec_fn((int, int)) -> (Option<(int, int)>, u64))
    requires
        follows(t, centers),
        t.next == chunk_shell(t.level).len(),
        t.shortest_dist matches Some(d) && d <= ring_bound(t, t.level + 1),
        forall|c: (int, int)| #[trigger] centers(c).0 matches Some(q) ==> in_chunk(c, q),
    ensures
        exists|c0: (int, int)|
            #[trigger] centers(c0).0 is Some && centers(c0).1 == t.closest_biome_type && forall|
                c: (int, int),
            |
                #[trigger] centers(c).0 is Some ==> manhattan(t.world_pos, centers(c0).0->0)
                    <= manhattan(t.world_pos, centers(c).0->0),
{
    let d = t.shortest_dist->0;
    let i = choose|i: int|
        0 <= i < t.seen.len() && manhattan(t.world_pos, (#[trigger] t.seen[i]).0) == d
            && t.seen[i].1 == t.closest_biome_type && forall|j: int|
            0 <= j < i ==> manhattan(t.world_pos, (#[trigger] t.seen[j]).0) > d;
    let c0 = choose|c: (int, int)|
        examined(t, c) && (#[trigger] centers(c)).0 == Some((#[trigger] t.seen[i]).0) && centers(
            c,
        ).1 == t.seen[i].1;
    assert forall|c: (int, int)| #[trigger] centers(c).0 is Some implies manhattan(
        t.world_pos,
        centers(c0).0->0,
    ) <= manhattan(t.world_pos, centers(c).0->0) by {
        let q = centers(c).0->0;
        lemma_examined_full_ring(t, c);
        if examined(t, c) {
            assert(t.seen.contains((q, centers(c).1)));
            let j = choose|j: int| 0 <= j < t.seen.len() && t.seen[j] == (q, centers(c).1);
            assert(manhattan(t.world_pos, t.seen[j].0) >= d);
        } else {
            assert(in_chunk(c, q));
            lemma_ring_bound(t, t.level + 1, c, q);
        }
    }
}

/// The search finds the nearest biome center. Fed at each step by `centers`
/// (the biome center of each chunk, if any, and its kind), it starts and
/// stays in a state that keeps the first closest center handed in, the centers
/// seen being exactly those of the chunks examined. When every center lies in
/// its own chunk and the search ends, the kind it
/// ends with is that of the center of some chunk that is at the smallest
/// Manhattan distance from the block among the centers of all chunks.
pub proof fn lemma_search_finds_nearest(
    x: i32,
    z: i32,
    s: BiomeSearchState,
    centers: spec_fn((int, int)) -> (Option<(int, int)>, u64),
    center: Option<[i32; 2]>,
    biome_type: u64,
)
    requires
        follows(s, centers),
        s.next < chunk_shell(s.level).len(),
        fed_by(centers, due_chunk(s), center, biome_type),
    ensures
        follows(search_start(x, z), centers),
        follows(search_step(s, center, biome_type).0, centers),
        search_step(s, center, biome_type).1 matches Some(k) ==> (
        forall|c: (int, int)| #[trigger] centers(c).0 matches Some(q) ==> in_chunk(c, q))
            ==> exists|c0: (int, int)|
            #[trigger] centers(c0).0 is Some && centers(c0).1 == k && forall|c: (int, int)|
                #[trigger] centers(c).0 is Some ==> manhattan(
                    s.world_pos,
                    centers(c0).0->0,
                ) <= manhattan(s.world_pos, centers(c).0->0),
{
    lemma_follows_start(x, z, centers);
    lemma_follows_after_center(s, centers, center, biome_type);
    let t = after_center(s, center, biome_type);
    if t.next >= chunk_shell(s.level).len() {
        if t.shortest_dist matches Some(dd) && dd <= ring_bound(t, s.level + 1) {
            if forall|c: (int, int)| #[trigger] centers(c).0 matches Some(q) ==> in_chunk(c, q) {
                lemma_nearest_at_stop(t, centers);
            }
        } else {
            lemma_follows_next_ring(t, centers);
        }
    }
}

/// A search started for the block `(x, z)` measures its distances from that
/// very block: the first center handed in, `c1`, is kept at distance
/// `|x - c1[0]| + |z - c1[1]|`, and when the search goes on, a second center
/// `c2` replaces it exactly when it is strictly closer to `(x, z)`.
pub proof fn lemma_search_measures_from_block(x: i32, z: i32, c1: [i32; 2], k1: u64, c2: [i32; 2], k2: u64)
    ensures
        search_start(x, z).world_pos == (x as int, z as int),
        search_step(search_start(x, z), Some(c1), k1).0.shortest_dist == Some(
            abs(x - c1[0]) + abs(z - c1[1]),
        ),
        search_step(search_start(x, z), Some(c1), k1).0.closest_biome_type == k1,
        search_step(search_start(x, z), Some(c1), k1).1 is None ==> search_step(
            search_step(search_start(x, z), Some(c1), k1).0,
            Some(c2),
            k2,
        ).0.closest_biome_type == (if abs(x - c2[0]) + abs(z - c2[1]) < abs(x - c1[0]) + abs(
            z - c1[1],
        ) {
            k2
        } else {
            k1
        }),
{
    lemma_chunk_shell_len(0);
    lemma_chunk_shell_len(1);
}

} // verus!
