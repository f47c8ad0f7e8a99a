use rand::RngCore;
use crafty::biome::{BiomeConfig, BiomeGenerator, BiomeLayer, BiomeSearch, Block, NUM_BIOMES};

fn layers_for(starts: &[(i32, Block)]) -> [Option<BiomeLayer>; 8] {
    let mut layers: [Option<BiomeLayer>; 8] = [None; 8];
    for (i, (start, block)) in starts.iter().enumerate() {
        layers[i] = Some(BiomeLayer {
            start_y_from_top: *start,
            block: *block,
        });
    }
    layers
}

#[test]
fn test_get_chunk_shell_size() {
    let level: i64 = 0;
    let shell = BiomeGenerator::get_chunk_shell(level);
    assert!(shell.len() == 1);

    let level: i64 = 1;
    let shell = BiomeGenerator::get_chunk_shell(level);
    assert!(shell.len() == 8);

    let level: i64 = 2;
    let shell = BiomeGenerator::get_chunk_shell(level);
    assert!(shell.len() == 16);
}

#[test]
fn test_max_abs_equal() {
    let level: i64 = 3;
    let shell = BiomeGenerator::get_chunk_shell(level);

    assert!(
        shell.iter().all(|&[x, z]| {
            let max_abs = x.abs().max(z.abs());
            max_abs == level
        }) == true
    );
}

#[test]
fn chunk_shell_order_and_negative_level() {
    assert_eq!(BiomeGenerator::get_chunk_shell(0), vec![[0, 0]]);
    assert_eq!(
        BiomeGenerator::get_chunk_shell(1),
        vec![[-1, -1], [-1, 0], [-1, 1], [0, 1], [0, -1], [1, -1], [1, 0], [1, 1]]
    );
    assert!(BiomeGenerator::get_chunk_shell(-3).is_empty());
    let shell = BiomeGenerator::get_chunk_shell(4);
    for x in -4i64..=4 {
        for z in -4i64..=4 {
            let on_ring = x.abs().max(z.abs()) == 4;
            assert_eq!(shell.contains(&[x, z]), on_ring);
        }
    }
}

#[test]
fn putting_block() {
    let layers = layers_for(&[(0, Block::GRASS), (1, Block::DIRT), (5, Block::COBBELSTONE)]);
    let num_layer = 3;
    assert!(BiomeConfig::layers_are_valid(&layers, num_layer));
    let config = BiomeConfig::new("Test", layers, num_layer);

    let cube_height = 20;
    for i in 0..cube_height {
        let block_at_height = config.get_block_at(i);
        if let Some(block) = block_at_height {
            let expected = if i < 1 {
                Block::GRASS
            } else if i < 5 {
                Block::DIRT
            } else {
                Block::COBBELSTONE
            };
            assert_eq!(block, expected);
        }
    }
}

#[test]
fn test_binary_search() {
    let search_in = layers_for(&[(0, Block::DIRT), (10, Block::GRASS), (20, Block::OAKLEAVES)]);
    let num_layer = 2;
    let config = BiomeConfig::new("Test", search_in, num_layer);

    let y = 9;

    let block = config.get_block_at(y);

    assert_eq!(block, Some(Block::DIRT));
}

#[test]
fn block_above_first_layer_and_past_last() {
    let layers = layers_for(&[(2, Block::GRASS), (4, Block::DIRT)]);
    let config = BiomeConfig::new("Hills", layers, 2);
    assert_eq!(config.get_block_at(1), None);
    assert_eq!(config.get_block_at(-7), None);
    assert_eq!(config.get_block_at(2), Some(Block::GRASS));
    assert_eq!(config.get_block_at(3), Some(Block::GRASS));
    assert_eq!(config.get_block_at(4), Some(Block::DIRT));
    assert_eq!(config.get_block_at(1000), Some(Block::DIRT));
    assert_eq!(config.name, "Hills");
}

#[test]
fn invalid_layers_are_refused() {
    let ordered = layers_for(&[(0, Block::GRASS), (3, Block::DIRT)]);
    assert!(!BiomeConfig::layers_are_valid(&ordered, 0));
    assert!(BiomeConfig::layers_are_valid(&ordered, 1));
    assert!(BiomeConfig::layers_are_valid(&ordered, 2));
    assert!(!BiomeConfig::layers_are_valid(&ordered, 3));
    assert!(!BiomeConfig::layers_are_valid(&ordered, 9));
    let unordered = layers_for(&[(0, Block::GRASS), (3, Block::DIRT), (3, Block::COBBELSTONE)]);
    assert!(!BiomeConfig::layers_are_valid(&unordered, 3));
    let none: [Option<BiomeLayer>; 8] = [None; 8];
    assert!(!BiomeConfig::layers_are_valid(&none, 1));
    let full = layers_for(&[
        (0, Block::GRASS),
        (1, Block::DIRT),
        (2, Block::DIRT),
        (3, Block::DIRT),
        (4, Block::DIRT),
        (5, Block::DIRT),
        (6, Block::DIRT),
        (7, Block::COBBELSTONE),
    ]);
    assert!(BiomeConfig::layers_are_valid(&full, 8));
    assert_eq!(BiomeConfig::new("Full", full, 8).get_block_at(9), Some(Block::COBBELSTONE));
}

#[test]
fn chunk_and_world_coordinates() {
    assert_eq!(BiomeGenerator::get_chunk_coord([0, 7]), [0, 0]);
    assert_eq!(BiomeGenerator::get_chunk_coord([8, 17]), [1, 2]);
    assert_eq!(BiomeGenerator::get_chunk_coord([-1, -9]), [0, -1]);
    assert_eq!(BiomeGenerator::get_world_coord([1, 2], [3, 4]), [11, 20]);
    assert_eq!(BiomeGenerator::get_world_coord([-1, 0], [3, 0]), [-5, 0]);
    // Back to the chunk, for chunks at non-negative coordinates.
    let world = BiomeGenerator::get_world_coord([5, 9], [7, 0]);
    assert_eq!(BiomeGenerator::get_chunk_coord(world), [5, 9]);
}

#[test]
fn biome_center_from_draws_lies_in_chunk() {
    let (center, kind) = BiomeGenerator::biome_center_from_draws([2, -3], 13, 8, 12);
    assert_eq!(center, Some([16 + 5, -24]));
    assert_eq!(kind, 12 % NUM_BIOMES);
}

#[test]
fn biome_center_in_the_farthest_chunks() {
    // The last blocks of these chunks still have 64-bit world coordinates;
    // the result keeps their low 32 bits.
    let (center, _) = BiomeGenerator::biome_center_from_draws([(1i64 << 60) - 1, 0], 7, 0, 0);
    assert_eq!(center, Some([-1, 0]));
    let (center, _) = BiomeGenerator::biome_center_from_draws([0, -(1i64 << 60)], 0, 3, 0);
    assert_eq!(center, Some([0, 3]));
}

#[test]
fn chunk_generator_draws_are_reproducible() {
    let seed: u64 = 42;
    let coords: [i64; 2] = [0, 2];
    let mut rng1 = BiomeGenerator::get_chunk_rng(seed, coords);
    let mut rng2 = BiomeGenerator::get_chunk_rng(seed, coords);
    let (center1, kind1) = BiomeGenerator::draw_biome_center(coords, &mut rng1);
    let (center2, kind2) = BiomeGenerator::draw_biome_center(coords, &mut rng2);
    assert_eq!(center1, center2);
    assert_eq!(kind1, kind2);
    let [x, z] = center1.unwrap();
    assert!((0..8).contains(&x));
    assert!((16..24).contains(&z));
    assert!(kind1 < NUM_BIOMES);
}

#[test]
fn biome_search_keeps_closest_center() {
    let mut search = BiomeSearch::new(0, 0);
    assert!(!search.is_finished());
    assert_eq!(search.next_chunk(), [0, 0]);
    // The chunk of the block holds a center at distance 7, but a block of
    // the first ring can be at distance 1: the first ring is examined.
    assert_eq!(search.on_chunk_center(Some([3, 4]), 2), None);
    assert_eq!(search.next_chunk(), [-1, -1]);
    // A closer center in the first ring, then nothing else.
    assert_eq!(search.on_chunk_center(Some([-2, -1]), 4), None);
    for _ in 0..6 {
        assert_eq!(search.on_chunk_center(None, u64::MAX), None);
    }
    // No block of the second ring is within distance 3: the search ends.
    assert_eq!(search.on_chunk_center(Some([9, 9]), 1), Some(4));
    assert!(search.is_finished());
}

#[test]
fn biome_search_nearest_center_in_second_ring() {
    let mut search = BiomeSearch::new(0, 0);
    // The center of the block's own chunk is at distance 14.
    assert_eq!(search.on_chunk_center(Some([7, 7]), 1), None);
    // The first ring holds no center; a block of the second ring can be at
    // distance 9, so the search goes on.
    for _ in 0..8 {
        assert_eq!(search.on_chunk_center(None, u64::MAX), None);
    }
    assert!(!search.is_finished());
    assert_eq!(search.next_chunk(), [-2, -2]);
    // The second ring: sixteen chunks, one of them with a center at
    // distance 9.
    assert_eq!(search.on_chunk_center(Some([-9, 0]), 2), None);
    for _ in 0..14 {
        assert_eq!(search.on_chunk_center(None, u64::MAX), None);
    }
    // No block of the third ring is within distance 9 (its bound is 17).
    assert_eq!(search.on_chunk_center(None, u64::MAX), Some(2));
    assert!(search.is_finished());
}

#[test]
fn biome_search_goes_on_while_nothing_is_found() {
    let mut search = BiomeSearch::new(-20, 35);
    assert_eq!(search.next_chunk(), [-2, 4]);
    assert_eq!(search.on_chunk_center(None, u64::MAX), None);
    for _ in 0..8 {
        assert_eq!(search.on_chunk_center(None, u64::MAX), None);
    }
    assert_eq!(search.next_chunk(), [-4, 2]);
    // A center on the second ring at distance 25.
    assert_eq!(search.on_chunk_center(Some([-30, 20]), 3), None);
    for _ in 0..15 {
        assert_eq!(search.on_chunk_center(None, u64::MAX), None);
    }
    // The third ring can hold blocks at distance 13, and brings nothing
    // closer.
    for _ in 0..23 {
        assert_eq!(search.on_chunk_center(Some([100, 100]), 1), None);
    }
    assert_eq!(search.on_chunk_center(None, u64::MAX), None);
    // The fourth ring can still hold blocks at distance 21.
    for _ in 0..31 {
        assert_eq!(search.on_chunk_center(None, u64::MAX), None);
    }
    // The fifth cannot come closer than 29: the search ends.
    assert_eq!(search.on_chunk_center(None, u64::MAX), Some(3));
}

#[test]
fn test_randint() {
    let seed: u64 = 42;
    let chunk_coord: [i64; 2] = [0, 1];
    let mut rng = BiomeGenerator::get_chunk_rng(seed, chunk_coord);
    let x = rng.next_u64() % 8;
    assert!(x < 7);
}

#[test]
fn biome_search_at_the_last_ring() {
    // A fresh search is on its first ring, far below the last one.
    let search = BiomeSearch::new(3, 3);
    assert!(!search.goes_past_last_ring(None));
    assert!(!search.goes_past_last_ring(Some([0, 0])));
}
