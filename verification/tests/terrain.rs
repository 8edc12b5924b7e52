use infinirust::server::player::Players;
use infinirust::server::world::{ChunkData, ServerWorld, Settings};
use infinirust::server::{Outcome, Server};
use noise::{NoiseFn, Perlin};

fn height(generator: &Perlin, x: i64, z: i64) -> f64 {
    generator.get([(x as f64 + 0.5) / 50.0, (z as f64 + 0.5) / 50.0]) * 4.0 * 16.0 * 0.1
}

fn column_tops(generator: &Perlin, pos: &[i32; 3]) -> [i32; 256] {
    let mut tops = [0i32; 256];
    for xx in 0..16i64 {
        for zz in 0..16i64 {
            let height = height(generator, pos[0] as i64 * 16 + xx, pos[2] as i64 * 16 + zz);
            let mut top = (height - 0.5).floor() as i32;
            while (top + 1) as f64 + 0.5 <= height {
                top += 1;
            }
            while !(top as f64 + 0.5 <= height) {
                top -= 1;
            }
            tops[(xx * 16 + zz) as usize] = top;
        }
    }
    tops
}

#[test]
fn a_cell_is_solid_where_its_middle_is_not_above_the_land() {
    let generator = Perlin::new(42);
    for pos in [[0, 0, 0], [0, -1, 0], [3, 0, -2], [-7, -1, 9], [100, 0, 100]] {
        let chunk = ChunkData::generate(&pos, &column_tops(&generator, &pos));
        for xx in 0..16u8 {
            for zz in 0..16u8 {
                let height = height(
                    &generator,
                    pos[0] as i64 * 16 + xx as i64,
                    pos[2] as i64 * 16 + zz as i64,
                );
                for yy in 0..16u8 {
                    let middle = (pos[1] * 16 + yy as i32) as f64 + 0.5;
                    assert_eq!(chunk.get([xx, yy, zz]), (middle <= height) as u8);
                }
            }
        }
    }
}

#[test]
fn the_land_stays_within_a_few_blocks_of_height_zero() {
    let generator = Perlin::new(7);
    for pos in [[0, 1, 0], [5, 3, -5], [-20, 2, 13]] {
        let chunk = ChunkData::generate(&pos, &column_tops(&generator, &pos));
        assert!(chunk.blocks().iter().all(|b| *b == 0));
    }
    for pos in [[0, -2, 0], [5, -4, -5], [-20, -3, 13]] {
        let chunk = ChunkData::generate(&pos, &column_tops(&generator, &pos));
        assert!(chunk.blocks().iter().all(|b| *b == 1));
    }
}

#[test]
fn a_seed_gives_the_same_chunk_every_time() {
    for seed in [0u32, 42, u32::MAX] {
        let first = ChunkData::generate(&[1, 0, 2], &column_tops(&Perlin::new(seed), &[1, 0, 2]));
        let second = ChunkData::generate(&[1, 0, 2], &column_tops(&Perlin::new(seed), &[1, 0, 2]));
        assert_eq!(first.blocks(), second.blocks());
    }
}

#[test]
fn a_requested_chunk_shows_the_land_of_the_seed() {
    let settings = Settings::new(42);
    let generator = Perlin::new(settings.seed());
    let mut server =
        Server::new(ServerWorld::new(settings), Players::new(Vec::new()).unwrap());
    server.login("alice".to_string());
    let pos = match server.chunk_data(0, &[0, 0, 0]) {
        Outcome::TerrainNeeded(pos) => pos,
        _ => panic!("the chunk is not loaded yet"),
    };
    let out = server.chunk_generated(0, &pos, &column_tops(&generator, &pos));
    let frame = &out[0].package;
    assert_eq!(frame.len(), 14 + 4096);
    assert_eq!(&frame[..14], &[0x0A, 0, 0, 0, 0, 0, 0, 0, 0, 0, 0, 0, 0, 0]);
    let solid = height(&generator, 5, 5) >= 0.5;
    assert_eq!(frame[14 + (5 * 256 + 0 * 16 + 5)], solid as u8);
}
