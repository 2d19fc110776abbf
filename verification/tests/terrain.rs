use mine64::block::BlockKind;
use mine64::chunk::ChunkCoord;
use mine64::world_generator::ConfigError;
use mine64::world_generator::GeneratorConfig;
use mine64::world_generator::WorldGenerator;

#[test]
fn valid_configuration_is_accepted_as_given() {
    let cfg = GeneratorConfig::new(42, 4, 8).unwrap();
    assert_eq!(cfg.seed, 42);
    assert_eq!(cfg.base_height, 4);
    assert_eq!(cfg.amplitude, 8);
}

#[test]
fn zero_amplitude_is_rejected() {
    assert_eq!(
        GeneratorConfig::new(7, 4, 0),
        Err(ConfigError::AmplitudeZero)
    );
}

#[test]
fn out_of_band_height_range_is_rejected() {
    assert_eq!(
        GeneratorConfig::new(7, 12, 8),
        Err(ConfigError::HeightRangeOutOfBounds)
    );
    assert_eq!(
        GeneratorConfig::new(7, -1, 4),
        Err(ConfigError::HeightRangeOutOfBounds)
    );
}

#[test]
fn generation_is_deterministic() {
    let cfg = GeneratorConfig::new(1234567, 3, 9).unwrap();
    let generator = WorldGenerator::new(cfg);
    let c = ChunkCoord::new(5, 0, -3);
    let g1 = generator.generate(c);
    let g2 = generator.generate(c);
    assert_eq!(g1.blocks, g2.blocks);
}

#[test]
fn origin_column_layers_follow_the_height_formula() {
    // With seed 0, base 4, amplitude 8 the column (0, 0) mixes to
    // 2000000*31 + 2000000*17 = 96000000, and 96000000 % 8 == 0, so the
    // surface height is exactly 4: stone at y 0, dirt at y 1..2, grass at
    // y 3, air from y 4 up.
    let cfg = GeneratorConfig::new(0, 4, 8).unwrap();
    let generator = WorldGenerator::new(cfg);
    let g = generator.generate(ChunkCoord::new(0, 0, 0));
    assert_eq!(g.get(0, 0, 0).kind, BlockKind::Stone);
    assert_eq!(g.get(0, 1, 0).kind, BlockKind::Dirt);
    assert_eq!(g.get(0, 2, 0).kind, BlockKind::Dirt);
    assert_eq!(g.get(0, 3, 0).kind, BlockKind::Grass);
    assert_eq!(g.get(0, 4, 0).kind, BlockKind::Air);
    assert_eq!(g.get(0, 15, 0).kind, BlockKind::Air);
}

#[test]
fn chunks_above_the_surface_are_empty_and_deep_chunks_are_solid() {
    let cfg = GeneratorConfig::new(99, 4, 8).unwrap();
    let generator = WorldGenerator::new(cfg);
    let sky = generator.generate(ChunkCoord::new(0, 1, 0));
    for b in &sky.blocks {
        assert_eq!(b.kind, BlockKind::Air);
    }
    let deep = generator.generate(ChunkCoord::new(0, -1, 0));
    for b in &deep.blocks {
        assert!(b.is_solid());
    }
}

#[test]
fn surface_height_stays_inside_the_configured_band() {
    let cfg = GeneratorConfig::new(31337, 5, 7).unwrap();
    let generator = WorldGenerator::new(cfg);
    for cx in -2..3 {
        let g = generator.generate(ChunkCoord::new(cx, 0, 11));
        for x in 0..16 {
            for z in 0..16 {
                // count the solid prefix of the column: it is the height
                let mut h = 0;
                while h < 16 && g.get(x, h, z).is_solid() {
                    h += 1;
                }
                assert!((5..12).contains(&(h as i32)));
                for y in h..16 {
                    assert_eq!(g.get(x, y, z).kind, BlockKind::Air);
                }
            }
        }
    }
}
