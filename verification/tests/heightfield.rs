use procgen::heightfield::{combine_octaves, HeightField, TerrainError};
use procgen::terrain::Terrain;
use procgen::{MAX_ELEVATION, MAX_RESOLUTION, MAX_SPACING};

#[test]
fn resolution_zero_is_rejected() {
    assert_eq!(
        HeightField::new(0, vec![]).err(),
        Some(TerrainError::ResolutionTooSmall)
    );
}

#[test]
fn resolution_one_is_rejected() {
    assert_eq!(
        HeightField::new(1, vec![0]).err(),
        Some(TerrainError::ResolutionTooSmall)
    );
}

#[test]
fn resolution_above_limit_is_rejected() {
    assert_eq!(
        HeightField::new(MAX_RESOLUTION + 1, vec![]).err(),
        Some(TerrainError::ResolutionTooLarge)
    );
}

#[test]
fn wrong_data_length_is_rejected() {
    assert_eq!(
        HeightField::new(2, vec![0, 0, 0]).err(),
        Some(TerrainError::SizeMismatch)
    );
    assert_eq!(
        HeightField::new(2, vec![0, 0, 0, 0, 0]).err(),
        Some(TerrainError::SizeMismatch)
    );
}

#[test]
fn elevation_out_of_range_is_rejected() {
    assert_eq!(
        HeightField::new(2, vec![0, MAX_ELEVATION + 1, 0, 0]).err(),
        Some(TerrainError::ElevationOutOfRange)
    );
    assert_eq!(
        HeightField::new(2, vec![0, 0, -MAX_ELEVATION - 1, 0]).err(),
        Some(TerrainError::ElevationOutOfRange)
    );
}

#[test]
fn extreme_elevations_are_accepted() {
    let hf = HeightField::new(2, vec![MAX_ELEVATION, -MAX_ELEVATION, 0, 7]).unwrap();
    assert_eq!(hf.resolution(), 2);
    assert_eq!(hf.elevation(0, 0), MAX_ELEVATION);
    assert_eq!(hf.elevation(0, 1), -MAX_ELEVATION);
    assert_eq!(hf.elevation(1, 0), 0);
    assert_eq!(hf.elevation(1, 1), 7);
}

#[test]
fn elevations_are_row_major() {
    let hf = HeightField::new(3, vec![10, 11, 12, 20, 21, 22, 30, 31, 32]).unwrap();
    assert_eq!(hf.elevation(0, 2), 12);
    assert_eq!(hf.elevation(2, 0), 30);
    assert_eq!(hf.elevation(1, 1), 21);
}

#[test]
fn spacing_out_of_range_is_rejected() {
    let hf = HeightField::new(2, vec![0; 4]).unwrap();
    assert_eq!(
        Terrain::new(hf, 0).err(),
        Some(TerrainError::SpacingOutOfRange)
    );
    let hf = HeightField::new(2, vec![0; 4]).unwrap();
    assert_eq!(
        Terrain::new(hf, MAX_SPACING + 1).err(),
        Some(TerrainError::SpacingOutOfRange)
    );
    let hf = HeightField::new(2, vec![0; 4]).unwrap();
    assert!(Terrain::new(hf, MAX_SPACING).is_ok());
}

#[test]
fn octave_weighting_is_exact() {
    assert_eq!(combine_octaves(100, 50, 25, 25), 25 * (400 + 100 + 25));
    assert_eq!(combine_octaves(0, 0, 0, 25), 0);
    assert_eq!(combine_octaves(-256, 128, -64, 3), 3 * (-1024 + 256 - 64));
    assert_eq!(combine_octaves(1, 1, 1, 1), 7);
}
