use bmp::{Image, Pixel};
use tilemap::{
    read_image, MapBuilder, MapError, MapGrid, OnUnmatched, Raster, Rgb, TileDictionary, TileKind,
    FIELD_HEIGHT, FIELD_WIDTH,
};

const SEA: Rgb = (91, 119, 234);
const PLAIN: Rgb = (121, 195, 0);
const FOREST: Rgb = (50, 132, 5);
const BLACK: Rgb = (0, 0, 0);

fn image_of(width: u32, height: u32, fill: Rgb, pixels: &[(u32, u32, Rgb)]) -> Image {
    let mut img = Image::new(width, height);
    for x in 0..width {
        for y in 0..height {
            img.set_pixel(x, y, Pixel::new(fill.0, fill.1, fill.2));
        }
    }
    for &(x, y, c) in pixels {
        img.set_pixel(x, y, Pixel::new(c.0, c.1, c.2));
    }
    img
}

fn raster_of(width: u32, height: u32, fill: Rgb, pixels: &[(u32, u32, Rgb)]) -> Raster {
    read_image(&image_of(width, height, fill, pixels)).unwrap()
}

fn substituting(width: u32, height: u32, kind: TileKind) -> MapBuilder {
    MapBuilder { on_unmatched: OnUnmatched::Substitute(kind), ..MapBuilder::new(width, height) }
}

fn kind_at(grid: &MapGrid, dict: &TileDictionary, x: u32, y: u32) -> TileKind {
    dict.get(grid.get(x, y).unwrap()).unwrap().kind
}

#[test]
fn round_trip_two_by_two() {
    let dict = TileDictionary::standard();
    let img = image_of(2, 2, SEA, &[(0, 0, PLAIN), (0, 1, FOREST)]);
    let raster = read_image(&img).unwrap();
    let grid = MapBuilder::new(2, 2).build(&raster, &dict).unwrap();
    assert_eq!(grid.width(), 2);
    assert_eq!(grid.height(), 2);
    assert_eq!(kind_at(&grid, &dict, 0, 0), TileKind::Plain);
    assert_eq!(kind_at(&grid, &dict, 0, 1), TileKind::Forest);
    assert_eq!(kind_at(&grid, &dict, 1, 0), TileKind::Sea);
    assert_eq!(kind_at(&grid, &dict, 1, 1), TileKind::Sea);
    assert_eq!(grid.get(0, 0), Some(2));
    assert_eq!(grid.get(0, 1), Some(3));
    assert_eq!(grid.get(1, 0), Some(0));
    assert_eq!(grid.get(1, 1), Some(0));
    assert!(grid.unmatched().is_empty());
    assert_eq!(tilemap::render(&grid, &dict), "．木\n〜〜\n");
}

#[test]
fn round_trip_from_plain_pixels() {
    let dict = TileDictionary::standard();
    // In scan order: (0, 0), (1, 0), (0, 1), (1, 1).
    let raster = Raster::new(2, 2, vec![PLAIN, SEA, FOREST, SEA]).unwrap();
    let grid = MapBuilder::new(2, 2).build(&raster, &dict).unwrap();
    assert_eq!(kind_at(&grid, &dict, 0, 0), TileKind::Plain);
    assert_eq!(kind_at(&grid, &dict, 0, 1), TileKind::Forest);
    assert_eq!(kind_at(&grid, &dict, 1, 0), TileKind::Sea);
    assert_eq!(kind_at(&grid, &dict, 1, 1), TileKind::Sea);
    assert_eq!(tilemap::render(&grid, &dict), "．木\n〜〜\n");
}

#[test]
fn dimension_mismatch_is_an_error() {
    let dict = TileDictionary::standard();
    let raster = read_image(&Image::new(10, 10)).unwrap();
    let result = MapBuilder::new(136, 136).build(&raster, &dict);
    assert_eq!(
        result.unwrap_err(),
        MapError::DimensionMismatch {
            expected_width: 136,
            expected_height: 136,
            actual_width: 10,
            actual_height: 10,
        }
    );
}

#[test]
fn dimension_mismatch_in_one_side_only() {
    let dict = TileDictionary::standard();
    let raster = raster_of(3, 2, SEA, &[]);
    assert_eq!(
        MapBuilder::new(3, 3).build(&raster, &dict).unwrap_err(),
        MapError::DimensionMismatch {
            expected_width: 3,
            expected_height: 3,
            actual_width: 3,
            actual_height: 2,
        }
    );
    assert_eq!(
        MapBuilder::new(2, 2).build(&raster, &dict).unwrap_err(),
        MapError::DimensionMismatch {
            expected_width: 2,
            expected_height: 2,
            actual_width: 3,
            actual_height: 2,
        }
    );
    assert_eq!(
        MapBuilder::new(2, 3).build(&raster, &dict).unwrap_err(),
        MapError::DimensionMismatch {
            expected_width: 2,
            expected_height: 3,
            actual_width: 3,
            actual_height: 2,
        }
    );
    assert!(MapBuilder::new(3, 2).build(&raster, &dict).is_ok());
}

#[test]
fn dimension_mismatch_comes_before_unmatched_colors() {
    let dict = TileDictionary::standard();
    let raster = raster_of(2, 2, BLACK, &[]);
    assert!(matches!(
        MapBuilder::new(2, 3).build(&raster, &dict),
        Err(MapError::DimensionMismatch { .. })
    ));
    assert!(matches!(
        substituting(3, 2, TileKind::Sea).build(&raster, &dict),
        Err(MapError::DimensionMismatch { .. })
    ));
}

#[test]
fn unmatched_color_is_reported_as_an_error() {
    let dict = TileDictionary::standard();
    let raster = raster_of(1, 1, BLACK, &[]);
    let result = MapBuilder::new(1, 1).build(&raster, &dict);
    assert_eq!(result.unwrap_err(), MapError::UnmatchedColor { x: 0, y: 0, color: (0, 0, 0) });
}

#[test]
fn unmatched_color_is_recorded_when_substituted() {
    let dict = TileDictionary::standard();
    let raster = raster_of(2, 2, SEA, &[(1, 1, BLACK)]);
    let grid = substituting(2, 2, TileKind::Wall).build(&raster, &dict).unwrap();
    assert_eq!(grid.get(1, 1), Some(6));
    assert_eq!(kind_at(&grid, &dict, 1, 1), TileKind::Wall);
    assert_eq!(grid.get(0, 0), Some(0));
    assert_eq!(grid.get(1, 0), Some(0));
    assert_eq!(grid.get(0, 1), Some(0));
    assert_eq!(grid.unmatched(), &vec![(1, 1)]);
}

#[test]
fn unmatched_color_is_not_silently_sea() {
    let dict = TileDictionary::standard();
    let raster = raster_of(1, 1, BLACK, &[]);
    let grid = substituting(1, 1, TileKind::Sea).build(&raster, &dict).unwrap();
    assert_eq!(grid.get(0, 0), Some(0));
    assert_eq!(grid.unmatched().len(), 1);
    assert_eq!(grid.unmatched()[0], (0, 0));
}

#[test]
fn first_unmatched_in_scan_order_is_reported() {
    let dict = TileDictionary::standard();
    // (2, 0) comes before (0, 1) in a scan by rows, after it in a scan by columns.
    let raster = raster_of(3, 2, SEA, &[(0, 1, (1, 2, 3)), (2, 0, (4, 5, 6))]);
    assert_eq!(
        MapBuilder::new(3, 2).build(&raster, &dict).unwrap_err(),
        MapError::UnmatchedColor { x: 2, y: 0, color: (4, 5, 6) }
    );
}

#[test]
fn unmatched_list_is_in_scan_order() {
    let dict = TileDictionary::standard();
    let raster = raster_of(
        3,
        2,
        SEA,
        &[(0, 1, (1, 2, 3)), (2, 0, (4, 5, 6)), (2, 1, (7, 8, 9)), (1, 1, FOREST)],
    );
    let grid = substituting(3, 2, TileKind::Poison).build(&raster, &dict).unwrap();
    assert_eq!(grid.unmatched(), &vec![(2, 0), (0, 1), (2, 1)]);
    assert_eq!(grid.get(0, 0), Some(0));
    assert_eq!(grid.get(1, 0), Some(0));
    assert_eq!(grid.get(2, 0), Some(8));
    assert_eq!(grid.get(0, 1), Some(8));
    assert_eq!(grid.get(1, 1), Some(3));
    assert_eq!(grid.get(2, 1), Some(8));
}

#[test]
fn every_dictionary_color_resolves_back_to_its_kind() {
    let dict = TileDictionary::standard();
    let colors: Vec<Rgb> = (0..15).map(|i| dict.get(i).unwrap().color).collect();
    let raster = Raster::new(5, 3, colors).unwrap();
    let grid = MapBuilder::new(5, 3).build(&raster, &dict).unwrap();
    assert_eq!(grid.width(), 5);
    assert_eq!(grid.height(), 3);
    for i in 0..15u32 {
        let (x, y) = (i % 5, i / 5);
        assert_eq!(grid.get(x, y), Some(i as usize));
        let entry = dict.get(grid.get(x, y).unwrap()).unwrap();
        assert_eq!(Some(entry.color), raster.pixel(x, y));
        assert_eq!(entry.kind, dict.get(i as usize).unwrap().kind);
    }
    assert!(grid.unmatched().is_empty());
}

#[test]
fn cell_x_y_is_the_pixel_in_column_x_of_row_y() {
    let dict = TileDictionary::standard();
    let raster = raster_of(3, 2, SEA, &[(2, 0, PLAIN), (0, 1, FOREST)]);
    let grid = MapBuilder::new(3, 2).build(&raster, &dict).unwrap();
    assert_eq!(kind_at(&grid, &dict, 2, 0), TileKind::Plain);
    assert_eq!(kind_at(&grid, &dict, 0, 1), TileKind::Forest);
    assert_eq!(kind_at(&grid, &dict, 0, 0), TileKind::Sea);
    assert_eq!(kind_at(&grid, &dict, 1, 0), TileKind::Sea);
    assert_eq!(kind_at(&grid, &dict, 1, 1), TileKind::Sea);
    assert_eq!(kind_at(&grid, &dict, 2, 1), TileKind::Sea);
}

#[test]
fn grid_get_outside_is_none() {
    let dict = TileDictionary::standard();
    let raster = raster_of(3, 2, SEA, &[]);
    let grid = MapBuilder::new(3, 2).build(&raster, &dict).unwrap();
    assert_eq!(grid.get(2, 1), Some(0));
    assert_eq!(grid.get(3, 0), None);
    assert_eq!(grid.get(0, 2), None);
    assert_eq!(grid.get(2, 2), None);
    assert_eq!(grid.get(u32::MAX, u32::MAX), None);
}

#[test]
fn every_cell_is_a_valid_dictionary_index() {
    let dict = TileDictionary::standard();
    let raster = raster_of(4, 4, SEA, &[(1, 1, BLACK), (2, 3, PLAIN), (3, 3, (9, 9, 9))]);
    let grid = substituting(4, 4, TileKind::Stairs).build(&raster, &dict).unwrap();
    for x in 0..4 {
        for y in 0..4 {
            assert!(grid.get(x, y).unwrap() < dict.len());
        }
    }
}

#[test]
fn empty_rasters_build_empty_grids() {
    let dict = TileDictionary::standard();
    let raster = read_image(&Image::new(0, 0)).unwrap();
    let grid = MapBuilder::new(0, 0).build(&raster, &dict).unwrap();
    assert_eq!((grid.width(), grid.height()), (0, 0));
    assert_eq!(grid.get(0, 0), None);
    let raster = read_image(&Image::new(0, 3)).unwrap();
    let grid = MapBuilder::new(0, 3).build(&raster, &dict).unwrap();
    assert_eq!((grid.width(), grid.height()), (0, 3));
    assert_eq!(grid.get(0, 0), None);
    let raster = Raster::new(3, 0, Vec::new()).unwrap();
    let grid = MapBuilder::new(3, 0).build(&raster, &dict).unwrap();
    assert_eq!((grid.width(), grid.height()), (3, 0));
    assert_eq!(grid.get(0, 0), None);
    assert!(grid.unmatched().is_empty());
}

#[test]
fn new_builder_rejects_unmatched_colors() {
    let builder = MapBuilder::new(7, 9);
    assert_eq!(builder.width, 7);
    assert_eq!(builder.height, 9);
    assert_eq!(builder.on_unmatched, OnUnmatched::Reject);
}

#[test]
fn standard_field_is_136_by_136() {
    assert_eq!(FIELD_WIDTH, 136);
    assert_eq!(FIELD_HEIGHT, 136);
    let dict = TileDictionary::standard();
    let raster = raster_of(
        136,
        136,
        SEA,
        &[(135, 0, PLAIN), (0, 135, FOREST), (135, 135, (123, 158, 23))],
    );
    let grid = MapBuilder::new(FIELD_WIDTH, FIELD_HEIGHT).build(&raster, &dict).unwrap();
    assert_eq!(kind_at(&grid, &dict, 135, 0), TileKind::Plain);
    assert_eq!(kind_at(&grid, &dict, 0, 135), TileKind::Forest);
    assert_eq!(kind_at(&grid, &dict, 135, 135), TileKind::Mountain);
    assert_eq!(kind_at(&grid, &dict, 0, 0), TileKind::Sea);
    assert_eq!(kind_at(&grid, &dict, 67, 68), TileKind::Sea);
}
