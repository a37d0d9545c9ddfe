use std::collections::BTreeMap;

use hypnagogic_core::config::blocks::cutters::{
    Animation, CutPosition, Delay, IconSize, OutputIconPosition, OutputIconSize, Positions, Prefabs,
};
use hypnagogic_core::operations::cutters::bitmask_slice::{
    BitmaskSlice, SideSpacing, SIZE_OF_CARDINALS, SIZE_OF_DIAGONALS,
};
use hypnagogic_core::operations::cutters::{delay_repeat, extend_delays};
use hypnagogic_core::operations::error::ProcessorError;
use hypnagogic_core::operations::icon::Icon;
use hypnagogic_core::operations::{
    IconOperationConfig, InputIcon, OperationMode, OutputImage, ProcessorPayload,
};
use hypnagogic_core::util::adjacency::Adjacency;
use hypnagogic_core::util::corners::{Corner, CornerType, Side};
use hypnagogic_core::util::repeat_for;
use image::{DynamicImage, GenericImageView, Rgba, RgbaImage};

/// A sheet in which every pixel tells its place.
fn sheet(width: u32, height: u32) -> DynamicImage {
    let mut image = RgbaImage::new(width, height);
    for y in 0..height {
        for x in 0..width {
            image.put_pixel(x, y, Rgba([x as u8, y as u8, (x / 32 + 8 * (y / 32)) as u8, 255]));
        }
    }
    DynamicImage::ImageRgba8(image)
}

fn glyphs() -> DynamicImage {
    DynamicImage::new_rgba8(48, 30)
}

fn icon_of(payload: ProcessorPayload) -> Icon {
    match payload {
        ProcessorPayload::Single(image) => match *image {
            OutputImage::Dmi(icon) => icon,
            OutputImage::Png(_) => panic!("an icon file was expected"),
        },
        _ => panic!("a single image was expected"),
    }
}

/// The column of the sheet that the corner of a signature is taken from,
/// with the corner types in their default columns and `Flat` in the fifth.
fn column_of(signature: u8, corner: Corner) -> u32 {
    match Adjacency::from_bits(signature).unwrap().get_corner_type(corner) {
        CornerType::Convex => 0,
        CornerType::Concave => 1,
        CornerType::Horizontal => 2,
        CornerType::Vertical => 3,
        CornerType::Flat => 4,
    }
}

fn corner_at(x: u32, y: u32) -> Corner {
    match (x < 16, y < 16) {
        (true, true) => Corner::NorthWest,
        (false, true) => Corner::NorthEast,
        (true, false) => Corner::SouthWest,
        (false, false) => Corner::SouthEast,
    }
}

#[test]
fn a_sheet_of_four_columns_gives_sixteen_states() {
    let config = BitmaskSlice::default();
    let input = InputIcon::DynamicImage(sheet(128, 32));
    let icon =
        icon_of(config.perform_operation(&input, OperationMode::Standard, &glyphs()).unwrap());
    assert_eq!(icon.width, 32);
    assert_eq!(icon.height, 32);
    assert_eq!(icon.states.len(), 16);
    for (signature, state) in icon.states.iter().enumerate() {
        assert_eq!(state.name, signature.to_string());
        assert_eq!(state.frames, 1);
        assert_eq!(state.dirs, 1);
        assert_eq!(state.images.len(), 1);
        assert!(state.delay.is_none());
        let image = &state.images[0];
        assert_eq!(image.dimensions(), (32, 32));
        for y in 0..32 {
            for x in 0..32 {
                let column = column_of(signature as u8, corner_at(x, y));
                assert_eq!(
                    image.get_pixel(x, y),
                    Rgba([(column * 32 + x) as u8, y as u8, column as u8, 255])
                );
            }
        }
    }
}

#[test]
fn a_prefab_takes_the_place_of_the_corners() {
    let mut prefabs = BTreeMap::new();
    prefabs.insert(5u8, 4u32);
    let config = BitmaskSlice { prefabs: Some(Prefabs(prefabs)), ..BitmaskSlice::default() };
    let source = sheet(160, 64);
    let (corners, literal) = config.generate_corners(&source).unwrap();
    assert!(literal.contains_key(5));
    assert!(!literal.contains_key(4));
    assert_eq!(literal.get(5).unwrap().len(), 2);
    let tiles = config.generate_icons(&corners, &literal, 2, SIZE_OF_CARDINALS);
    assert_eq!(tiles.len(), 16);
    for frame in 0..2u32 {
        let tile = &tiles[5][frame as usize];
        let crop = source.crop_imm(128, frame * 32, 32, 32);
        assert_eq!(tile.dimensions(), (32, 32));
        for y in 0..32 {
            for x in 0..32 {
                assert_eq!(tile.get_pixel(x, y), crop.get_pixel(x, y));
            }
        }
    }
    // its neighbour is made of corners all the same
    let other = &tiles[4][1];
    assert_eq!(other.get_pixel(0, 0), Rgba([0, 32, 8, 255]));
    assert_eq!(other.get_pixel(31, 0), Rgba([95, 32, 10, 255]));
}

#[test]
fn a_prefab_is_laid_down_at_the_output_position() {
    let mut prefabs = BTreeMap::new();
    prefabs.insert(0u8, 1u32);
    let config = BitmaskSlice {
        prefabs: Some(Prefabs(prefabs)),
        output_icon_pos: OutputIconPosition { x: 4, y: 8 },
        output_icon_size: OutputIconSize { x: 40, y: 48 },
        ..BitmaskSlice::default()
    };
    let source = sheet(128, 32);
    let (corners, literal) = config.generate_corners(&source).unwrap();
    let tiles = config.generate_icons(&corners, &literal, 1, SIZE_OF_CARDINALS);
    let tile = &tiles[0][0];
    assert_eq!(tile.dimensions(), (40, 48));
    assert_eq!(tile.get_pixel(0, 0), Rgba([0, 0, 0, 0]));
    assert_eq!(tile.get_pixel(3, 40), Rgba([0, 0, 0, 0]));
    assert_eq!(tile.get_pixel(4, 8), Rgba([32, 0, 1, 255]));
    assert_eq!(tile.get_pixel(35, 39), Rgba([63, 31, 1, 255]));
    assert_eq!(tile.get_pixel(36, 39), Rgba([0, 0, 0, 0]));
    // a tile of corners is not moved
    assert_eq!(tiles[1][0].get_pixel(0, 0), Rgba([96, 0, 3, 255]));
}

#[test]
fn directions_pick_the_turned_signature() {
    let config = BitmaskSlice { produce_dirs: true, ..BitmaskSlice::default() };
    let source = sheet(128, 64);
    let input = InputIcon::DynamicImage(source.clone());
    let plain = icon_of(
        BitmaskSlice::default()
            .perform_operation(&input, OperationMode::Standard, &glyphs())
            .unwrap(),
    );
    let icon =
        icon_of(config.perform_operation(&input, OperationMode::Standard, &glyphs()).unwrap());
    assert_eq!(icon.states.len(), 16);
    for (signature, state) in icon.states.iter().enumerate() {
        assert_eq!(state.dirs, 4);
        assert_eq!(state.frames, 2);
        assert_eq!(state.images.len(), 8);
        let adjacency = Adjacency::from_bits(signature as u8).unwrap();
        for (facing, direction) in Adjacency::dmi_cardinals().iter().enumerate() {
            let turned = adjacency.rotate_to(*direction).bits() as usize;
            for frame in 0..2 {
                assert_eq!(
                    state.images[facing * 2 + frame].as_bytes(),
                    plain.states[turned].images[frame].as_bytes()
                );
            }
        }
    }
    // north of signature 1 (a neighbour to the north) is the tile of signature 2
    assert_eq!(
        icon.states[1].images[2].as_bytes(),
        plain.states[2].images[0].as_bytes()
    );
}

#[test]
fn diagonal_smoothing_gives_every_signature() {
    let mut positions = Positions::default();
    assert_eq!(positions.insert(CornerType::Flat, 4), None);
    let config = BitmaskSlice {
        smooth_diagonally: true,
        positions,
        output_name: Some("wall".to_string()),
        ..BitmaskSlice::default()
    };
    let input = InputIcon::DynamicImage(sheet(160, 32));
    let icon =
        icon_of(config.perform_operation(&input, OperationMode::Standard, &glyphs()).unwrap());
    assert_eq!(icon.states.len(), SIZE_OF_DIAGONALS);
    assert_eq!(icon.states[0].name, "wall-0");
    assert_eq!(icon.states[255].name, "wall-255");
    assert_eq!(icon.states[100].name, "wall-100");
    let full = &icon.states[255].images[0];
    assert_eq!(full.get_pixel(0, 0), Rgba([128, 0, 4, 255]));
    let orphan = &icon.states[0b0001_0000].images[0];
    assert_eq!(orphan.get_pixel(31, 0), Rgba([31, 0, 0, 255]));
}

#[test]
fn delays_are_cycled_to_the_number_of_frames() {
    let delays: Vec<Delay> =
        [1.5f32, 2.5].iter().map(|delay| Delay { bits: delay.to_bits() }).collect();
    let repeated = repeat_for(&delays, 5);
    let seconds: Vec<f32> = repeated.iter().map(|delay| f32::from_bits(delay.bits)).collect();
    assert_eq!(seconds, vec![1.5, 2.5, 1.5, 2.5, 1.5]);
    assert_eq!(repeat_for(&delays, 1).len(), 1);
    assert_eq!(repeat_for(&delays, 0).len(), 0);
    assert_eq!(repeat_for::<Delay>(&[], 3).len(), 0);
    assert_eq!(repeat_for(&[7u8, 8, 9], 2), vec![7, 8]);
    assert_eq!(delay_repeat(&Some(delays.clone()), 3).unwrap(), vec![delays[0], delays[1], delays[0]]);
    assert!(delay_repeat(&None, 3).is_none());

    let config = BitmaskSlice {
        animation: Some(Animation { delays: delays.clone() }),
        ..BitmaskSlice::default()
    };
    let input = InputIcon::DynamicImage(sheet(128, 160));
    let icon =
        icon_of(config.perform_operation(&input, OperationMode::Standard, &glyphs()).unwrap());
    for state in &icon.states {
        assert_eq!(state.frames, 5);
        assert_eq!(state.images.len(), 5);
        assert_eq!(
            state.delay.as_ref().unwrap(),
            &vec![delays[0], delays[1], delays[0], delays[1], delays[0]]
        );
    }
}

#[test]
fn corners_are_blended_over_the_canvas() {
    let mut art = RgbaImage::new(128, 32);
    for y in 0..32 {
        for x in 0..128 {
            art.put_pixel(x, y, Rgba([200, 100, 50, if x % 2 == 0 { 128 } else { 0 }]));
        }
    }
    let config = BitmaskSlice::default();
    let source = DynamicImage::ImageRgba8(art);
    let (corners, prefabs) = config.generate_corners(&source).unwrap();
    let tiles = config.generate_icons(&corners, &prefabs, 1, SIZE_OF_CARDINALS);
    let mut blended = Rgba([0u8, 0, 0, 0]);
    image::Pixel::blend(&mut blended, &Rgba([200, 100, 50, 128]));
    assert_ne!(blended, Rgba([0, 0, 0, 0]));
    for tile in &tiles {
        assert_eq!(tile[0].get_pixel(0, 0), blended);
        assert_eq!(tile[0].get_pixel(1, 0), Rgba([0, 0, 0, 0]));
        assert_eq!(tile[0].get_pixel(30, 31), blended);
    }
}

#[test]
fn side_spacing_follows_the_cut() {
    let config = BitmaskSlice {
        icon_size: IconSize { x: 32, y: 48 },
        cut_pos: CutPosition { x: 10, y: 20 },
        ..BitmaskSlice::default()
    };
    assert_eq!(config.get_side_info(Side::West), SideSpacing { start: 0, end: 10 });
    assert_eq!(config.get_side_info(Side::East), SideSpacing { start: 10, end: 32 });
    assert_eq!(config.get_side_info(Side::North), SideSpacing { start: 0, end: 20 });
    assert_eq!(config.get_side_info(Side::South), SideSpacing { start: 20, end: 48 });
    assert_eq!(config.get_side_info(Side::East).step(), 22);
    assert_eq!(config.get_side_info(Side::South).step(), 28);
    assert_eq!(SideSpacing { start: 3, end: 3 }.step(), 0);
}

#[test]
fn corners_are_cut_where_their_sides_begin() {
    let config = BitmaskSlice {
        icon_size: IconSize { x: 32, y: 32 },
        cut_pos: CutPosition { x: 10, y: 20 },
        ..BitmaskSlice::default()
    };
    let source = sheet(128, 64);
    let set = config.build_corner(&source, 2, 2).unwrap();
    let north_east = &set.get(Corner::NorthEast)[1];
    assert_eq!(north_east.dimensions(), (22, 20));
    assert_eq!(north_east.get_pixel(0, 0), source.get_pixel(64 + 10, 32));
    let south_west = &set.get(Corner::SouthWest)[0];
    assert_eq!(south_west.dimensions(), (10, 12));
    assert_eq!(south_west.get_pixel(9, 11), source.get_pixel(64 + 9, 31));
    let (corners, _) = config.generate_corners(&source).unwrap();
    assert_eq!(corners.len(), 4);
    assert!(corners.get(CornerType::Flat).is_none());
    assert_eq!(corners.get(CornerType::Vertical).unwrap().get(Corner::SouthEast).len(), 2);
}

#[test]
fn a_sheet_that_does_not_hold_whole_frames_is_refused() {
    let config = BitmaskSlice::default();
    assert!(matches!(
        config.generate_corners(&sheet(128, 40)),
        Err(ProcessorError::FrameHeight { image_height: 40, icon_height: 32 })
    ));
    let flat = BitmaskSlice { icon_size: IconSize { x: 32, y: 0 }, ..BitmaskSlice::default() };
    assert!(matches!(
        flat.generate_corners(&sheet(128, 32)),
        Err(ProcessorError::FrameHeight { image_height: 32, icon_height: 0 })
    ));
}

#[test]
fn a_cut_outside_the_tile_is_refused() {
    let config = BitmaskSlice { cut_pos: CutPosition { x: 33, y: 16 }, ..BitmaskSlice::default() };
    assert!(matches!(
        config.generate_corners(&sheet(128, 32)),
        Err(ProcessorError::CutOutsideIcon { .. })
    ));
    assert!(matches!(
        config.build_corner(&sheet(128, 32), 0, 1),
        Err(ProcessorError::CutOutsideIcon { .. })
    ));
}

#[test]
fn a_corner_type_without_column_is_reported() {
    let config = BitmaskSlice { smooth_diagonally: true, ..BitmaskSlice::default() };
    assert!(matches!(
        config.generate_corners(&sheet(160, 32)),
        Err(ProcessorError::MissingPosition(CornerType::Flat))
    ));
}

#[test]
fn a_crop_beyond_the_sheet_is_reported_with_its_place() {
    let config = BitmaskSlice::default();
    match config.generate_corners(&sheet(100, 64)) {
        Err(ProcessorError::CropOutOfBounds(fault)) => {
            assert_eq!(fault.corner_type, Some(CornerType::Vertical));
            assert_eq!(fault.corner, Some(Corner::NorthEast));
            assert_eq!(fault.prefab, None);
            assert_eq!(fault.column, 3);
            assert_eq!(fault.frame, 0);
            assert_eq!((fault.x, fault.y, fault.width, fault.height), (112, 0, 16, 16));
        }
        other => panic!("unexpected: {:?}", other.map(|_| ())),
    }
    match config.build_corner(&sheet(128, 64), 0, 3) {
        Err(ProcessorError::CropOutOfBounds(fault)) => {
            assert_eq!(fault.corner_type, None);
            assert_eq!(fault.corner, Some(Corner::NorthEast));
            assert_eq!(fault.frame, 2);
            assert_eq!((fault.x, fault.y), (16, 64));
        }
        other => panic!("unexpected: {:?}", other.map(|_| ())),
    }
    let mut prefabs = BTreeMap::new();
    prefabs.insert(3u8, 1u32);
    prefabs.insert(9u8, 4u32);
    let config = BitmaskSlice { prefabs: Some(Prefabs(prefabs)), ..BitmaskSlice::default() };
    match config.generate_corners(&sheet(128, 64)) {
        Err(ProcessorError::CropOutOfBounds(fault)) => {
            assert_eq!(fault.prefab, Some(9));
            assert_eq!(fault.corner, None);
            assert_eq!(fault.column, 4);
            assert_eq!(fault.frame, 0);
            assert_eq!((fault.x, fault.y, fault.width, fault.height), (128, 0, 32, 32));
        }
        other => panic!("unexpected: {:?}", other.map(|_| ())),
    }
}

#[test]
fn an_icon_file_is_not_a_sheet() {
    let config = BitmaskSlice::default();
    let input = InputIcon::Dmi(Icon { width: 32, height: 32, states: vec![] });
    assert!(matches!(
        config.perform_operation(&input, OperationMode::Standard, &glyphs()),
        Err(ProcessorError::FormatError(_))
    ));
    assert!(config.verify_config().is_ok());
}

#[test]
fn the_debug_mode_hands_out_the_crops() {
    let config = BitmaskSlice::default();
    let source = sheet(128, 64);
    let input = InputIcon::DynamicImage(source.clone());
    let out = match config.perform_operation(&input, OperationMode::Debug, &glyphs()).unwrap() {
        ProcessorPayload::MultipleNamed(out) => out,
        _ => panic!("several images were expected"),
    };
    assert_eq!(out.len(), 4 * 4 + 2);
    assert_eq!(out[0].path_hint.as_deref(), Some("DEBUGOUT/CORNERS/"));
    assert_eq!(out[0].name_hint.as_deref(), Some("CORNER-Convex-NorthEast"));
    assert_eq!(out[5].name_hint.as_deref(), Some("CORNER-Concave-SouthEast"));
    assert_eq!(out[15].name_hint.as_deref(), Some("CORNER-Vertical-NorthWest"));
    match &out[5].image {
        OutputImage::Png(image) => {
            assert_eq!(image.dimensions(), (16, 16));
            assert_eq!(image.get_pixel(0, 0), source.get_pixel(32 + 16, 16));
        }
        OutputImage::Dmi(_) => panic!("an image was expected"),
    }
    assert_eq!(out[16].path_hint.as_deref(), Some("DEBUGOUT"));
    assert_eq!(out[16].name_hint.as_deref(), Some("ASSEMBLED-CORNERS"));
    match &out[16].image {
        OutputImage::Png(image) => {
            assert_eq!(image.dimensions(), (128, 32));
            // the first frame of the sheet, put together again
            for y in 0..32 {
                for x in 0..128 {
                    assert_eq!(image.get_pixel(x, y), source.get_pixel(x, y));
                }
            }
        }
        OutputImage::Dmi(_) => panic!("an image was expected"),
    }
    assert!(out[17].path_hint.is_none() && out[17].name_hint.is_none());
    assert!(matches!(&out[17].image, OutputImage::Dmi(icon) if icon.states.len() == 16));
    assert_eq!(out[17].image.extension(), "dmi");
    assert_eq!(out[16].image.extension(), "png");
}

#[test]
fn a_delay_list_is_never_cut() {
    let delays: Vec<Delay> =
        [1.0f32, 2.0, 3.0].iter().map(|delay| Delay { bits: delay.to_bits() }).collect();
    assert_eq!(delay_repeat(&Some(delays.clone()), 2), Some(delays.clone()));
    assert_eq!(delay_repeat(&Some(delays.clone()), 3), Some(delays.clone()));
    assert_eq!(delay_repeat(&Some(delays.clone()), 0), Some(delays.clone()));
    assert_eq!(
        delay_repeat(&Some(delays.clone()), 4),
        Some(vec![delays[0], delays[1], delays[2], delays[0]])
    );
    assert_eq!(delay_repeat(&None, 2), None);
    assert_eq!(extend_delays(&delays, 1), delays);
    assert_eq!(extend_delays(&Vec::new(), 3), Vec::new());

    let config = BitmaskSlice {
        animation: Some(Animation { delays: delays.clone() }),
        ..BitmaskSlice::default()
    };
    let input = InputIcon::DynamicImage(sheet(128, 64));
    let icon =
        icon_of(config.perform_operation(&input, OperationMode::Standard, &glyphs()).unwrap());
    assert_eq!(icon.states.len(), 16);
    for state in &icon.states {
        assert_eq!(state.frames, 2);
        assert_eq!(state.delay.as_ref().unwrap(), &delays);
    }
}

#[test]
fn directions_do_not_go_with_diagonal_smoothing() {
    let mut positions = Positions::default();
    assert_eq!(positions.insert(CornerType::Flat, 4), None);
    let config = BitmaskSlice {
        smooth_diagonally: true,
        produce_dirs: true,
        positions,
        ..BitmaskSlice::default()
    };
    assert!(matches!(config.verify_config(), Err(ProcessorError::DiagonalDirections)));
    let input = InputIcon::DynamicImage(sheet(160, 32));
    assert!(matches!(
        config.perform_operation(&input, OperationMode::Standard, &glyphs()),
        Err(ProcessorError::DiagonalDirections)
    ));
    assert!(matches!(
        config.do_operation(&input, OperationMode::Debug, &glyphs()),
        Err(ProcessorError::DiagonalDirections)
    ));
    assert!(BitmaskSlice::default().verify_config().is_ok());
    assert!(BitmaskSlice { produce_dirs: true, ..BitmaskSlice::default() }.verify_config().is_ok());
    assert!(BitmaskSlice { smooth_diagonally: true, ..BitmaskSlice::default() }
        .verify_config()
        .is_ok());
}

#[test]
fn the_map_icon_has_the_size_of_the_output() {
    let config = BitmaskSlice {
        output_icon_size: OutputIconSize { x: 40, y: 32 },
        map_icon: Some(hypnagogic_core::config::blocks::generators::MapIcon {
            text: None,
            ..Default::default()
        }),
        ..BitmaskSlice::default()
    };
    let input = InputIcon::DynamicImage(sheet(128, 32));
    let icon =
        icon_of(config.perform_operation(&input, OperationMode::Standard, &glyphs()).unwrap());
    assert_eq!((icon.width, icon.height), (40, 32));
    assert_eq!(icon.states.len(), 17);
    assert_eq!(icon.states[0].images[0].dimensions(), (40, 32));
    assert_eq!(icon.states[16].images[0].dimensions(), (40, 32));
}
