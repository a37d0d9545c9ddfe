use hypnagogic_core::config::blocks::cutters::{
    IconSize, OutputIconPosition, OutputIconSize, SlicePoint, StringMap,
};
use hypnagogic_core::config::blocks::generators::MapIcon;
use hypnagogic_core::operations::cutters::bitmask_dir_visibility::BitmaskDirectionalVis;
use hypnagogic_core::operations::cutters::bitmask_slice::{BitmaskSlice, SideSpacing};
use hypnagogic_core::operations::cutters::bitmask_windows::BitmaskWindows;
use hypnagogic_core::operations::error::ProcessorError;
use hypnagogic_core::operations::icon::Icon;
use hypnagogic_core::operations::{
    ConfigLine, IconOperation, IconOperationConfig, InputIcon, OperationMode, Output,
    OutputImage, OutputText, ProcessorPayload,
};
use hypnagogic_core::util::adjacency::Adjacency;
use hypnagogic_core::util::corners::{Corner, CornerType, Side};
use image::{DynamicImage, GenericImageView, Rgba, RgbaImage};

fn sheet(width: u32, height: u32) -> DynamicImage {
    let mut image = RgbaImage::new(width, height);
    for y in 0..height {
        for x in 0..width {
            image.put_pixel(x, y, Rgba([x as u8, y as u8, (x / 32) as u8, 255]));
        }
    }
    DynamicImage::ImageRgba8(image)
}

fn glyphs() -> DynamicImage {
    DynamicImage::ImageRgba8(RgbaImage::from_pixel(48, 30, Rgba([0, 0, 0, 255])))
}

fn icon_of(payload: ProcessorPayload) -> Icon {
    match payload {
        ProcessorPayload::Single(image) => match *image {
            OutputImage::Dmi(icon) => icon,
            OutputImage::Png(_) => panic!("an icon file was expected"),
        },
        _ => panic!("a single image was expected"),
    }
}

#[test]
fn every_tile_is_seen_from_four_sides() {
    let config = BitmaskDirectionalVis {
        bitmask_slice_config: BitmaskSlice::default(),
        slice_point: SlicePoint::default(),
        mask_color: None,
    };
    assert_eq!(config.get_side_cuts(Side::North), SideSpacing { start: 0, end: 16 });
    assert_eq!(config.get_side_cuts(Side::South), SideSpacing { start: 16, end: 32 });
    assert_eq!(config.get_side_cuts(Side::East), SideSpacing { start: 28, end: 32 });
    assert_eq!(config.get_side_cuts(Side::West), SideSpacing { start: 0, end: 4 });
    assert!(config.check_cuts());

    let input = InputIcon::DynamicImage(sheet(128, 32));
    let plain = icon_of(
        BitmaskSlice::default()
            .perform_operation(&input, OperationMode::Standard, &glyphs())
            .unwrap(),
    );
    let icon =
        icon_of(config.perform_operation(&input, OperationMode::Standard, &glyphs()).unwrap());
    assert_eq!(icon.states.len(), 16 * 4 + 4);
    let names: Vec<&str> = icon.states.iter().map(|state| state.name.as_str()).collect();
    assert_eq!(&names[..5], &["0-2", "0-1", "0-4", "0-8", "1-2"]);
    assert_eq!(names[63], "15-8");
    assert_eq!(
        &names[64..],
        &["innercorner-5", "innercorner-6", "innercorner-10", "innercorner-9"]
    );
    for (at, state) in icon.states.iter().enumerate() {
        assert_eq!((state.dirs, state.frames, state.images.len()), (1, 1, 1));
        let image = &state.images[0];
        assert_eq!(image.dimensions(), (32, 32));
        let (tile, x, y, width, height) = if at < 64 {
            let rect = match at % 4 {
                0 => (0, 16, 32, 16),
                1 => (0, 0, 32, 16),
                2 => (28, 0, 4, 32),
                _ => (0, 0, 4, 32),
            };
            (&plain.states[at / 4].images[0], rect.0, rect.1, rect.2, rect.3)
        } else {
            let rect = match at - 64 {
                0 => (16, 0, 16, 16),
                1 => (16, 16, 16, 16),
                2 => (0, 16, 16, 16),
                _ => (0, 0, 16, 16),
            };
            (&plain.states[15].images[0], rect.0, rect.1, rect.2, rect.3)
        };
        for row in 0..32 {
            for column in 0..32 {
                let inside = (x..x + width).contains(&column) && (y..y + height).contains(&row);
                let expected =
                    if inside { tile.get_pixel(column, row) } else { Rgba([0, 0, 0, 0]) };
                assert_eq!(image.get_pixel(column, row), expected, "{at} at {column}, {row}");
            }
        }
    }
}

#[test]
fn views_need_their_cuts() {
    let missing = BitmaskDirectionalVis {
        bitmask_slice_config: BitmaskSlice::default(),
        slice_point: SlicePoint { east: None, ..SlicePoint::default() },
        mask_color: None,
    };
    let input = InputIcon::DynamicImage(sheet(128, 32));
    assert!(!missing.check_cuts());
    assert!(matches!(
        missing.perform_operation(&input, OperationMode::Standard, &glyphs()),
        Err(ProcessorError::ConfigError)
    ));
    let beyond = BitmaskDirectionalVis {
        slice_point: SlicePoint { south: Some(33), ..SlicePoint::default() },
        ..missing.clone()
    };
    assert!(matches!(
        beyond.perform_operation(&input, OperationMode::Standard, &glyphs()),
        Err(ProcessorError::ConfigError)
    ));
    assert!(matches!(
        beyond.perform_operation(&InputIcon::DynamicImage(sheet(128, 33)), OperationMode::Debug, &glyphs()),
        Err(ProcessorError::FrameHeight { .. })
    ));
    assert_eq!(SlicePoint::default().get(Side::East), Some(28));
}

#[test]
fn windows_come_in_two_parts_and_two_looks() {
    let config = BitmaskWindows {
        icon_size: IconSize { x: 32, y: 32 },
        output_icon_pos: OutputIconPosition { x: 0, y: 0 },
        output_icon_size: OutputIconSize { x: 32, y: 16 },
        animation: None,
    };
    let source = sheet(320, 64);
    let input = InputIcon::DynamicImage(source.clone());
    let icon =
        icon_of(config.perform_operation(&input, OperationMode::Standard, &glyphs()).unwrap());
    let sound: Vec<u8> = (0..=255u8)
        .filter(|bits| Adjacency::from_bits(*bits).unwrap().has_no_orphaned_corner())
        .collect();
    assert_eq!(sound.len(), 47);
    assert_eq!((icon.width, icon.height), (32, 16));
    assert_eq!(icon.states.len(), 47 * 4);
    let base = config.slice_config(false);
    let alt = config.slice_config(true);
    assert_eq!(base.positions.get(CornerType::Flat), Some(4));
    assert_eq!(alt.positions.get(CornerType::Convex), Some(5));
    assert_eq!((base.cut_pos.x, base.cut_pos.y), (16, 16));
    let (corners, prefabs) = base.generate_corners(&source).unwrap();
    let tiles = base.generate_icons(&corners, &prefabs, 2, 256);
    let (corners, prefabs) = alt.generate_corners(&source).unwrap();
    let alt_tiles = alt.generate_icons(&corners, &prefabs, 2, 256);
    for (at, bits) in sound.iter().enumerate() {
        for part in 0..4 {
            let state = &icon.states[at * 4 + part];
            let look = if part >= 2 { "alt-" } else { "" };
            let half = if part % 2 == 0 { "upper" } else { "lower" };
            assert_eq!(state.name, format!("{look}{bits}-{half}"));
            assert_eq!((state.dirs, state.frames, state.images.len()), (1, 2, 2));
            let set = if part >= 2 { &alt_tiles } else { &tiles };
            for frame in 0..2 {
                let tile = &set[*bits as usize][frame];
                let top = if part % 2 == 0 { 0 } else { 16 };
                let expected = tile.crop_imm(0, top, 32, 16);
                assert_eq!(state.images[frame].dimensions(), (32, 16));
                assert_eq!(state.images[frame].as_bytes(), expected.as_bytes());
            }
        }
    }
    assert_eq!(icon.states[0].name, "0-upper");
    assert_eq!(icon.states[187].name, "alt-255-lower");
    assert!(matches!(
        config.perform_operation(&InputIcon::DynamicImage(sheet(160, 64)), OperationMode::Standard, &glyphs()),
        Err(ProcessorError::CropOutOfBounds(fault)) if fault.column == 5
    ));
    assert!(matches!(
        config.perform_operation(&InputIcon::Dmi(Icon { width: 1, height: 1, states: vec![] }), OperationMode::Standard, &glyphs()),
        Err(ProcessorError::FormatError(_))
    ));
}

#[test]
fn an_operation_is_chosen_by_its_kind() {
    let operation = IconOperation::BitmaskSlice(BitmaskSlice {
        map_icon: Some(MapIcon::default()),
        ..BitmaskSlice::default()
    });
    let input = InputIcon::DynamicImage(sheet(128, 32));
    let icon =
        icon_of(operation.do_operation(&input, OperationMode::Standard, &glyphs()).unwrap());
    assert_eq!(icon.states.len(), 17);
    assert_eq!(icon.states[16].name, "map_icon");
    assert_eq!((icon.states[16].dirs, icon.states[16].frames), (1, 1));
    assert_eq!(icon.states[16].images[0].dimensions(), (32, 32));
    assert!(icon.states[16].delay.is_none());
    let small_sheet = DynamicImage::new_rgba8(10, 10);
    assert!(matches!(
        operation.perform_operation(&input, OperationMode::Standard, &small_sheet),
        Err(ProcessorError::FormatError(_))
    ));
    let long = IconOperation::BitmaskSlice(BitmaskSlice {
        map_icon: Some(MapIcon { text: Some("TOOLONGTEXT".to_string()), ..MapIcon::default() }),
        ..BitmaskSlice::default()
    });
    assert!(matches!(
        long.perform_operation(&input, OperationMode::Standard, &glyphs()),
        Err(ProcessorError::GenerationError(_))
    ));
    let huge = IconOperation::BitmaskSlice(BitmaskSlice {
        output_icon_size: OutputIconSize { x: u32::MAX, y: u32::MAX },
        ..BitmaskSlice::default()
    });
    assert!(matches!(
        huge.perform_operation(&input, OperationMode::Standard, &glyphs()),
        Err(ProcessorError::OutputTooLarge { width: u32::MAX, height: u32::MAX })
    ));
    assert!(operation.verify_config().is_ok());
}

#[test]
fn outputs_know_their_extension() {
    assert_eq!(OutputText::PngConfig(vec![]).extension(), "png.toml");
    assert_eq!(OutputText::DmiConfig(vec![]).extension(), "dmi.toml");
    assert_eq!(Output::Text(OutputText::DmiConfig(vec![])).extension(), "dmi.toml");
    assert_eq!(Output::Image(OutputImage::Png(DynamicImage::new_rgba8(1, 1))).extension(), "png");
    let wrapped = ProcessorPayload::wrap_png_config(
        ProcessorPayload::from_image(DynamicImage::new_rgba8(1, 1)),
        vec![ConfigLine::Text("a = 1".to_string())],
    );
    assert!(matches!(
        wrapped,
        ProcessorPayload::ConfigWrapped(inner, text)
            if matches!(*inner, ProcessorPayload::Single(_))
                && matches!(&*text, OutputText::PngConfig(config)
                    if matches!(&config[..], [ConfigLine::Text(line)] if line == "a = 1"))
    ));
    assert!(matches!(
        ProcessorPayload::wrap_dmi_config(
            ProcessorPayload::from_icon(Icon { width: 1, height: 1, states: vec![] }),
            vec![]
        ),
        ProcessorPayload::ConfigWrapped(_, text) if matches!(*text, OutputText::DmiConfig(_))
    ));
}

#[test]
fn sides_and_corners() {
    assert_eq!(Side::dmi_cardinals(), [Side::South, Side::North, Side::East, Side::West]);
    assert!(Side::North.is_vertical() && Side::South.is_vertical());
    assert!(!Side::East.is_vertical() && !Side::West.is_vertical());
    assert_eq!(
        [Side::North.byond_dir(), Side::South.byond_dir(), Side::East.byond_dir(), Side::West.byond_dir()],
        [1, 2, 4, 8]
    );
    assert_eq!(Corner::NorthEast.sides_of_corner(), (Side::East, Side::North));
    assert_eq!(Corner::SouthEast.sides_of_corner(), (Side::East, Side::South));
    assert_eq!(Corner::SouthWest.sides_of_corner(), (Side::West, Side::South));
    assert_eq!(Corner::NorthWest.sides_of_corner(), (Side::West, Side::North));
    assert_eq!(Corner::SouthWest.byond_dir(), 10);
    assert_eq!(
        CornerType::cardinal(),
        vec![CornerType::Convex, CornerType::Concave, CornerType::Horizontal, CornerType::Vertical]
    );
    assert_eq!(CornerType::diagonal().len(), 5);
    assert_eq!(CornerType::diagonal()[4], CornerType::Flat);
    assert_eq!(Side::West.to_text(), "west");
    assert_eq!(CornerType::Horizontal.to_text(), "horizontal");
    assert_eq!(Corner::NorthWest.debug_text(), "NorthWest");
    assert_eq!(CornerType::Flat.debug_text(), "Flat");
    assert_eq!(Corner::every()[2], Corner::SouthWest);
    assert_eq!(Adjacency::from(Side::East), Adjacency::e());
    assert_eq!(Adjacency::from_side(Side::South), Adjacency::s());
}

#[test]
fn a_string_map_hands_out_the_first_value() {
    let map = StringMap(vec![
        ("a".to_string(), "1".to_string()),
        ("b".to_string(), "2".to_string()),
        ("a".to_string(), "3".to_string()),
    ]);
    assert_eq!(map.get("a"), Some(&"1".to_string()));
    assert_eq!(map.get("b"), Some(&"2".to_string()));
    assert_eq!(map.get("c"), None);
    assert_eq!(StringMap::default().get("a"), None);
}

#[test]
fn names_are_read_back() {
    for side in Side::dmi_cardinals() {
        assert_eq!(Side::from_text(&side.to_text()), Some(side));
    }
    for corner_type in CornerType::diagonal() {
        assert_eq!(CornerType::from_text(&corner_type.to_text()), Some(corner_type));
    }
    assert_eq!(Side::from_text("west"), Some(Side::West));
    assert_eq!(Side::from_text("West"), None);
    assert_eq!(Side::from_text(""), None);
    assert_eq!(CornerType::from_text("flat"), Some(CornerType::Flat));
    assert_eq!(CornerType::from_text("convex "), None);
    assert_eq!(CornerType::from_text("north"), None);
}
