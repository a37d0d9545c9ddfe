use hypnagogic_core::config::blocks::cutters::{Delay, StringMap};
use hypnagogic_core::operations::error::ProcessorError;
use hypnagogic_core::operations::format_converter::bitmask_to_precut::{
    lay_out, name_parts, same_delays, BitmaskSliceReconstruct,
};
use hypnagogic_core::operations::icon::{Icon, IconState};
use hypnagogic_core::operations::{
    ConfigLine, IconOperationConfig, InputIcon, OperationMode, OutputImage, OutputText,
    ProcessorPayload,
};
use hypnagogic_core::util::text::{decimal_text, hyphenated, join, split_name};
use image::{DynamicImage, GenericImageView, Rgba, RgbaImage};

fn frame(width: u32, height: u32, shade: u8) -> DynamicImage {
    DynamicImage::ImageRgba8(RgbaImage::from_pixel(width, height, Rgba([shade, shade, shade, 255])))
}

fn state(name: &str, shades: &[u8], delay: Option<Vec<f32>>) -> IconState {
    IconState {
        name: name.to_string(),
        dirs: 1,
        frames: shades.len() as u32,
        images: shades.iter().map(|shade| frame(4, 4, *shade)).collect(),
        delay: delay
            .map(|delays| delays.iter().map(|delay| Delay { bits: delay.to_bits() }).collect()),
    }
}

fn pairs(entries: &[(&str, &str)]) -> StringMap {
    StringMap(entries.iter().map(|(key, value)| (key.to_string(), value.to_string())).collect())
}

fn texts(lines: &[ConfigLine]) -> Vec<String> {
    lines
        .iter()
        .map(|line| match line {
            ConfigLine::Text(text) => text.clone(),
            ConfigLine::Delays(delays) => format!(
                "delays = {:?}",
                delays.iter().map(|delay| f32::from_bits(delay.bits)).collect::<Vec<f32>>()
            ),
        })
        .collect()
}

fn glyphs() -> DynamicImage {
    DynamicImage::new_rgba8(0, 0)
}

#[test]
fn names_are_split_at_their_hyphens() {
    assert_eq!(split_name("wall-12"), ("wall".to_string(), "12".to_string()));
    assert_eq!(split_name("wall"), ("wall".to_string(), "wall".to_string()));
    assert_eq!(split_name("a-b-c"), ("a".to_string(), "c".to_string()));
    assert_eq!(split_name("a-"), ("a".to_string(), "".to_string()));
    assert_eq!(split_name("-b"), ("".to_string(), "b".to_string()));
    assert_eq!(split_name(""), ("".to_string(), "".to_string()));
    assert_eq!(join(&vec!["a".to_string(), "b".to_string(), "c".to_string()], ", "), "a, b, c");
    assert_eq!(join(&vec!["a".to_string()], ", "), "a");
    assert_eq!(join(&vec![], ", "), "");
    assert_eq!(decimal_text(0), "0");
    assert_eq!(decimal_text(1234567890), "1234567890");
    assert_eq!(decimal_text(u64::MAX), "18446744073709551615");
    assert_eq!(hyphenated("a", "1"), "a-1");
}

/// Whether a state of that name is left out without complaint: only a
/// state that is named by a number is.
fn is_left_out(name: &str) -> bool {
    let icon = Icon { width: 1, height: 1, states: vec![state(name, &[1], None)] };
    let config = BitmaskSliceReconstruct { extract: vec![], bespoke: None, set: None };
    config.perform_operation(&InputIcon::Dmi(icon), OperationMode::Standard, &glyphs()).is_ok()
}

#[test]
fn numbers_are_told_from_names() {
    for text in ["0", "12", "+7", "007", "2147483647", "w-2147483647", "w-0", "w--7"] {
        assert!(is_left_out(text), "{text}");
    }
    for text in ["", "+", "1a", "a1", " 1", "1 ", "2147483648", "w--2147483648", "1.0", "w-"] {
        assert!(!is_left_out(text), "{text}");
    }
}

#[test]
fn a_sheet_is_put_together_again() {
    let icon = Icon {
        width: 4,
        height: 4,
        states: vec![
            state("wall-0", &[1], Some(vec![1.0, 2.5])),
            state("wall-vertical", &[10, 11], Some(vec![1.0, 2.5])),
            state("wall-convex", &[20, 21], Some(vec![1.0, 2.5])),
            state("wall-255", &[2], Some(vec![1.0, 2.5])),
            state("wall-lone", &[30, 31], Some(vec![1.0, 2.5])),
        ],
    };
    let config = BitmaskSliceReconstruct {
        extract: vec!["convex".to_string(), "concave".to_string(), "vertical".to_string()],
        bespoke: Some(pairs(&[("lone", "0")])),
        set: Some(pairs(&[("produce_dirs", "true")])),
    };
    let parts = name_parts(&icon);
    assert_eq!(parts[1], ("wall".to_string(), "vertical".to_string()));
    let keys: Vec<String> =
        ["convex", "concave", "vertical", "lone"].iter().map(|key| key.to_string()).collect();
    assert_eq!(lay_out(&icon, &parts, &keys), vec![2, 1, 4]);
    let done = config
        .perform_operation(&InputIcon::Dmi(icon), OperationMode::Standard, &glyphs())
        .unwrap();
    let (image, lines) = match done {
        ProcessorPayload::ConfigWrapped(inner, text) => match (*inner, *text) {
            (ProcessorPayload::Single(image), OutputText::PngConfig(lines)) => match *image {
                OutputImage::Png(image) => (image, lines),
                OutputImage::Dmi(_) => panic!("an image was expected"),
            },
            _ => panic!("an image and a sheet configuration were expected"),
        },
        _ => panic!("a wrapped payload was expected"),
    };
    assert_eq!(image.dimensions(), (12, 8));
    for (column, shades) in [[20u8, 21], [10, 11], [30, 31]].iter().enumerate() {
        for (row, shade) in shades.iter().enumerate() {
            for y in 0..4 {
                for x in 0..4 {
                    assert_eq!(
                        image.get_pixel(column as u32 * 4 + x, row as u32 * 4 + y),
                        Rgba([*shade, *shade, *shade, 255])
                    );
                }
            }
        }
    }
    assert_eq!(
        texts(&lines),
        vec![
            "output_name = \"wall\"",
            "produce_dirs = true",
            "",
            "[prefabs]",
            "0 = 2",
            "",
            "[animation]",
            "delays = [1.0, 2.5]",
            "",
            "[icon_size]",
            "x = 4",
            "y = 4",
            "",
            "[output_icon_size]",
            "x = 4",
            "y = 4",
            "",
            "[cut_pos]",
            "x = 2",
            "y = 2",
            "",
        ]
    );
}

#[test]
fn states_are_grouped_by_the_names_asked_for() {
    let icon = Icon {
        width: 2,
        height: 2,
        states: vec![
            state("b", &[1], None),
            state("a", &[2], None),
            state("x-b", &[3], None),
            state("c", &[4], None),
        ],
    };
    let parts = name_parts(&icon);
    let keys: Vec<String> = ["c", "b", "c", "a"].iter().map(|key| key.to_string()).collect();
    assert_eq!(lay_out(&icon, &parts, &keys), vec![3, 0, 2, 1]);
    assert_eq!(lay_out(&icon, &parts, &vec![]), vec![]);
}

#[test]
fn names_must_share_their_prefix() {
    let icon = Icon {
        width: 4,
        height: 4,
        states: vec![
            state("wall-0", &[1], None),
            state("floor-1", &[1], None),
            state("wall-2", &[1], None),
            state("door", &[1], None),
        ],
    };
    let config = BitmaskSliceReconstruct { extract: vec![], bespoke: None, set: None };
    match config.perform_operation(&InputIcon::Dmi(icon), OperationMode::Standard, &glyphs()) {
        Err(ProcessorError::DmiError(message)) => assert_eq!(
            message,
            "The following icon states are named with inconsistent prefixes (with the rest of \
             the file) [floor-1, door]"
        ),
        other => panic!("unexpected: {:?}", other.map(|_| ())),
    }
}

#[test]
fn a_state_that_would_be_lost_is_reported() {
    let icon = Icon {
        width: 4,
        height: 4,
        states: vec![
            state("wall-0", &[1], None),
            state("wall-convex", &[1], None),
            state("wall-odd", &[1], None),
            state("wall-lone", &[1], None),
            state("wall-other", &[1], None),
        ],
    };
    let config = BitmaskSliceReconstruct {
        extract: vec!["convex".to_string()],
        bespoke: Some(pairs(&[("lone", "3")])),
        set: None,
    };
    match config.perform_operation(&InputIcon::Dmi(icon), OperationMode::Standard, &glyphs()) {
        Err(ProcessorError::DmiError(message)) => assert_eq!(
            message,
            "Restoration would fail to properly parse the following icon states [(odd), \
             (other)] not parsed like [convex, lone]"
        ),
        other => panic!("unexpected: {:?}", other.map(|_| ())),
    }
}

#[test]
fn delays_must_agree() {
    let icon = Icon {
        width: 4,
        height: 4,
        states: vec![
            state("wall-a", &[1, 2], Some(vec![1.0, 2.0])),
            state("wall-b", &[1, 2], Some(vec![1.0, 3.0])),
        ],
    };
    let config = BitmaskSliceReconstruct {
        extract: vec!["a".to_string(), "b".to_string()],
        bespoke: None,
        set: None,
    };
    match config.perform_operation(&InputIcon::Dmi(icon), OperationMode::Standard, &glyphs()) {
        Err(ProcessorError::DelayMismatch { state, found, expected }) => {
            assert_eq!(state, "b");
            assert_eq!(found.unwrap()[1], Delay { bits: 3.0f32.to_bits() });
            assert_eq!(expected.unwrap()[1], Delay { bits: 2.0f32.to_bits() });
        }
        other => panic!("unexpected: {:?}", other.map(|_| ())),
    }
    let one = Some(vec![Delay { bits: 1 }]);
    assert!(same_delays(&one, &one));
    assert!(!same_delays(&one, &None));
    assert!(!same_delays(&one, &Some(vec![Delay { bits: 2 }])));
    assert!(!same_delays(&one, &Some(vec![Delay { bits: 1 }, Delay { bits: 1 }])));
    assert!(same_delays(&None, &None));
}

#[test]
fn a_frame_that_does_not_fit_is_reported() {
    let mut odd = state("wall-a", &[1, 2], None);
    odd.images[1] = frame(5, 4, 9);
    let icon = Icon { width: 4, height: 4, states: vec![odd] };
    let config =
        BitmaskSliceReconstruct { extract: vec!["a".to_string()], bespoke: None, set: None };
    match config.perform_operation(&InputIcon::Dmi(icon), OperationMode::Standard, &glyphs()) {
        Err(ProcessorError::DmiError(message)) => {
            assert_eq!(message, "Failed to copy frame (bad dmi?): a #1")
        }
        other => panic!("unexpected: {:?}", other.map(|_| ())),
    }
    assert!(matches!(
        config.perform_operation(
            &InputIcon::DynamicImage(frame(1, 1, 1)),
            OperationMode::Standard,
            &glyphs()
        ),
        Err(ProcessorError::FormatError(_))
    ));
}

#[test]
fn an_icon_without_states_gives_an_empty_sheet() {
    let icon = Icon { width: 32, height: 32, states: vec![] };
    let config = BitmaskSliceReconstruct { extract: vec![], bespoke: None, set: None };
    let done = config
        .perform_operation(&InputIcon::Dmi(icon), OperationMode::Standard, &glyphs())
        .unwrap();
    match done {
        ProcessorPayload::ConfigWrapped(inner, text) => {
            assert!(matches!(*inner, ProcessorPayload::Single(image)
                if matches!(&*image, OutputImage::Png(sheet) if sheet.dimensions() == (0, 32))));
            match *text {
                OutputText::PngConfig(lines) => {
                    assert_eq!(texts(&lines)[0], "[icon_size]");
                    assert_eq!(texts(&lines)[9], "x = 16");
                    assert_eq!(lines.len(), 12);
                }
                OutputText::DmiConfig(_) => panic!("a sheet configuration was expected"),
            }
        }
        _ => panic!("a wrapped payload was expected"),
    }
}
