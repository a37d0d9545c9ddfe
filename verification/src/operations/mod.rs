use image::DynamicImage;
use vstd::prelude::*;

use crate::operations::cutters::bitmask_dir_visibility::BitmaskDirectionalVis;
use crate::operations::cutters::bitmask_slice::BitmaskSlice;
use crate::operations::cutters::bitmask_windows::BitmaskWindows;
use crate::config::blocks::cutters::Delay;
use crate::operations::error::ProcessorError;
use crate::operations::format_converter::bitmask_to_precut::BitmaskSliceReconstruct;
use crate::operations::icon::Icon;
use crate::util::color::Color;
use crate::util::raster::image_rows;

pub mod cutters;
pub mod error;
pub mod format_converter;
pub mod icon;

verus! {

/// What an operation works on: a decoded image, or a decoded icon file.
#[derive(Clone)]
pub enum InputIcon {
    DynamicImage(DynamicImage),
    Dmi(Icon),
}

/// An output image with hints for the path and the name under which it is
/// to be written.
#[derive(Clone)]
pub struct NamedIcon {
    /// A directory below that of the input, named after the input and this
    /// hint.
    pub path_hint: Option<String>,
    /// A text that is added to the name of the input.
    pub name_hint: Option<String>,
    pub image: OutputImage,
}

impl NamedIcon {
    /// An icon with both hints.
    #[must_use]
    pub fn new(path_hint: &str, name_hint: &str, image: OutputImage) -> (named: NamedIcon)
        ensures
            named.path_hint is Some && named.path_hint->Some_0@ == path_hint@,
            named.name_hint is Some && named.name_hint->Some_0@ == name_hint@,
            named.image == image,
    {
        NamedIcon {
            path_hint: Some(path_hint.to_owned()),
            name_hint: Some(name_hint.to_owned()),
            image,
        }
    }

    /// An icon file without hints.
    #[must_use]
    pub fn from_icon(icon: Icon) -> (named: NamedIcon)
        ensures
            named.path_hint is None,
            named.name_hint is None,
            named.image == OutputImage::Dmi(icon),
    {
        NamedIcon { path_hint: None, name_hint: None, image: OutputImage::Dmi(icon) }
    }
}

/// What an operation hands back to be written.
#[derive(Clone)]
pub enum Output {
    Image(OutputImage),
    Text(OutputText),
}

impl Output {
    /// The extension of the file that the output is written to.
    pub open spec fn extension_text(self) -> Seq<char> {
        match self {
            Output::Image(image) => image.extension_text(),
            Output::Text(text) => text.extension_text(),
        }
    }

    #[must_use]
    pub fn extension(&self) -> (extension: &'static str)
        ensures
            extension@ == self.extension_text(),
    {
        match self {
            Output::Image(image) => image.extension(),
            Output::Text(text) => text.extension(),
        }
    }
}

#[derive(Clone)]
pub enum OutputImage {
    Png(DynamicImage),
    Dmi(Icon),
}

impl OutputImage {
    pub open spec fn extension_text(self) -> Seq<char> {
        match self {
            OutputImage::Png(_) => "png"@,
            OutputImage::Dmi(_) => "dmi"@,
        }
    }

    #[must_use]
    pub fn extension(&self) -> (extension: &'static str)
        ensures
            extension@ == self.extension_text(),
    {
        match self {
            OutputImage::Png(_) => "png",
            OutputImage::Dmi(_) => "dmi",
        }
    }
}

/// A line of a configuration that an operation writes. The delays of an
/// animation are real numbers; the line that lists them is handed out as
/// the delays themselves, to be written as `delays = [..]` by a caller who
/// has the reals.
#[derive(Clone, Debug)]
pub enum ConfigLine {
    Text(String),
    Delays(Vec<Delay>),
}

/// What a line of a configuration says.
pub ghost enum LineView {
    Text(Seq<char>),
    Delays(Seq<Delay>),
}

impl View for ConfigLine {
    type V = LineView;

    open spec fn view(&self) -> LineView {
        match self {
            ConfigLine::Text(text) => LineView::Text(text@),
            ConfigLine::Delays(delays) => LineView::Delays(delays@),
        }
    }
}

/// A configuration that an operation wrote, for a sheet or for an icon
/// file, line by line.
#[derive(Clone)]
pub enum OutputText {
    PngConfig(Vec<ConfigLine>),
    DmiConfig(Vec<ConfigLine>),
}

impl OutputText {
    pub open spec fn extension_text(self) -> Seq<char> {
        match self {
            OutputText::PngConfig(_) => "png.toml"@,
            OutputText::DmiConfig(_) => "dmi.toml"@,
        }
    }

    #[must_use]
    pub fn extension(&self) -> (extension: &'static str)
        ensures
            extension@ == self.extension_text(),
    {
        match self {
            OutputText::PngConfig(_) => "png.toml",
            OutputText::DmiConfig(_) => "dmi.toml",
        }
    }
}

/// The result of an operation. What becomes of it is up to the caller.
pub enum ProcessorPayload {
    /// One image without hints.
    Single(Box<OutputImage>),
    /// One image with hints.
    SingleNamed(Box<NamedIcon>),
    /// Several images with hints.
    MultipleNamed(Vec<NamedIcon>),
    /// A payload and the configuration to write beside it.
    ConfigWrapped(Box<ProcessorPayload>, Box<OutputText>),
}

impl ProcessorPayload {
    #[must_use]
    pub fn from_icon(icon: Icon) -> (payload: ProcessorPayload)
        ensures
            payload == ProcessorPayload::Single(Box::new(OutputImage::Dmi(icon))),
    {
        ProcessorPayload::Single(Box::new(OutputImage::Dmi(icon)))
    }

    #[must_use]
    pub fn from_image(image: DynamicImage) -> (payload: ProcessorPayload)
        ensures
            payload == ProcessorPayload::Single(Box::new(OutputImage::Png(image))),
    {
        ProcessorPayload::Single(Box::new(OutputImage::Png(image)))
    }

    #[must_use]
    pub fn wrap_png_config(payload: ProcessorPayload, text: Vec<ConfigLine>) -> (wrapped:
        ProcessorPayload)
        ensures
            wrapped == ProcessorPayload::ConfigWrapped(
                Box::new(payload),
                Box::new(OutputText::PngConfig(text)),
            ),
    {
        ProcessorPayload::ConfigWrapped(Box::new(payload), Box::new(OutputText::PngConfig(text)))
    }

    #[must_use]
    pub fn wrap_dmi_config(payload: ProcessorPayload, text: Vec<ConfigLine>) -> (wrapped:
        ProcessorPayload)
        ensures
            wrapped == ProcessorPayload::ConfigWrapped(
                Box::new(payload),
                Box::new(OutputText::DmiConfig(text)),
            ),
    {
        ProcessorPayload::ConfigWrapped(Box::new(payload), Box::new(OutputText::DmiConfig(text)))
    }
}

/// An operation on an icon: implement it to add a kind of operation.
pub trait IconOperationConfig {
    /// Whether `done` is what the operation gives for the input, drawn with
    /// the characters of `sheet`.
    spec fn outcome(
        &self,
        input: InputIcon,
        mode: OperationMode,
        sheet: Seq<Seq<Color>>,
        done: Result<ProcessorPayload, ProcessorError>,
    ) -> bool;

    /// Whether the check of the configured values ends so: with the fault
    /// that it found, or with none.
    spec fn config_outcome(&self, fault: Option<ProcessorError>) -> bool;

    /// Performs the operation on the input. `glyphs` is the sheet of the
    /// characters that texts are drawn with.
    fn perform_operation(&self, input: &InputIcon, mode: OperationMode, glyphs: &DynamicImage) -> (done:
        Result<ProcessorPayload, ProcessorError>)
        ensures
            self.outcome(*input, mode, image_rows(*glyphs), done),
    ;

    /// Checks that the configured values make sense for the operation.
    fn verify_config(&self) -> (checked: Result<(), ProcessorError>)
        ensures
            match checked {
                Ok(_) => self.config_outcome(None),
                Err(error) => self.config_outcome(Some(error)),
            },
    ;

    /// Checks the configuration and performs the operation: what the check
    /// refuses is handed back, and nothing is done.
    fn do_operation(&self, input: &InputIcon, mode: OperationMode, glyphs: &DynamicImage) -> (done:
        Result<ProcessorPayload, ProcessorError>)
        ensures
            (self.config_outcome(None) && self.outcome(*input, mode, image_rows(*glyphs), done))
                || (done is Err && self.config_outcome(Some(done->Err_0))),
    {
        match self.verify_config() {
            Ok(_) => self.perform_operation(input, mode, glyphs),
            Err(error) => Err(error),
        }
    }
}

/// The operations that a configuration can ask for.
#[derive(Clone, PartialEq, Debug)]
pub enum IconOperation {
    BitmaskSlice(BitmaskSlice),
    BitmaskDirectionalVis(BitmaskDirectionalVis),
    BitmaskWindows(BitmaskWindows),
    BitmaskSliceReconstruct(BitmaskSliceReconstruct),
}

impl IconOperation {
    /// What the operation gives for an input.
    pub open spec fn operation_done(
        self,
        input: InputIcon,
        mode: OperationMode,
        sheet: Seq<Seq<Color>>,
        done: Result<ProcessorPayload, ProcessorError>,
    ) -> bool {
        match self {
            IconOperation::BitmaskSlice(config) => config.operation_done(input, mode, sheet, done),
            IconOperation::BitmaskDirectionalVis(config) => config.operation_done(
                input,
                mode,
                sheet,
                done,
            ),
            IconOperation::BitmaskWindows(config) => config.operation_done(input, done),
            IconOperation::BitmaskSliceReconstruct(config) => config.operation_done(input, done),
        }
    }
}

impl IconOperationConfig for IconOperation {
    open spec fn outcome(
        &self,
        input: InputIcon,
        mode: OperationMode,
        sheet: Seq<Seq<Color>>,
        done: Result<ProcessorPayload, ProcessorError>,
    ) -> bool {
        self.operation_done(input, mode, sheet, done)
    }

    open spec fn config_outcome(&self, fault: Option<ProcessorError>) -> bool {
        match self {
            IconOperation::BitmaskSlice(config) => config.config_outcome(fault),
            IconOperation::BitmaskDirectionalVis(config) => config.config_outcome(fault),
            IconOperation::BitmaskWindows(config) => config.config_outcome(fault),
            IconOperation::BitmaskSliceReconstruct(config) => config.config_outcome(fault),
        }
    }

    fn perform_operation(&self, input: &InputIcon, mode: OperationMode, glyphs: &DynamicImage) -> (done:
        Result<ProcessorPayload, ProcessorError>)
        ensures
            self.operation_done(*input, mode, image_rows(*glyphs), done),
    {
        match self {
            IconOperation::BitmaskSlice(config) => config.perform_operation(input, mode, glyphs),
            IconOperation::BitmaskDirectionalVis(config) => config.perform_operation(
                input,
                mode,
                glyphs,
            ),
            IconOperation::BitmaskWindows(config) => config.perform_operation(input, mode, glyphs),
            IconOperation::BitmaskSliceReconstruct(config) => config.perform_operation(
                input,
                mode,
                glyphs,
            ),
        }
    }

    fn verify_config(&self) -> (checked: Result<(), ProcessorError>) {
        match self {
            IconOperation::BitmaskSlice(config) => config.verify_config(),
            IconOperation::BitmaskDirectionalVis(config) => config.verify_config(),
            IconOperation::BitmaskWindows(config) => config.verify_config(),
            IconOperation::BitmaskSliceReconstruct(config) => config.verify_config(),
        }
    }
}

/// The ways in which an operation can be run.
#[derive(Copy, Clone, Eq, PartialEq, Structural, Ord, PartialOrd, Debug)]
pub enum OperationMode {
    Standard,
    Debug,
}

} // verus!
