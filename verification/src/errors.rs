//! The errors of the decoder, their categories and their messages.
use crate::text::{Arg, Detail};
use crate::types::{AvifPixelLayout, HeicPixelLayout};
use vstd::prelude::*;

verus! {

/// Stable high-level decoder error categories for callers and tooling.
#[derive(Clone, Copy, Debug, PartialEq, Eq, Structural)]
pub enum DecodeErrorCategory {
    Io,
    Parse,
    MalformedInput,
    UnsupportedFeature,
    ResourceLimit,
    DecoderBackend,
    OutputEncoding,
}

impl DecodeErrorCategory {
    /// The label of each category.
    pub open spec fn label(self) -> &'static str {
        match self {
            DecodeErrorCategory::Io => "io",
            DecodeErrorCategory::Parse => "parse",
            DecodeErrorCategory::MalformedInput => "malformed-input",
            DecodeErrorCategory::UnsupportedFeature => "unsupported-feature",
            DecodeErrorCategory::ResourceLimit => "resource-limit",
            DecodeErrorCategory::DecoderBackend => "decoder-backend",
            DecodeErrorCategory::OutputEncoding => "output-encoding",
        }
    }

    /// Stable machine-readable label for CLI/script integration.
    pub fn as_str(self) -> (label: &'static str)
        ensures
            label == self.label(),
    {
        match self {
            DecodeErrorCategory::Io => "io",
            DecodeErrorCategory::Parse => "parse",
            DecodeErrorCategory::MalformedInput => "malformed-input",
            DecodeErrorCategory::UnsupportedFeature => "unsupported-feature",
            DecodeErrorCategory::ResourceLimit => "resource-limit",
            DecodeErrorCategory::DecoderBackend => "decoder-backend",
            DecodeErrorCategory::OutputEncoding => "output-encoding",
        }
    }
}

/// What the reader of the box structure reports when it refuses a file.
#[derive(Clone, Debug, PartialEq, Eq)]
pub enum ContainerError {
    /// The primary item is of another type than the one asked for.
    UnexpectedPrimaryItemType { message: String },
    /// Any other refusal.
    Other { message: String },
}

impl ContainerError {
    /// The text of the report.
    pub open spec fn text(self) -> Seq<char> {
        match self {
            ContainerError::UnexpectedPrimaryItemType { message } => message@,
            ContainerError::Other { message } => message@,
        }
    }

    /// The text of the report.
    pub fn message(&self) -> (message: String)
        ensures
            message@ == self.text(),
    {
        match self {
            ContainerError::UnexpectedPrimaryItemType { message } => message.clone(),
            ContainerError::Other { message } => message.clone(),
        }
    }
}

/// Structured decode guardrail failures for bounded ingestion.
#[derive(Clone, Debug, PartialEq, Eq)]
pub enum DecodeGuardrailError {
    InputTooLarge { actual_bytes: u64, max_input_bytes: u64 },
    PixelCountExceeded { width: u32, height: u32, actual_pixels: u64, max_pixels: u64 },
    TempSpoolLimitExceeded { attempted_bytes: u64, max_temp_spool_bytes: u64 },
    TempSpoolDirectoryCreateFailed { directory: String, io_error_kind: String },
    TempSpoolDirectoryOpenFailed { directory: String, io_error_kind: String },
}

impl DecodeGuardrailError {
    /// The text of the message.
    pub open spec fn text(self) -> Seq<char> {
        match self {
            DecodeGuardrailError::InputTooLarge { actual_bytes, max_input_bytes } => Detail::Two(
                "input exceeds configured max_input_bytes: got {} bytes, max is {}",
                Arg::Num(actual_bytes as i128),
                Arg::Num(max_input_bytes as i128),
            ).text(),
            DecodeGuardrailError::PixelCountExceeded {
                width,
                height,
                actual_pixels,
                max_pixels,
            } => Detail::Four(
                "decoded image exceeds configured max_pixels: got {} pixels ({}x{}), max is {}",
                Arg::Num(actual_pixels as i128),
                Arg::Num(width as i128),
                Arg::Num(height as i128),
                Arg::Num(max_pixels as i128),
            ).text(),
            DecodeGuardrailError::TempSpoolLimitExceeded {
                attempted_bytes,
                max_temp_spool_bytes,
            } => Detail::Two(
                "non-seek input exceeds configured max_temp_spool_bytes while spooling: attempted {} bytes, max is {}",
                Arg::Num(attempted_bytes as i128),
                Arg::Num(max_temp_spool_bytes as i128),
            ).text(),
            DecodeGuardrailError::TempSpoolDirectoryCreateFailed { directory, io_error_kind } => {
                "failed to create configured temp_spool_directory "@ + directory@
                    + " while spooling non-seek input: "@ + io_error_kind@
            },
            DecodeGuardrailError::TempSpoolDirectoryOpenFailed { directory, io_error_kind } => {
                "failed to open temp spool file in configured temp_spool_directory "@ + directory@
                    + " while spooling non-seek input: "@ + io_error_kind@
            },
        }
    }

    /// Every guardrail failure is a resource limit.
    pub fn category(&self) -> (category: DecodeErrorCategory)
        ensures
            category == DecodeErrorCategory::ResourceLimit,
    {
        DecodeErrorCategory::ResourceLimit
    }

    /// The text of the message.
    pub fn message(&self) -> (message: String)
        ensures
            message@ == self.text(),
    {
        match self {
            DecodeGuardrailError::InputTooLarge { actual_bytes, max_input_bytes } => Detail::Two(
                "input exceeds configured max_input_bytes: got {} bytes, max is {}",
                Arg::Num(*actual_bytes as i128),
                Arg::Num(*max_input_bytes as i128),
            ).render(),
            DecodeGuardrailError::PixelCountExceeded {
                width,
                height,
                actual_pixels,
                max_pixels,
            } => Detail::Four(
                "decoded image exceeds configured max_pixels: got {} pixels ({}x{}), max is {}",
                Arg::Num(*actual_pixels as i128),
                Arg::Num(*width as i128),
                Arg::Num(*height as i128),
                Arg::Num(*max_pixels as i128),
            ).render(),
            DecodeGuardrailError::TempSpoolLimitExceeded {
                attempted_bytes,
                max_temp_spool_bytes,
            } => Detail::Two(
                "non-seek input exceeds configured max_temp_spool_bytes while spooling: attempted {} bytes, max is {}",
                Arg::Num(*attempted_bytes as i128),
                Arg::Num(*max_temp_spool_bytes as i128),
            ).render(),
            DecodeGuardrailError::TempSpoolDirectoryCreateFailed { directory, io_error_kind } => {
                let mut text: String = String::new();
                text.append("failed to create configured temp_spool_directory ");
                text.append(directory.as_str());
                text.append(" while spooling non-seek input: ");
                text.append(io_error_kind.as_str());
                text
            },
            DecodeGuardrailError::TempSpoolDirectoryOpenFailed { directory, io_error_kind } => {
                let mut text: String = String::new();
                text.append("failed to open temp spool file in configured temp_spool_directory ");
                text.append(directory.as_str());
                text.append(" while spooling non-seek input: ");
                text.append(io_error_kind.as_str());
                text
            },
        }
    }
}

/// Structured transform/input validation failures in the RGBA output path.
#[derive(Clone, Copy, Debug, PartialEq, Eq)]
#[allow(inconsistent_fields)]
pub enum TransformGuardError {
    RgbaSampleCountMismatch {
        stage: &'static str,
        actual: usize,
        expected: usize,
        width: u32,
        height: u32,
    },
    PixelCountOverflow { width: u32, height: u32 },
    SampleCountOverflow { width: u32, height: u32 },
    SampleCountExceedsAddressSpace { width: u32, height: u32 },
    UnsupportedRotation { rotation_ccw_degrees: u16 },
    DimensionTooLargeForPlatform { stage: &'static str, dimension: &'static str, value: u64 },
    PixelIndexOverflow { stage: &'static str, x: usize, y: usize, width: u32, height: u32 },
    EmptyImageGeometry { width: u32, height: u32 },
    InvalidCleanApertureBounds {
        width: u32,
        height: u32,
        left: i128,
        right: i128,
        top: i128,
        bottom: i128,
    },
    CleanApertureCropDimensionOutOfRange { dimension: &'static str, value: i128 },
    CleanApertureBoundOutOfRange { bound: &'static str, value: i128 },
    CleanApertureRowOffsetOverflow { stage: &'static str, y: usize, width: u32, height: u32 },
}

impl TransformGuardError {
    /// The message of the error.
    pub open spec fn detail(self) -> Detail {
        match self {
            TransformGuardError::RgbaSampleCountMismatch {
                stage,
                actual,
                expected,
                width,
                height,
            } => Detail::Five(
                "RGBA sample count mismatch for {}: got {}, expected {} for {}x{}",
                Arg::Word(stage),
                Arg::Num(actual as i128),
                Arg::Num(expected as i128),
                Arg::Num(width as i128),
                Arg::Num(height as i128),
            ),
            TransformGuardError::PixelCountOverflow { width, height } => Detail::Two(
                "RGBA pixel count overflow for dimensions {}x{}",
                Arg::Num(width as i128),
                Arg::Num(height as i128),
            ),
            TransformGuardError::SampleCountOverflow { width, height } => Detail::Two(
                "RGBA sample count overflow for dimensions {}x{}",
                Arg::Num(width as i128),
                Arg::Num(height as i128),
            ),
            TransformGuardError::SampleCountExceedsAddressSpace { width, height } => Detail::Two(
                "RGBA sample count does not fit in memory on this platform for dimensions {}x{}",
                Arg::Num(width as i128),
                Arg::Num(height as i128),
            ),
            TransformGuardError::UnsupportedRotation { rotation_ccw_degrees } => Detail::One(
                "unsupported irot rotation angle {} degrees",
                Arg::Num(rotation_ccw_degrees as i128),
            ),
            TransformGuardError::DimensionTooLargeForPlatform {
                stage,
                dimension,
                value,
            } => Detail::Three(
                "{} {} does not fit in usize ({}) while applying transform",
                Arg::Word(stage),
                Arg::Word(dimension),
                Arg::Num(value as i128),
            ),
            TransformGuardError::PixelIndexOverflow { stage, x, y, width, height } => Detail::Five(
                "{} pixel index overflow at ({}, {}) for {}x{} image",
                Arg::Word(stage),
                Arg::Num(x as i128),
                Arg::Num(y as i128),
                Arg::Num(width as i128),
                Arg::Num(height as i128),
            ),
            TransformGuardError::EmptyImageGeometry { width, height } => Detail::Two(
                "cannot apply clean aperture to empty image geometry {}x{}",
                Arg::Num(width as i128),
                Arg::Num(height as i128),
            ),
            TransformGuardError::InvalidCleanApertureBounds {
                width,
                height,
                left,
                right,
                top,
                bottom,
            } => Detail::Six(
                "invalid clean aperture crop bounds after clamping for {}x{} image: left={}, right={}, top={}, bottom={}",
                Arg::Num(width as i128),
                Arg::Num(height as i128),
                Arg::Num(left),
                Arg::Num(right),
                Arg::Num(top),
                Arg::Num(bottom),
            ),
            TransformGuardError::CleanApertureCropDimensionOutOfRange {
                dimension,
                value,
            } => Detail::Two(
                "clean aperture crop {} does not fit in u32 ({})",
                Arg::Word(dimension),
                Arg::Num(value),
            ),
            TransformGuardError::CleanApertureBoundOutOfRange { bound, value } => Detail::Two(
                "clean aperture {} bound does not fit in usize ({})",
                Arg::Word(bound),
                Arg::Num(value),
            ),
            TransformGuardError::CleanApertureRowOffsetOverflow {
                stage,
                y,
                width,
                height,
            } => Detail::Four(
                "clean aperture {} overflow at y={} for {}x{} image",
                Arg::Word(stage),
                Arg::Num(y as i128),
                Arg::Num(width as i128),
                Arg::Num(height as i128),
            ),
        }
    }

    /// The category of each error: an angle that is no quarter turn is an
    /// unsupported feature, anything else is malformed input.
    pub open spec fn spec_category(self) -> DecodeErrorCategory {
        if self is UnsupportedRotation {
            DecodeErrorCategory::UnsupportedFeature
        } else {
            DecodeErrorCategory::MalformedInput
        }
    }

    /// The category of the error.
    pub fn category(&self) -> (category: DecodeErrorCategory)
        ensures
            category == self.spec_category(),
    {
        match self {
            TransformGuardError::UnsupportedRotation {
                ..
            } => DecodeErrorCategory::UnsupportedFeature,
            _ => DecodeErrorCategory::MalformedInput,
        }
    }

    /// The text of the message.
    pub fn message(&self) -> (message: String)
        ensures
            message@ == self.detail().text(),
    {
        let detail: Detail = match *self {
            TransformGuardError::RgbaSampleCountMismatch {
                stage,
                actual,
                expected,
                width,
                height,
            } => Detail::Five(
                "RGBA sample count mismatch for {}: got {}, expected {} for {}x{}",
                Arg::Word(stage),
                Arg::Num(actual as i128),
                Arg::Num(expected as i128),
                Arg::Num(width as i128),
                Arg::Num(height as i128),
            ),
            TransformGuardError::PixelCountOverflow { width, height } => Detail::Two(
                "RGBA pixel count overflow for dimensions {}x{}",
                Arg::Num(width as i128),
                Arg::Num(height as i128),
            ),
            TransformGuardError::SampleCountOverflow { width, height } => Detail::Two(
                "RGBA sample count overflow for dimensions {}x{}",
                Arg::Num(width as i128),
                Arg::Num(height as i128),
            ),
            TransformGuardError::SampleCountExceedsAddressSpace { width, height } => Detail::Two(
                "RGBA sample count does not fit in memory on this platform for dimensions {}x{}",
                Arg::Num(width as i128),
                Arg::Num(height as i128),
            ),
            TransformGuardError::UnsupportedRotation { rotation_ccw_degrees } => Detail::One(
                "unsupported irot rotation angle {} degrees",
                Arg::Num(rotation_ccw_degrees as i128),
            ),
            TransformGuardError::DimensionTooLargeForPlatform {
                stage,
                dimension,
                value,
            } => Detail::Three(
                "{} {} does not fit in usize ({}) while applying transform",
                Arg::Word(stage),
                Arg::Word(dimension),
                Arg::Num(value as i128),
            ),
            TransformGuardError::PixelIndexOverflow { stage, x, y, width, height } => Detail::Five(
                "{} pixel index overflow at ({}, {}) for {}x{} image",
                Arg::Word(stage),
                Arg::Num(x as i128),
                Arg::Num(y as i128),
                Arg::Num(width as i128),
                Arg::Num(height as i128),
            ),
            TransformGuardError::EmptyImageGeometry { width, height } => Detail::Two(
                "cannot apply clean aperture to empty image geometry {}x{}",
                Arg::Num(width as i128),
                Arg::Num(height as i128),
            ),
            TransformGuardError::InvalidCleanApertureBounds {
                width,
                height,
                left,
                right,
                top,
                bottom,
            } => Detail::Six(
                "invalid clean aperture crop bounds after clamping for {}x{} image: left={}, right={}, top={}, bottom={}",
                Arg::Num(width as i128),
                Arg::Num(height as i128),
                Arg::Num(left),
                Arg::Num(right),
                Arg::Num(top),
                Arg::Num(bottom),
            ),
            TransformGuardError::CleanApertureCropDimensionOutOfRange {
                dimension,
                value,
            } => Detail::Two(
                "clean aperture crop {} does not fit in u32 ({})",
                Arg::Word(dimension),
                Arg::Num(value),
            ),
            TransformGuardError::CleanApertureBoundOutOfRange { bound, value } => Detail::Two(
                "clean aperture {} bound does not fit in usize ({})",
                Arg::Word(bound),
                Arg::Num(value),
            ),
            TransformGuardError::CleanApertureRowOffsetOverflow {
                stage,
                y,
                width,
                height,
            } => Detail::Four(
                "clean aperture {} overflow at y={} for {}x{} image",
                Arg::Word(stage),
                Arg::Num(y as i128),
                Arg::Num(width as i128),
                Arg::Num(height as i128),
            ),
        };
        detail.render()
    }
}

/// Errors from the AVIF decode path and internal image model conversion.
#[derive(Clone, Debug, PartialEq, Eq)]
#[allow(inconsistent_fields)]
pub enum DecodeAvifError {
    ParsePrimaryProperties(ContainerError),
    ParsePrimaryTransforms(ContainerError),
    ExtractPrimaryPayload(ContainerError),
    DecoderAllocationFailed { length: usize },
    DecoderApi { stage: &'static str, code: i32 },
    DecoderNoFrameOutput,
    InvalidImageGeometry { width: i32, height: i32 },
    UnsupportedBitDepth { bit_depth: i32 },
    UnsupportedPixelLayout { layout: u32 },
    MissingPlane { plane: &'static str, layout: AvifPixelLayout },
    PlaneStrideOverflow { plane: &'static str, stride: isize },
    PlaneStrideTooSmall { plane: &'static str, stride: isize, required: usize },
    PlaneSizeOverflow { plane: &'static str, width: u32, height: u32 },
    DecodedGeometryMismatch {
        expected_width: u32,
        expected_height: u32,
        actual_width: u32,
        actual_height: u32,
    },
    PlaneSampleTypeMismatch { plane: &'static str, expected: &'static str, actual: &'static str },
    PlaneDimensionsMismatch {
        plane: &'static str,
        expected_width: u32,
        expected_height: u32,
        actual_width: u32,
        actual_height: u32,
    },
    PlaneSampleCountMismatch { plane: &'static str, expected: usize, actual: usize },
    UnsupportedMatrixCoefficients { matrix_coefficients: u16 },
    MissingSequenceHeader,
}

impl DecodeAvifError {
    /// The text of the message.
    pub open spec fn text(self) -> Seq<char> {
        match self {
            DecodeAvifError::ParsePrimaryProperties(err) => err.text(),
            DecodeAvifError::ParsePrimaryTransforms(err) => err.text(),
            DecodeAvifError::ExtractPrimaryPayload(err) => err.text(),
            DecodeAvifError::DecoderAllocationFailed { length } => Detail::One(
                "rav1d failed to allocate input buffer for {} bytes",
                Arg::Num(length as i128),
            ).text(),
            DecodeAvifError::DecoderApi { stage, code } => Detail::Two(
                "rav1d API call {} failed with code {}",
                Arg::Word(stage),
                Arg::Num(code as i128),
            ).text(),
            DecodeAvifError::DecoderNoFrameOutput => Detail::Plain(
                "rav1d did not produce a decoded frame",
            ).text(),
            DecodeAvifError::InvalidImageGeometry { width, height } => Detail::Two(
                "decoded AV1 frame has invalid geometry ({}x{})",
                Arg::Num(width as i128),
                Arg::Num(height as i128),
            ).text(),
            DecodeAvifError::UnsupportedBitDepth { bit_depth } => Detail::One(
                "decoded AV1 frame has unsupported bit depth {}",
                Arg::Num(bit_depth as i128),
            ).text(),
            DecodeAvifError::UnsupportedPixelLayout { layout } => Detail::One(
                "decoded AV1 frame has unsupported pixel layout value {}",
                Arg::Num(layout as i128),
            ).text(),
            DecodeAvifError::MissingPlane { plane, layout } => Detail::Two(
                "decoded AV1 frame is missing {} plane for {} layout",
                Arg::Word(plane),
                Arg::Word(layout.spec_name()),
            ).text(),
            DecodeAvifError::PlaneStrideOverflow { plane, stride } => Detail::Two(
                "decoded AV1 {} plane stride {} overflows row addressing",
                Arg::Word(plane),
                Arg::Num(stride as i128),
            ).text(),
            DecodeAvifError::PlaneStrideTooSmall { plane, stride, required } => Detail::Three(
                "decoded AV1 {} plane stride {} is smaller than required row bytes {}",
                Arg::Word(plane),
                Arg::Num(stride as i128),
                Arg::Num(required as i128),
            ).text(),
            DecodeAvifError::PlaneSizeOverflow { plane, width, height } => Detail::Three(
                "decoded AV1 {} plane dimensions ({}x{}) are too large",
                Arg::Word(plane),
                Arg::Num(width as i128),
                Arg::Num(height as i128),
            ).text(),
            DecodeAvifError::DecodedGeometryMismatch {
                expected_width,
                expected_height,
                actual_width,
                actual_height,
            } => Detail::Four(
                "decoded AV1 frame geometry mismatch: expected {}x{}, got {}x{}",
                Arg::Num(expected_width as i128),
                Arg::Num(expected_height as i128),
                Arg::Num(actual_width as i128),
                Arg::Num(actual_height as i128),
            ).text(),
            DecodeAvifError::PlaneSampleTypeMismatch { plane, expected, actual } => Detail::Three(
                "decoded AV1 {} plane has sample type {}, expected {}",
                Arg::Word(plane),
                Arg::Word(actual),
                Arg::Word(expected),
            ).text(),
            DecodeAvifError::PlaneDimensionsMismatch {
                plane,
                expected_width,
                expected_height,
                actual_width,
                actual_height,
            } => Detail::Five(
                "decoded AV1 {} plane has dimensions {}x{}, expected {}x{}",
                Arg::Word(plane),
                Arg::Num(actual_width as i128),
                Arg::Num(actual_height as i128),
                Arg::Num(expected_width as i128),
                Arg::Num(expected_height as i128),
            ).text(),
            DecodeAvifError::PlaneSampleCountMismatch { plane, expected, actual } => Detail::Three(
                "decoded AV1 {} plane has {} samples, expected {}",
                Arg::Word(plane),
                Arg::Num(actual as i128),
                Arg::Num(expected as i128),
            ).text(),
            DecodeAvifError::UnsupportedMatrixCoefficients { matrix_coefficients } => Detail::One(
                "AVIF nclx matrix_coefficients {} is not supported for YCbCr->RGB conversion",
                Arg::Num(matrix_coefficients as i128),
            ).text(),
            DecodeAvifError::MissingSequenceHeader => Detail::Plain(
                "AV1 sequence header not found in av1C configOBUs or primary item payload",
            ).text(),
        }
    }

    /// The category of each AVIF failure.
    pub open spec fn spec_category(self) -> DecodeErrorCategory {
        match self {
            DecodeAvifError::ParsePrimaryProperties(_)
            | DecodeAvifError::ParsePrimaryTransforms(_)
            | DecodeAvifError::ExtractPrimaryPayload(_) => DecodeErrorCategory::Parse,
            DecodeAvifError::DecoderAllocationFailed { .. }
            | DecodeAvifError::DecoderApi { .. }
            | DecodeAvifError::DecoderNoFrameOutput => DecodeErrorCategory::DecoderBackend,
            DecodeAvifError::UnsupportedBitDepth { .. }
            | DecodeAvifError::UnsupportedPixelLayout { .. }
            | DecodeAvifError::UnsupportedMatrixCoefficients { .. } => DecodeErrorCategory::UnsupportedFeature,
            DecodeAvifError::InvalidImageGeometry { .. }
            | DecodeAvifError::MissingPlane { .. }
            | DecodeAvifError::PlaneStrideOverflow { .. }
            | DecodeAvifError::PlaneStrideTooSmall { .. }
            | DecodeAvifError::PlaneSizeOverflow { .. }
            | DecodeAvifError::DecodedGeometryMismatch { .. }
            | DecodeAvifError::PlaneSampleTypeMismatch { .. }
            | DecodeAvifError::PlaneDimensionsMismatch { .. }
            | DecodeAvifError::PlaneSampleCountMismatch { .. }
            | DecodeAvifError::MissingSequenceHeader => DecodeErrorCategory::MalformedInput,
        }
    }

    /// Return the stable high-level category for this decode failure.
    pub fn category(&self) -> (category: DecodeErrorCategory)
        ensures
            category == self.spec_category(),
    {
        match self {
            DecodeAvifError::ParsePrimaryProperties(_)
            | DecodeAvifError::ParsePrimaryTransforms(_)
            | DecodeAvifError::ExtractPrimaryPayload(_) => DecodeErrorCategory::Parse,
            DecodeAvifError::DecoderAllocationFailed { .. }
            | DecodeAvifError::DecoderApi { .. }
            | DecodeAvifError::DecoderNoFrameOutput => DecodeErrorCategory::DecoderBackend,
            DecodeAvifError::UnsupportedBitDepth { .. }
            | DecodeAvifError::UnsupportedPixelLayout { .. }
            | DecodeAvifError::UnsupportedMatrixCoefficients { .. } => DecodeErrorCategory::UnsupportedFeature,
            DecodeAvifError::InvalidImageGeometry { .. }
            | DecodeAvifError::MissingPlane { .. }
            | DecodeAvifError::PlaneStrideOverflow { .. }
            | DecodeAvifError::PlaneStrideTooSmall { .. }
            | DecodeAvifError::PlaneSizeOverflow { .. }
            | DecodeAvifError::DecodedGeometryMismatch { .. }
            | DecodeAvifError::PlaneSampleTypeMismatch { .. }
            | DecodeAvifError::PlaneDimensionsMismatch { .. }
            | DecodeAvifError::PlaneSampleCountMismatch { .. }
            | DecodeAvifError::MissingSequenceHeader => DecodeErrorCategory::MalformedInput,
        }
    }

    /// The text of the message.
    pub fn message(&self) -> (message: String)
        ensures
            message@ == self.text(),
    {
        match self {
            DecodeAvifError::ParsePrimaryProperties(err) => err.message(),
            DecodeAvifError::ParsePrimaryTransforms(err) => err.message(),
            DecodeAvifError::ExtractPrimaryPayload(err) => err.message(),
            DecodeAvifError::DecoderAllocationFailed { length } => Detail::One(
                "rav1d failed to allocate input buffer for {} bytes",
                Arg::Num(*length as i128),
            ).render(),
            DecodeAvifError::DecoderApi { stage, code } => Detail::Two(
                "rav1d API call {} failed with code {}",
                Arg::Word(*stage),
                Arg::Num(*code as i128),
            ).render(),
            DecodeAvifError::DecoderNoFrameOutput => Detail::Plain(
                "rav1d did not produce a decoded frame",
            ).render(),
            DecodeAvifError::InvalidImageGeometry { width, height } => Detail::Two(
                "decoded AV1 frame has invalid geometry ({}x{})",
                Arg::Num(*width as i128),
                Arg::Num(*height as i128),
            ).render(),
            DecodeAvifError::UnsupportedBitDepth { bit_depth } => Detail::One(
                "decoded AV1 frame has unsupported bit depth {}",
                Arg::Num(*bit_depth as i128),
            ).render(),
            DecodeAvifError::UnsupportedPixelLayout { layout } => Detail::One(
                "decoded AV1 frame has unsupported pixel layout value {}",
                Arg::Num(*layout as i128),
            ).render(),
            DecodeAvifError::MissingPlane { plane, layout } => Detail::Two(
                "decoded AV1 frame is missing {} plane for {} layout",
                Arg::Word(*plane),
                Arg::Word(layout.name()),
            ).render(),
            DecodeAvifError::PlaneStrideOverflow { plane, stride } => Detail::Two(
                "decoded AV1 {} plane stride {} overflows row addressing",
                Arg::Word(*plane),
                Arg::Num(*stride as i128),
            ).render(),
            DecodeAvifError::PlaneStrideTooSmall { plane, stride, required } => Detail::Three(
                "decoded AV1 {} plane stride {} is smaller than required row bytes {}",
                Arg::Word(*plane),
                Arg::Num(*stride as i128),
                Arg::Num(*required as i128),
            ).render(),
            DecodeAvifError::PlaneSizeOverflow { plane, width, height } => Detail::Three(
                "decoded AV1 {} plane dimensions ({}x{}) are too large",
                Arg::Word(*plane),
                Arg::Num(*width as i128),
                Arg::Num(*height as i128),
            ).render(),
            DecodeAvifError::DecodedGeometryMismatch {
                expected_width,
                expected_height,
                actual_width,
                actual_height,
            } => Detail::Four(
                "decoded AV1 frame geometry mismatch: expected {}x{}, got {}x{}",
                Arg::Num(*expected_width as i128),
                Arg::Num(*expected_height as i128),
                Arg::Num(*actual_width as i128),
                Arg::Num(*actual_height as i128),
            ).render(),
            DecodeAvifError::PlaneSampleTypeMismatch { plane, expected, actual } => Detail::Three(
                "decoded AV1 {} plane has sample type {}, expected {}",
                Arg::Word(*plane),
                Arg::Word(*actual),
                Arg::Word(*expected),
            ).render(),
            DecodeAvifError::PlaneDimensionsMismatch {
                plane,
                expected_width,
                expected_height,
                actual_width,
                actual_height,
            } => Detail::Five(
                "decoded AV1 {} plane has dimensions {}x{}, expected {}x{}",
                Arg::Word(*plane),
                Arg::Num(*actual_width as i128),
                Arg::Num(*actual_height as i128),
                Arg::Num(*expected_width as i128),
                Arg::Num(*expected_height as i128),
            ).render(),
            DecodeAvifError::PlaneSampleCountMismatch { plane, expected, actual } => Detail::Three(
                "decoded AV1 {} plane has {} samples, expected {}",
                Arg::Word(*plane),
                Arg::Num(*actual as i128),
                Arg::Num(*expected as i128),
            ).render(),
            DecodeAvifError::UnsupportedMatrixCoefficients { matrix_coefficients } => Detail::One(
                "AVIF nclx matrix_coefficients {} is not supported for YCbCr->RGB conversion",
                Arg::Num(*matrix_coefficients as i128),
            ).render(),
            DecodeAvifError::MissingSequenceHeader => Detail::Plain(
                "AV1 sequence header not found in av1C configOBUs or primary item payload",
            ).render(),
        }
    }
}

/// What is wrong with a decoded frame.
#[derive(Clone, Copy, Debug, PartialEq, Eq)]
pub enum FrameFault {
    /// A message of the decoder.
    Template(Detail),
    /// The clean aperture of a frame of this size keeps nothing of it.
    TileCrop { width: u32, height: u32, source: TransformGuardError },
}

impl FrameFault {
    /// The text of the fault.
    pub open spec fn text(self) -> Seq<char> {
        match self {
            FrameFault::Template(detail) => detail.text(),
            FrameFault::TileCrop { width, height, source } => Detail::Two(
                "grid tile clean-aperture crop is invalid for {}x{}: ",
                Arg::Num(width as i128),
                Arg::Num(height as i128),
            ).text() + source.detail().text(),
        }
    }

    /// The text of the fault.
    pub fn message(&self) -> (message: String)
        ensures
            message@ == self.text(),
    {
        match self {
            FrameFault::Template(detail) => detail.render(),
            FrameFault::TileCrop { width, height, source } => {
                let mut text: String = Detail::Two(
                    "grid tile clean-aperture crop is invalid for {}x{}: ",
                    Arg::Num(*width as i128),
                    Arg::Num(*height as i128),
                ).render();
                let rest: String = source.message();
                text.append(rest.as_str());
                text
            },
        }
    }
}

/// Errors from HEIC primary-item bitstream assembly and decoding.
#[derive(Clone, Debug, PartialEq, Eq)]
#[allow(inconsistent_fields)]
pub enum DecodeHeicError {
    ParsePrimaryProperties(ContainerError),
    ParsePrimaryTransforms(ContainerError),
    ExtractPrimaryPayload(ContainerError),
    BackendDecodeFailed { detail: String },
    InvalidDecodedFrame { detail: FrameFault },
    InvalidNalLengthSize { nal_length_size: u8 },
    TruncatedNalLengthField { offset: usize, nal_length_size: u8, available: usize },
    TruncatedNalUnit { offset: usize, declared: usize, available: usize },
    NalUnitTooLarge { nal_size: usize },
    TruncatedLengthPrefixedStreamLength { offset: usize, available: usize },
    TruncatedLengthPrefixedStreamNalUnit { offset: usize, declared: usize, available: usize },
    MissingSpsNalUnit,
    SpsParseFailed { offset: usize, detail: String },
    InvalidSpsGeometry { width: u64, height: u64 },
    UnsupportedSpsChromaArrayType { chroma_array_type: u8 },
    MissingVclNalUnit,
    DecodedGeometryMismatch {
        expected_width: u32,
        expected_height: u32,
        actual_width: u32,
        actual_height: u32,
    },
    DecodedBitDepthMismatch {
        expected_luma: u8,
        expected_chroma: u8,
        actual_luma: u8,
        actual_chroma: u8,
    },
    DecodedLayoutMismatch { expected: HeicPixelLayout, actual: HeicPixelLayout },
    UnsupportedMatrixCoefficients { matrix_coefficients: u16 },
}

impl DecodeHeicError {
    /// The text of the message.
    pub open spec fn text(self) -> Seq<char> {
        match self {
            DecodeHeicError::ParsePrimaryProperties(err) => err.text(),
            DecodeHeicError::ParsePrimaryTransforms(err) => err.text(),
            DecodeHeicError::ExtractPrimaryPayload(err) => err.text(),
            DecodeHeicError::BackendDecodeFailed {
                detail,
            } => "pure-Rust HEVC backend failed to decode frame: "@ + detail@,
            DecodeHeicError::InvalidDecodedFrame {
                detail,
            } => "decoded HEVC frame is invalid: "@ + detail.text(),
            DecodeHeicError::InvalidNalLengthSize { nal_length_size } => Detail::One(
                "HEVC nal_length_size must be in 1..=4, got {}",
                Arg::Num(nal_length_size as i128),
            ).text(),
            DecodeHeicError::TruncatedNalLengthField {
                offset,
                nal_length_size,
                available,
            } => Detail::Three(
                "truncated HEVC NAL length field at payload offset {}: need {} bytes, have {}",
                Arg::Num(offset as i128),
                Arg::Num(nal_length_size as i128),
                Arg::Num(available as i128),
            ).text(),
            DecodeHeicError::TruncatedNalUnit { offset, declared, available } => Detail::Three(
                "truncated HEVC NAL unit at payload offset {}: declared {} bytes, have {}",
                Arg::Num(offset as i128),
                Arg::Num(declared as i128),
                Arg::Num(available as i128),
            ).text(),
            DecodeHeicError::NalUnitTooLarge { nal_size } => Detail::One(
                "HEVC NAL unit size {} exceeds 32-bit length limit",
                Arg::Num(nal_size as i128),
            ).text(),
            DecodeHeicError::TruncatedLengthPrefixedStreamLength {
                offset,
                available,
            } => Detail::Two(
                "truncated length-prefixed HEVC stream at offset {}: need 4-byte NAL length field, have {}",
                Arg::Num(offset as i128),
                Arg::Num(available as i128),
            ).text(),
            DecodeHeicError::TruncatedLengthPrefixedStreamNalUnit {
                offset,
                declared,
                available,
            } => Detail::Three(
                "truncated length-prefixed HEVC NAL unit at offset {}: declared {} bytes, have {}",
                Arg::Num(offset as i128),
                Arg::Num(declared as i128),
                Arg::Num(available as i128),
            ).text(),
            DecodeHeicError::MissingSpsNalUnit => Detail::Plain(
                "length-prefixed HEVC stream does not contain an SPS NAL unit",
            ).text(),
            DecodeHeicError::SpsParseFailed { offset, detail } => Detail::One(
                "failed to parse SPS NAL unit at stream offset {}: ",
                Arg::Num(offset as i128),
            ).text() + detail@,
            DecodeHeicError::InvalidSpsGeometry { width, height } => Detail::Two(
                "decoded HEVC SPS reports invalid geometry ({}x{})",
                Arg::Num(width as i128),
                Arg::Num(height as i128),
            ).text(),
            DecodeHeicError::UnsupportedSpsChromaArrayType { chroma_array_type } => Detail::One(
                "decoded HEVC SPS reports unsupported chroma_array_type {}",
                Arg::Num(chroma_array_type as i128),
            ).text(),
            DecodeHeicError::MissingVclNalUnit => Detail::Plain(
                "length-prefixed HEVC stream does not contain a VCL NAL unit",
            ).text(),
            DecodeHeicError::DecodedGeometryMismatch {
                expected_width,
                expected_height,
                actual_width,
                actual_height,
            } => Detail::Four(
                "decoded HEVC SPS geometry mismatch: expected {}x{}, got {}x{}",
                Arg::Num(expected_width as i128),
                Arg::Num(expected_height as i128),
                Arg::Num(actual_width as i128),
                Arg::Num(actual_height as i128),
            ).text(),
            DecodeHeicError::DecodedBitDepthMismatch {
                expected_luma,
                expected_chroma,
                actual_luma,
                actual_chroma,
            } => Detail::Four(
                "decoded HEVC bit depth mismatch: expected luma/chroma {}/{}, got {}/{}",
                Arg::Num(expected_luma as i128),
                Arg::Num(expected_chroma as i128),
                Arg::Num(actual_luma as i128),
                Arg::Num(actual_chroma as i128),
            ).text(),
            DecodeHeicError::DecodedLayoutMismatch { expected, actual } => Detail::Two(
                "decoded HEVC chroma layout mismatch: expected {}, got {}",
                Arg::Word(expected.spec_name()),
                Arg::Word(actual.spec_name()),
            ).text(),
            DecodeHeicError::UnsupportedMatrixCoefficients { matrix_coefficients } => Detail::One(
                "HEIC nclx matrix_coefficients {} is not supported for YCbCr->RGB conversion",
                Arg::Num(matrix_coefficients as i128),
            ).text(),
        }
    }

    /// The category of each HEIC failure.
    pub open spec fn spec_category(self) -> DecodeErrorCategory {
        match self {
            DecodeHeicError::ParsePrimaryProperties(_)
            | DecodeHeicError::ParsePrimaryTransforms(_)
            | DecodeHeicError::ExtractPrimaryPayload(_) => DecodeErrorCategory::Parse,
            DecodeHeicError::BackendDecodeFailed { .. } => DecodeErrorCategory::DecoderBackend,
            DecodeHeicError::UnsupportedMatrixCoefficients { .. } => DecodeErrorCategory::UnsupportedFeature,
            DecodeHeicError::InvalidDecodedFrame { .. }
            | DecodeHeicError::InvalidNalLengthSize { .. }
            | DecodeHeicError::TruncatedNalLengthField { .. }
            | DecodeHeicError::TruncatedNalUnit { .. }
            | DecodeHeicError::NalUnitTooLarge { .. }
            | DecodeHeicError::TruncatedLengthPrefixedStreamLength { .. }
            | DecodeHeicError::TruncatedLengthPrefixedStreamNalUnit { .. }
            | DecodeHeicError::MissingSpsNalUnit
            | DecodeHeicError::SpsParseFailed { .. }
            | DecodeHeicError::InvalidSpsGeometry { .. }
            | DecodeHeicError::UnsupportedSpsChromaArrayType { .. }
            | DecodeHeicError::MissingVclNalUnit
            | DecodeHeicError::DecodedGeometryMismatch { .. }
            | DecodeHeicError::DecodedBitDepthMismatch { .. }
            | DecodeHeicError::DecodedLayoutMismatch { .. } => DecodeErrorCategory::MalformedInput,
        }
    }

    /// Return the stable high-level category for this decode failure.
    pub fn category(&self) -> (category: DecodeErrorCategory)
        ensures
            category == self.spec_category(),
    {
        match self {
            DecodeHeicError::ParsePrimaryProperties(_)
            | DecodeHeicError::ParsePrimaryTransforms(_)
            | DecodeHeicError::ExtractPrimaryPayload(_) => DecodeErrorCategory::Parse,
            DecodeHeicError::BackendDecodeFailed { .. } => DecodeErrorCategory::DecoderBackend,
            DecodeHeicError::UnsupportedMatrixCoefficients { .. } => DecodeErrorCategory::UnsupportedFeature,
            DecodeHeicError::InvalidDecodedFrame { .. }
            | DecodeHeicError::InvalidNalLengthSize { .. }
            | DecodeHeicError::TruncatedNalLengthField { .. }
            | DecodeHeicError::TruncatedNalUnit { .. }
            | DecodeHeicError::NalUnitTooLarge { .. }
            | DecodeHeicError::TruncatedLengthPrefixedStreamLength { .. }
            | DecodeHeicError::TruncatedLengthPrefixedStreamNalUnit { .. }
            | DecodeHeicError::MissingSpsNalUnit
            | DecodeHeicError::SpsParseFailed { .. }
            | DecodeHeicError::InvalidSpsGeometry { .. }
            | DecodeHeicError::UnsupportedSpsChromaArrayType { .. }
            | DecodeHeicError::MissingVclNalUnit
            | DecodeHeicError::DecodedGeometryMismatch { .. }
            | DecodeHeicError::DecodedBitDepthMismatch { .. }
            | DecodeHeicError::DecodedLayoutMismatch { .. } => DecodeErrorCategory::MalformedInput,
        }
    }

    /// The text of the message.
    pub fn message(&self) -> (message: String)
        ensures
            message@ == self.text(),
    {
        match self {
            DecodeHeicError::ParsePrimaryProperties(err) => err.message(),
            DecodeHeicError::ParsePrimaryTransforms(err) => err.message(),
            DecodeHeicError::ExtractPrimaryPayload(err) => err.message(),
            DecodeHeicError::BackendDecodeFailed { detail } => {
                let mut text: String = String::new();
                text.append("pure-Rust HEVC backend failed to decode frame: ");
                text.append(detail.as_str());
                text
            },
            DecodeHeicError::InvalidDecodedFrame { detail } => {
                let mut text: String = String::new();
                text.append("decoded HEVC frame is invalid: ");
                let rest: String = detail.message();
                text.append(rest.as_str());
                text
            },
            DecodeHeicError::InvalidNalLengthSize { nal_length_size } => Detail::One(
                "HEVC nal_length_size must be in 1..=4, got {}",
                Arg::Num(*nal_length_size as i128),
            ).render(),
            DecodeHeicError::TruncatedNalLengthField {
                offset,
                nal_length_size,
                available,
            } => Detail::Three(
                "truncated HEVC NAL length field at payload offset {}: need {} bytes, have {}",
                Arg::Num(*offset as i128),
                Arg::Num(*nal_length_size as i128),
                Arg::Num(*available as i128),
            ).render(),
            DecodeHeicError::TruncatedNalUnit { offset, declared, available } => Detail::Three(
                "truncated HEVC NAL unit at payload offset {}: declared {} bytes, have {}",
                Arg::Num(*offset as i128),
                Arg::Num(*declared as i128),
                Arg::Num(*available as i128),
            ).render(),
            DecodeHeicError::NalUnitTooLarge { nal_size } => Detail::One(
                "HEVC NAL unit size {} exceeds 32-bit length limit",
                Arg::Num(*nal_size as i128),
            ).render(),
            DecodeHeicError::TruncatedLengthPrefixedStreamLength {
                offset,
                available,
            } => Detail::Two(
                "truncated length-prefixed HEVC stream at offset {}: need 4-byte NAL length field, have {}",
                Arg::Num(*offset as i128),
                Arg::Num(*available as i128),
            ).render(),
            DecodeHeicError::TruncatedLengthPrefixedStreamNalUnit {
                offset,
                declared,
                available,
            } => Detail::Three(
                "truncated length-prefixed HEVC NAL unit at offset {}: declared {} bytes, have {}",
                Arg::Num(*offset as i128),
                Arg::Num(*declared as i128),
                Arg::Num(*available as i128),
            ).render(),
            DecodeHeicError::MissingSpsNalUnit => Detail::Plain(
                "length-prefixed HEVC stream does not contain an SPS NAL unit",
            ).render(),
            DecodeHeicError::SpsParseFailed { offset, detail } => {
                let mut text: String = Detail::One(
                "failed to parse SPS NAL unit at stream offset {}: ",
                Arg::Num(*offset as i128),
            ).render();
                text.append(detail.as_str());
                text
            },
            DecodeHeicError::InvalidSpsGeometry { width, height } => Detail::Two(
                "decoded HEVC SPS reports invalid geometry ({}x{})",
                Arg::Num(*width as i128),
                Arg::Num(*height as i128),
            ).render(),
            DecodeHeicError::UnsupportedSpsChromaArrayType { chroma_array_type } => Detail::One(
                "decoded HEVC SPS reports unsupported chroma_array_type {}",
                Arg::Num(*chroma_array_type as i128),
            ).render(),
            DecodeHeicError::MissingVclNalUnit => Detail::Plain(
                "length-prefixed HEVC stream does not contain a VCL NAL unit",
            ).render(),
            DecodeHeicError::DecodedGeometryMismatch {
                expected_width,
                expected_height,
                actual_width,
                actual_height,
            } => Detail::Four(
                "decoded HEVC SPS geometry mismatch: expected {}x{}, got {}x{}",
                Arg::Num(*expected_width as i128),
                Arg::Num(*expected_height as i128),
                Arg::Num(*actual_width as i128),
                Arg::Num(*actual_height as i128),
            ).render(),
            DecodeHeicError::DecodedBitDepthMismatch {
                expected_luma,
                expected_chroma,
                actual_luma,
                actual_chroma,
            } => Detail::Four(
                "decoded HEVC bit depth mismatch: expected luma/chroma {}/{}, got {}/{}",
                Arg::Num(*expected_luma as i128),
                Arg::Num(*expected_chroma as i128),
                Arg::Num(*actual_luma as i128),
                Arg::Num(*actual_chroma as i128),
            ).render(),
            DecodeHeicError::DecodedLayoutMismatch { expected, actual } => Detail::Two(
                "decoded HEVC chroma layout mismatch: expected {}, got {}",
                Arg::Word(expected.name()),
                Arg::Word(actual.name()),
            ).render(),
            DecodeHeicError::UnsupportedMatrixCoefficients { matrix_coefficients } => Detail::One(
                "HEIC nclx matrix_coefficients {} is not supported for YCbCr->RGB conversion",
                Arg::Num(*matrix_coefficients as i128),
            ).render(),
        }
    }
}

/// What is wrong with an uncompressed (`unci`) input.
#[derive(Clone, Debug, PartialEq, Eq)]
pub enum InputFault {
    /// A message of the decoder.
    Template(Detail),
    /// A compressed unit that its method could not unpack, and why.
    Unpacking { method: &'static str, unit_index: usize, reason: String },
}

impl InputFault {
    /// The text of the fault.
    pub open spec fn text(self) -> Seq<char> {
        match self {
            InputFault::Template(detail) => detail.text(),
            InputFault::Unpacking { method, unit_index, reason } => Detail::Two(
                "failed to decompress {} generic-compressed unit {}: ",
                Arg::Word(method),
                Arg::Num(unit_index as i128),
            ).text() + reason@,
        }
    }

    /// The text of the fault.
    pub fn message(&self) -> (message: String)
        ensures
            message@ == self.text(),
    {
        match self {
            InputFault::Template(detail) => detail.render(),
            InputFault::Unpacking { method, unit_index, reason } => {
                let mut text: String = Detail::Two(
                    "failed to decompress {} generic-compressed unit {}: ",
                    Arg::Word(*method),
                    Arg::Num(*unit_index as i128),
                ).render();
                text.append(reason.as_str());
                text
            },
        }
    }
}

/// Errors from uncompressed (`unci`) primary-item decode.
#[derive(Clone, Debug, PartialEq, Eq)]
#[allow(inconsistent_fields)]
pub enum DecodeUncompressedError {
    ParsePrimaryProperties(ContainerError),
    ParsePrimaryTransforms(ContainerError),
    ExtractPrimaryPayload(ContainerError),
    UnsupportedFeature { detail: Detail },
    InvalidInput { detail: InputFault },
}

impl DecodeUncompressedError {
    /// The text of the message.
    pub open spec fn text(self) -> Seq<char> {
        match self {
            DecodeUncompressedError::ParsePrimaryProperties(err) => err.text(),
            DecodeUncompressedError::ParsePrimaryTransforms(err) => err.text(),
            DecodeUncompressedError::ExtractPrimaryPayload(err) => err.text(),
            DecodeUncompressedError::UnsupportedFeature { detail } => detail.text(),
            DecodeUncompressedError::InvalidInput { detail } => detail.text(),
        }
    }

    /// The category of each uncompressed decode failure.
    pub open spec fn spec_category(self) -> DecodeErrorCategory {
        match self {
            DecodeUncompressedError::ParsePrimaryProperties(_)
            | DecodeUncompressedError::ParsePrimaryTransforms(_)
            | DecodeUncompressedError::ExtractPrimaryPayload(_) => DecodeErrorCategory::Parse,
            DecodeUncompressedError::UnsupportedFeature { .. } => DecodeErrorCategory::UnsupportedFeature,
            DecodeUncompressedError::InvalidInput { .. } => DecodeErrorCategory::MalformedInput,
        }
    }

    /// Return the stable high-level category for this decode failure.
    pub fn category(&self) -> (category: DecodeErrorCategory)
        ensures
            category == self.spec_category(),
    {
        match self {
            DecodeUncompressedError::ParsePrimaryProperties(_)
            | DecodeUncompressedError::ParsePrimaryTransforms(_)
            | DecodeUncompressedError::ExtractPrimaryPayload(_) => DecodeErrorCategory::Parse,
            DecodeUncompressedError::UnsupportedFeature { .. } => DecodeErrorCategory::UnsupportedFeature,
            DecodeUncompressedError::InvalidInput { .. } => DecodeErrorCategory::MalformedInput,
        }
    }

    /// The text of the message.
    pub fn message(&self) -> (message: String)
        ensures
            message@ == self.text(),
    {
        match self {
            DecodeUncompressedError::ParsePrimaryProperties(err) => err.message(),
            DecodeUncompressedError::ParsePrimaryTransforms(err) => err.message(),
            DecodeUncompressedError::ExtractPrimaryPayload(err) => err.message(),
            DecodeUncompressedError::UnsupportedFeature { detail } => {
                detail.render()
            },
            DecodeUncompressedError::InvalidInput { detail } => {
                detail.message()
            },
        }
    }
}

/// The wording of an unsupported input.
#[derive(Clone, Debug, PartialEq, Eq)]
pub enum Wording {
    /// A message of the decoder.
    Template(Detail),
    /// A message put together elsewhere.
    Text(String),
}

impl Wording {
    /// The text of the message.
    pub open spec fn text(self) -> Seq<char> {
        match self {
            Wording::Template(detail) => detail.text(),
            Wording::Text(text) => text@,
        }
    }

    /// The text of the message.
    pub fn message(&self) -> (message: String)
        ensures
            message@ == self.text(),
    {
        match self {
            Wording::Template(detail) => detail.render(),
            Wording::Text(text) => text.clone(),
        }
    }
}

/// Errors returned by the decoder entry points.
#[derive(Clone, Debug, PartialEq, Eq)]
pub enum DecodeError {
    /// An I/O failure, with its text.
    Io(String),
    Guardrail(DecodeGuardrailError),
    AvifDecode(DecodeAvifError),
    HeicDecode(DecodeHeicError),
    UncompressedDecode(DecodeUncompressedError),
    /// A failure of the PNG encoder, with its text.
    PngEncoding(String),
    TransformGuard(TransformGuardError),
    OutputBufferOverflow {
        buffer_name: &'static str,
        element_count: usize,
        element_size_bytes: usize,
    },
    Unsupported(Wording),
}

impl DecodeError {
    /// The text of the message.
    pub open spec fn text(self) -> Seq<char> {
        match self {
            DecodeError::Io(err) => "I/O error: "@ + err@,
            DecodeError::Guardrail(err) => err.text(),
            DecodeError::AvifDecode(err) => err.text(),
            DecodeError::HeicDecode(err) => err.text(),
            DecodeError::UncompressedDecode(err) => err.text(),
            DecodeError::PngEncoding(err) => "PNG encode error: "@ + err@,
            DecodeError::TransformGuard(err) => err.detail().text(),
            DecodeError::OutputBufferOverflow {
                buffer_name,
                element_count,
                element_size_bytes,
            } => Detail::Three(
                "output buffer size overflow for {}: {} elements x {} bytes",
                Arg::Word(buffer_name),
                Arg::Num(element_count as i128),
                Arg::Num(element_size_bytes as i128),
            ).text(),
            DecodeError::Unsupported(wording) => wording.text(),
        }
    }

    /// The category of each failure.
    pub open spec fn spec_category(self) -> DecodeErrorCategory {
        match self {
            DecodeError::Io(_) => DecodeErrorCategory::Io,
            DecodeError::Guardrail(_) => DecodeErrorCategory::ResourceLimit,
            DecodeError::AvifDecode(err) => err.spec_category(),
            DecodeError::HeicDecode(err) => err.spec_category(),
            DecodeError::UncompressedDecode(err) => err.spec_category(),
            DecodeError::PngEncoding(_) => DecodeErrorCategory::OutputEncoding,
            DecodeError::TransformGuard(err) => err.spec_category(),
            DecodeError::OutputBufferOverflow { .. } => DecodeErrorCategory::OutputEncoding,
            DecodeError::Unsupported(_) => DecodeErrorCategory::UnsupportedFeature,
        }
    }

    /// Return the stable high-level category for this decode failure.
    pub fn category(&self) -> (category: DecodeErrorCategory)
        ensures
            category == self.spec_category(),
    {
        match self {
            DecodeError::Io(_) => DecodeErrorCategory::Io,
            DecodeError::Guardrail(err) => err.category(),
            DecodeError::AvifDecode(err) => err.category(),
            DecodeError::HeicDecode(err) => err.category(),
            DecodeError::UncompressedDecode(err) => err.category(),
            DecodeError::PngEncoding(_) => DecodeErrorCategory::OutputEncoding,
            DecodeError::TransformGuard(err) => err.category(),
            DecodeError::OutputBufferOverflow { .. } => DecodeErrorCategory::OutputEncoding,
            DecodeError::Unsupported(_) => DecodeErrorCategory::UnsupportedFeature,
        }
    }

    /// The text of the message.
    pub fn message(&self) -> (message: String)
        ensures
            message@ == self.text(),
    {
        match self {
            DecodeError::Io(err) => {
                let mut text: String = String::new();
                text.append("I/O error: ");
                text.append(err.as_str());
                text
            },
            DecodeError::Guardrail(err) => err.message(),
            DecodeError::AvifDecode(err) => err.message(),
            DecodeError::HeicDecode(err) => err.message(),
            DecodeError::UncompressedDecode(err) => err.message(),
            DecodeError::PngEncoding(err) => {
                let mut text: String = String::new();
                text.append("PNG encode error: ");
                text.append(err.as_str());
                text
            },
            DecodeError::TransformGuard(err) => err.message(),
            DecodeError::OutputBufferOverflow {
                buffer_name,
                element_count,
                element_size_bytes,
            } => Detail::Three(
                "output buffer size overflow for {}: {} elements x {} bytes",
                Arg::Word(*buffer_name),
                Arg::Num(*element_count as i128),
                Arg::Num(*element_size_bytes as i128),
            ).render(),
            DecodeError::Unsupported(wording) => wording.message(),
        }
    }
}

/// The first of two failures.
pub open spec fn first<E>(earlier: Option<E>, later: Option<E>) -> Option<E> {
    if earlier is Some {
        earlier
    } else {
        later
    }
}

/// An error of a decoded frame.
pub open spec fn bad_frame(detail: Detail) -> DecodeHeicError {
    DecodeHeicError::InvalidDecodedFrame { detail: FrameFault::Template(detail) }
}

/// An error of a decoded frame.
pub fn invalid_frame<T>(detail: Detail) -> (error: Result<T, DecodeHeicError>)
    ensures
        error == Err::<T, DecodeHeicError>(bad_frame(detail)),
{
    Err(DecodeHeicError::InvalidDecodedFrame { detail: FrameFault::Template(detail) })
}

} // verus!
