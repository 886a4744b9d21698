//! Limits on what is decoded.
use crate::errors::{DecodeError, DecodeGuardrailError, Wording};
use vstd::prelude::*;

verus! {

/// Configurable decode guardrails for bounded ingestion.
///
/// Default values are fully unbounded (`None` for all fields). For production
/// environments, set explicit limits.
#[derive(Clone, Debug, PartialEq, Eq)]
pub struct DecodeGuardrails {
    /// Optional maximum accepted input size in bytes for all decode entry points.
    pub max_input_bytes: Option<u64>,
    /// Optional maximum decoded image area in pixels before RGBA materialization.
    pub max_pixels: Option<u64>,
    /// Optional cap for bytes spooled from inputs that cannot seek.
    pub max_temp_spool_bytes: Option<u64>,
    /// Optional directory used for spooling such inputs.
    pub temp_spool_directory: Option<String>,
}

impl Default for DecodeGuardrails {
    fn default() -> (guardrails: Self)
        ensures
            guardrails.max_input_bytes is None,
            guardrails.max_pixels is None,
            guardrails.max_temp_spool_bytes is None,
            guardrails.temp_spool_directory is None,
    {
        DecodeGuardrails {
            max_input_bytes: None,
            max_pixels: None,
            max_temp_spool_bytes: None,
            temp_spool_directory: None,
        }
    }
}

/// How spooling is bounded.
#[derive(Clone, Debug, PartialEq, Eq)]
pub struct TempFileSpoolOptions {
    pub max_spool_bytes: Option<u64>,
    pub spool_directory: Option<String>,
}

impl DecodeGuardrails {
    /// Why an input of a size is refused.
    pub open spec fn input_error(&self, actual_bytes: u64) -> Option<DecodeError> {
        match self.max_input_bytes {
            Some(max_input_bytes) if actual_bytes > max_input_bytes => Some(
                DecodeError::Guardrail(
                    DecodeGuardrailError::InputTooLarge { actual_bytes, max_input_bytes },
                ),
            ),
            _ => None,
        }
    }

    /// Why an image of a size is refused.
    pub open spec fn pixel_error(&self, width: u32, height: u32) -> Option<DecodeError> {
        match self.max_pixels {
            Some(max_pixels) if width * height > max_pixels => Some(
                DecodeError::Guardrail(
                    DecodeGuardrailError::PixelCountExceeded {
                        width,
                        height,
                        actual_pixels: (width * height) as u64,
                        max_pixels,
                    },
                ),
            ),
            _ => None,
        }
    }

    /// Refuses inputs that are too large.
    pub fn enforce_input_bytes(&self, actual_bytes: u64) -> (result: Result<(), DecodeError>)
        ensures
            match self.input_error(actual_bytes) {
                Some(e) => result == Err::<(), DecodeError>(e),
                None => result is Ok,
            },
    {
        match self.max_input_bytes {
            Some(max_input_bytes) => if actual_bytes > max_input_bytes {
                Err(
                    DecodeError::Guardrail(
                        DecodeGuardrailError::InputTooLarge { actual_bytes, max_input_bytes },
                    ),
                )
            } else {
                Ok(())
            },
            None => Ok(()),
        }
    }

    /// Refuses images that are too large.
    pub fn enforce_pixel_count(&self, width: u32, height: u32) -> (result: Result<(), DecodeError>)
        ensures
            match self.pixel_error(width, height) {
                Some(e) => result == Err::<(), DecodeError>(e),
                None => result is Ok,
            },
    {
        match self.max_pixels {
            Some(max_pixels) => {
                proof {
                    assert(0 <= width * height <= 0xffff_ffff * 0xffff_ffff) by (nonlinear_arith);
                }
                let actual_pixels: u64 = width as u64 * height as u64;
                if actual_pixels > max_pixels {
                    Err(
                        DecodeError::Guardrail(
                            DecodeGuardrailError::PixelCountExceeded {
                                width,
                                height,
                                actual_pixels,
                                max_pixels,
                            },
                        ),
                    )
                } else {
                    Ok(())
                }
            },
            None => Ok(()),
        }
    }

    /// How spooling is bounded.
    pub fn temp_spool_options(&self) -> (options: TempFileSpoolOptions)
        ensures
            options.max_spool_bytes == self.max_temp_spool_bytes,
            match self.temp_spool_directory {
                Some(directory) => options.spool_directory matches Some(copy) && copy@
                    == directory@,
                None => options.spool_directory is None,
            },
    {
        TempFileSpoolOptions {
            max_spool_bytes: self.max_temp_spool_bytes,
            spool_directory: match &self.temp_spool_directory {
                Some(directory) => Some(directory.clone()),
                None => None,
            },
        }
    }
}

/// Without limits nothing is refused.
pub proof fn lemma_unbounded(guardrails: DecodeGuardrails, bytes: u64, width: u32, height: u32)
    requires
        guardrails.max_input_bytes is None,
        guardrails.max_pixels is None,
    ensures
        guardrails.input_error(bytes) is None,
        guardrails.pixel_error(width, height) is None,
{
}

/// What is refused under limits is refused under lower ones.
pub proof fn lemma_lower_limits(
    low: DecodeGuardrails,
    high: DecodeGuardrails,
    bytes: u64,
    width: u32,
    height: u32,
)
    requires
        match (low.max_input_bytes, high.max_input_bytes) {
            (Some(low), Some(high)) => low <= high,
            (None, Some(_)) => false,
            _ => true,
        },
        match (low.max_pixels, high.max_pixels) {
            (Some(low), Some(high)) => low <= high,
            (None, Some(_)) => false,
            _ => true,
        },
    ensures
        high.input_error(bytes) is Some ==> low.input_error(bytes) is Some,
        high.pixel_error(width, height) is Some ==> low.pixel_error(width, height) is Some,
{
}

/// A failure to read a source.
#[derive(Debug, PartialEq, Eq)]
pub enum SourceReadError {
    /// An I/O failure, with its text.
    Io(String),
    SpoolLimitExceeded { attempted: u64, max_allowed: u64 },
    SpoolDirectoryCreateFailed { directory: String, io_error_kind: String },
    SpoolDirectoryOpenFailed { directory: String, io_error_kind: String },
    /// A range that the source does not have, with the text of the message.
    BadRange(String),
}

/// What a failure to read a source is to a caller of the decoder.
pub open spec fn read_failure(err: SourceReadError) -> DecodeError {
    match err {
        SourceReadError::Io(text) => DecodeError::Io(text),
        SourceReadError::SpoolLimitExceeded { attempted, max_allowed } => DecodeError::Guardrail(
            DecodeGuardrailError::TempSpoolLimitExceeded {
                attempted_bytes: attempted,
                max_temp_spool_bytes: max_allowed,
            },
        ),
        SourceReadError::SpoolDirectoryCreateFailed { directory, io_error_kind } => {
            DecodeError::Guardrail(
                DecodeGuardrailError::TempSpoolDirectoryCreateFailed { directory, io_error_kind },
            )
        },
        SourceReadError::SpoolDirectoryOpenFailed { directory, io_error_kind } => {
            DecodeError::Guardrail(
                DecodeGuardrailError::TempSpoolDirectoryOpenFailed { directory, io_error_kind },
            )
        },
        SourceReadError::BadRange(text) => DecodeError::Unsupported(Wording::Text(text)),
    }
}

/// What a failure to read a source is to a caller of the decoder.
pub fn decode_error_from_source_read_error(err: SourceReadError) -> (error: DecodeError)
    ensures
        error == read_failure(err),
{
    match err {
        SourceReadError::Io(text) => DecodeError::Io(text),
        SourceReadError::SpoolLimitExceeded { attempted, max_allowed } => DecodeError::Guardrail(
            DecodeGuardrailError::TempSpoolLimitExceeded {
                attempted_bytes: attempted,
                max_temp_spool_bytes: max_allowed,
            },
        ),
        SourceReadError::SpoolDirectoryCreateFailed { directory, io_error_kind } => {
            DecodeError::Guardrail(
                DecodeGuardrailError::TempSpoolDirectoryCreateFailed { directory, io_error_kind },
            )
        },
        SourceReadError::SpoolDirectoryOpenFailed { directory, io_error_kind } => {
            DecodeError::Guardrail(
                DecodeGuardrailError::TempSpoolDirectoryOpenFailed { directory, io_error_kind },
            )
        },
        SourceReadError::BadRange(text) => DecodeError::Unsupported(Wording::Text(text)),
    }
}

} // verus!
