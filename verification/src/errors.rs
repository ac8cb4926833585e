//! The library's errors and their public form.
use vstd::prelude::*;
use crate::models::ConversionError;
use crate::text::{opt_view, owned, push_str};

verus! {

/// The stable error codes that the user interface understands.
#[derive(Debug, Clone, Copy, PartialEq, Eq, Structural)]
pub enum ConversionErrorCode {
    UnsupportedInput,
    UnsupportedOutput,
    InvalidPreset,
    InspectionFailed,
    EngineNotFound,
    ProcessFailed,
    PermissionDenied,
    OutputExists,
    DiskFull,
    Cancelled,
    InvalidOutput,
    Unknown,
}

/// Why a conversion cannot be planned or run.
#[derive(Debug, Clone)]
pub enum CoreError {
    UnsupportedInput,
    UnsupportedOutput,
    InvalidPreset,
    InspectionFailed(String),
    EngineNotFound(String),
    ProcessFailed(String),
    PermissionDenied,
    OutputExists,
    DiskFull,
    Cancelled,
    InvalidOutput,
    Unknown(String),
}

/// The value of a [`CoreError`]: the variant with its detail text.
pub enum CoreErrorView {
    UnsupportedInput,
    UnsupportedOutput,
    InvalidPreset,
    InspectionFailed(Seq<char>),
    EngineNotFound(Seq<char>),
    ProcessFailed(Seq<char>),
    PermissionDenied,
    OutputExists,
    DiskFull,
    Cancelled,
    InvalidOutput,
    Unknown(Seq<char>),
}

impl View for CoreError {
    type V = CoreErrorView;

    open spec fn view(&self) -> CoreErrorView {
        match self {
            CoreError::UnsupportedInput => CoreErrorView::UnsupportedInput,
            CoreError::UnsupportedOutput => CoreErrorView::UnsupportedOutput,
            CoreError::InvalidPreset => CoreErrorView::InvalidPreset,
            CoreError::InspectionFailed(m) => CoreErrorView::InspectionFailed(m@),
            CoreError::EngineNotFound(m) => CoreErrorView::EngineNotFound(m@),
            CoreError::ProcessFailed(m) => CoreErrorView::ProcessFailed(m@),
            CoreError::PermissionDenied => CoreErrorView::PermissionDenied,
            CoreError::OutputExists => CoreErrorView::OutputExists,
            CoreError::DiskFull => CoreErrorView::DiskFull,
            CoreError::Cancelled => CoreErrorView::Cancelled,
            CoreError::InvalidOutput => CoreErrorView::InvalidOutput,
            CoreError::Unknown(m) => CoreErrorView::Unknown(m@),
        }
    }
}

/// The name of an error code, as `Debug` writes it.
pub open spec fn spec_code_name(c: ConversionErrorCode) -> Seq<char> {
    match c {
        ConversionErrorCode::UnsupportedInput => "UnsupportedInput"@,
        ConversionErrorCode::UnsupportedOutput => "UnsupportedOutput"@,
        ConversionErrorCode::InvalidPreset => "InvalidPreset"@,
        ConversionErrorCode::InspectionFailed => "InspectionFailed"@,
        ConversionErrorCode::EngineNotFound => "EngineNotFound"@,
        ConversionErrorCode::ProcessFailed => "ProcessFailed"@,
        ConversionErrorCode::PermissionDenied => "PermissionDenied"@,
        ConversionErrorCode::OutputExists => "OutputExists"@,
        ConversionErrorCode::DiskFull => "DiskFull"@,
        ConversionErrorCode::Cancelled => "Cancelled"@,
        ConversionErrorCode::InvalidOutput => "InvalidOutput"@,
        ConversionErrorCode::Unknown => "Unknown"@,
    }
}

impl ConversionErrorCode {
    /// The name of the code, as `Debug` writes it.
    pub fn name(&self) -> (res: &'static str)
        ensures
            res@ == spec_code_name(*self),
    {
        match self {
            ConversionErrorCode::UnsupportedInput => "UnsupportedInput",
            ConversionErrorCode::UnsupportedOutput => "UnsupportedOutput",
            ConversionErrorCode::InvalidPreset => "InvalidPreset",
            ConversionErrorCode::InspectionFailed => "InspectionFailed",
            ConversionErrorCode::EngineNotFound => "EngineNotFound",
            ConversionErrorCode::ProcessFailed => "ProcessFailed",
            ConversionErrorCode::PermissionDenied => "PermissionDenied",
            ConversionErrorCode::OutputExists => "OutputExists",
            ConversionErrorCode::DiskFull => "DiskFull",
            ConversionErrorCode::Cancelled => "Cancelled",
            ConversionErrorCode::InvalidOutput => "InvalidOutput",
            ConversionErrorCode::Unknown => "Unknown",
        }
    }
}

/// The code of an error.
pub open spec fn spec_error_code(e: CoreErrorView) -> ConversionErrorCode {
    match e {
        CoreErrorView::UnsupportedInput => ConversionErrorCode::UnsupportedInput,
        CoreErrorView::UnsupportedOutput => ConversionErrorCode::UnsupportedOutput,
        CoreErrorView::InvalidPreset => ConversionErrorCode::InvalidPreset,
        CoreErrorView::InspectionFailed(_) => ConversionErrorCode::InspectionFailed,
        CoreErrorView::EngineNotFound(_) => ConversionErrorCode::EngineNotFound,
        CoreErrorView::ProcessFailed(_) => ConversionErrorCode::ProcessFailed,
        CoreErrorView::PermissionDenied => ConversionErrorCode::PermissionDenied,
        CoreErrorView::OutputExists => ConversionErrorCode::OutputExists,
        CoreErrorView::DiskFull => ConversionErrorCode::DiskFull,
        CoreErrorView::Cancelled => ConversionErrorCode::Cancelled,
        CoreErrorView::InvalidOutput => ConversionErrorCode::InvalidOutput,
        CoreErrorView::Unknown(_) => ConversionErrorCode::Unknown,
    }
}

/// Whether the user can recover from an error by changing the request: every
/// error but a missing engine and an unknown failure.
pub open spec fn spec_recoverable(e: CoreErrorView) -> bool {
    match e {
        CoreErrorView::EngineNotFound(_) => false,
        CoreErrorView::Unknown(_) => false,
        _ => true,
    }
}

/// The message of an error, as its `Display` text reads.
pub open spec fn spec_message(e: CoreErrorView) -> Seq<char> {
    match e {
        CoreErrorView::UnsupportedInput => "unsupported input"@,
        CoreErrorView::UnsupportedOutput => "unsupported output"@,
        CoreErrorView::InvalidPreset => "invalid preset"@,
        CoreErrorView::InspectionFailed(m) => "inspection failed: "@ + m,
        CoreErrorView::EngineNotFound(m) => "engine not found: "@ + m,
        CoreErrorView::ProcessFailed(m) => "process failed: "@ + m,
        CoreErrorView::PermissionDenied => "permission denied"@,
        CoreErrorView::OutputExists => "output already exists"@,
        CoreErrorView::DiskFull => "disk full"@,
        CoreErrorView::Cancelled => "cancelled"@,
        CoreErrorView::InvalidOutput => "invalid output"@,
        CoreErrorView::Unknown(m) => "unknown error: "@ + m,
    }
}

/// The value of a [`ConversionError`].
pub struct ConversionErrorView {
    pub code: Seq<char>,
    pub message: Seq<char>,
    pub technical_details: Option<Seq<char>>,
    pub recoverable: bool,
}

impl View for ConversionError {
    type V = ConversionErrorView;

    open spec fn view(&self) -> ConversionErrorView {
        ConversionErrorView {
            code: self.code@,
            message: self.message@,
            technical_details: opt_view(self.technical_details),
            recoverable: self.recoverable,
        }
    }
}

/// The public form of an error: its code's name, its message, no technical
/// details, and whether it is recoverable.
pub open spec fn spec_public_error(e: CoreErrorView) -> ConversionErrorView {
    ConversionErrorView {
        code: spec_code_name(spec_error_code(e)),
        message: spec_message(e),
        technical_details: None,
        recoverable: spec_recoverable(e),
    }
}

fn prefixed(prefix: &str, detail: &String) -> (res: String)
    ensures
        res@ == prefix@ + detail@,
{
    let mut s = owned(prefix);
    push_str(&mut s, detail.as_str());
    s
}

impl CoreError {
    /// The message of the error, as [`spec_message`] states.
    pub fn message(&self) -> (res: String)
        ensures
            res@ == spec_message(self@),
    {
        match self {
            CoreError::UnsupportedInput => owned("unsupported input"),
            CoreError::UnsupportedOutput => owned("unsupported output"),
            CoreError::InvalidPreset => owned("invalid preset"),
            CoreError::InspectionFailed(m) => prefixed("inspection failed: ", m),
            CoreError::EngineNotFound(m) => prefixed("engine not found: ", m),
            CoreError::ProcessFailed(m) => prefixed("process failed: ", m),
            CoreError::PermissionDenied => owned("permission denied"),
            CoreError::OutputExists => owned("output already exists"),
            CoreError::DiskFull => owned("disk full"),
            CoreError::Cancelled => owned("cancelled"),
            CoreError::InvalidOutput => owned("invalid output"),
            CoreError::Unknown(m) => prefixed("unknown error: ", m),
        }
    }

    /// The code of the error.
    pub fn code(&self) -> (res: ConversionErrorCode)
        ensures
            res == spec_error_code(self@),
    {
        match self {
            CoreError::UnsupportedInput => ConversionErrorCode::UnsupportedInput,
            CoreError::UnsupportedOutput => ConversionErrorCode::UnsupportedOutput,
            CoreError::InvalidPreset => ConversionErrorCode::InvalidPreset,
            CoreError::InspectionFailed(_) => ConversionErrorCode::InspectionFailed,
            CoreError::EngineNotFound(_) => ConversionErrorCode::EngineNotFound,
            CoreError::ProcessFailed(_) => ConversionErrorCode::ProcessFailed,
            CoreError::PermissionDenied => ConversionErrorCode::PermissionDenied,
            CoreError::OutputExists => ConversionErrorCode::OutputExists,
            CoreError::DiskFull => ConversionErrorCode::DiskFull,
            CoreError::Cancelled => ConversionErrorCode::Cancelled,
            CoreError::InvalidOutput => ConversionErrorCode::InvalidOutput,
            CoreError::Unknown(_) => ConversionErrorCode::Unknown,
        }
    }

    /// The error as the user interface shows it, as [`spec_public_error`]
    /// states.
    pub fn to_public_error(&self) -> (res: ConversionError)
        ensures
            res@ == spec_public_error(self@),
    {
        let code = self.code();
        let recoverable = match self {
            CoreError::EngineNotFound(_) => false,
            CoreError::Unknown(_) => false,
            _ => true,
        };
        ConversionError {
            code: owned(code.name()),
            message: self.message(),
            technical_details: None,
            recoverable,
        }
    }
}

} // verus!
