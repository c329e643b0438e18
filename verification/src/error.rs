use vstd::prelude::*;

verus! {

/// Error kinds reported by the back end. Each carries a human-readable
/// message where the kind needs one.
#[derive(Debug, Clone, PartialEq, Eq)]
pub enum RailError {
    DeviceNotFound,
    DeviceOpenFailed(String),
    StreamError(String),
    DspError(String),
    CaptureError(String),
    InvalidParameter(String),
}

/// A [`RailError`] with its message as a character sequence.
pub enum RailErrorView {
    DeviceNotFound,
    DeviceOpenFailed(Seq<char>),
    StreamError(Seq<char>),
    DspError(Seq<char>),
    CaptureError(Seq<char>),
    InvalidParameter(Seq<char>),
}

impl View for RailError {
    type V = RailErrorView;

    open spec fn view(&self) -> RailErrorView {
        match self {
            RailError::DeviceNotFound => RailErrorView::DeviceNotFound,
            RailError::DeviceOpenFailed(s) => RailErrorView::DeviceOpenFailed(s@),
            RailError::StreamError(s) => RailErrorView::StreamError(s@),
            RailError::DspError(s) => RailErrorView::DspError(s@),
            RailError::CaptureError(s) => RailErrorView::CaptureError(s@),
            RailError::InvalidParameter(s) => RailErrorView::InvalidParameter(s@),
        }
    }
}

} // verus!
