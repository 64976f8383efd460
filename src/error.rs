use vstd::prelude::*;

verus! {

/// A property that a backend may or may not offer. `Public`, `Private`,
/// `Anonymous` and `Authenticated` are the flags a backend accepts, listed by
/// its `features()`; `SingleUpload` and `BatchUpload` are upload
/// capabilities, listed apart by its `capabilities()`.
#[derive(PartialEq, Eq, Structural, Clone, Copy, Debug)]
pub enum BinFeature {
    Public,
    Private,
    Anonymous,
    Authenticated,
    SingleUpload,
    BatchUpload,
}

/// Every failure the library reports. Nothing is retried; each error goes back to the caller.
#[derive(Debug)]
pub enum BinsError {
    UnknownService(String),
    UnsupportedFeature(BinFeature),
    BadRange,
    BadRangeNumber(String),
    RangeOutOfBounds(usize),
    InvalidResponse,
    RemoteRejected(String),
    Io(String),
    InternalInvariant(String),
}

/// The mathematical value of a `BinsError`: texts are seen as character sequences.
pub enum ErrorModel {
    UnknownService(Seq<char>),
    UnsupportedFeature(BinFeature),
    BadRange,
    BadRangeNumber(Seq<char>),
    RangeOutOfBounds(usize),
    InvalidResponse,
    RemoteRejected(Seq<char>),
    Io(Seq<char>),
    InternalInvariant(Seq<char>),
}

impl View for BinsError {
    type V = ErrorModel;

    open spec fn view(&self) -> ErrorModel {
        match self {
            BinsError::UnknownService(s) => ErrorModel::UnknownService(s@),
            BinsError::UnsupportedFeature(f) => ErrorModel::UnsupportedFeature(*f),
            BinsError::BadRange => ErrorModel::BadRange,
            BinsError::BadRangeNumber(s) => ErrorModel::BadRangeNumber(s@),
            BinsError::RangeOutOfBounds(i) => ErrorModel::RangeOutOfBounds(*i),
            BinsError::InvalidResponse => ErrorModel::InvalidResponse,
            BinsError::RemoteRejected(s) => ErrorModel::RemoteRejected(s@),
            BinsError::Io(s) => ErrorModel::Io(s@),
            BinsError::InternalInvariant(s) => ErrorModel::InternalInvariant(s@),
        }
    }
}

/// The mathematical value of a result whose error is a `BinsError`.
pub open spec fn result_view<T>(r: Result<T, BinsError>) -> Result<T, ErrorModel> {
    match r {
        Ok(v) => Ok(v),
        Err(e) => Err(e@),
    }
}

impl BinsError {
    /// A short human-readable description of the error.
    pub fn describe(&self) -> (r: String) {
        match self {
            BinsError::UnknownService(s) => String::from_str("unknown service: ").concat(s.as_str()),
            BinsError::UnsupportedFeature(_) => String::from_str("the service does not support this feature"),
            BinsError::BadRange => String::from_str("a range must be a number or two numbers joined by '-'"),
            BinsError::BadRangeNumber(s) => String::from_str("not a valid range number: ").concat(s.as_str()),
            BinsError::RangeOutOfBounds(_) => String::from_str("a range index is beyond the files of the paste"),
            BinsError::InvalidResponse => String::from_str("the service sent a response of an unknown shape"),
            BinsError::RemoteRejected(s) => String::from_str("the service refused the request: ").concat(s.as_str()),
            BinsError::Io(s) => String::from_str("i/o error: ").concat(s.as_str()),
            BinsError::InternalInvariant(s) => String::from_str("internal error: ").concat(s.as_str()),
        }
    }
}

} // verus!
