//! The failures that abort a pass or a command.
use vstd::prelude::*;
use crate::Address;
use crate::value::ValueTypeFmt;

verus! {

/// Every failure of the engine and of the command layer around it.
#[derive(Debug)]
pub enum Error {
    Unknown,
    /// A transform needed more bytes than the window still held; carries the
    /// current address.
    TransformOutOfData(Address),
    /// No rule matched the current byte.
    NoMatch,
    /// A rule names a transform that the architecture does not define.
    TransformNotFound(String),
    UnsupportedFormat(ValueTypeFmt),
    /// The context selects an architecture that the registry does not hold.
    ArchNotFound(String),
    /// A patch would end past the largest index; carries its offset.
    PatchOffsetOutOfRange(usize),
    LabelNotFound(String),
    UnknownCommand(String),
    InsufficientArguments,
    TooManyArguments,
    /// A failure reported by a collaborator, as its message.
    Other(String),
    /// Bytes that had to come from outside were not supplied; names the source.
    Io(String),
    /// A number could not be read from the given text.
    ParseIntError(String),
}

/// The mathematical value of an [`Error`].
pub enum ErrorView {
    Unknown,
    TransformOutOfData(Address),
    NoMatch,
    TransformNotFound(Seq<char>),
    UnsupportedFormat(ValueTypeFmt),
    ArchNotFound(Seq<char>),
    PatchOffsetOutOfRange(usize),
    LabelNotFound(Seq<char>),
    UnknownCommand(Seq<char>),
    InsufficientArguments,
    TooManyArguments,
    Other(Seq<char>),
    Io(Seq<char>),
    ParseIntError(Seq<char>),
}

impl View for Error {
    type V = ErrorView;

    open spec fn view(&self) -> ErrorView {
        match self {
            Error::Unknown => ErrorView::Unknown,
            Error::TransformOutOfData(a) => ErrorView::TransformOutOfData(*a),
            Error::NoMatch => ErrorView::NoMatch,
            Error::TransformNotFound(s) => ErrorView::TransformNotFound(s@),
            Error::UnsupportedFormat(f) => ErrorView::UnsupportedFormat(*f),
            Error::ArchNotFound(s) => ErrorView::ArchNotFound(s@),
            Error::PatchOffsetOutOfRange(n) => ErrorView::PatchOffsetOutOfRange(*n),
            Error::LabelNotFound(s) => ErrorView::LabelNotFound(s@),
            Error::UnknownCommand(s) => ErrorView::UnknownCommand(s@),
            Error::InsufficientArguments => ErrorView::InsufficientArguments,
            Error::TooManyArguments => ErrorView::TooManyArguments,
            Error::Other(s) => ErrorView::Other(s@),
            Error::Io(s) => ErrorView::Io(s@),
            Error::ParseIntError(s) => ErrorView::ParseIntError(s@),
        }
    }
}

/// The result of an operation of the engine.
pub type FdResult<T> = Result<T, Error>;

} // verus!
