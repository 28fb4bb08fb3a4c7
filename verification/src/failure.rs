//! Failures of reading and writing: what kind they are, and what they say.
use std::io::ErrorKind;
use vstd::prelude::*;

verus! {

/// What kind of failure it was.
#[derive(Clone, Copy, Debug, PartialEq, Eq, Structural)]
pub enum IoKind {
    /// There is no such file.
    NotFound,
    /// The file may not be touched.
    PermissionDenied,
    /// There is such a file already.
    AlreadyExists,
    /// A file was needed where a directory is.
    IsADirectory,
    /// What was asked for makes no sense.
    InvalidInput,
    /// What was read makes no sense.
    InvalidData,
    /// The data ended early.
    UnexpectedEof,
    /// Nothing more could be written.
    WriteZero,
    /// The work was interrupted.
    Interrupted,
    /// The machine cannot do it.
    Unsupported,
    /// Anything else.
    Other,
}

/// A failure of reading or writing.
#[derive(Debug, PartialEq, Eq)]
pub struct IoFailure {
    /// What kind of failure it was.
    pub kind: IoKind,
    /// What it says.
    pub message: String,
}

/// A failure with its text taken as a sequence.
pub struct IoFailureView {
    pub kind: IoKind,
    pub message: Seq<char>,
}

impl View for IoFailure {
    type V = IoFailureView;

    open spec fn view(&self) -> IoFailureView {
        IoFailureView { kind: self.kind, message: self.message@ }
    }
}

impl IoFailure {
    /// The failure of a kind that says `message`.
    pub fn new(kind: IoKind, message: &str) -> (failure: IoFailure)
        ensures
            failure@ == (IoFailureView { kind, message: message@ }),
    {
        IoFailure { kind, message: message.to_owned() }
    }

    /// The same failure again.
    pub fn copy(&self) -> (failure: IoFailure)
        ensures
            failure@ == self@,
    {
        IoFailure { kind: self.kind, message: self.message.clone() }
    }
}

/// What is said of a file that ends within what was to be read from it.
pub open spec fn unfilled() -> IoFailureView {
    IoFailureView { kind: IoKind::UnexpectedEof, message: "failed to fill whole buffer"@ }
}

/// What is said of a file that ends within what was to be read from it.
pub fn unfilled_buffer() -> (failure: IoFailure)
    ensures
        failure@ == unfilled(),
{
    IoFailure::new(IoKind::UnexpectedEof, "failed to fill whole buffer")
}

/// An error of std.
#[verifier::external_type_specification]
#[verifier::external_body]
pub struct ExIoError(std::io::Error);

/// The kind of an error of std.
pub uninterp spec fn error_kind(error: std::io::Error) -> IoKind;

/// The text of an error of std.
pub uninterp spec fn error_text(error: std::io::Error) -> Seq<char>;

/// `std::io::Error::kind`. Claimed: an error has one kind. A kind that is not told apart
/// here is another one.
#[verifier::external_body]
fn kind_of(error: &std::io::Error) -> (kind: IoKind)
    ensures
        kind == error_kind(*error),
{
    match error.kind() {
        ErrorKind::NotFound => IoKind::NotFound,
        ErrorKind::PermissionDenied => IoKind::PermissionDenied,
        ErrorKind::AlreadyExists => IoKind::AlreadyExists,
        ErrorKind::IsADirectory => IoKind::IsADirectory,
        ErrorKind::InvalidInput => IoKind::InvalidInput,
        ErrorKind::InvalidData => IoKind::InvalidData,
        ErrorKind::UnexpectedEof => IoKind::UnexpectedEof,
        ErrorKind::WriteZero => IoKind::WriteZero,
        ErrorKind::Interrupted => IoKind::Interrupted,
        ErrorKind::Unsupported => IoKind::Unsupported,
        _ => IoKind::Other,
    }
}

/// `std::io::Error`'s `Display`. Claimed: an error says one thing.
#[verifier::external_body]
fn text_of(error: &std::io::Error) -> (text: String)
    ensures
        text@ == error_text(*error),
{
    error.to_string()
}

/// What an error of std tells.
pub open spec fn failure_told(error: std::io::Error) -> IoFailureView {
    IoFailureView { kind: error_kind(error), message: error_text(error) }
}

/// An error of std in the library's form.
pub fn own_failure(error: &std::io::Error) -> (failure: IoFailure)
    ensures
        failure@ == failure_told(*error),
{
    IoFailure { kind: kind_of(error), message: text_of(error) }
}

} // verus!
