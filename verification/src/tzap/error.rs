//! What can go wrong with an archive.
use crate::failure::{IoFailure, IoKind};
#[allow(unused_imports)]
use crate::failure::IoFailureView;
use crate::text::{concat2, concat4, decimal, decimal_text};
use vstd::prelude::*;

verus! {

/// A fault of the archive format.
#[derive(Debug, PartialEq, Eq)]
pub enum FormatFault {
    /// A structure has the wrong length.
    InvalidLength {
        /// The structure.
        structure: String,
        /// The length that it should have.
        expected: usize,
        /// The length that was found.
        actual: usize,
    },
    /// The key does not fit the way the archive protects its contents.
    KeyMaterialMismatch,
    /// An entry path does not stay below the extraction root.
    UnsafeArchivePath,
    /// The writer does not support what was asked for.
    WriterUnsupported(String),
    /// The writer broke one of its own rules.
    WriterInvariant(String),
    /// The reader does not support what it found.
    ReaderUnsupported(String),
    /// The archive is malformed.
    InvalidArchive(String),
    /// Any other fault, as the format reader words it.
    Other(String),
}

/// A format fault with its texts taken as sequences.
pub enum FormatFaultView {
    InvalidLength { structure: Seq<char>, expected: usize, actual: usize },
    KeyMaterialMismatch,
    UnsafeArchivePath,
    WriterUnsupported(Seq<char>),
    WriterInvariant(Seq<char>),
    ReaderUnsupported(Seq<char>),
    InvalidArchive(Seq<char>),
    Other(Seq<char>),
}

impl View for FormatFault {
    type V = FormatFaultView;

    open spec fn view(&self) -> FormatFaultView {
        match self {
            FormatFault::InvalidLength { structure, expected, actual } => {
                FormatFaultView::InvalidLength {
                    structure: structure@,
                    expected: *expected,
                    actual: *actual,
                }
            },
            FormatFault::KeyMaterialMismatch => FormatFaultView::KeyMaterialMismatch,
            FormatFault::UnsafeArchivePath => FormatFaultView::UnsafeArchivePath,
            FormatFault::WriterUnsupported(m) => FormatFaultView::WriterUnsupported(m@),
            FormatFault::WriterInvariant(m) => FormatFaultView::WriterInvariant(m@),
            FormatFault::ReaderUnsupported(m) => FormatFaultView::ReaderUnsupported(m@),
            FormatFault::InvalidArchive(m) => FormatFaultView::InvalidArchive(m@),
            FormatFault::Other(m) => FormatFaultView::Other(m@),
        }
    }
}

/// What a user reads of a format fault.
pub open spec fn format_message(fault: FormatFaultView) -> Seq<char> {
    match fault {
        FormatFaultView::InvalidLength { structure, expected, actual } => {
            "invalid length for "@ + structure + ": expected "@ + decimal(expected as nat)
                + ", actual "@ + decimal(actual as nat)
        },
        FormatFaultView::KeyMaterialMismatch => "key material does not match KDF mode"@,
        FormatFaultView::UnsafeArchivePath => "unsafe archive path"@,
        FormatFaultView::WriterUnsupported(m) => "writer unsupported case: "@ + m,
        FormatFaultView::WriterInvariant(m) => "writer invariant failed: "@ + m,
        FormatFaultView::ReaderUnsupported(m) => "reader unsupported case: "@ + m,
        FormatFaultView::InvalidArchive(m) => "invalid archive: "@ + m,
        FormatFaultView::Other(m) => m,
    }
}

impl FormatFault {
    /// What a user reads of the fault.
    pub fn message(&self) -> (text: String)
        ensures
            text@ == format_message(self@),
    {
        match self {
            FormatFault::InvalidLength { structure, expected, actual } => {
                let head: String = concat4(
                    "invalid length for ",
                    structure.as_str(),
                    ": expected ",
                    decimal_text(*expected as u64).as_str(),
                );
                let tail: String = decimal_text(*actual as u64);
                let mut text: String = concat2(head.as_str(), ", actual ");
                text.append(tail.as_str());
                text
            },
            FormatFault::KeyMaterialMismatch => "key material does not match KDF mode".to_owned(),
            FormatFault::UnsafeArchivePath => "unsafe archive path".to_owned(),
            FormatFault::WriterUnsupported(m) => concat2("writer unsupported case: ", m.as_str()),
            FormatFault::WriterInvariant(m) => concat2("writer invariant failed: ", m.as_str()),
            FormatFault::ReaderUnsupported(m) => concat2("reader unsupported case: ", m.as_str()),
            FormatFault::InvalidArchive(m) => concat2("invalid archive: ", m.as_str()),
            FormatFault::Other(m) => m.clone(),
        }
    }

    /// The same fault once more.
    pub fn copy(&self) -> (fault: FormatFault)
        ensures
            fault@ == self@,
    {
        match self {
            FormatFault::InvalidLength { structure, expected, actual } => {
                FormatFault::InvalidLength {
                    structure: structure.clone(),
                    expected: *expected,
                    actual: *actual,
                }
            },
            FormatFault::KeyMaterialMismatch => FormatFault::KeyMaterialMismatch,
            FormatFault::UnsafeArchivePath => FormatFault::UnsafeArchivePath,
            FormatFault::WriterUnsupported(m) => FormatFault::WriterUnsupported(m.clone()),
            FormatFault::WriterInvariant(m) => FormatFault::WriterInvariant(m.clone()),
            FormatFault::ReaderUnsupported(m) => FormatFault::ReaderUnsupported(m.clone()),
            FormatFault::InvalidArchive(m) => FormatFault::InvalidArchive(m.clone()),
            FormatFault::Other(m) => FormatFault::Other(m.clone()),
        }
    }
}

/// What is said of bytes that are more than OpenSSL can be handed.
pub open spec fn oversized_text() -> Seq<char> {
    "input is longer than OpenSSL can read"@
}

/// What is said of bytes that are more than OpenSSL can be handed.
pub(crate) fn oversized_message() -> (text: String)
    ensures
        text@ == oversized_text(),
{
    "input is longer than OpenSSL can read".to_owned()
}

/// A fault in the archive format's own form.
#[verifier::external_type_specification]
#[verifier::external_body]
pub struct ExFormatError(tzap_core::FormatError);

/// What a fault of tzap-core is in the library's form: the variant and its fields,
/// or the text of a variant that the library does not tell apart.
pub uninterp spec fn fault_told(error: tzap_core::FormatError) -> FormatFaultView;

/// Takes a `tzap_core::FormatError` apart by its variants, and words those that the
/// library does not tell apart with its `to_string`. Claimed: the fault is a
/// function of the error.
#[verifier::external_body]
pub(crate) fn own_fault(error: tzap_core::FormatError) -> (fault: FormatFault)
    ensures
        fault@ == fault_told(error),
{
    match error {
        tzap_core::FormatError::InvalidLength { structure, expected, actual } => {
            FormatFault::InvalidLength { structure: structure.to_owned(), expected, actual }
        },
        tzap_core::FormatError::KeyMaterialMismatch => FormatFault::KeyMaterialMismatch,
        tzap_core::FormatError::UnsafeArchivePath => FormatFault::UnsafeArchivePath,
        tzap_core::FormatError::WriterUnsupported(m) => FormatFault::WriterUnsupported(m.to_owned()),
        tzap_core::FormatError::WriterInvariant(m) => FormatFault::WriterInvariant(m.to_owned()),
        tzap_core::FormatError::ReaderUnsupported(m) => FormatFault::ReaderUnsupported(m.to_owned()),
        tzap_core::FormatError::InvalidArchive(m) => FormatFault::InvalidArchive(m.to_owned()),
        other => FormatFault::Other(other.to_string()),
    }
}

/// A result whose fault is in the archive format's form, with the fault taken by its
/// view.
pub open spec fn told<T>(r: Result<T, tzap_core::FormatError>) -> Result<T, FormatFaultView> {
    match r {
        Ok(value) => Ok(value),
        Err(e) => Err(fault_told(e)),
    }
}

/// A result with its fault taken by its view.
pub open spec fn faulted<T>(r: Result<T, FormatFault>) -> Result<T, FormatFaultView> {
    match r {
        Ok(value) => Ok(value),
        Err(fault) => Err(fault@),
    }
}

/// A result with its fault in the library's form.
pub(crate) fn own_result<T>(r: Result<T, tzap_core::FormatError>) -> (own: Result<T, FormatFault>)
    ensures
        faulted(own) == told(r),
{
    match r {
        Ok(value) => Ok(value),
        Err(e) => Err(own_fault(e)),
    }
}

/// `.tzap` backend error.
#[derive(Debug, PartialEq, Eq)]
pub enum TzapError {
    /// Manifest planning failed.
    Plan(String),
    /// Filesystem I/O failed.
    Io {
        /// The file that was worked on.
        path: String,
        /// What went wrong.
        source: IoFailure,
    },
    /// Archive format, cryptographic, or metadata validation failed.
    Format(FormatFault),
    /// X.509 `RootAuth` signing or verification failed.
    X509RootAuth(String),
    /// X.509 recipient key wrapping failed.
    KeyWrap(String),
    /// Extraction safety rejected an entry.
    Safety(String),
    /// A passphrase-protected `.tzap` archive was opened without a password.
    PasswordRequired,
    /// A recipient-wrapped `.tzap` archive was opened without a recipient private key.
    RecipientKeyRequired,
    /// Job was cancelled cooperatively.
    Cancelled,
}

/// A backend error with its texts taken as sequences.
pub enum TzapFault {
    Plan(Seq<char>),
    Io { path: Seq<char>, source: IoFailureView },
    Format(FormatFaultView),
    X509RootAuth(Seq<char>),
    KeyWrap(Seq<char>),
    Safety(Seq<char>),
    PasswordRequired,
    RecipientKeyRequired,
    Cancelled,
}

impl View for TzapError {
    type V = TzapFault;

    open spec fn view(&self) -> TzapFault {
        match self {
            TzapError::Plan(m) => TzapFault::Plan(m@),
            TzapError::Io { path, source } => TzapFault::Io { path: path@, source: source@ },
            TzapError::Format(fault) => TzapFault::Format(fault@),
            TzapError::X509RootAuth(m) => TzapFault::X509RootAuth(m@),
            TzapError::KeyWrap(m) => TzapFault::KeyWrap(m@),
            TzapError::Safety(m) => TzapFault::Safety(m@),
            TzapError::PasswordRequired => TzapFault::PasswordRequired,
            TzapError::RecipientKeyRequired => TzapFault::RecipientKeyRequired,
            TzapError::Cancelled => TzapFault::Cancelled,
        }
    }
}

/// What a user reads of an error.
pub open spec fn tzap_message(fault: TzapFault) -> Seq<char> {
    match fault {
        TzapFault::Plan(m) => m,
        TzapFault::Io { path, source } => "I/O failed for "@ + path + ": "@ + source.message,
        TzapFault::Format(fault) => format_message(fault),
        TzapFault::X509RootAuth(m) => m,
        TzapFault::KeyWrap(m) => m,
        TzapFault::Safety(m) => "extraction safety rejected entry: "@ + m,
        TzapFault::PasswordRequired => "tzap password required"@,
        TzapFault::RecipientKeyRequired => "tzap recipient private key required"@,
        TzapFault::Cancelled => "job cancelled"@,
    }
}

impl TzapError {
    /// What a user reads of the error.
    pub fn message(&self) -> (text: String)
        ensures
            text@ == tzap_message(self@),
    {
        match self {
            TzapError::Plan(m) => m.clone(),
            TzapError::Io { path, source } => concat4(
                "I/O failed for ",
                path.as_str(),
                ": ",
                source.message.as_str(),
            ),
            TzapError::Format(fault) => fault.message(),
            TzapError::X509RootAuth(m) => m.clone(),
            TzapError::KeyWrap(m) => m.clone(),
            TzapError::Safety(m) => concat2("extraction safety rejected entry: ", m.as_str()),
            TzapError::PasswordRequired => "tzap password required".to_owned(),
            TzapError::RecipientKeyRequired => "tzap recipient private key required".to_owned(),
            TzapError::Cancelled => "job cancelled".to_owned(),
        }
    }

    /// The same error once more.
    pub fn copy(&self) -> (error: TzapError)
        ensures
            error@ == self@,
    {
        match self {
            TzapError::Plan(m) => TzapError::Plan(m.clone()),
            TzapError::Io { path, source } => TzapError::Io {
                path: path.clone(),
                source: source.copy(),
            },
            TzapError::Format(fault) => TzapError::Format(fault.copy()),
            TzapError::X509RootAuth(m) => TzapError::X509RootAuth(m.clone()),
            TzapError::KeyWrap(m) => TzapError::KeyWrap(m.clone()),
            TzapError::Safety(m) => TzapError::Safety(m.clone()),
            TzapError::PasswordRequired => TzapError::PasswordRequired,
            TzapError::RecipientKeyRequired => TzapError::RecipientKeyRequired,
            TzapError::Cancelled => TzapError::Cancelled,
        }
    }
}

/// The fault of a malformed archive.
pub open spec fn malformed(message: Seq<char>) -> TzapFault {
    TzapFault::Format(FormatFaultView::InvalidArchive(message))
}

/// The error of a malformed archive.
pub fn invalid_archive(message: &str) -> (error: TzapError)
    ensures
        error@ == malformed(message@),
{
    TzapError::Format(FormatFault::InvalidArchive(message.to_owned()))
}

/// The error of a writer that broke one of its own rules.
pub fn writer_invariant(message: &str) -> (error: TzapError)
    ensures
        error@ == TzapFault::Format(FormatFaultView::WriterInvariant(message@)),
{
    TzapError::Format(FormatFault::WriterInvariant(message.to_owned()))
}

/// The error of a request that the writer does not support.
pub fn writer_unsupported(message: &str) -> (error: TzapError)
    ensures
        error@ == TzapFault::Format(FormatFaultView::WriterUnsupported(message@)),
{
    TzapError::Format(FormatFault::WriterUnsupported(message.to_owned()))
}

/// The error of failed file work.
pub fn io_failed(path: &str, source: &IoFailure) -> (error: TzapError)
    ensures
        error@ == (TzapFault::Io { path: path@, source: source@ }),
{
    TzapError::Io { path: path.to_owned(), source: source.copy() }
}

/// What is said where no volume of an archive is found.
pub open spec fn no_volumes() -> IoFailureView {
    IoFailureView { kind: IoKind::NotFound, message: "no TZAP input volumes found"@ }
}

/// An I/O error of a kind, with the text that it is given.
pub fn io_error(path: &str, kind: IoKind, message: &str) -> (error: TzapError)
    ensures
        error@ == (TzapFault::Io {
            path: path@,
            source: IoFailureView { kind, message: message@ },
        }),
{
    TzapError::Io { path: path.to_owned(), source: IoFailure::new(kind, message) }
}

/// The error of a failed signature check.
pub fn root_auth_error(message: &str) -> (error: TzapError)
    ensures
        error@ == TzapFault::X509RootAuth(message@),
{
    TzapError::X509RootAuth(message.to_owned())
}

/// A result with its error taken by its view.
pub open spec fn seen<T>(r: Result<T, TzapError>) -> Result<T, TzapFault> {
    match r {
        Ok(v) => Ok(v),
        Err(e) => Err(e@),
    }
}

/// A fault of the format is told by what it is about and by its own words.
pub proof fn law_faults_of_the_format_are_told(
    structure: Seq<char>,
    expected: usize,
    actual: usize,
    m: Seq<char>,
)
    ensures
        format_message(FormatFaultView::InvalidLength { structure, expected, actual })
            == "invalid length for "@ + structure + ": expected "@ + decimal(expected as nat)
            + ", actual "@ + decimal(actual as nat),
        format_message(FormatFaultView::KeyMaterialMismatch)
            == "key material does not match KDF mode"@,
        format_message(FormatFaultView::UnsafeArchivePath) == "unsafe archive path"@,
        format_message(FormatFaultView::WriterUnsupported(m)) == "writer unsupported case: "@ + m,
        format_message(FormatFaultView::WriterInvariant(m)) == "writer invariant failed: "@ + m,
        format_message(FormatFaultView::ReaderUnsupported(m)) == "reader unsupported case: "@ + m,
        format_message(FormatFaultView::InvalidArchive(m)) == "invalid archive: "@ + m,
        format_message(FormatFaultView::Other(m)) == m,
{
}

/// A fault of an archive is told in its own words, with the path where a file failed and
/// with fixed words where a secret is missing or the job was cancelled.
pub proof fn law_faults_of_archives_are_told(
    path: Seq<char>,
    source: IoFailureView,
    m: Seq<char>,
    fault: FormatFaultView,
)
    ensures
        tzap_message(TzapFault::Plan(m)) == m,
        tzap_message(TzapFault::Io { path, source }) == "I/O failed for "@ + path + ": "@
            + source.message,
        tzap_message(TzapFault::Format(fault)) == format_message(fault),
        tzap_message(TzapFault::X509RootAuth(m)) == m,
        tzap_message(TzapFault::KeyWrap(m)) == m,
        tzap_message(TzapFault::Safety(m)) == "extraction safety rejected entry: "@ + m,
        tzap_message(TzapFault::PasswordRequired) == "tzap password required"@,
        tzap_message(TzapFault::RecipientKeyRequired) == "tzap recipient private key required"@,
        tzap_message(TzapFault::Cancelled) == "job cancelled"@,
{
}

} // verus!
