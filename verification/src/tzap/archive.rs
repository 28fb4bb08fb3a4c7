//! Listing, testing and copying what an opened archive holds.
use crate::failure::IoFailure;
use crate::text::concat2;
#[allow(unused_imports)]
use crate::report::saturated;
#[allow(unused_imports)]
use crate::text::texts;
use crate::tzap::error::{FormatFault, TzapError};
#[allow(unused_imports)]
use crate::tzap::error::TzapFault;
use crate::tzap::inventory::TzapX509TrustOptions;
#[allow(unused_imports)]
use crate::tzap::keys::password_view;
use crate::tzap::opening::ArchiveInput;
#[allow(unused_imports)]
use crate::tzap::opening::{archive_result, lent_archive};
use crate::tzap::root_auth::{
    TzapX509VerificationReport, X509_AUTHENTICATOR_ID, should_verify_opened_x509_root_auth,
};
use vstd::prelude::*;

verus! {

/// What a member of an archive is.
#[derive(Clone, Copy, Debug, PartialEq, Eq, Structural)]
pub enum TarEntryKind {
    Regular,
    Directory,
    Symlink,
    Hardlink,
}

/// One member of an archive.
#[derive(Debug, PartialEq, Eq)]
pub struct ArchiveEntry {
    pub path: String,
    pub kind: TarEntryKind,
    pub file_data_size: u64,
    pub mode: u32,
    /// When it was changed, in seconds since the Unix epoch.
    pub mtime: i64,
    /// The part of that time below a second.
    pub mtime_nanoseconds: u32,
}

/// One member of an archive as its index tells it.
#[derive(Debug, PartialEq, Eq)]
pub struct ArchiveIndexEntry {
    pub path: String,
    pub file_data_size: u64,
}

/// An opened archive, as far as the reader has told of it.
pub struct TzapArchive {
    /// The members, or why they cannot be listed.
    pub files: Result<Vec<ArchiveEntry>, FormatFault>,
    /// The index, or why it cannot be listed.
    pub index: Result<Vec<ArchiveIndexEntry>, FormatFault>,
    /// Whether the contents are intact.
    pub intact: Result<(), FormatFault>,
    /// How the archive is signed, if it is.
    pub authenticator_id: Option<u16>,
}

/// Public entry kind for `.tzap` listings.
#[derive(Clone, Copy, Debug, PartialEq, Eq, Structural)]
pub enum TzapEntryKind {
    /// Regular file.
    File,
    /// Directory.
    Directory,
    /// Symbolic link.
    Symlink,
    /// Hard link.
    Hardlink,
}

/// One `.tzap` archive entry.
#[derive(Debug, PartialEq, Eq)]
pub struct TzapEntry {
    /// Archive path.
    pub path: String,
    /// Entry kind.
    pub kind: TzapEntryKind,
    /// Uncompressed file bytes.
    pub size: u64,
    /// Portable mode bits.
    pub mode: u32,
    /// Modification time as Unix seconds.
    pub mtime: i64,
    /// Nanoseconds past the modification second.
    pub mtime_nanoseconds: u32,
}

/// `.tzap` archive listing.
#[derive(Debug, PartialEq, Eq)]
pub struct TzapListing {
    /// Listed entries.
    pub entries: Vec<TzapEntry>,
}

/// The kind that a member is listed as.
pub open spec fn listed_kind(kind: TarEntryKind) -> TzapEntryKind {
    match kind {
        TarEntryKind::Regular => TzapEntryKind::File,
        TarEntryKind::Directory => TzapEntryKind::Directory,
        TarEntryKind::Symlink => TzapEntryKind::Symlink,
        TarEntryKind::Hardlink => TzapEntryKind::Hardlink,
    }
}

/// The kind that a member is listed as.
pub fn tzap_entry_kind_from_member_kind(kind: TarEntryKind) -> (r: TzapEntryKind)
    ensures
        r == listed_kind(kind),
{
    match kind {
        TarEntryKind::Regular => TzapEntryKind::File,
        TarEntryKind::Directory => TzapEntryKind::Directory,
        TarEntryKind::Symlink => TzapEntryKind::Symlink,
        TarEntryKind::Hardlink => TzapEntryKind::Hardlink,
    }
}

/// Whether a listed entry tells of a member.
pub open spec fn lists(listed: TzapEntry, entry: ArchiveEntry) -> bool {
    &&& listed.path@ == entry.path@
    &&& listed.kind == listed_kind(entry.kind)
    &&& listed.size == entry.file_data_size
    &&& listed.mode == entry.mode
    &&& listed.mtime == entry.mtime
    &&& listed.mtime_nanoseconds == entry.mtime_nanoseconds
}

/// Lists one member.
pub fn tzap_entry_from_archive_entry(entry: &ArchiveEntry) -> (listed: TzapEntry)
    ensures
        lists(listed, *entry),
{
    TzapEntry {
        path: entry.path.clone(),
        kind: tzap_entry_kind_from_member_kind(entry.kind),
        size: entry.file_data_size,
        mode: entry.mode,
        mtime: entry.mtime,
        mtime_nanoseconds: entry.mtime_nanoseconds,
    }
}

/// Whether `result` is the listing of an archive: its members in order, or the
/// first thing that went wrong.
pub open spec fn is_listing(
    result: Result<TzapListing, TzapError>,
    archive: Result<TzapArchive, TzapFault>,
) -> bool {
    match archive {
        Err(fault) => result matches Err(r) && r@ == fault,
        Ok(archive) => match archive.files {
            Err(fault) => result matches Err(r) && r@ == TzapFault::Format(fault@),
            Ok(files) => result matches Ok(listing) && listing.entries@.len() == files@.len()
                && forall|k: int|
                0 <= k < files@.len() ==> lists(#[trigger] listing.entries@[k], files@[k]),
        },
    }
}

fn list_opened_tzap_archive(archive: Result<&TzapArchive, TzapError>) -> (listing: Result<
    TzapListing,
    TzapError,
>)
    ensures
        is_listing(listing, lent_archive(archive)),
{
    let archive: &TzapArchive = match archive {
        Ok(archive) => archive,
        Err(e) => {
            return Err(e);
        },
    };
    let files: &Vec<ArchiveEntry> = match &archive.files {
        Ok(files) => files,
        Err(fault) => {
            return Err(TzapError::Format(fault.copy()));
        },
    };
    let mut entries: Vec<TzapEntry> = Vec::new();
    let mut i: usize = 0;
    while i < files.len()
        invariant
            i <= files@.len(),
            entries@.len() == i,
            forall|k: int| 0 <= k < i ==> lists(#[trigger] entries@[k], files@[k]),
        decreases files@.len() - i,
    {
        entries.push(tzap_entry_from_archive_entry(&files[i]));
        i = i + 1;
    }
    Ok(TzapListing { entries })
}

/// Lists `.tzap` archive entries, opened with a passphrase.
pub fn list_tzap_with_password(input: &ArchiveInput, password: &str) -> (listing: Result<
    TzapListing,
    TzapError,
>)
    requires
        input.is_complete(),
    ensures
        is_listing(listing, input.opened_with(Some(password@), false, false)),
{
    list_tzap_with_optional_password(input, Some(password))
}

/// Lists `.tzap` archive entries, opened with an optional passphrase.
pub fn list_tzap_with_optional_password(input: &ArchiveInput, password: Option<&str>) -> (listing:
    Result<TzapListing, TzapError>)
    requires
        input.is_complete(),
    ensures
        is_listing(listing, input.opened_with(password_view(password), false, false)),
{
    list_opened_tzap_archive(input.open_with(password, false, false))
}

/// Lists recipient-wrapped `.tzap` archive entries, opened with a private key in a
/// file.
pub fn list_tzap_with_recipient_key(input: &ArchiveInput) -> (listing: Result<
    TzapListing,
    TzapError,
>)
    requires
        input.is_complete(),
    ensures
        is_listing(listing, input.opened_with(None, true, false)),
{
    list_opened_tzap_archive(input.open_with(None, true, false))
}

/// `.tzap` test report.
#[derive(Debug, PartialEq, Eq)]
pub struct TzapTestReport {
    /// Number of entries in the archive.
    pub entries: usize,
    /// Number of entries selected by the filter.
    pub tested_entries: usize,
    /// Number of entries skipped by the filter.
    pub skipped_entries: usize,
    /// Total selected regular-file bytes.
    pub tested_bytes: u64,
    /// Verified X.509 `RootAuth` details when trust options were supplied.
    pub x509_root_auth: Option<TzapX509VerificationReport>,
}

/// How many of the first `n` members are selected.
pub open spec fn selected_count(selected: Seq<bool>, n: nat) -> nat
    decreases n,
{
    if n == 0 {
        0
    } else {
        selected_count(selected, (n - 1) as nat) + (if selected[n - 1] {
            1nat
        } else {
            0
        })
    }
}

/// The bytes of the selected files among the first `n` members, as far as they
/// can be counted.
pub open spec fn selected_bytes(files: Seq<ArchiveEntry>, selected: Seq<bool>, n: nat) -> int
    decreases n,
{
    if n == 0 {
        0
    } else {
        let before = selected_bytes(files, selected, (n - 1) as nat);
        if selected[n - 1] && files[n - 1].kind == TarEntryKind::Regular {
            saturated(before, files[n - 1].file_data_size as int, u64::MAX as int)
        } else {
            before
        }
    }
}

/// Whether a test checks the signature of an archive.
pub open spec fn checks_signature(
    archive: TzapArchive,
    trust: Option<&TzapX509TrustOptions>,
) -> bool {
    trust matches Some(t) && t.has_source() && (t.trusted_ca_certificates@.len() > 0
        || t.trusted_system_roots || archive.authenticator_id == Some(X509_AUTHENTICATOR_ID))
}

/// Whether `result` is what a test of an archive comes to: the contents are
/// checked first, the signature if it has to be, and every selected member is
/// counted.
pub open spec fn is_test_result(
    result: Result<TzapTestReport, TzapError>,
    archive: Result<TzapArchive, TzapFault>,
    selected: Seq<bool>,
    trust: Option<&TzapX509TrustOptions>,
    signature: Result<TzapX509VerificationReport, TzapError>,
) -> bool {
    match archive {
        Err(fault) => result matches Err(r) && r@ == fault,
        Ok(archive) => if archive.intact is Err {
            result matches Err(r) && r@ == TzapFault::Format((archive.intact->Err_0)@)
        } else if checks_signature(archive, trust) && signature is Err {
            result matches Err(r) && r@ == (signature->Err_0)@
        } else {
            match archive.files {
                Err(fault) => result matches Err(r) && r@ == TzapFault::Format(fault@),
                Ok(files) => result matches Ok(report) && {
                    &&& report.entries == files@.len()
                    &&& report.tested_entries == selected_count(selected, files@.len())
                    &&& report.tested_entries + report.skipped_entries == files@.len()
                    &&& report.tested_bytes == selected_bytes(files@, selected, files@.len())
                    &&& report.x509_root_auth == (if checks_signature(archive, trust) {
                        Some(signature->Ok_0)
                    } else {
                        None
                    })
                },
            }
        },
    }
}

/// Whether a selection says of every member of an archive whether it is taken.
pub open spec fn covers(archive: Result<TzapArchive, TzapFault>, selected: Seq<bool>) -> bool {
    archive matches Ok(a) ==> (a.files matches Ok(files) ==> files@.len() == selected.len())
}

fn test_opened_tzap_archive(
    archive: Result<&TzapArchive, TzapError>,
    selected: &Vec<bool>,
    trust: Option<&TzapX509TrustOptions>,
    signature: Result<TzapX509VerificationReport, TzapError>,
) -> (result: Result<TzapTestReport, TzapError>)
    requires
        covers(lent_archive(archive), selected@),
    ensures
        is_test_result(result, lent_archive(archive), selected@, trust, signature),
{
    let archive: &TzapArchive = match archive {
        Ok(archive) => archive,
        Err(e) => {
            return Err(e);
        },
    };
    match &archive.intact {
        Ok(_) => {},
        Err(fault) => {
            return Err(TzapError::Format(fault.copy()));
        },
    }
    let checked: bool = match trust {
        Some(trust) => trust.has_trust_source() && should_verify_opened_x509_root_auth(
            archive.authenticator_id,
            trust,
        ),
        None => false,
    };
    let x509_root_auth: Option<TzapX509VerificationReport> = if checked {
        match signature {
            Ok(report) => Some(report),
            Err(e) => {
                return Err(e);
            },
        }
    } else {
        None
    };
    let files: &Vec<ArchiveEntry> = match &archive.files {
        Ok(files) => files,
        Err(fault) => {
            return Err(TzapError::Format(fault.copy()));
        },
    };
    let mut tested_entries: usize = 0;
    let mut tested_bytes: u64 = 0;
    let mut i: usize = 0;
    while i < files.len()
        invariant
            i <= files@.len(),
            files@.len() == selected@.len(),
            tested_entries <= i,
            tested_entries as nat == selected_count(selected@, i as nat),
            tested_bytes as int == selected_bytes(files@, selected@, i as nat),
        decreases files@.len() - i,
    {
        if selected[i] {
            tested_entries = tested_entries + 1;
            if files[i].kind == TarEntryKind::Regular {
                tested_bytes = tested_bytes.saturating_add(files[i].file_data_size);
            }
        }
        i = i + 1;
    }
    Ok(
        TzapTestReport {
            entries: files.len(),
            tested_entries,
            skipped_entries: files.len() - tested_entries,
            tested_bytes,
            x509_root_auth,
        },
    )
}

/// Tests `.tzap` archive readability and integrity with a filter. `selected`
/// says of each member whether the filter takes it.
pub fn test_tzap_with_password_filter(
    input: &ArchiveInput,
    password: &str,
    selected: &Vec<bool>,
) -> (result: Result<TzapTestReport, TzapError>)
    requires
        input.is_complete(),
        covers(archive_result(input.archive), selected@),
    ensures
        is_test_result(
            result,
            input.opened_with(Some(password@), false, false),
            selected@,
            None,
            Err(TzapError::Cancelled),
        ),
{
    test_tzap_with_optional_password_filter_and_x509_trust(
        input,
        Some(password),
        selected,
        None,
        Err(TzapError::Cancelled),
    )
}

/// Tests `.tzap` archive readability and integrity with optional X.509 `RootAuth`
/// verification. `signature` is what a check of the signature comes to.
pub fn test_tzap_with_password_filter_and_x509_trust(
    input: &ArchiveInput,
    password: &str,
    selected: &Vec<bool>,
    trust: Option<&TzapX509TrustOptions>,
    signature: Result<TzapX509VerificationReport, TzapError>,
) -> (result: Result<TzapTestReport, TzapError>)
    requires
        input.is_complete(),
        covers(archive_result(input.archive), selected@),
    ensures
        is_test_result(
            result,
            input.opened_with(Some(password@), false, false),
            selected@,
            trust,
            signature,
        ),
{
    test_tzap_with_optional_password_filter_and_x509_trust(
        input,
        Some(password),
        selected,
        trust,
        signature,
    )
}

/// Tests `.tzap` archive readability and integrity with an optional passphrase.
pub fn test_tzap_with_optional_password_filter_and_x509_trust(
    input: &ArchiveInput,
    password: Option<&str>,
    selected: &Vec<bool>,
    trust: Option<&TzapX509TrustOptions>,
    signature: Result<TzapX509VerificationReport, TzapError>,
) -> (result: Result<TzapTestReport, TzapError>)
    requires
        input.is_complete(),
        covers(archive_result(input.archive), selected@),
    ensures
        is_test_result(
            result,
            input.opened_with(password_view(password), false, false),
            selected@,
            trust,
            signature,
        ),
{
    test_opened_tzap_archive(input.open_with(password, false, false), selected, trust, signature)
}

/// Tests recipient-wrapped `.tzap` readability and integrity with a private key in a
/// file.
pub fn test_tzap_with_recipient_key_filter_and_x509_trust(
    input: &ArchiveInput,
    selected: &Vec<bool>,
    trust: Option<&TzapX509TrustOptions>,
    signature: Result<TzapX509VerificationReport, TzapError>,
) -> (result: Result<TzapTestReport, TzapError>)
    requires
        input.is_complete(),
        covers(archive_result(input.archive), selected@),
    ensures
        is_test_result(
            result,
            input.opened_with(None, true, false),
            selected@,
            trust,
            signature,
        ),
{
    test_opened_tzap_archive(input.open_with(None, true, false), selected, trust, signature)
}

/// Tests recipient-wrapped `.tzap` readability and integrity with an in-memory
/// private key, for callers that must not write key material to disk.
pub fn test_tzap_with_recipient_key_bytes_filter_and_x509_trust(
    input: &ArchiveInput,
    selected: &Vec<bool>,
    trust: Option<&TzapX509TrustOptions>,
    signature: Result<TzapX509VerificationReport, TzapError>,
) -> (result: Result<TzapTestReport, TzapError>)
    requires
        input.is_complete(),
        covers(archive_result(input.archive), selected@),
    ensures
        is_test_result(
            result,
            input.opened_with(None, false, true),
            selected@,
            trust,
            signature,
        ),
{
    test_opened_tzap_archive(input.open_with(None, false, true), selected, trust, signature)
}

/// `.tzap` extraction report.
#[derive(Debug, PartialEq, Eq)]
pub struct TzapExtractReport {
    /// Number of entries written.
    pub written_entries: usize,
    /// Number of entries skipped by policy.
    pub skipped_entries: usize,
    /// Number of file bytes extracted.
    pub written_bytes: u64,
    /// Non-fatal warnings.
    pub warnings: Vec<String>,
}

/// An extraction report with its texts taken as sequences.
pub struct ExtractView {
    pub written_entries: int,
    pub skipped_entries: int,
    pub written_bytes: int,
    pub warnings: Seq<Seq<char>>,
}

impl View for TzapExtractReport {
    type V = ExtractView;

    open spec fn view(&self) -> ExtractView {
        ExtractView {
            written_entries: self.written_entries as int,
            skipped_entries: self.skipped_entries as int,
            written_bytes: self.written_bytes as int,
            warnings: texts(self.warnings@),
        }
    }
}

impl ExtractView {
    /// A report of nothing.
    pub open spec fn nothing() -> ExtractView {
        ExtractView {
            written_entries: 0,
            skipped_entries: 0,
            written_bytes: 0,
            warnings: Seq::empty(),
        }
    }

    /// The report with one more entry written.
    pub open spec fn wrote(self, bytes: int) -> ExtractView {
        ExtractView {
            written_entries: self.written_entries + 1,
            written_bytes: self.written_bytes + bytes,
            ..self
        }
    }

    /// The report with one more entry skipped in silence.
    pub open spec fn passed(self) -> ExtractView {
        ExtractView { skipped_entries: self.skipped_entries + 1, ..self }
    }

    /// The report with one more entry skipped with a warning.
    pub open spec fn skipped(self, warning: Seq<char>) -> ExtractView {
        ExtractView {
            skipped_entries: self.skipped_entries + 1,
            warnings: self.warnings.push(warning),
            ..self
        }
    }
}

impl TzapExtractReport {
    /// A report of nothing.
    pub fn new() -> (report: Self)
        ensures
            report@ == ExtractView::nothing(),
    {
        let report = TzapExtractReport {
            written_entries: 0,
            skipped_entries: 0,
            written_bytes: 0,
            warnings: Vec::new(),
        };
        assert(texts(report.warnings@) =~= Seq::<Seq<char>>::empty());
        report
    }

    /// Counts a written entry.
    pub fn wrote(&mut self, bytes: u64)
        requires
            old(self).written_entries < usize::MAX,
            old(self).written_bytes + bytes <= u64::MAX,
        ensures
            final(self)@ == old(self)@.wrote(bytes as int),
    {
        self.written_entries = self.written_entries + 1;
        self.written_bytes = self.written_bytes + bytes;
    }

    /// Counts an entry that is skipped in silence.
    pub fn passed(&mut self)
        requires
            old(self).skipped_entries < usize::MAX,
        ensures
            final(self)@ == old(self)@.passed(),
    {
        self.skipped_entries = self.skipped_entries + 1;
    }

    /// Counts an entry that is skipped with a warning.
    pub fn skipped(&mut self, warning: String)
        requires
            old(self).skipped_entries < usize::MAX,
        ensures
            final(self)@ == old(self)@.skipped(warning@),
    {
        let ghost before = self.warnings@;
        self.skipped_entries = self.skipped_entries + 1;
        self.warnings.push(warning);
        assert(texts(self.warnings@) =~= texts(before).push(warning@));
    }
}

/// Why the content of a member could not be taken out.
#[derive(Debug, PartialEq, Eq)]
pub enum ExtractFailure {
    /// The archive is at fault.
    Format(FormatFault),
    /// The output is.
    Output(IoFailure),
}

/// The error of a member whose content could not be taken out.
pub open spec fn extract_fault(path: Seq<char>, failure: ExtractFailure) -> TzapFault {
    match failure {
        ExtractFailure::Format(fault) => TzapFault::Format(fault@),
        ExtractFailure::Output(failure) => TzapFault::Io { path, source: failure@ },
    }
}

/// The error of a member whose content could not be taken out.
pub fn tzap_extract_error(path: &str, failure: &ExtractFailure) -> (error: TzapError)
    ensures
        error@ == extract_fault(path@, *failure),
{
    match failure {
        ExtractFailure::Format(fault) => TzapError::Format(fault.copy()),
        ExtractFailure::Output(failure) => TzapError::Io {
            path: path.to_owned(),
            source: failure.copy(),
        },
    }
}

/// What is said of a member that the index names but the archive does not hold.
pub open spec fn missing_text(path: Seq<char>) -> Seq<char> {
    "skipped missing entry "@ + path
}

/// What is said of a member that the index names but the archive does not hold.
pub fn missing_warning(path: &str) -> (text: String)
    ensures
        text@ == missing_text(path@),
{
    concat2("skipped missing entry ", path)
}

/// The report once one more member was copied, if it was selected. `copied` says
/// whether the archive holds its content.
pub open spec fn copy_step(
    report: ExtractView,
    entry: ArchiveIndexEntry,
    selected: bool,
    copied: Result<bool, ExtractFailure>,
) -> Result<ExtractView, TzapFault> {
    if !selected {
        Ok(report.passed())
    } else {
        match copied {
            Err(failure) => Err(extract_fault(entry.path@, failure)),
            Ok(true) => Ok(report.wrote(entry.file_data_size as int)),
            Ok(false) => Ok(report.skipped(missing_text(entry.path@))),
        }
    }
}

/// The report once the first `n` members were copied.
pub open spec fn copied_up_to(
    index: Seq<ArchiveIndexEntry>,
    selected: Seq<bool>,
    copied: Seq<Result<bool, ExtractFailure>>,
    n: nat,
) -> Result<ExtractView, TzapFault>
    decreases n,
{
    if n == 0 {
        Ok(ExtractView::nothing())
    } else {
        match copied_up_to(index, selected, copied, (n - 1) as nat) {
            Err(fault) => Err(fault),
            Ok(report) => copy_step(report, index[n - 1], selected[n - 1], copied[n - 1]),
        }
    }
}

/// A report and an error, taken by their views.
pub open spec fn extract_result(r: Result<TzapExtractReport, TzapError>) -> Result<
    ExtractView,
    TzapFault,
> {
    match r {
        Ok(report) => Ok(report@),
        Err(e) => Err(e@),
    }
}

/// What copying the selected members of an archive comes to.
pub open spec fn copy_outcome(
    archive: Result<TzapArchive, TzapFault>,
    selected: Seq<bool>,
    copied: Seq<Result<bool, ExtractFailure>>,
) -> Result<ExtractView, TzapFault> {
    match archive {
        Err(fault) => Err(fault),
        Ok(archive) => match archive.index {
            Err(fault) => Err(TzapFault::Format(fault@)),
            Ok(index) => copied_up_to(index@, selected, copied, index@.len()),
        },
    }
}

/// Whether the answers cover the index of an archive, and the bytes that are copied
/// can be counted.
pub open spec fn copy_fits(
    archive: Result<TzapArchive, TzapFault>,
    selected: Seq<bool>,
    copied: Seq<Result<bool, ExtractFailure>>,
) -> bool {
    archive matches Ok(a) ==> (a.index matches Ok(index) ==> copies_fit(index@, selected, copied))
}

/// Whether there is an answer for every entry of an index, and the bytes that are copied
/// can be counted, however far a copy gets.
pub open spec fn copies_fit(
    index: Seq<ArchiveIndexEntry>,
    selected: Seq<bool>,
    copied: Seq<Result<bool, ExtractFailure>>,
) -> bool {
    &&& index.len() == selected.len()
    &&& index.len() == copied.len()
    &&& forall|n: nat|
        n <= index.len() ==> (#[trigger] copied_up_to(index, selected, copied, n) matches Ok(r)
            ==> r.written_bytes <= u64::MAX)
}

/// Decides whether there is an answer for every entry of an index, and the bytes that a
/// copy writes can be counted.
pub fn copy_can_be_counted(
    index: &Vec<ArchiveIndexEntry>,
    selected: &Vec<bool>,
    copied: &Vec<Result<bool, ExtractFailure>>,
) -> (r: bool)
    ensures
        r == copies_fit(index@, selected@, copied@),
{
    if index.len() != selected.len() || index.len() != copied.len() {
        return false;
    }
    let mut total: u64 = 0;
    let mut i: usize = 0;
    while i < index.len()
        invariant
            i <= index@.len(),
            index@.len() == selected@.len(),
            index@.len() == copied@.len(),
            copied_up_to(index@, selected@, copied@, i as nat) matches Ok(r) && r.written_bytes
                == total,
            forall|n: nat|
                n <= i ==> (#[trigger] copied_up_to(index@, selected@, copied@, n) matches Ok(r)
                    ==> r.written_bytes <= u64::MAX),
        decreases index@.len() - i,
    {
        let ghost next = copied_up_to(index@, selected@, copied@, (i + 1) as nat);
        if selected[i] {
            match &copied[i] {
                Err(_) => {
                    proof {
                        assert(next is Err);
                        assert forall|n: nat| n <= index@.len() implies (#[trigger] copied_up_to(
                            index@,
                            selected@,
                            copied@,
                            n,
                        ) matches Ok(r) ==> r.written_bytes <= u64::MAX) by {
                            if n > i {
                                lemma_copy_fails(index@, selected@, copied@, (i + 1) as nat, n);
                            }
                        }
                    }
                    return true;
                },
                Ok(held) => {
                    if *held {
                        assert(next matches Ok(r) && r.written_bytes == total
                            + index@[i as int].file_data_size);
                        match total.checked_add(index[i].file_data_size) {
                            Some(sum) => {
                                total = sum;
                            },
                            None => {
                                return false;
                            },
                        }
                    }
                },
            }
        }
        assert(next matches Ok(r) && r.written_bytes == total);
        i = i + 1;
    }
    true
}

proof fn lemma_copy_fails(
    index: Seq<ArchiveIndexEntry>,
    selected: Seq<bool>,
    copied: Seq<Result<bool, ExtractFailure>>,
    k: nat,
    n: nat,
)
    requires
        k <= n,
        copied_up_to(index, selected, copied, k) is Err,
    ensures
        copied_up_to(index, selected, copied, n) == copied_up_to(index, selected, copied, k),
    decreases n,
{
    if k < n {
        lemma_copy_fails(index, selected, copied, k, (n - 1) as nat);
    }
}

fn copy_opened_tzap_files_to_writer(
    archive: Result<&TzapArchive, TzapError>,
    selected: &Vec<bool>,
    copied: &Vec<Result<bool, ExtractFailure>>,
) -> (report: Result<TzapExtractReport, TzapError>)
    requires
        copy_fits(lent_archive(archive), selected@, copied@),
    ensures
        extract_result(report) == copy_outcome(lent_archive(archive), selected@, copied@),
{
    let opened: &TzapArchive = match archive {
        Ok(opened) => opened,
        Err(e) => {
            return Err(e);
        },
    };
    let index: &Vec<ArchiveIndexEntry> = match &opened.index {
        Ok(index) => index,
        Err(fault) => {
            return Err(TzapError::Format(fault.copy()));
        },
    };
    let mut report: TzapExtractReport = TzapExtractReport::new();
    let mut i: usize = 0;
    assert(index@.len() == index.len());
    while i < index.len()
        invariant
            i <= index@.len(),
            lent_archive(archive) == Ok::<TzapArchive, TzapFault>(*opened),
            opened.index == Ok::<Vec<ArchiveIndexEntry>, FormatFault>(*index),
            index@.len() == index.len(),
            copies_fit(index@, selected@, copied@),
            report.written_entries <= i,
            report.skipped_entries <= i,
            copied_up_to(index@, selected@, copied@, i as nat) == Ok::<ExtractView, TzapFault>(
                report@,
            ),
        decreases index@.len() - i,
    {
        let entry: &ArchiveIndexEntry = &index[i];
        proof {
            if copied_up_to(index@, selected@, copied@, (i + 1) as nat) is Err {
                lemma_copy_fails(index@, selected@, copied@, (i + 1) as nat, index@.len());
            }
        }
        if !selected[i] {
            report.passed();
        } else {
            match &copied[i] {
                Err(failure) => {
                    return Err(tzap_extract_error(entry.path.as_str(), failure));
                },
                Ok(held) => {
                    if *held {
                        report.wrote(entry.file_data_size);
                    } else {
                        report.skipped(missing_warning(entry.path.as_str()));
                    }
                },
            }
        }
        i = i + 1;
    }
    Ok(report)
}

/// Copies selected regular `.tzap` members to a writer. `selected` says of each
/// member of the index whether it is taken, and `copied` what copying it came to.
pub fn copy_tzap_files_to_writer(
    input: &ArchiveInput,
    password: &str,
    selected: &Vec<bool>,
    copied: &Vec<Result<bool, ExtractFailure>>,
) -> (report: Result<TzapExtractReport, TzapError>)
    requires
        input.is_complete(),
        copy_fits(archive_result(input.archive), selected@, copied@),
    ensures
        extract_result(report) == copy_outcome(
            input.opened_with(Some(password@), false, false),
            selected@,
            copied@,
        ),
{
    copy_tzap_files_to_writer_with_optional_password(input, Some(password), selected, copied)
}

/// Copies selected regular `.tzap` members to a writer, opened with an optional
/// passphrase.
pub fn copy_tzap_files_to_writer_with_optional_password(
    input: &ArchiveInput,
    password: Option<&str>,
    selected: &Vec<bool>,
    copied: &Vec<Result<bool, ExtractFailure>>,
) -> (report: Result<TzapExtractReport, TzapError>)
    requires
        input.is_complete(),
        copy_fits(archive_result(input.archive), selected@, copied@),
    ensures
        extract_result(report) == copy_outcome(
            input.opened_with(password_view(password), false, false),
            selected@,
            copied@,
        ),
{
    copy_opened_tzap_files_to_writer(input.open_with(password, false, false), selected, copied)
}

/// Copies selected regular recipient-wrapped `.tzap` members to a writer, opened with
/// a private key in a file.
pub fn copy_tzap_files_to_writer_with_recipient_key(
    input: &ArchiveInput,
    selected: &Vec<bool>,
    copied: &Vec<Result<bool, ExtractFailure>>,
) -> (report: Result<TzapExtractReport, TzapError>)
    requires
        input.is_complete(),
        copy_fits(archive_result(input.archive), selected@, copied@),
    ensures
        extract_result(report) == copy_outcome(
            input.opened_with(None, true, false),
            selected@,
            copied@,
        ),
{
    copy_opened_tzap_files_to_writer(input.open_with(None, true, false), selected, copied)
}

proof fn lemma_copy_counts(
    index: Seq<ArchiveIndexEntry>,
    selected: Seq<bool>,
    copied: Seq<Result<bool, ExtractFailure>>,
    n: nat,
)
    requires
        copied_up_to(index, selected, copied, n) is Ok,
    ensures
        ({
            let r = copied_up_to(index, selected, copied, n)->Ok_0;
            &&& r.written_entries + r.skipped_entries == n
            &&& r.warnings.len() <= r.skipped_entries
            &&& 0 <= r.written_entries
            &&& r.written_entries <= selected_count(selected, n)
        }),
    decreases n,
{
    if n > 0 {
        lemma_copy_counts(index, selected, copied, (n - 1) as nat);
    }
}

/// A copy accounts for every member of the index: it was written, or skipped. No
/// more are written than were selected.
pub proof fn law_copies_account_for_every_entry(
    archive: TzapArchive,
    index: Vec<ArchiveIndexEntry>,
    selected: Seq<bool>,
    copied: Seq<Result<bool, ExtractFailure>>,
    report: ExtractView,
)
    requires
        archive.index == Ok::<Vec<ArchiveIndexEntry>, FormatFault>(index),
        copy_outcome(Ok(archive), selected, copied) == Ok::<ExtractView, TzapFault>(report),
    ensures
        report.written_entries + report.skipped_entries == index@.len(),
        report.written_entries <= selected_count(selected, index@.len()),
        report.warnings.len() <= report.skipped_entries,
{
    lemma_copy_counts(index@, selected, copied, index@.len());
}

/// A listing shows every member of an archive, in order, as the archive has it: its path,
/// its kind, its size, its permission bits and its time.
pub proof fn law_listings_show_every_member(
    listing: Result<TzapListing, TzapError>,
    archive: TzapArchive,
    files: Vec<ArchiveEntry>,
)
    requires
        archive.files == Ok::<Vec<ArchiveEntry>, FormatFault>(files),
        is_listing(listing, Ok(archive)),
    ensures
        listing matches Ok(listed) && listed.entries@.len() == files@.len() && forall|k: int|
            0 <= k < files@.len() ==> {
                let shown = #[trigger] listed.entries@[k];
                let member = files@[k];
                &&& shown.path@ == member.path@
                &&& shown.size == member.file_data_size
                &&& shown.mode == member.mode
                &&& shown.mtime == member.mtime
                &&& shown.mtime_nanoseconds == member.mtime_nanoseconds
                &&& (shown.kind == TzapEntryKind::File) == (member.kind == TarEntryKind::Regular)
                &&& (shown.kind == TzapEntryKind::Directory) == (member.kind
                    == TarEntryKind::Directory)
                &&& (shown.kind == TzapEntryKind::Symlink) == (member.kind == TarEntryKind::Symlink)
                &&& (shown.kind == TzapEntryKind::Hardlink) == (member.kind
                    == TarEntryKind::Hardlink)
            },
{
}

/// The bytes of the selected files among the first `n` members.
pub open spec fn exact_selected_bytes(
    files: Seq<ArchiveEntry>,
    selected: Seq<bool>,
    n: nat,
) -> int
    decreases n,
{
    if n == 0 {
        0
    } else {
        exact_selected_bytes(files, selected, (n - 1) as nat) + (if selected[n - 1] && files[n
            - 1].kind == TarEntryKind::Regular {
            files[n - 1].file_data_size as int
        } else {
            0
        })
    }
}

/// A test succeeds only where the archive opens, its contents are intact, and its
/// signature is good wherever one has to be checked. It then counts the selected members
/// and the bytes of the selected files among them.
pub proof fn law_tests_vouch_for_contents_and_signature(
    result: Result<TzapTestReport, TzapError>,
    archive: Result<TzapArchive, TzapFault>,
    selected: Seq<bool>,
    trust: Option<&TzapX509TrustOptions>,
    signature: Result<TzapX509VerificationReport, TzapError>,
    report: TzapTestReport,
)
    requires
        is_test_result(result, archive, selected, trust, signature),
        result == Ok::<TzapTestReport, TzapError>(report),
        covers(archive, selected),
    ensures
        archive is Ok,
        archive->Ok_0.intact is Ok,
        archive->Ok_0.files is Ok,
        ({
            let files = (archive->Ok_0.files->Ok_0)@;
            &&& report.entries == files.len()
            &&& report.tested_entries == selected.filter(|s: bool| s).len()
            &&& report.tested_entries + report.skipped_entries == files.len()
            &&& exact_selected_bytes(files, selected, files.len()) <= u64::MAX
                ==> report.tested_bytes == exact_selected_bytes(files, selected, files.len())
        }),
        report.x509_root_auth matches Some(verified) ==> signature == Ok::<
            TzapX509VerificationReport,
            TzapError,
        >(verified),
        trust matches Some(t) ==> (t.trusted_ca_certificates@.len() > 0 || t.trusted_system_roots
            ==> signature is Ok && report.x509_root_auth is Some),
        trust is None ==> report.x509_root_auth is None,
{
    let files = (archive->Ok_0.files->Ok_0)@;
    lemma_selected_count(selected, files.len());
    assert(selected.take(files.len() as int) =~= selected);
    lemma_exact_bytes(files, selected, files.len());
}

proof fn lemma_selected_count(selected: Seq<bool>, n: nat)
    requires
        n <= selected.len(),
    ensures
        selected_count(selected, n) == selected.take(n as int).filter(|s: bool| s).len(),
    decreases n,
{
    reveal(Seq::filter);
    if n > 0 {
        lemma_selected_count(selected, (n - 1) as nat);
        assert(selected.take(n as int).drop_last() =~= selected.take(n - 1));
    }
}

proof fn lemma_exact_bytes(files: Seq<ArchiveEntry>, selected: Seq<bool>, n: nat)
    ensures
        0 <= exact_selected_bytes(files, selected, n),
        exact_selected_bytes(files, selected, n) <= u64::MAX ==> selected_bytes(
            files,
            selected,
            n,
        ) == exact_selected_bytes(files, selected, n),
    decreases n,
{
    if n > 0 {
        lemma_exact_bytes(files, selected, (n - 1) as nat);
    }
}

/// One more entry of the index adds to a copy as follows. One that is not selected is
/// counted as skipped, without a warning. A selected one counts with its size once its
/// content was copied, and is skipped with a warning where the archive does not hold it.
/// A failure on the way fails the copy, as a fault of the archive or of the output.
pub proof fn law_copies_add_what_was_copied(
    index: Seq<ArchiveIndexEntry>,
    selected: Seq<bool>,
    copied: Seq<Result<bool, ExtractFailure>>,
    n: nat,
    before: ExtractView,
)
    requires
        n < index.len(),
        copied_up_to(index, selected, copied, n) == Ok::<ExtractView, TzapFault>(before),
    ensures
        ({
            let entry = index[n as int];
            let result = copied_up_to(index, selected, copied, n + 1);
            if !selected[n as int] {
                result matches Ok(after) && after.written_entries == before.written_entries
                    && after.written_bytes == before.written_bytes && after.skipped_entries
                    == before.skipped_entries + 1 && after.warnings == before.warnings
            } else {
                match copied[n as int] {
                    Ok(true) => result matches Ok(after) && after.written_entries
                        == before.written_entries + 1 && after.written_bytes == before.written_bytes
                        + entry.file_data_size && after.skipped_entries == before.skipped_entries
                        && after.warnings == before.warnings,
                    Ok(false) => result matches Ok(after) && after.written_entries
                        == before.written_entries && after.written_bytes == before.written_bytes
                        && after.skipped_entries == before.skipped_entries + 1
                        && after.warnings.len() == before.warnings.len() + 1,
                    Err(ExtractFailure::Format(fault)) => result == Err::<ExtractView, TzapFault>(
                        TzapFault::Format(fault@),
                    ),
                    Err(ExtractFailure::Output(failure)) => result == Err::<ExtractView, TzapFault>(
                        TzapFault::Io { path: entry.path@, source: failure@ },
                    ),
                }
            }
        }),
{
}

/// A copy can be counted exactly where there is an answer for every entry and no running
/// total is more than sixty-four bits hold.
pub proof fn law_copies_are_counted_in_sixty_four_bits(
    index: Seq<ArchiveIndexEntry>,
    selected: Seq<bool>,
    copied: Seq<Result<bool, ExtractFailure>>,
)
    ensures
        copies_fit(index, selected, copied) <==> index.len() == selected.len() && index.len()
            == copied.len() && forall|n: nat|
            n <= index.len() ==> (#[trigger] copied_up_to(index, selected, copied, n) matches Ok(
                report,
            ) ==> report.written_bytes <= 0xFFFF_FFFF_FFFF_FFFF),
{
}

} // verus!
