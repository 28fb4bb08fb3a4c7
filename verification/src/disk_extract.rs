//! Extracting disk and disc images: what is done for each entry, and what the
//! extraction reports.
//!
//! The caller asks its safety planner about each entry, does the work that
//! [`entry_work`] names, and hands back what came of it.
use crate::failure::IoFailure;
use crate::disk_mount::{ImageProbe, image_entries, open_and_collect};
use crate::disk_run::entry_count;
use crate::text::{concat3, concat4, copy_option, decimal, decimal_text, text_option, texts};
use crate::virtual_disk::{
    CollectedEntries, CollectedView, DiskFault, EntryKindView, EntryView, ExtractReportView,
    ExtractionEntry, ExtractionEntryKind, VirtualDiskBackendError, VirtualDiskExtractReport,
    entry_views,
};
use vstd::prelude::*;

verus! {

/// What the safety planner decided about an entry.
#[derive(Debug)]
pub enum EntryDecision {
    /// The entry is not written.
    Skip {
        /// The warning to report, if there is one.
        warning: Option<String>,
    },
    /// The entry is unsafe.
    Rejected(String),
    /// The entry is written.
    Write {
        /// Where it goes.
        destination: String,
        /// Whether something that is there already gives way.
        replace_existing: bool,
    },
}

/// What came of the work for an entry.
#[derive(Debug)]
pub enum WorkOutcome {
    /// It was done; for a file, with how many bytes of content.
    Done(u64),
    /// The image could not be read.
    ReadFailed(String),
    /// The content could not be written.
    WriteFailed(IoFailure),
    /// The destination could not be made.
    DestinationFailed(IoFailure),
}

/// What the caller found when an extraction came to an entry.
#[derive(Debug)]
pub struct ExtractAnswer {
    /// Whether the job was cancelled by then.
    pub cancelled: bool,
    /// What the safety planner decided.
    pub decision: EntryDecision,
    /// What came of removing what the entry replaces.
    pub removed: Result<(), IoFailure>,
    /// The warning to report where the platform cannot make symbolic links.
    pub unsupported_symlink: Option<String>,
    /// What came of the work for the entry.
    pub work: WorkOutcome,
}

/// What is to be done for an entry that is written.
#[derive(Debug)]
pub enum EntryWork {
    /// Nothing.
    Nothing,
    /// Make a directory.
    MakeDirectory,
    /// Write the content of a file.
    WriteFile,
    /// Make a symbolic link.
    WriteSymlink {
        /// Where the link points.
        target: String,
    },
    /// Leave the link out and report why.
    SkipLink {
        /// The warning to report.
        warning: String,
    },
}

/// The work for an entry with its texts taken as sequences.
pub enum WorkView {
    Nothing,
    MakeDirectory,
    WriteFile,
    WriteSymlink(Seq<char>),
    SkipLink(Seq<char>),
}

impl View for EntryWork {
    type V = WorkView;

    open spec fn view(&self) -> WorkView {
        match self {
            EntryWork::Nothing => WorkView::Nothing,
            EntryWork::MakeDirectory => WorkView::MakeDirectory,
            EntryWork::WriteFile => WorkView::WriteFile,
            EntryWork::WriteSymlink { target } => WorkView::WriteSymlink(target@),
            EntryWork::SkipLink { warning } => WorkView::SkipLink(warning@),
        }
    }
}

/// What is to be done for an entry that is written: a link without a target is
/// left out, and so is one that the platform cannot make.
pub open spec fn work_of(e: EntryView, unsupported_symlink: Option<Seq<char>>) -> WorkView {
    match e.kind {
        EntryKindView::Directory => WorkView::MakeDirectory,
        EntryKindView::File => WorkView::WriteFile,
        EntryKindView::Symlink(target) => if target.len() == 0 {
            WorkView::SkipLink(
                "symlink "@ + e.archive_path
                    + " skipped: disk image does not expose the symlink target"@,
            )
        } else {
            match unsupported_symlink {
                Some(warning) => WorkView::SkipLink(warning),
                None => WorkView::WriteSymlink(target),
            }
        },
        EntryKindView::Device => WorkView::Nothing,
    }
}

/// Whether what an entry replaces is removed before the work: a file gives way
/// only when its successor is complete.
pub open spec fn removes_first(e: EntryView, replace_existing: bool) -> bool {
    replace_existing && !(e.kind is File)
}

/// What is to be done for an entry that is written.
pub fn entry_work(entry: &ExtractionEntry, unsupported_symlink: &Option<String>) -> (work:
    EntryWork)
    ensures
        work@ == work_of(entry@, text_option(*unsupported_symlink)),
{
    match &entry.kind {
        ExtractionEntryKind::Directory => EntryWork::MakeDirectory,
        ExtractionEntryKind::File => EntryWork::WriteFile,
        ExtractionEntryKind::Symlink { target } => {
            if target.as_str().is_empty() {
                return EntryWork::SkipLink {
                    warning: concat3(
                        "symlink ",
                        entry.archive_path.as_str(),
                        " skipped: disk image does not expose the symlink target",
                    ),
                };
            }
            match unsupported_symlink {
                Some(warning) => EntryWork::SkipLink { warning: warning.clone() },
                None => EntryWork::WriteSymlink { target: target.clone() },
            }
        },
        ExtractionEntryKind::Device => EntryWork::Nothing,
    }
}

/// Whether what an entry replaces is removed before the work.
pub fn remove_before_work(entry: &ExtractionEntry, replace_existing: bool) -> (r: bool)
    ensures
        r == removes_first(entry@, replace_existing),
{
    let file: bool = match &entry.kind {
        ExtractionEntryKind::File => true,
        _ => false,
    };
    replace_existing && !file
}

/// The error that the work for an entry ended with, if it failed.
pub open spec fn work_fault(work: WorkOutcome, path: Seq<char>, destination: Seq<char>) -> Option<
    DiskFault,
> {
    match work {
        WorkOutcome::Done(_) => None,
        WorkOutcome::ReadFailed(m) => Some(DiskFault::Vfs("read "@ + path + ": "@ + m@)),
        WorkOutcome::WriteFailed(m) => Some(DiskFault::Io { path, source: m@ }),
        WorkOutcome::DestinationFailed(m) => Some(DiskFault::Io { path: destination, source: m@ }),
    }
}

/// The report with one more skipped entry and its warning.
pub open spec fn skipped(r: ExtractReportView, warning: Option<Seq<char>>) -> ExtractReportView {
    ExtractReportView {
        skipped_entries: r.skipped_entries + 1,
        warnings: match warning {
            Some(w) => r.warnings.push(w),
            None => r.warnings,
        },
        ..r
    }
}

/// The report with one more written file; a size that the filesystem did not
/// declare is worth a warning.
pub open spec fn written_file(r: ExtractReportView, e: EntryView, bytes: u64) -> ExtractReportView {
    let expected: u64 = match e.uncompressed_size {
        Some(size) => size,
        None => 0,
    };
    ExtractReportView {
        written_entries: r.written_entries + 1,
        written_bytes: r.written_bytes + bytes,
        warnings: if bytes == expected {
            r.warnings
        } else {
            r.warnings.push(
                e.archive_path + ": extracted "@ + decimal(bytes as nat)
                    + " bytes, filesystem declares "@ + decimal(expected as nat),
            )
        },
        ..r
    }
}

/// One more entry of an extraction.
pub open spec fn extract_step(r: ExtractReportView, e: EntryView, a: ExtractAnswer) -> Result<
    ExtractReportView,
    DiskFault,
> {
    if a.cancelled {
        Err(DiskFault::Cancelled)
    } else {
        match a.decision {
            EntryDecision::Rejected(m) => Err(DiskFault::Safety(m@)),
            EntryDecision::Skip { warning } => Ok(skipped(r, text_option(warning))),
            EntryDecision::Write { destination, replace_existing } => if removes_first(
                e,
                replace_existing,
            ) && a.removed is Err {
                Err(DiskFault::Io { path: destination@, source: a.removed->Err_0@ })
            } else {
                let fault = work_fault(a.work, e.archive_path, destination@);
                match work_of(e, text_option(a.unsupported_symlink)) {
                    WorkView::Nothing => Ok(r),
                    WorkView::SkipLink(warning) => Ok(skipped(r, Some(warning))),
                    WorkView::MakeDirectory => match fault {
                        Some(fault) => Err(fault),
                        None => Ok(r),
                    },
                    WorkView::WriteSymlink(_) => match fault {
                        Some(fault) => Err(fault),
                        None => Ok(
                            ExtractReportView { written_entries: r.written_entries + 1, ..r },
                        ),
                    },
                    WorkView::WriteFile => match fault {
                        Some(fault) => Err(fault),
                        None => Ok(written_file(r, e, a.work->Done_0)),
                    },
                }
            },
        }
    }
}

/// The outcome of extracting the entries in order, from a report that holds
/// the warnings about what was filtered out; the first failure ends it.
pub open spec fn extracted(
    warnings: Seq<Seq<char>>,
    entries: Seq<EntryView>,
    answers: Seq<ExtractAnswer>,
) -> Result<ExtractReportView, DiskFault>
    decreases entries.len(),
{
    if entries.len() == 0 {
        Ok(
            ExtractReportView {
                written_entries: 0,
                skipped_entries: 0,
                written_bytes: 0,
                warnings,
            },
        )
    } else {
        match extracted(warnings, entries.drop_last(), answers) {
            Err(fault) => Err(fault),
            Ok(r) => extract_step(r, entries.last(), answers[entries.len() - 1]),
        }
    }
}

/// The outcome of extracting an image.
pub open spec fn image_extracted(
    image: ImageProbe,
    answers: Seq<ExtractAnswer>,
    allow_logical: bool,
) -> Result<ExtractReportView, DiskFault> {
    match image_entries(image, allow_logical) {
        Err(fault) => Err(fault),
        Ok(c) => extracted(c.warnings, c.entries, answers),
    }
}

/// The outcome of extracting an image below a destination, which has to be prepared
/// first.
pub open spec fn image_extracted_to(
    image: ImageProbe,
    destination: Seq<char>,
    root: Result<(), IoFailure>,
    answers: Seq<ExtractAnswer>,
    allow_logical: bool,
) -> Result<ExtractReportView, DiskFault> {
    match root {
        Err(failure) => Err(DiskFault::Io { path: destination, source: failure@ }),
        Ok(_) => image_extracted(image, answers, allow_logical),
    }
}

/// An extraction's outcome, or an error, with its texts taken as sequences.
pub open spec fn extract_view(
    r: Result<VirtualDiskExtractReport, VirtualDiskBackendError>,
) -> Result<ExtractReportView, DiskFault> {
    match r {
        Ok(report) => Ok(report@),
        Err(error) => Err(error@),
    }
}

/// The bytes that the work for an entry wrote.
pub open spec fn bytes_done(work: WorkOutcome) -> int {
    match work {
        WorkOutcome::Done(bytes) => bytes as int,
        _ => 0,
    }
}

/// The bytes that the work for the first `k` entries wrote.
pub open spec fn total_bytes(answers: Seq<ExtractAnswer>, k: int) -> int
    decreases k,
{
    if k <= 0 {
        0
    } else {
        total_bytes(answers, k - 1) + bytes_done(answers[k - 1].work)
    }
}

/// There is an answer for each entry, and the written bytes can be counted.
pub open spec fn answers_fit(
    image: ImageProbe,
    answers: Seq<ExtractAnswer>,
    allow_logical: bool,
) -> bool {
    &&& answers.len() >= entry_count(image, allow_logical)
    &&& image_entries(image, allow_logical) matches Ok(c) ==> bytes_fit(c, answers)
}

/// The bytes that an extraction writes can be counted, however far it gets.
pub open spec fn bytes_fit(found: CollectedView, answers: Seq<ExtractAnswer>) -> bool {
    forall|n: int|
        0 <= n <= found.entries.len() ==> (#[trigger] extracted(
            found.warnings,
            found.entries.take(n),
            answers,
        ) matches Ok(r) ==> r.written_bytes <= u64::MAX)
}

proof fn lemma_extracted_fails(
    warnings: Seq<Seq<char>>,
    entries: Seq<EntryView>,
    answers: Seq<ExtractAnswer>,
    k: int,
)
    requires
        0 <= k <= entries.len(),
    ensures
        extracted(warnings, entries.take(k), answers) matches Err(fault) ==> extracted(
            warnings,
            entries,
            answers,
        ) == Err::<ExtractReportView, DiskFault>(fault),
    decreases entries.len() - k,
{
    if k < entries.len() {
        lemma_extracted_fails(warnings, entries, answers, k + 1);
        assert(entries.take(k + 1).drop_last() == entries.take(k));
    } else {
        assert(entries.take(k) == entries);
    }
}

impl VirtualDiskExtractReport {
    /// Counts a skipped entry and reports its warning.
    fn skip_entry(&mut self, warning: Option<String>)
        requires
            old(self).skipped_entries < usize::MAX,
        ensures
            final(self)@ == skipped(old(self)@, text_option(warning)),
    {
        self.skipped_entries = self.skipped_entries + 1;
        match warning {
            Some(w) => {
                self.warnings.push(w);
                assert(texts(self.warnings@) =~= texts(old(self).warnings@).push(w@));
            },
            None => {},
        }
    }
}

/// The error that the work for an entry ended with, if it failed.
fn work_error(work: &WorkOutcome, path: &str, destination: &str) -> (error: Option<
    VirtualDiskBackendError,
>)
    ensures
        match (error, work_fault(*work, path@, destination@)) {
            (Some(error), Some(fault)) => error@ == fault,
            (None, None) => true,
            _ => false,
        },
{
    match work {
        WorkOutcome::Done(_) => None,
        WorkOutcome::ReadFailed(m) => Some(
            VirtualDiskBackendError::Vfs(concat4("read ", path, ": ", m.as_str())),
        ),
        WorkOutcome::WriteFailed(m) => Some(
            VirtualDiskBackendError::Io { path: path.to_owned(), source: m.copy() },
        ),
        WorkOutcome::DestinationFailed(m) => Some(
            VirtualDiskBackendError::Io { path: destination.to_owned(), source: m.copy() },
        ),
    }
}

/// Records what came of one entry.
pub fn extract_entry(
    report: &mut VirtualDiskExtractReport,
    entry: &ExtractionEntry,
    answer: &ExtractAnswer,
) -> (done: Result<(), VirtualDiskBackendError>)
    requires
        old(report).written_entries < usize::MAX,
        old(report).skipped_entries < usize::MAX,
        extract_step(old(report)@, entry@, *answer) matches Ok(r) ==> r.written_bytes <= u64::MAX,
    ensures
        match (done, extract_step(old(report)@, entry@, *answer)) {
            (Ok(_), Ok(spec)) => final(report)@ == spec,
            (Err(error), Err(spec)) => error@ == spec,
            _ => false,
        },
{
    if answer.cancelled {
        return Err(VirtualDiskBackendError::Cancelled);
    }
    match &answer.decision {
        EntryDecision::Rejected(m) => Err(VirtualDiskBackendError::Safety(m.clone())),
        EntryDecision::Skip { warning } => {
            report.skip_entry(copy_option(warning));
            Ok(())
        },
        EntryDecision::Write { destination, replace_existing } => {
            if remove_before_work(entry, *replace_existing) {
                match &answer.removed {
                    Ok(_) => {},
                    Err(m) => {
                        return Err(
                            VirtualDiskBackendError::Io {
                                path: destination.clone(),
                                source: m.copy(),
                            },
                        );
                    },
                }
            }
            let error: Option<VirtualDiskBackendError> = work_error(
                &answer.work,
                entry.archive_path.as_str(),
                destination.as_str(),
            );
            match entry_work(entry, &answer.unsupported_symlink) {
                EntryWork::Nothing => Ok(()),
                EntryWork::SkipLink { warning } => {
                    report.skip_entry(Some(warning));
                    Ok(())
                },
                EntryWork::MakeDirectory => match error {
                    Some(error) => Err(error),
                    None => Ok(()),
                },
                EntryWork::WriteSymlink { target: _ } => match error {
                    Some(error) => Err(error),
                    None => {
                        report.written_entries = report.written_entries + 1;
                        Ok(())
                    },
                },
                EntryWork::WriteFile => match error {
                    Some(error) => Err(error),
                    None => {
                        let bytes: u64 = match &answer.work {
                            WorkOutcome::Done(bytes) => *bytes,
                            _ => 0,
                        };
                        let expected: u64 = match entry.uncompressed_size {
                            Some(size) => size,
                            None => 0,
                        };
                        report.written_entries = report.written_entries + 1;
                        report.written_bytes = report.written_bytes + bytes;
                        if bytes != expected {
                            let mut warning: String = concat4(
                                entry.archive_path.as_str(),
                                ": extracted ",
                                decimal_text(bytes).as_str(),
                                " bytes, filesystem declares ",
                            );
                            warning.append(decimal_text(expected).as_str());
                            report.warnings.push(warning);
                            assert(texts(report.warnings@) =~= texts(
                                old(report).warnings@,
                            ).push(warning@));
                        }
                        Ok(())
                    },
                },
            }
        },
    }
}

/// Decides whether an extraction ends at an entry, whatever came before it.
pub fn entry_stops(entry: &ExtractionEntry, answer: &ExtractAnswer) -> (r: bool)
    ensures
        forall|report: ExtractReportView|
            r == (#[trigger] extract_step(report, entry@, *answer) is Err),
{
    if answer.cancelled {
        return true;
    }
    match &answer.decision {
        EntryDecision::Rejected(_) => true,
        EntryDecision::Skip { .. } => false,
        EntryDecision::Write { destination, replace_existing } => {
            if remove_before_work(entry, *replace_existing) {
                match &answer.removed {
                    Ok(_) => {},
                    Err(_) => {
                        return true;
                    },
                }
            }
            let failed: bool = work_error(
                &answer.work,
                entry.archive_path.as_str(),
                destination.as_str(),
            ).is_some();
            match entry_work(entry, &answer.unsupported_symlink) {
                EntryWork::Nothing => false,
                EntryWork::SkipLink { .. } => false,
                _ => failed,
            }
        },
    }
}

/// Extracts an image: `root` says whether the destination could be prepared, and
/// `answers` holds what the caller found and did for each entry, in order. With `allow_logical` clear the logical containers are
/// refused.
pub fn extract_container_inner(
    image: &ImageProbe,
    destination: &str,
    root: &Result<(), IoFailure>,
    answers: &Vec<ExtractAnswer>,
    allow_logical: bool,
) -> (report: Result<VirtualDiskExtractReport, VirtualDiskBackendError>)
    requires
        answers_fit(*image, answers@, allow_logical),
    ensures
        extract_view(report) == image_extracted_to(
            *image,
            destination@,
            *root,
            answers@,
            allow_logical,
        ),
{
    match root {
        Ok(_) => {},
        Err(failure) => {
            return Err(
                VirtualDiskBackendError::Io {
                    path: destination.to_owned(),
                    source: failure.copy(),
                },
            );
        },
    }
    let found: CollectedEntries = match open_and_collect(image, allow_logical) {
        Ok(found) => found,
        Err(error) => {
            return Err(error);
        },
    };
    let ghost whole = found@;
    let ghost spec = whole.entries;
    let CollectedEntries { entries, warnings } = found;
    let ghost first = texts(warnings@);
    let mut report = VirtualDiskExtractReport {
        written_entries: 0,
        skipped_entries: 0,
        written_bytes: 0,
        warnings,
    };
    assert(spec.take(0) == Seq::<EntryView>::empty());
    assert(entries@.len() == entries.len());
    let mut i: usize = 0;
    while i < entries.len()
        invariant
            *root is Ok,
            image_entries(*image, allow_logical) == Ok::<CollectedView, DiskFault>(whole),
            spec == whole.entries,
            first == whole.warnings,
            spec == entry_views(entries@),
            i <= entries@.len() <= answers@.len(),
            entries@.len() <= usize::MAX,
            bytes_fit(whole, answers@),
            report.written_entries <= i,
            report.skipped_entries <= i,
            extracted(first, spec.take(i as int), answers@) == Ok::<ExtractReportView, DiskFault>(
                report@,
            ),
        decreases entries@.len() - i,
    {
        proof {
            assert(spec.take(i + 1).drop_last() == spec.take(i as int));
            assert(spec.take(i + 1).last() == entries@[i as int]@);
            lemma_extracted_fails(first, spec, answers@, i + 1);
            assert(extracted(first, spec.take(i + 1), answers@) matches Ok(r) ==> r.written_bytes
                <= u64::MAX);
        }
        match extract_entry(&mut report, &entries[i], &answers[i]) {
            Ok(_) => {},
            Err(error) => {
                return Err(error);
            },
        }
        i = i + 1;
    }
    assert(spec.take(spec.len() as int) == spec);
    Ok(report)
}

/// Extracts a `.vhd` archive.
pub fn extract_vhd_with_overwrite_resolver(
    image: &ImageProbe,
    destination: &str,
    root: &Result<(), IoFailure>,
    answers: &Vec<ExtractAnswer>,
) -> (report: Result<VirtualDiskExtractReport, VirtualDiskBackendError>)
    requires
        answers_fit(*image, answers@, false),
    ensures
        extract_view(report) == image_extracted_to(
            *image,
            destination@,
            *root,
            answers@,
            false,
        ),
{
    extract_container_inner(image, destination, root, answers, false)
}

/// Extracts a `.vmdk` archive.
pub fn extract_vmdk_with_overwrite_resolver(
    image: &ImageProbe,
    destination: &str,
    root: &Result<(), IoFailure>,
    answers: &Vec<ExtractAnswer>,
) -> (report: Result<VirtualDiskExtractReport, VirtualDiskBackendError>)
    requires
        answers_fit(*image, answers@, false),
    ensures
        extract_view(report) == image_extracted_to(
            *image,
            destination@,
            *root,
            answers@,
            false,
        ),
{
    extract_container_inner(image, destination, root, answers, false)
}

/// Extracts a `.udf` archive.
pub fn extract_udf_with_overwrite_resolver(
    image: &ImageProbe,
    destination: &str,
    root: &Result<(), IoFailure>,
    answers: &Vec<ExtractAnswer>,
) -> (report: Result<VirtualDiskExtractReport, VirtualDiskBackendError>)
    requires
        answers_fit(*image, answers@, false),
    ensures
        extract_view(report) == image_extracted_to(
            *image,
            destination@,
            *root,
            answers@,
            false,
        ),
{
    extract_container_inner(image, destination, root, answers, false)
}

/// Extracts a `.vdi` image.
pub fn extract_vdi_with_overwrite_resolver(
    image: &ImageProbe,
    destination: &str,
    root: &Result<(), IoFailure>,
    answers: &Vec<ExtractAnswer>,
) -> (report: Result<VirtualDiskExtractReport, VirtualDiskBackendError>)
    requires
        answers_fit(*image, answers@, false),
    ensures
        extract_view(report) == image_extracted_to(
            *image,
            destination@,
            *root,
            answers@,
            false,
        ),
{
    extract_container_inner(image, destination, root, answers, false)
}

/// Extracts a Nero `.nrg` image.
pub fn extract_nrg_with_overwrite_resolver(
    image: &ImageProbe,
    destination: &str,
    root: &Result<(), IoFailure>,
    answers: &Vec<ExtractAnswer>,
) -> (report: Result<VirtualDiskExtractReport, VirtualDiskBackendError>)
    requires
        answers_fit(*image, answers@, false),
    ensures
        extract_view(report) == image_extracted_to(
            *image,
            destination@,
            *root,
            answers@,
            false,
        ),
{
    extract_container_inner(image, destination, root, answers, false)
}

/// Extracts an Alcohol 120% `.mdf`/`.mds` image.
pub fn extract_mdf_with_overwrite_resolver(
    image: &ImageProbe,
    destination: &str,
    root: &Result<(), IoFailure>,
    answers: &Vec<ExtractAnswer>,
) -> (report: Result<VirtualDiskExtractReport, VirtualDiskBackendError>)
    requires
        answers_fit(*image, answers@, false),
    ensures
        extract_view(report) == image_extracted_to(
            *image,
            destination@,
            *root,
            answers@,
            false,
        ),
{
    extract_container_inner(image, destination, root, answers, false)
}

/// Extracts an `UltraISO` compressed `.isz` image.
pub fn extract_isz_with_overwrite_resolver(
    image: &ImageProbe,
    destination: &str,
    root: &Result<(), IoFailure>,
    answers: &Vec<ExtractAnswer>,
) -> (report: Result<VirtualDiskExtractReport, VirtualDiskBackendError>)
    requires
        answers_fit(*image, answers@, false),
    ensures
        extract_view(report) == image_extracted_to(
            *image,
            destination@,
            *root,
            answers@,
            false,
        ),
{
    extract_container_inner(image, destination, root, answers, false)
}

/// Extracts a `CloneCD` `.ccd`/`.img` image.
pub fn extract_ccd_with_overwrite_resolver(
    image: &ImageProbe,
    destination: &str,
    root: &Result<(), IoFailure>,
    answers: &Vec<ExtractAnswer>,
) -> (report: Result<VirtualDiskExtractReport, VirtualDiskBackendError>)
    requires
        answers_fit(*image, answers@, false),
    ensures
        extract_view(report) == image_extracted_to(
            *image,
            destination@,
            *root,
            answers@,
            false,
        ),
{
    extract_container_inner(image, destination, root, answers, false)
}

/// Extracts a `CUE/BIN` sheet.
pub fn extract_cue_with_overwrite_resolver(
    image: &ImageProbe,
    destination: &str,
    root: &Result<(), IoFailure>,
    answers: &Vec<ExtractAnswer>,
) -> (report: Result<VirtualDiskExtractReport, VirtualDiskBackendError>)
    requires
        answers_fit(*image, answers@, false),
    ensures
        extract_view(report) == image_extracted_to(
            *image,
            destination@,
            *root,
            answers@,
            false,
        ),
{
    extract_container_inner(image, destination, root, answers, false)
}

/// Extracts a `.vhdx` virtual disk.
pub fn extract_vhdx_with_overwrite_resolver(
    image: &ImageProbe,
    destination: &str,
    root: &Result<(), IoFailure>,
    answers: &Vec<ExtractAnswer>,
) -> (report: Result<VirtualDiskExtractReport, VirtualDiskBackendError>)
    requires
        answers_fit(*image, answers@, false),
    ensures
        extract_view(report) == image_extracted_to(
            *image,
            destination@,
            *root,
            answers@,
            false,
        ),
{
    extract_container_inner(image, destination, root, answers, false)
}

/// Extracts a `.qcow2` virtual disk.
pub fn extract_qcow2_with_overwrite_resolver(
    image: &ImageProbe,
    destination: &str,
    root: &Result<(), IoFailure>,
    answers: &Vec<ExtractAnswer>,
) -> (report: Result<VirtualDiskExtractReport, VirtualDiskBackendError>)
    requires
        answers_fit(*image, answers@, false),
    ensures
        extract_view(report) == image_extracted_to(
            *image,
            destination@,
            *root,
            answers@,
            false,
        ),
{
    extract_container_inner(image, destination, root, answers, false)
}

/// Extracts an Expert Witness (`.e01`/`.ex01`) image.
pub fn extract_ewf_with_overwrite_resolver(
    image: &ImageProbe,
    destination: &str,
    root: &Result<(), IoFailure>,
    answers: &Vec<ExtractAnswer>,
) -> (report: Result<VirtualDiskExtractReport, VirtualDiskBackendError>)
    requires
        answers_fit(*image, answers@, false),
    ensures
        extract_view(report) == image_extracted_to(
            *image,
            destination@,
            *root,
            answers@,
            false,
        ),
{
    extract_container_inner(image, destination, root, answers, false)
}

/// Extracts an `AccessData` AD1 (`.ad1`) logical image.
pub fn extract_ad1_with_overwrite_resolver(
    image: &ImageProbe,
    destination: &str,
    root: &Result<(), IoFailure>,
    answers: &Vec<ExtractAnswer>,
) -> (report: Result<VirtualDiskExtractReport, VirtualDiskBackendError>)
    requires
        answers_fit(*image, answers@, true),
    ensures
        extract_view(report) == image_extracted_to(
            *image,
            destination@,
            *root,
            answers@,
            true,
        ),
{
    extract_container_inner(image, destination, root, answers, true)
}

/// Extracts a DAR (`.dar`) archive.
pub fn extract_dar_with_overwrite_resolver(
    image: &ImageProbe,
    destination: &str,
    root: &Result<(), IoFailure>,
    answers: &Vec<ExtractAnswer>,
) -> (report: Result<VirtualDiskExtractReport, VirtualDiskBackendError>)
    requires
        answers_fit(*image, answers@, true),
    ensures
        extract_view(report) == image_extracted_to(
            *image,
            destination@,
            *root,
            answers@,
            true,
        ),
{
    extract_container_inner(image, destination, root, answers, true)
}

/// Extracts an AFF4 (`.aff4`) container.
pub fn extract_aff4_with_overwrite_resolver(
    image: &ImageProbe,
    destination: &str,
    root: &Result<(), IoFailure>,
    answers: &Vec<ExtractAnswer>,
) -> (report: Result<VirtualDiskExtractReport, VirtualDiskBackendError>)
    requires
        answers_fit(*image, answers@, true),
    ensures
        extract_view(report) == image_extracted_to(
            *image,
            destination@,
            *root,
            answers@,
            true,
        ),
{
    extract_container_inner(image, destination, root, answers, true)
}

/// Extracts a raw sector disk dump (`.raw`/`.dd`/`.dsk`/`.img`).
pub fn extract_raw_disk_with_overwrite_resolver(
    image: &ImageProbe,
    destination: &str,
    root: &Result<(), IoFailure>,
    answers: &Vec<ExtractAnswer>,
) -> (report: Result<VirtualDiskExtractReport, VirtualDiskBackendError>)
    requires
        answers_fit(*image, answers@, false),
    ensures
        extract_view(report) == image_extracted_to(
            *image,
            destination@,
            *root,
            answers@,
            false,
        ),
{
    extract_container_inner(image, destination, root, answers, false)
}

/// Extracts a logical container.
pub fn extract_logical_container(
    image: &ImageProbe,
    destination: &str,
    root: &Result<(), IoFailure>,
    answers: &Vec<ExtractAnswer>,
) -> (report: Result<VirtualDiskExtractReport, VirtualDiskBackendError>)
    requires
        answers_fit(*image, answers@, true),
    ensures
        extract_view(report) == image_extracted_to(
            *image,
            destination@,
            *root,
            answers@,
            true,
        ),
{
    extract_container_inner(image, destination, root, answers, true)
}

/// A successful extraction starts its warnings with those about what was
/// filtered out, and counts no entry twice.
pub proof fn law_extraction_reports_are_consistent(
    warnings: Seq<Seq<char>>,
    entries: Seq<EntryView>,
    answers: Seq<ExtractAnswer>,
)
    requires
        answers.len() >= entries.len(),
    ensures
        extracted(warnings, entries, answers) matches Ok(r) ==> {
            &&& 0 <= r.written_entries
            &&& 0 <= r.skipped_entries
            &&& r.written_entries + r.skipped_entries <= entries.len()
            &&& warnings.len() <= r.warnings.len()
            &&& r.warnings.take(warnings.len() as int) == warnings
            &&& 0 <= r.written_bytes <= total_bytes(answers, entries.len() as int)
        },
    decreases entries.len(),
{
    if entries.len() > 0 {
        law_extraction_reports_are_consistent(warnings, entries.drop_last(), answers);
        if extracted(warnings, entries, answers) is Ok {
            let before = extracted(warnings, entries.drop_last(), answers)->Ok_0;
            let r = extracted(warnings, entries, answers)->Ok_0;
            assert(r.warnings.take(warnings.len() as int) =~= before.warnings.take(
                warnings.len() as int,
            ));
        }
    } else {
        assert(warnings.take(warnings.len() as int) == warnings);
    }
}

/// One more entry adds to an extraction as follows. A cancelled job and a rejected entry
/// fail it. A skipped entry is counted as skipped, with its warning if it has one. A
/// written file counts with the bytes that were written, and a warning is given where
/// they are not as many as were declared. A link counts without bytes; one without a
/// target, or one that the system does not support, is skipped with a warning. A
/// directory is made without being counted, and nothing is done for a device.
pub proof fn law_extractions_add_what_was_done(
    warnings: Seq<Seq<char>>,
    entries: Seq<EntryView>,
    answers: Seq<ExtractAnswer>,
    before: ExtractReportView,
)
    requires
        entries.len() > 0,
        extracted(warnings, entries.drop_last(), answers) == Ok::<ExtractReportView, DiskFault>(
            before,
        ),
    ensures
        ({
            let entry = entries.last();
            let answer = answers[entries.len() - 1];
            let result = extracted(warnings, entries, answers);
            let unchanged = ExtractReportView { ..before };
            if answer.cancelled {
                result == Err::<ExtractReportView, DiskFault>(DiskFault::Cancelled)
            } else {
                match answer.decision {
                    EntryDecision::Rejected(m) => result == Err::<ExtractReportView, DiskFault>(
                        DiskFault::Safety(m@),
                    ),
                    EntryDecision::Skip { warning } => result matches Ok(after)
                        && after.skipped_entries == before.skipped_entries + 1
                        && after.written_entries == before.written_entries && after.written_bytes
                        == before.written_bytes && after.warnings == (match warning {
                        Some(text) => before.warnings.push(text@),
                        None => before.warnings,
                    }),
                    EntryDecision::Write { destination, replace_existing } => if replace_existing
                        && !(entry.kind is File) && answer.removed is Err {
                        result matches Err(DiskFault::Io { path, source }) && path == destination@
                            && source == answer.removed->Err_0@
                    } else {
                        match entry.kind {
                            EntryKindView::Device => result == Ok::<ExtractReportView, DiskFault>(
                                unchanged,
                            ),
                            EntryKindView::Directory => result is Ok == (answer.work is Done) && (
                            result matches Ok(after) ==> after == unchanged),
                            EntryKindView::File => match answer.work {
                                WorkOutcome::Done(bytes) => result matches Ok(after)
                                    && after.written_entries == before.written_entries + 1
                                    && after.written_bytes == before.written_bytes + bytes
                                    && after.skipped_entries == before.skipped_entries && (
                                entry.uncompressed_size == Some(bytes) ==> after.warnings
                                    == before.warnings) && (entry.uncompressed_size matches Some(
                                    size,
                                ) ==> size != bytes ==> after.warnings.len()
                                    == before.warnings.len() + 1),
                                WorkOutcome::ReadFailed(_) => result matches Err(DiskFault::Vfs(_)),
                                WorkOutcome::WriteFailed(m) => result == Err::<
                                    ExtractReportView,
                                    DiskFault,
                                >(DiskFault::Io { path: entry.archive_path, source: m@ }),
                                WorkOutcome::DestinationFailed(m) => result == Err::<
                                    ExtractReportView,
                                    DiskFault,
                                >(DiskFault::Io { path: destination@, source: m@ }),
                            },
                            EntryKindView::Symlink(target) => if target.len() == 0
                                || answer.unsupported_symlink is Some {
                                result matches Ok(after) && after.skipped_entries
                                    == before.skipped_entries + 1 && after.written_entries
                                    == before.written_entries && after.written_bytes
                                    == before.written_bytes && after.warnings.len()
                                    == before.warnings.len() + 1
                            } else {
                                result is Ok == (answer.work is Done) && (result matches Ok(after)
                                    ==> after.written_entries == before.written_entries + 1
                                    && after.written_bytes == before.written_bytes
                                    && after.skipped_entries == before.skipped_entries
                                    && after.warnings == before.warnings)
                            },
                        }
                    },
                }
            }
        }),
{
}

/// What there is to do for an entry follows from what it is: a directory is made, a file
/// is written, a link is made to its own target, and nothing is done for a device. What
/// stands in the way of anything but a file is removed first where it may be replaced.
pub proof fn law_work_follows_from_the_kind(
    e: EntryView,
    unsupported_symlink: Option<Seq<char>>,
    replace_existing: bool,
)
    ensures
        ({
            let work = work_of(e, unsupported_symlink);
            &&& e.kind is Directory <==> work is MakeDirectory
            &&& e.kind is File <==> work is WriteFile
            &&& e.kind is Device <==> work is Nothing
            &&& e.kind matches EntryKindView::Symlink(target) ==> if target.len() > 0
                && unsupported_symlink is None {
                work == WorkView::WriteSymlink(target)
            } else {
                work is SkipLink
            }
            &&& removes_first(e, replace_existing) <==> replace_existing && !(e.kind is File)
        }),
{
}

/// What was noticed while the entries were collected comes first in the report of an
/// extraction, and an extraction whose destination cannot be made fails there.
pub proof fn law_extractions_begin_with_what_was_noticed(
    image: ImageProbe,
    destination: Seq<char>,
    root: Result<(), IoFailure>,
    answers: Seq<ExtractAnswer>,
    allow_logical: bool,
    found: CollectedView,
)
    requires
        image_entries(image, allow_logical) == Ok::<CollectedView, DiskFault>(found),
        answers.len() >= found.entries.len(),
    ensures
        root matches Err(failure) ==> image_extracted_to(
            image,
            destination,
            root,
            answers,
            allow_logical,
        ) == Err::<ExtractReportView, DiskFault>(
            DiskFault::Io { path: destination, source: failure@ },
        ),
        image_extracted_to(image, destination, root, answers, allow_logical) matches Ok(report) ==> {
            &&& report.warnings.len() >= found.warnings.len()
            &&& report.warnings.take(found.warnings.len() as int) == found.warnings
        },
        root is Ok && found.entries.len() == 0 ==> (image_extracted_to(
            image,
            destination,
            root,
            answers,
            allow_logical,
        ) matches Ok(report) && report.warnings == found.warnings && report.written_entries == 0
            && report.skipped_entries == 0 && report.written_bytes == 0),
{
    law_extraction_reports_are_consistent(found.warnings, found.entries, answers);
}

} // verus!
