//! What working through an archive reports, and what to test of it.
use crate::text::{same_text, texts, viewed};
use vstd::prelude::*;

verus! {

/// Result of testing an archive.
#[derive(Debug, Clone, Copy, PartialEq, Eq, Structural)]
pub struct TestReport {
    /// Entries that were tested.
    pub tested_entries: usize,
    /// Entries that were not selected.
    pub skipped_entries: usize,
    /// Bytes of file content that were read.
    pub tested_bytes: u64,
}

impl Default for TestReport {
    fn default() -> (report: Self)
        ensures
            report == (TestReport { tested_entries: 0, skipped_entries: 0, tested_bytes: 0 }),
    {
        TestReport { tested_entries: 0, skipped_entries: 0, tested_bytes: 0 }
    }
}

/// `a + b`, or `max` if that is larger.
pub open spec fn saturated(a: int, b: int, max: int) -> int {
    if a + b <= max {
        a + b
    } else {
        max
    }
}

impl TestReport {
    /// The report with one more entry that was not selected.
    pub open spec fn with_skipped(self) -> Self {
        TestReport {
            skipped_entries: saturated(self.skipped_entries as int, 1, usize::MAX as int) as usize,
            ..self
        }
    }

    /// The report with one more tested entry of `bytes` bytes.
    pub open spec fn with_tested(self, bytes: u64) -> Self {
        TestReport {
            tested_entries: saturated(self.tested_entries as int, 1, usize::MAX as int) as usize,
            tested_bytes: saturated(self.tested_bytes as int, bytes as int, u64::MAX as int) as u64,
            ..self
        }
    }

    /// Counts an entry that was not selected.
    pub fn skip(&mut self)
        ensures
            *final(self) == old(self).with_skipped(),
    {
        self.skipped_entries = self.skipped_entries.saturating_add(1);
    }

    /// Counts a tested entry of `bytes` bytes.
    pub fn tested(&mut self, bytes: u64)
        ensures
            *final(self) == old(self).with_tested(bytes),
    {
        self.tested_entries = self.tested_entries.saturating_add(1);
        self.tested_bytes = self.tested_bytes.saturating_add(bytes);
    }
}

/// What to test, and when the job is found cancelled.
#[derive(Debug)]
pub struct TestOptions {
    /// The paths to test; all of them if there are none.
    pub selected_paths: Vec<String>,
    /// The number of the entry at which the job is found cancelled, if it is.
    pub cancelled_from: Option<usize>,
}

impl Default for TestOptions {
    fn default() -> (options: Self)
        ensures
            options.selected_paths@.len() == 0,
            options.cancelled_from is None,
    {
        TestOptions { selected_paths: Vec::new(), cancelled_from: None }
    }
}

/// Whether a list of texts holds `text`.
pub fn contains_text(list: &Vec<String>, text: &str) -> (r: bool)
    ensures
        r == texts(list@).contains(text@),
{
    let ghost views = texts(list@);
    let mut i: usize = 0;
    while i < list.len()
        invariant
            views == texts(list@),
            i <= list@.len(),
            forall|k: int| 0 <= k < i ==> views[k] != text@,
        decreases list@.len() - i,
    {
        assert(views[i as int] == list@[i as int]@);
        if same_text(list[i].as_str(), text) {
            return true;
        }
        i = i + 1;
    }
    false
}

impl TestOptions {
    /// Whether the entry with the path `path` is selected.
    pub open spec fn wants(self, path: Seq<char>) -> bool {
        self.selected_paths@.len() == 0 || texts(self.selected_paths@).contains(path)
    }

    /// Whether the job is found cancelled at the entry `i`.
    pub open spec fn stops_at(self, i: int) -> bool {
        self.cancelled_from matches Some(n) && n <= i
    }

    /// Whether the entry with the path `path` is selected.
    pub fn selects(&self, path: &str) -> (r: bool)
        ensures
            r == self.wants(path@),
    {
        self.selected_paths.len() == 0 || contains_text(&self.selected_paths, path)
    }

    /// Whether the job is found cancelled at the entry `i`.
    pub fn is_cancelled(&self, i: usize) -> (r: bool)
        ensures
            r == self.stops_at(i as int),
    {
        match self.cancelled_from {
            Some(n) => n <= i,
            None => false,
        }
    }
}

/// What reading the content of an entry gave: how many bytes it yielded, or
/// why it could not be read.
pub open spec fn stream_views(streamed: Seq<Result<u64, String>>) -> Seq<Result<u64, Seq<char>>> {
    streamed.map_values(|r: Result<u64, String>| viewed(r))
}

/// Result of working through an archive.
#[derive(Debug, PartialEq, Eq)]
pub struct BackendReport {
    /// Entries that were processed.
    pub entries: usize,
    /// Entries that were skipped.
    pub skipped_entries: usize,
    /// Bytes of content that were processed.
    pub bytes: u64,
    /// Non-fatal warnings.
    pub warnings: Vec<String>,
}

/// A report with its warnings taken as sequences.
#[verifier::ext_equal]
pub struct BackendView {
    pub entries: usize,
    pub skipped_entries: usize,
    pub bytes: u64,
    pub warnings: Seq<Seq<char>>,
}

impl View for BackendReport {
    type V = BackendView;

    open spec fn view(&self) -> BackendView {
        BackendView {
            entries: self.entries,
            skipped_entries: self.skipped_entries,
            bytes: self.bytes,
            warnings: texts(self.warnings@),
        }
    }
}

impl BackendView {
    /// The report of no work.
    pub open spec fn empty() -> Self {
        BackendView { entries: 0, skipped_entries: 0, bytes: 0, warnings: Seq::empty() }
    }

    /// The report with one more skipped entry.
    pub open spec fn with_skipped(self) -> Self {
        BackendView {
            skipped_entries: saturated(self.skipped_entries as int, 1, usize::MAX as int) as usize,
            ..self
        }
    }

    /// The report with one more processed entry of `bytes` bytes.
    pub open spec fn with_entry(self, bytes: u64) -> Self {
        BackendView {
            entries: saturated(self.entries as int, 1, usize::MAX as int) as usize,
            bytes: saturated(self.bytes as int, bytes as int, u64::MAX as int) as u64,
            ..self
        }
    }

    /// The report with one more warning.
    pub open spec fn with_warning(self, warning: Seq<char>) -> Self {
        BackendView { warnings: self.warnings.push(warning), ..self }
    }
}

impl Default for BackendReport {
    fn default() -> (report: Self)
        ensures
            report@ == BackendView::empty(),
    {
        let report = BackendReport {
            entries: 0,
            skipped_entries: 0,
            bytes: 0,
            warnings: Vec::new(),
        };
        assert(texts(report.warnings@) =~= Seq::<Seq<char>>::empty());
        report
    }
}

impl BackendReport {
    /// Counts a skipped entry.
    pub fn skip(&mut self)
        ensures
            final(self)@ == old(self)@.with_skipped(),
    {
        self.skipped_entries = self.skipped_entries.saturating_add(1);
    }

    /// Counts a processed entry of `bytes` bytes.
    pub fn processed(&mut self, bytes: u64)
        ensures
            final(self)@ == old(self)@.with_entry(bytes),
    {
        self.entries = self.entries.saturating_add(1);
        self.bytes = self.bytes.saturating_add(bytes);
    }

    /// Adds a warning.
    pub fn warn(&mut self, warning: String)
        ensures
            final(self)@ == old(self)@.with_warning(warning@),
    {
        self.warnings.push(warning);
        assert(texts(self.warnings@) =~= texts(old(self).warnings@).push(warning@));
    }
}

/// Counting stops at the largest number and is exact below it: an entry adds one
/// entry and its bytes, a skipped entry adds itself alone, and a warning adds itself
/// alone.
pub proof fn law_reports_count_exactly(report: BackendView, bytes: u64, warning: Seq<char>)
    ensures
        report.with_entry(bytes).skipped_entries == report.skipped_entries,
        report.with_entry(bytes).warnings == report.warnings,
        report.entries < usize::MAX ==> report.with_entry(bytes).entries == report.entries + 1,
        report.entries == usize::MAX ==> report.with_entry(bytes).entries == usize::MAX,
        report.bytes + bytes <= u64::MAX ==> report.with_entry(bytes).bytes == report.bytes + bytes,
        report.bytes + bytes > u64::MAX ==> report.with_entry(bytes).bytes == u64::MAX,
        report.with_skipped().entries == report.entries,
        report.with_skipped().bytes == report.bytes,
        report.with_skipped().warnings == report.warnings,
        report.skipped_entries < usize::MAX ==> report.with_skipped().skipped_entries
            == report.skipped_entries + 1,
        report.skipped_entries == usize::MAX ==> report.with_skipped().skipped_entries
            == usize::MAX,
        report.with_warning(warning).warnings.drop_last() == report.warnings,
        report.with_warning(warning).warnings.last() == warning,
        report.with_warning(warning).entries == report.entries,
        report.with_warning(warning).skipped_entries == report.skipped_entries,
        report.with_warning(warning).bytes == report.bytes,
{
    assert(report.with_warning(warning).warnings.drop_last() =~= report.warnings);
}

/// A test report counts as the other reports do.
pub proof fn law_test_reports_count_exactly(report: TestReport, bytes: u64)
    ensures
        report.with_tested(bytes).skipped_entries == report.skipped_entries,
        report.tested_entries < usize::MAX ==> report.with_tested(bytes).tested_entries
            == report.tested_entries + 1,
        report.tested_bytes + bytes <= u64::MAX ==> report.with_tested(bytes).tested_bytes
            == report.tested_bytes + bytes,
        report.tested_bytes + bytes > u64::MAX ==> report.with_tested(bytes).tested_bytes
            == u64::MAX,
        report.with_skipped().tested_entries == report.tested_entries,
        report.with_skipped().tested_bytes == report.tested_bytes,
        report.skipped_entries < usize::MAX ==> report.with_skipped().skipped_entries
            == report.skipped_entries + 1,
{
}

/// Every path is wanted where none is selected; otherwise exactly the selected ones
/// are. A test that is cancelled from an entry on stops there and at no earlier one.
pub proof fn law_selections_are_exact(options: TestOptions, path: Seq<char>, i: int)
    ensures
        options.selected_paths@.len() == 0 ==> options.wants(path),
        options.selected_paths@.len() > 0 ==> (options.wants(path) <==> exists|k: int|
            0 <= k < options.selected_paths@.len() && (#[trigger] options.selected_paths@[k])@
                == path),
        options.cancelled_from is None ==> !options.stops_at(i),
        options.cancelled_from matches Some(n) ==> (options.stops_at(i) <==> i >= n),
{
    let list = options.selected_paths@;
    assert forall|k: int| 0 <= k < list.len() implies #[trigger] texts(list)[k] == list[k]@ by {}
    if exists|k: int| 0 <= k < list.len() && (#[trigger] list[k])@ == path {
        let k = choose|k: int| 0 <= k < list.len() && (#[trigger] list[k])@ == path;
        assert(texts(list)[k] == path);
    }
}

} // verus!
