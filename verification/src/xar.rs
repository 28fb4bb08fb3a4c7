//! XAR archives: the entries of the table of contents, the content of each
//! file, and what listing, testing, copying and extracting give.
use crate::failure::{IoFailure, IoKind, unfilled_buffer};
#[allow(unused_imports)]
use crate::failure::{IoFailureView, unfilled};
use crate::bytes::copy_range;
use crate::codec::{bzip2_decode, gzip_decode, zlib_decode};
#[allow(unused_imports)]
use crate::codec::{bzip2_output, data_view, gzip_output, zlib_output};
use crate::disk_extract::EntryDecision;
use crate::report::{BackendReport, TestOptions};
#[allow(unused_imports)]
use crate::report::BackendView;
use crate::text::{
    chars_of, concat2, concat3, concat4, copy_option, decimal_text, same_text, slice_to_chars,
    text_of,
};
#[allow(unused_imports)]
use crate::text::{decimal, text_option};
use crate::work::ArchiveWork;
#[allow(unused_imports)]
use crate::work::ArchiveWorkView;
use dpp::xara::{XarArchive, XarFileType};
use vstd::prelude::*;

verus! {

/// What an entry of the table of contents is.
#[derive(Debug, Clone, Copy, PartialEq, Eq, Structural)]
pub enum XarEntryKind {
    File,
    Directory,
    Symlink,
}

/// Where the content of a file stands, and how.
#[derive(Debug, PartialEq, Eq)]
pub struct TocData {
    /// Where it begins, counted from the start of the heap.
    pub offset: u64,
    /// How many bytes are stored.
    pub length: u64,
    /// How many bytes they decode to.
    pub size: u64,
    /// How they are stored.
    pub encoding: String,
}

/// Where the content of a file stands, with its text taken as a sequence.
pub struct TocDataView {
    pub offset: u64,
    pub length: u64,
    pub size: u64,
    pub encoding: Seq<char>,
}

impl View for TocData {
    type V = TocDataView;

    open spec fn view(&self) -> TocDataView {
        TocDataView {
            offset: self.offset,
            length: self.length,
            size: self.size,
            encoding: self.encoding@,
        }
    }
}

/// An entry of the table of contents.
#[derive(Debug, PartialEq, Eq)]
pub struct TocFile {
    /// The path as it is stored.
    pub path: String,
    /// What it is.
    pub kind: XarEntryKind,
    /// Where a link leads.
    pub link: Option<String>,
    /// The content, where there is one.
    pub data: Option<TocData>,
}

/// An entry of the table of contents with its texts taken as sequences.
pub struct TocFileView {
    pub path: Seq<char>,
    pub kind: XarEntryKind,
    pub link: Option<Seq<char>>,
    pub data: Option<TocDataView>,
}

impl View for TocFile {
    type V = TocFileView;

    open spec fn view(&self) -> TocFileView {
        TocFileView {
            path: self.path@,
            kind: self.kind,
            link: text_option(self.link),
            data: match self.data {
                Some(data) => Some(data@),
                None => None,
            },
        }
    }
}

/// The entries of a table of contents with their texts taken as sequences.
pub open spec fn file_views(files: Seq<TocFile>) -> Seq<TocFileView> {
    files.map_values(|f: TocFile| f@)
}

/// The table of contents of an archive.
#[derive(Debug, PartialEq, Eq)]
pub struct XarToc {
    /// How many bytes the header takes.
    pub header_size: u16,
    /// How many bytes the stored table of contents takes.
    pub toc_compressed_len: u64,
    /// The entries.
    pub files: Vec<TocFile>,
}

/// A table of contents with its texts taken as sequences.
pub struct TocView {
    pub header_size: u16,
    pub toc_compressed_len: u64,
    pub files: Seq<TocFileView>,
}

impl View for XarToc {
    type V = TocView;

    open spec fn view(&self) -> TocView {
        TocView {
            header_size: self.header_size,
            toc_compressed_len: self.toc_compressed_len,
            files: file_views(self.files@),
        }
    }
}

/// A table of contents or a message, taken as sequences.
pub open spec fn toc_view(r: Result<XarToc, String>) -> Result<TocView, Seq<char>> {
    match r {
        Ok(toc) => Ok(toc@),
        Err(message) => Err(message@),
    }
}

/// The table of contents at the start of a file, or why there is none, on a
/// machine whose largest address is `largest`.
pub uninterp spec fn parsed_toc(file: Seq<u8>, largest: nat) -> Result<TocView, Seq<char>>;

/// Calls `dpp::xara::XarArchive::open` on the bytes of a file, and takes the
/// header, the paths, the kinds, the links and the content descriptors from it.
/// Claimed: they depend on the bytes alone, and on how large a table of contents
/// the machine can address. What a table of contents looks like is not stated.
#[verifier::external_body]
fn parse_toc(file: &[u8]) -> (toc: Result<XarToc, String>)
    ensures
        toc_view(toc) == parsed_toc(file@, usize::MAX as nat),
{
    let a = XarArchive::open(std::io::Cursor::new(file)).map_err(|e| e.to_string())?;
    let files: Vec<TocFile> = a.files().iter().map(|f| TocFile {
        path: f.path.clone(),
        kind: match f.file_type {
            XarFileType::File => XarEntryKind::File,
            XarFileType::Directory => XarEntryKind::Directory,
            XarFileType::Symlink => XarEntryKind::Symlink,
        },
        link: f.link.clone(),
        data: f.data.as_ref().map(|d| TocData { offset: d.offset, length: d.length, size: d.size, encoding: d.encoding.clone() }),
    }).collect();
    Ok(XarToc { header_size: a.header().header_size, toc_compressed_len: a.header().toc_compressed_len, files })
}

/// Error returned by native XAR operations.
#[derive(Debug, PartialEq, Eq)]
pub enum XarError {
    /// Filesystem I/O failed.
    Io {
        /// The file that was worked on.
        path: String,
        /// What went wrong.
        source: IoFailure,
    },
    /// The XAR parser or encoded file payload failed.
    Parser {
        /// The archive.
        path: String,
        /// What is wrong with it.
        message: String,
    },
    /// Extraction safety rejected an entry.
    Safety(String),
    /// The caller cancelled the operation.
    Cancelled,
}

/// A XAR error with its texts taken as sequences.
pub enum XarFault {
    Io { path: Seq<char>, source: IoFailureView },
    Parser { path: Seq<char>, message: Seq<char> },
    Safety(Seq<char>),
    Cancelled,
}

impl View for XarError {
    type V = XarFault;

    open spec fn view(&self) -> XarFault {
        match self {
            XarError::Io { path, source } => XarFault::Io { path: path@, source: source@ },
            XarError::Parser { path, message } => XarFault::Parser {
                path: path@,
                message: message@,
            },
            XarError::Safety(m) => XarFault::Safety(m@),
            XarError::Cancelled => XarFault::Cancelled,
        }
    }
}

/// What a user reads of an error.
pub open spec fn xar_message(fault: XarFault) -> Seq<char> {
    match fault {
        XarFault::Io { path, source } => "I/O failed for "@ + path + ": "@ + source.message,
        XarFault::Parser { path, message } => "invalid XAR "@ + path + ": "@ + message,
        XarFault::Safety(m) => "extraction safety rejected XAR entry: "@ + m,
        XarFault::Cancelled => "job cancelled"@,
    }
}

impl XarError {
    /// What a user reads of the error.
    pub fn message(&self) -> (text: String)
        ensures
            text@ == xar_message(self@),
    {
        match self {
            XarError::Io { path, source } => concat4(
                "I/O failed for ",
                path.as_str(),
                ": ",
                source.message.as_str(),
            ),
            XarError::Parser { path, message } => concat4(
                "invalid XAR ",
                path.as_str(),
                ": ",
                message.as_str(),
            ),
            XarError::Safety(m) => concat2("extraction safety rejected XAR entry: ", m.as_str()),
            XarError::Cancelled => "job cancelled".to_owned(),
        }
    }
}

fn parser_error(path: &str, message: &str) -> (error: XarError)
    ensures
        error@ == (XarFault::Parser { path: path@, message: message@ }),
{
    XarError::Parser { path: path.to_owned(), message: message.to_owned() }
}

pub fn io_failed(path: &str, source: &IoFailure) -> (error: XarError)
    ensures
        error@ == (XarFault::Io { path: path@, source: source@ }),
{
    XarError::Io { path: path.to_owned(), source: source.copy() }
}

/// The table of contents of an archive, given what reading the file came to.
pub open spec fn opened(path: Seq<char>, file: Result<Vec<u8>, IoFailure>) -> Result<
    TocView,
    XarFault,
> {
    match file {
        Err(failure) => Err(XarFault::Io { path, source: failure@ }),
        Ok(bytes) => match parsed_toc(bytes@, usize::MAX as nat) {
            Err(message) => Err(XarFault::Parser { path, message }),
            Ok(toc) => Ok(toc),
        },
    }
}

fn open<'a>(path: &str, file: &'a Result<Vec<u8>, IoFailure>) -> (r: Result<
    (XarToc, &'a Vec<u8>),
    XarError,
>)
    ensures
        match r {
            Ok((toc, bytes)) => opened(path@, *file) == Ok::<TocView, XarFault>(toc@) && *file
                == Ok::<Vec<u8>, IoFailure>(*bytes),
            Err(e) => opened(path@, *file) == Err::<TocView, XarFault>(e@),
        },
{
    match file {
        Err(failure) => Err(io_failed(path, failure)),
        Ok(bytes) => match parse_toc(bytes.as_slice()) {
            Ok(toc) => Ok((toc, bytes)),
            Err(message) => Err(parser_error(path, message.as_str())),
        },
    }
}

/// What the path normalizer makes of a path.
#[derive(Debug, PartialEq, Eq)]
pub struct NormalPath {
    /// The path that it was asked about.
    pub path: String,
    /// The path in normal form, or why it is rejected.
    pub outcome: Result<String, String>,
}

/// The normal form of a path, or why it is rejected. A path that the normalizer was
/// not asked about is rejected.
pub open spec fn normal_form(forms: Seq<NormalPath>, path: Seq<char>) -> Result<
    Seq<char>,
    Seq<char>,
>
    decreases forms.len(),
{
    if forms.len() == 0 {
        Err("path was not normalized"@)
    } else if forms[0].path@ == path {
        match forms[0].outcome {
            Ok(normal) => Ok(normal@),
            Err(message) => Err(message@),
        }
    } else {
        normal_form(forms.skip(1), path)
    }
}

fn normal_path(forms: &Vec<NormalPath>, path: &str) -> (r: Result<String, String>)
    ensures
        match r {
            Ok(normal) => normal_form(forms@, path@) == Ok::<Seq<char>, Seq<char>>(normal@),
            Err(message) => normal_form(forms@, path@) == Err::<Seq<char>, Seq<char>>(message@),
        },
{
    let mut i: usize = 0;
    assert(forms@.skip(0) =~= forms@);
    while i < forms.len()
        invariant
            i <= forms@.len(),
            normal_form(forms@.skip(i as int), path@) == normal_form(forms@, path@),
        decreases forms@.len() - i,
    {
        assert(forms@.skip(i as int)[0] == forms@[i as int]);
        assert(forms@.skip(i as int).skip(1) =~= forms@.skip(i + 1));
        if same_text(forms[i].path.as_str(), path) {
            return match &forms[i].outcome {
                Ok(normal) => Ok(normal.clone()),
                Err(message) => Err(message.clone()),
            };
        }
        i = i + 1;
    }
    Err("path was not normalized".to_owned())
}

/// The path of an entry that is put into normal form; `None` for the root. A
/// leading slash is dropped, with `./` in front of it or without.
pub open spec fn candidate(raw: Seq<char>) -> Option<Seq<char>> {
    let inner = if raw.len() >= 2 && raw[0] == '.' && raw[1] == '/' {
        raw.skip(2)
    } else {
        raw
    };
    let path = if inner.len() > 0 && inner[0] == '/' {
        inner.skip(1)
    } else {
        raw
    };
    if path.len() == 0 || path == seq!['.'] {
        None
    } else {
        Some(path)
    }
}

/// The path of an entry that is put into normal form; `None` for the root.
pub fn path_to_normalize(raw: &str) -> (path: Option<String>)
    ensures
        text_option(path) == candidate(raw@),
{
    let chars: Vec<char> = chars_of(raw);
    let len: usize = chars.len();
    let from: usize = if len >= 2 && chars[0] == '.' && chars[1] == '/' {
        2
    } else {
        0
    };
    assert(chars@.skip(0) =~= chars@);
    let kept: Vec<char> = if from < len && chars[from] == '/' {
        slice_to_chars(chars.as_slice(), from + 1, len)
    } else {
        slice_to_chars(chars.as_slice(), 0, len)
    };
    proof {
        let inner = if from == 2 {
            chars@.skip(2)
        } else {
            chars@
        };
        if inner.len() > 0 && inner[0] == '/' {
            assert(kept@ =~= inner.skip(1));
        } else {
            assert(kept@ =~= chars@);
        }
    }
    if kept.len() == 0 {
        return None;
    }
    if kept.len() == 1 && kept[0] == '.' {
        assert(kept@ =~= seq!['.']);
        return None;
    }
    Some(text_of(kept.as_slice()))
}

/// The path that an entry is listed at; `None` for the root.
pub open spec fn listed_path(raw: Seq<char>, forms: Seq<NormalPath>) -> Result<
    Option<Seq<char>>,
    XarFault,
> {
    match candidate(raw) {
        None => Ok(None),
        Some(path) => match normal_form(forms, path) {
            Ok(normal) => Ok(Some(normal)),
            Err(message) => Err(XarFault::Safety(message)),
        },
    }
}

/// The path that an entry is listed at; `None` for the root.
pub fn normalize_xar_path(raw_path: &str, forms: &Vec<NormalPath>) -> (r: Result<
    Option<String>,
    XarError,
>)
    ensures
        match r {
            Ok(path) => listed_path(raw_path@, forms@) == Ok::<Option<Seq<char>>, XarFault>(
                text_option(path),
            ),
            Err(e) => listed_path(raw_path@, forms@) == Err::<Option<Seq<char>>, XarFault>(e@),
        },
{
    match path_to_normalize(raw_path) {
        None => Ok(None),
        Some(path) => match normal_path(forms, path.as_str()) {
            Ok(normal) => Ok(Some(normal)),
            Err(message) => Err(XarError::Safety(message)),
        },
    }
}

/// One normalized XAR entry.
#[derive(Debug, PartialEq, Eq)]
pub struct XarEntry {
    /// Retained archive-order entry ID.
    pub index: usize,
    /// Normalized archive path.
    pub path: String,
    /// Portable entry kind.
    pub kind: XarEntryKind,
    /// Uncompressed file size when present.
    pub size: u64,
    /// Relative target for a symbolic-link entry.
    pub link_target: Option<String>,
    /// The entry of the table of contents that it stands for.
    pub source: TocFile,
}

/// An entry with its texts taken as sequences.
pub struct XarEntryView {
    pub index: int,
    pub path: Seq<char>,
    pub kind: XarEntryKind,
    pub size: u64,
    pub link_target: Option<Seq<char>>,
    pub source: TocFileView,
}

impl View for XarEntry {
    type V = XarEntryView;

    open spec fn view(&self) -> XarEntryView {
        XarEntryView {
            index: self.index as int,
            path: self.path@,
            kind: self.kind,
            size: self.size,
            link_target: text_option(self.link_target),
            source: self.source@,
        }
    }
}

/// Entries with their texts taken as sequences.
pub open spec fn entry_views(entries: Seq<XarEntry>) -> Seq<XarEntryView> {
    entries.map_values(|e: XarEntry| e@)
}

/// The entry number `index` of a listing.
pub open spec fn entry_of(index: int, path: Seq<char>, file: TocFileView) -> XarEntryView {
    XarEntryView {
        index,
        path,
        kind: file.kind,
        size: match file.data {
            Some(data) => data.size,
            None => 0,
        },
        link_target: if file.kind == XarEntryKind::Symlink {
            file.link
        } else {
            None
        },
        source: file,
    }
}

/// Whether an entry has the path `path`.
pub open spec fn has_path(entries: Seq<XarEntryView>, path: Seq<char>) -> bool {
    exists|k: int| 0 <= k < entries.len() && (#[trigger] entries[k]).path == path
}

/// The entries of a listing with one more entry of the table of contents.
pub open spec fn collect_step(
    path: Seq<char>,
    entries: Seq<XarEntryView>,
    file: TocFileView,
    forms: Seq<NormalPath>,
) -> Result<Seq<XarEntryView>, XarFault> {
    match listed_path(file.path, forms) {
        Err(fault) => Err(fault),
        Ok(None) => Ok(entries),
        Ok(Some(normal)) => if has_path(entries, normal) {
            Err(XarFault::Parser { path, message: "XAR contains duplicate path "@ + normal })
        } else {
            Ok(entries.push(entry_of(entries.len() as int, normal, file)))
        },
    }
}

/// The entries of a listing.
pub open spec fn collected(
    path: Seq<char>,
    files: Seq<TocFileView>,
    forms: Seq<NormalPath>,
) -> Result<Seq<XarEntryView>, XarFault>
    decreases files.len(),
{
    if files.len() == 0 {
        Ok(Seq::empty())
    } else {
        match collected(path, files.drop_last(), forms) {
            Err(fault) => Err(fault),
            Ok(entries) => collect_step(path, entries, files.last(), forms),
        }
    }
}

proof fn lemma_collected_fails(
    path: Seq<char>,
    files: Seq<TocFileView>,
    forms: Seq<NormalPath>,
    k: int,
)
    requires
        0 <= k <= files.len(),
    ensures
        collected(path, files.take(k), forms) matches Err(fault) ==> collected(path, files, forms)
            == Err::<Seq<XarEntryView>, XarFault>(fault),
    decreases files.len() - k,
{
    if k < files.len() {
        lemma_collected_fails(path, files, forms, k + 1);
        assert(files.take(k + 1).drop_last() =~= files.take(k));
    } else {
        assert(files.take(k) =~= files);
    }
}

fn holds_path(entries: &Vec<XarEntry>, path: &str) -> (r: bool)
    ensures
        r == has_path(entry_views(entries@), path@),
{
    let ghost views = entry_views(entries@);
    let mut i: usize = 0;
    while i < entries.len()
        invariant
            views == entry_views(entries@),
            i <= entries@.len(),
            forall|k: int| 0 <= k < i ==> (#[trigger] views[k]).path != path@,
        decreases entries@.len() - i,
    {
        assert(views[i as int] == entries@[i as int]@);
        if same_text(entries[i].path.as_str(), path) {
            return true;
        }
        i = i + 1;
    }
    false
}

fn copy_data(data: &Option<TocData>) -> (copied: Option<TocData>)
    ensures
        (match copied {
            Some(d) => Some(d@),
            None => None,
        }) == (match *data {
            Some(d) => Some(d@),
            None => None,
        }),
{
    match data {
        Some(d) => Some(
            TocData {
                offset: d.offset,
                length: d.length,
                size: d.size,
                encoding: d.encoding.clone(),
            },
        ),
        None => None,
    }
}

fn copy_file(file: &TocFile) -> (copied: TocFile)
    ensures
        copied@ == file@,
{
    TocFile {
        path: file.path.clone(),
        kind: file.kind,
        link: copy_option(&file.link),
        data: copy_data(&file.data),
    }
}

/// Entries, or an error, with their texts taken as sequences.
pub open spec fn entries_view(r: Result<Vec<XarEntry>, XarError>) -> Result<
    Seq<XarEntryView>,
    XarFault,
> {
    match r {
        Ok(entries) => Ok(entry_views(entries@)),
        Err(e) => Err(e@),
    }
}

/// The entries of a table of contents: the root is left out, and no path comes
/// twice.
pub fn collect_entries(path: &str, toc: &XarToc, forms: &Vec<NormalPath>) -> (entries: Result<
    Vec<XarEntry>,
    XarError,
>)
    ensures
        entries_view(entries) == collected(path@, toc@.files, forms@),
{
    let files: &Vec<TocFile> = &toc.files;
    let ghost views = file_views(files@);
    let mut entries: Vec<XarEntry> = Vec::new();
    let mut i: usize = 0;
    assert(views.take(0) =~= Seq::<TocFileView>::empty());
    assert(entry_views(entries@) =~= Seq::<XarEntryView>::empty());
    assert(files@.len() == files.len());
    while i < files.len()
        invariant
            *files == toc.files,
            files@.len() == files.len(),
            views == file_views(files@),
            i <= files@.len(),
            entries@.len() <= i,
            collected(path@, views.take(i as int), forms@) == Ok::<Seq<XarEntryView>, XarFault>(
                entry_views(entries@),
            ),
        decreases files@.len() - i,
    {
        proof {
            assert(views.take(i + 1).drop_last() =~= views.take(i as int));
            assert(views.take(i + 1).last() == files@[i as int]@);
            lemma_collected_fails(path@, views, forms@, i + 1);
        }
        let file: &TocFile = &files[i];
        match normalize_xar_path(file.path.as_str(), forms) {
            Err(e) => {
                return Err(e);
            },
            Ok(None) => {},
            Ok(Some(normal)) => {
                if holds_path(&entries, normal.as_str()) {
                    return Err(
                        parser_error(
                            path,
                            concat2("XAR contains duplicate path ", normal.as_str()).as_str(),
                        ),
                    );
                }
                let ghost before = entries@;
                let entry = XarEntry {
                    index: entries.len(),
                    path: normal,
                    kind: file.kind,
                    size: match &file.data {
                        Some(data) => data.size,
                        None => 0,
                    },
                    link_target: if file.kind == XarEntryKind::Symlink {
                        copy_option(&file.link)
                    } else {
                        None
                    },
                    source: copy_file(file),
                };
                entries.push(entry);
                assert(entry_views(entries@) =~= entry_views(before).push(entry@));
            },
        }
        i = i + 1;
    }
    assert(views.take(views.len() as int) =~= views);
    Ok(entries)
}

/// The entries of an archive, given what reading the file came to.
pub open spec fn listed(
    path: Seq<char>,
    file: Result<Vec<u8>, IoFailure>,
    forms: Seq<NormalPath>,
) -> Result<Seq<XarEntryView>, XarFault> {
    match opened(path, file) {
        Err(fault) => Err(fault),
        Ok(toc) => collected(path, toc.files, forms),
    }
}

/// Lists entries from a XAR archive. `file` holds what reading it came to, and
/// `forms` what the path normalizer says of paths that it changes or rejects.
pub fn list(path: &str, file: &Result<Vec<u8>, IoFailure>, forms: &Vec<NormalPath>) -> (entries:
    Result<Vec<XarEntry>, XarError>)
    ensures
        entries_view(entries) == listed(path@, *file, forms@),
{
    match open(path, file) {
        Ok((toc, _)) => collect_entries(path, &toc, forms),
        Err(e) => Err(e),
    }
}

/// The bytes of a file from `offset` on, at most `length` of them.
pub open spec fn stored(file: Seq<u8>, offset: int, length: int) -> Seq<u8> {
    if offset >= file.len() {
        Seq::empty()
    } else if offset + length <= file.len() {
        file.subrange(offset, offset + length)
    } else {
        file.skip(offset)
    }
}

fn stored_bytes(file: &[u8], offset: u64, length: u64) -> (bytes: Vec<u8>)
    ensures
        bytes@ == stored(file@, offset as int, length as int),
{
    let len: usize = file.len();
    assert(file@.len() == len);
    if offset >= len as u64 {
        return Vec::new();
    }
    let from: usize = offset as usize;
    let rest: usize = len - from;
    if length >= rest as u64 {
        let bytes: Vec<u8> = copy_range(file, from, len);
        assert(file@.skip(from as int) =~= file@.subrange(from as int, len as int));
        return bytes;
    }
    copy_range(file, from, from + length as usize)
}

/// What is said of content that does not have its declared size.
pub open spec fn size_text(name: Seq<char>, have: nat, want: nat) -> Seq<char> {
    "XAR file "@ + name + " decoded to "@ + decimal(have) + " bytes, expected "@ + decimal(want)
}

/// Content that has to have its declared size.
pub open spec fn sized(path: Seq<char>, name: Seq<char>, data: Seq<u8>, size: u64) -> Result<
    Seq<u8>,
    XarFault,
> {
    if data.len() == size {
        Ok(data)
    } else {
        Err(XarFault::Parser { path, message: size_text(name, data.len(), size as nat) })
    }
}

/// Decoded content that has to have its declared size; the decoder is given up
/// once it has yielded one byte too many.
pub open spec fn decoded(
    path: Seq<char>,
    name: Seq<char>,
    output: Result<Seq<u8>, IoFailureView>,
    size: u64,
) -> Result<Seq<u8>, XarFault> {
    match output {
        Err(failure) => Err(XarFault::Io { path, source: failure }),
        Ok(data) => sized(path, name, data, size),
    }
}

/// How many bytes a decoder is asked for: one more than it should have.
pub open spec fn decode_limit(size: u64) -> u64 {
    if size == u64::MAX {
        size
    } else {
        (size + 1) as u64
    }
}

/// Content, or an error, with its texts taken as sequences.
pub open spec fn content_view(r: Result<Vec<u8>, XarError>) -> Result<Seq<u8>, XarFault> {
    match r {
        Ok(data) => Ok(data@),
        Err(e) => Err(e@),
    }
}

fn check_size(path: &str, name: &str, data: Vec<u8>, size: u64) -> (r: Result<Vec<u8>, XarError>)
    ensures
        content_view(r) == sized(path@, name@, data@, size),
{
    assert(data@.len() == data.len());
    let have: u64 = data.len() as u64;
    if have == size {
        return Ok(data);
    }
    let head: String = concat4(
        "XAR file ",
        name,
        " decoded to ",
        decimal_text(have).as_str(),
    );
    let message: String = concat3(
        head.as_str(),
        " bytes, expected ",
        decimal_text(size).as_str(),
    );
    assert(message@ =~= size_text(name@, data@.len(), size as nat));
    Err(parser_error(path, message.as_str()))
}

/// Settles what a decoder came to.
pub fn copy_decoded(
    path: &str,
    name: &str,
    output: Result<Vec<u8>, IoFailure>,
    expected: u64,
) -> (r: Result<Vec<u8>, XarError>)
    ensures
        content_view(r) == decoded(path@, name@, data_view(output), expected),
{
    match output {
        Ok(data) => check_size(path, name, data, expected),
        Err(failure) => Err(io_failed(path, &failure)),
    }
}

/// How content is stored.
#[derive(Debug, Clone, Copy, PartialEq, Eq, Structural)]
pub enum XarEncoding {
    Plain,
    Gzip,
    Zlib,
    Bzip2,
    Unknown,
}

/// How content is stored, by its name in the table of contents.
pub open spec fn encoding_named(name: Seq<char>) -> XarEncoding {
    if name == "application/octet-stream"@ {
        XarEncoding::Plain
    } else if name == "application/x-gzip"@ {
        XarEncoding::Gzip
    } else if name == "application/zlib"@ || name == "application/x-zlib"@ {
        XarEncoding::Zlib
    } else if name == "application/x-bzip2"@ {
        XarEncoding::Bzip2
    } else {
        XarEncoding::Unknown
    }
}

/// How content is stored, by its name in the table of contents.
pub fn xar_encoding(name: &str) -> (encoding: XarEncoding)
    ensures
        encoding == encoding_named(name@),
{
    if same_text(name, "application/octet-stream") {
        XarEncoding::Plain
    } else if same_text(name, "application/x-gzip") {
        XarEncoding::Gzip
    } else if same_text(name, "application/zlib") || same_text(name, "application/x-zlib") {
        XarEncoding::Zlib
    } else if same_text(name, "application/x-bzip2") {
        XarEncoding::Bzip2
    } else {
        XarEncoding::Unknown
    }
}

/// The content that stands at an absolute offset of the file. What is called
/// gzip may be zlib as well: the two bytes at the offset tell.
pub open spec fn content_at(
    path: Seq<char>,
    name: Seq<char>,
    data: TocDataView,
    file: Seq<u8>,
    offset: int,
) -> Result<Seq<u8>, XarFault> {
    let bytes = stored(file, offset, data.length as int);
    let limit = decode_limit(data.size);
    match encoding_named(data.encoding) {
        XarEncoding::Plain => sized(path, name, bytes, data.size),
        XarEncoding::Gzip => if offset + 2 > file.len() {
            Err(XarFault::Io { path, source: unfilled() })
        } else if file[offset] == 0x1f && file[offset + 1] == 0x8b {
            decoded(path, name, gzip_output(bytes, limit), data.size)
        } else {
            decoded(path, name, zlib_output(bytes, limit), data.size)
        },
        XarEncoding::Zlib => decoded(path, name, zlib_output(bytes, limit), data.size),
        XarEncoding::Bzip2 => decoded(path, name, bzip2_output(bytes, limit), data.size),
        XarEncoding::Unknown => Err(
            XarFault::Parser { path, message: "unsupported XAR file encoding "@ + data.encoding },
        ),
    }
}

fn read_content_at(path: &str, name: &str, data: &TocData, file: &[u8], offset: u64) -> (r: Result<
    Vec<u8>,
    XarError,
>)
    ensures
        content_view(r) == content_at(path@, name@, data@, file@, offset as int),
{
    let encoding: XarEncoding = xar_encoding(data.encoding.as_str());
    let bytes: Vec<u8> = stored_bytes(file, offset, data.length);
    let limit: u64 = data.size.saturating_add(1);
    assert(limit == decode_limit(data.size));
    let len: usize = file.len();
    match encoding {
        XarEncoding::Plain => check_size(path, name, bytes, data.size),
        XarEncoding::Gzip => {
            if offset >= len as u64 || len as u64 - offset < 2 {
                return Err(io_failed(path, &unfilled_buffer()));
            }
            let at: usize = offset as usize;
            let output: Result<Vec<u8>, IoFailure> = if file[at] == 0x1f && file[at + 1] == 0x8b {
                gzip_decode(bytes.as_slice(), limit)
            } else {
                zlib_decode(bytes.as_slice(), limit)
            };
            copy_decoded(path, name, output, data.size)
        },
        XarEncoding::Zlib => copy_decoded(
            path,
            name,
            zlib_decode(bytes.as_slice(), limit),
            data.size,
        ),
        XarEncoding::Bzip2 => copy_decoded(
            path,
            name,
            bzip2_decode(bytes.as_slice(), limit),
            data.size,
        ),
        XarEncoding::Unknown => Err(
            parser_error(
                path,
                concat2("unsupported XAR file encoding ", data.encoding.as_str()).as_str(),
            ),
        ),
    }
}

/// What is said of an offset that no file can be read from.
pub open spec fn unseekable() -> IoFailureView {
    IoFailureView { kind: IoKind::InvalidInput, message: "offset is too large to seek to"@ }
}

/// The content of an entry of the table of contents. An entry without a content
/// descriptor is empty. A file cannot be read from past the largest offset.
pub open spec fn content_of(
    path: Seq<char>,
    header_size: u16,
    toc_compressed_len: u64,
    entry: TocFileView,
    file: Seq<u8>,
) -> Result<Seq<u8>, XarFault> {
    let heap = header_size + toc_compressed_len;
    match entry.data {
        None => Ok(Seq::empty()),
        Some(data) => if heap > u64::MAX {
            Err(XarFault::Parser { path, message: "XAR heap offset overflows"@ })
        } else if heap + data.offset > u64::MAX {
            Err(XarFault::Parser { path, message: "XAR file offset overflows"@ })
        } else if heap + data.offset > i64::MAX {
            Err(XarFault::Io { path, source: unseekable() })
        } else {
            content_at(path, entry.path, data, file, heap + data.offset)
        },
    }
}

/// Reads the content of an entry of the table of contents.
pub fn read_entry_to(path: &str, toc: &XarToc, entry: &TocFile, file: &[u8]) -> (r: Result<
    Vec<u8>,
    XarError,
>)
    ensures
        content_view(r) == content_of(
            path@,
            toc.header_size,
            toc.toc_compressed_len,
            entry@,
            file@,
        ),
{
    let data: &TocData = match &entry.data {
        Some(data) => data,
        None => {
            let nothing: Vec<u8> = Vec::new();
            assert(nothing@ =~= Seq::<u8>::empty());
            return Ok(nothing);
        },
    };
    let heap: u64 = match (toc.header_size as u64).checked_add(toc.toc_compressed_len) {
        Some(heap) => heap,
        None => {
            return Err(parser_error(path, "XAR heap offset overflows"));
        },
    };
    let offset: u64 = match heap.checked_add(data.offset) {
        Some(offset) => offset,
        None => {
            return Err(parser_error(path, "XAR file offset overflows"));
        },
    };
    if offset > i64::MAX as u64 {
        return Err(io_failed(
            path,
            &IoFailure::new(IoKind::InvalidInput, "offset is too large to seek to"),
        ));
    }
    read_content_at(path, entry.path.as_str(), data, file, offset)
}

/// The content of a listed entry.
pub open spec fn entry_content(
    path: Seq<char>,
    toc: TocView,
    entry: XarEntryView,
    file: Seq<u8>,
) -> Result<Seq<u8>, XarFault> {
    content_of(path, toc.header_size, toc.toc_compressed_len, entry.source, file)
}

/// Normalized XAR operation report.
pub type XarReport = BackendReport;

/// Entry `i` of a test.
pub open spec fn test_step(
    path: Seq<char>,
    toc: TocView,
    file: Seq<u8>,
    report: BackendView,
    e: XarEntryView,
    i: int,
    options: TestOptions,
) -> Result<BackendView, XarFault> {
    if options.stops_at(i) {
        Err(XarFault::Cancelled)
    } else if !options.wants(e.path) {
        Ok(report.with_skipped())
    } else if e.kind == XarEntryKind::File {
        match entry_content(path, toc, e, file) {
            Err(fault) => Err(fault),
            Ok(data) => Ok(report.with_entry(data.len() as u64)),
        }
    } else {
        Ok(report.with_entry(0))
    }
}

/// The outcome of testing the entries in order.
pub open spec fn tested(
    path: Seq<char>,
    toc: TocView,
    file: Seq<u8>,
    entries: Seq<XarEntryView>,
    options: TestOptions,
) -> Result<BackendView, XarFault>
    decreases entries.len(),
{
    if entries.len() == 0 {
        Ok(BackendView::empty())
    } else {
        match tested(path, toc, file, entries.drop_last(), options) {
            Err(fault) => Err(fault),
            Ok(report) => test_step(
                path,
                toc,
                file,
                report,
                entries.last(),
                entries.len() - 1,
                options,
            ),
        }
    }
}

proof fn lemma_tested_fails(
    path: Seq<char>,
    toc: TocView,
    file: Seq<u8>,
    entries: Seq<XarEntryView>,
    options: TestOptions,
    k: int,
)
    requires
        0 <= k <= entries.len(),
    ensures
        tested(path, toc, file, entries.take(k), options) matches Err(fault) ==> tested(
            path,
            toc,
            file,
            entries,
            options,
        ) == Err::<BackendView, XarFault>(fault),
    decreases entries.len() - k,
{
    if k < entries.len() {
        lemma_tested_fails(path, toc, file, entries, options, k + 1);
        assert(entries.take(k + 1).drop_last() =~= entries.take(k));
    } else {
        assert(entries.take(k) =~= entries);
    }
}

/// A report, or an error, with its texts taken as sequences.
pub open spec fn report_view(r: Result<XarReport, XarError>) -> Result<BackendView, XarFault> {
    match r {
        Ok(report) => Ok(report@),
        Err(e) => Err(e@),
    }
}

/// Verifies selected or all XAR file payloads.
pub fn test(
    path: &str,
    file: &Result<Vec<u8>, IoFailure>,
    forms: &Vec<NormalPath>,
    options: &TestOptions,
) -> (report: Result<XarReport, XarError>)
    ensures
        report_view(report) == (match listed(path@, *file, forms@) {
            Err(fault) => Err(fault),
            Ok(entries) => tested(
                path@,
                opened(path@, *file)->Ok_0,
                (file->Ok_0)@,
                entries,
                *options,
            ),
        }),
{
    let (toc, bytes) = match open(path, file) {
        Ok(r) => r,
        Err(e) => {
            return Err(e);
        },
    };
    let entries: Vec<XarEntry> = match collect_entries(path, &toc, forms) {
        Ok(entries) => entries,
        Err(e) => {
            return Err(e);
        },
    };
    let ghost views = entry_views(entries@);
    let mut report: XarReport = BackendReport::default();
    let mut i: usize = 0;
    assert(views.take(0) =~= Seq::<XarEntryView>::empty());
    while i < entries.len()
        invariant
            opened(path@, *file) == Ok::<TocView, XarFault>(toc@),
            *file == Ok::<Vec<u8>, IoFailure>(*bytes),
            listed(path@, *file, forms@) == Ok::<Seq<XarEntryView>, XarFault>(views),
            views == entry_views(entries@),
            i <= entries@.len(),
            tested(path@, toc@, bytes@, views.take(i as int), *options) == Ok::<
                BackendView,
                XarFault,
            >(report@),
        decreases entries@.len() - i,
    {
        proof {
            assert(views.take(i + 1).drop_last() =~= views.take(i as int));
            assert(views.take(i + 1).last() == entries@[i as int]@);
            lemma_tested_fails(path@, toc@, bytes@, views, *options, i + 1);
        }
        if options.is_cancelled(i) {
            return Err(XarError::Cancelled);
        }
        let entry: &XarEntry = &entries[i];
        if !options.selects(entry.path.as_str()) {
            report.skip();
        } else if entry.kind == XarEntryKind::File {
            let data: Vec<u8> = match read_entry_to(path, &toc, &entry.source, bytes.as_slice()) {
                Ok(data) => data,
                Err(e) => {
                    return Err(e);
                },
            };
            assert(data@.len() == data.len());
            report.processed(data.len() as u64);
        } else {
            report.processed(0);
        }
        i = i + 1;
    }
    assert(views.take(views.len() as int) =~= views);
    Ok(report)
}

/// What the caller found and did when an extraction came to an entry.
#[derive(Debug)]
pub struct XarAnswer {
    /// Whether the job was cancelled by then.
    pub cancelled: bool,
    /// What the safety planner decided.
    pub decision: EntryDecision,
    /// What removing the thing that gives way to a directory or a link came to.
    pub removed: Result<(), IoFailure>,
    /// What making the output, the directory or the link came to.
    pub created: Result<(), IoFailure>,
    /// What writing the content came to.
    pub written: Result<(), IoFailure>,
    /// What putting the output in its place came to.
    pub committed: Result<(), IoFailure>,
    /// The warning to report where the platform cannot make symbolic links.
    pub unsupported_symlink: Option<String>,
}

/// What is said of a link that leads nowhere.
pub open spec fn empty_link_text(path: Seq<char>) -> Seq<char> {
    "skipped symlink "@ + path + ": XAR symlink target is empty"@
}

/// What is done for an entry that is written: a link that leads nowhere is left out, and
/// so is one that the platform cannot make.
pub open spec fn work_of(
    e: XarEntryView,
    replace: bool,
    unsupported_symlink: Option<Seq<char>>,
) -> ArchiveWorkView {
    match e.kind {
        XarEntryKind::Directory => ArchiveWorkView::MakeDirectory { remove: replace },
        XarEntryKind::File => ArchiveWorkView::WriteFile,
        XarEntryKind::Symlink => match (e.link_target, unsupported_symlink) {
            (Some(target), None) if target.len() > 0 => ArchiveWorkView::MakeSymlink {
                target,
                remove: replace,
            },
            (Some(target), Some(warning)) if target.len() > 0 => ArchiveWorkView::SkipLink {
                warning,
            },
            _ => ArchiveWorkView::SkipLink { warning: empty_link_text(e.path) },
        },
    }
}

/// What is done for an entry that is written.
pub fn entry_work(
    entry: &XarEntry,
    replace_existing: bool,
    unsupported_symlink: &Option<String>,
) -> (work: ArchiveWork)
    ensures
        work@ == work_of(entry@, replace_existing, text_option(*unsupported_symlink)),
{
    match entry.kind {
        XarEntryKind::Directory => ArchiveWork::MakeDirectory { remove: replace_existing },
        XarEntryKind::File => ArchiveWork::WriteFile,
        XarEntryKind::Symlink => {
            match &entry.link_target {
                Some(target) => {
                    if target.as_str().unicode_len() > 0 {
                        return match unsupported_symlink {
                            Some(warning) => ArchiveWork::SkipLink { warning: warning.clone() },
                            None => ArchiveWork::MakeSymlink {
                                target: target.clone(),
                                remove: replace_existing,
                            },
                        };
                    }
                },
                None => {},
            }
            ArchiveWork::SkipLink {
                warning: concat3(
                    "skipped symlink ",
                    entry.path.as_str(),
                    ": XAR symlink target is empty",
                ),
            }
        },
    }
}

/// What making a directory or a link came to.
pub open spec fn made(
    report: BackendView,
    destination: Seq<char>,
    replace: bool,
    a: XarAnswer,
) -> Result<BackendView, XarFault> {
    if replace && a.removed is Err {
        Err(XarFault::Io { path: destination, source: (a.removed->Err_0)@ })
    } else if a.created is Err {
        Err(XarFault::Io { path: destination, source: (a.created->Err_0)@ })
    } else {
        Ok(report.with_entry(0))
    }
}

/// What writing a file came to.
pub open spec fn wrote(
    path: Seq<char>,
    report: BackendView,
    destination: Seq<char>,
    content: Result<Seq<u8>, XarFault>,
    a: XarAnswer,
) -> Result<BackendView, XarFault> {
    match (a.created, content, a.written, a.committed) {
        (Err(m), _, _, _) => Err(XarFault::Io { path: destination, source: m@ }),
        (_, Err(fault), _, _) => Err(fault),
        (_, _, Err(m), _) => Err(XarFault::Io { path, source: m@ }),
        (_, _, _, Err(m)) => Err(XarFault::Io { path: destination, source: m@ }),
        (Ok(_), Ok(data), Ok(_), Ok(_)) => Ok(report.with_entry(data.len() as u64)),
    }
}

/// One more entry of an extraction, whose content is `content` where it is a file.
pub open spec fn entry_step(
    path: Seq<char>,
    report: BackendView,
    e: XarEntryView,
    content: Result<Seq<u8>, XarFault>,
    a: XarAnswer,
) -> Result<BackendView, XarFault> {
    if a.cancelled {
        Err(XarFault::Cancelled)
    } else {
        match a.decision {
            EntryDecision::Rejected(m) => Err(XarFault::Safety(m@)),
            EntryDecision::Skip { warning } => Ok(report.with_skipped()),
            EntryDecision::Write { destination, replace_existing } => match work_of(
                e,
                replace_existing,
                text_option(a.unsupported_symlink),
            ) {
                ArchiveWorkView::MakeDirectory { remove } => made(report, destination@, remove, a),
                ArchiveWorkView::WriteFile => wrote(path, report, destination@, content, a),
                ArchiveWorkView::MakeSymlink { target, remove } => made(
                    report,
                    destination@,
                    remove,
                    a,
                ),
                ArchiveWorkView::SkipLink { warning } => Ok(
                    report.with_skipped().with_warning(warning),
                ),
            },
        }
    }
}

/// One more entry of an extraction.
pub open spec fn extract_step(
    path: Seq<char>,
    toc: TocView,
    file: Seq<u8>,
    report: BackendView,
    e: XarEntryView,
    a: XarAnswer,
) -> Result<BackendView, XarFault> {
    entry_step(path, report, e, entry_content(path, toc, e, file), a)
}

/// Whether an extraction ends at an entry, once what was asked of the caller for it is
/// done. `content` is what the content of a file came to.
pub fn entry_stops(
    entry: &XarEntry,
    content: &Result<Vec<u8>, XarError>,
    answer: &XarAnswer,
) -> (r: bool)
    ensures
        forall|path: Seq<char>, report: BackendView|
            r == (#[trigger] entry_step(path, report, entry@, content_view(*content), *answer)
                is Err),
{
    if answer.cancelled {
        return true;
    }
    match &answer.decision {
        EntryDecision::Rejected(_) => true,
        EntryDecision::Skip { warning: _ } => false,
        EntryDecision::Write { destination: _, replace_existing } => {
            match entry_work(entry, *replace_existing, &answer.unsupported_symlink) {
                ArchiveWork::MakeDirectory { remove } => (remove && answer.removed.is_err())
                    || answer.created.is_err(),
                ArchiveWork::WriteFile => answer.created.is_err() || content.is_err()
                    || answer.written.is_err() || answer.committed.is_err(),
                ArchiveWork::MakeSymlink { target: _, remove } => (remove
                    && answer.removed.is_err()) || answer.created.is_err(),
                ArchiveWork::SkipLink { warning: _ } => false,
            }
        },
    }
}

/// The outcome of extracting the entries in order. Where the answers end, the
/// job was cancelled.
pub open spec fn extracted(
    path: Seq<char>,
    toc: TocView,
    file: Seq<u8>,
    entries: Seq<XarEntryView>,
    answers: Seq<XarAnswer>,
) -> Result<BackendView, XarFault>
    decreases entries.len(),
{
    if entries.len() == 0 {
        Ok(BackendView::empty())
    } else {
        match extracted(path, toc, file, entries.drop_last(), answers) {
            Err(fault) => Err(fault),
            Ok(report) => if entries.len() > answers.len() {
                Err(XarFault::Cancelled)
            } else {
                extract_step(
                    path,
                    toc,
                    file,
                    report,
                    entries.last(),
                    answers[entries.len() - 1],
                )
            },
        }
    }
}

proof fn lemma_extracted_fails(
    path: Seq<char>,
    toc: TocView,
    file: Seq<u8>,
    entries: Seq<XarEntryView>,
    answers: Seq<XarAnswer>,
    k: int,
)
    requires
        0 <= k <= entries.len(),
    ensures
        extracted(path, toc, file, entries.take(k), answers) matches Err(fault) ==> extracted(
            path,
            toc,
            file,
            entries,
            answers,
        ) == Err::<BackendView, XarFault>(fault),
    decreases entries.len() - k,
{
    if k < entries.len() {
        lemma_extracted_fails(path, toc, file, entries, answers, k + 1);
        assert(entries.take(k + 1).drop_last() =~= entries.take(k));
    } else {
        assert(entries.take(k) =~= entries);
    }
}

fn make(report: &mut XarReport, destination: &str, replace: bool, a: &XarAnswer) -> (r: Result<
    (),
    XarError,
>)
    ensures
        match r {
            Ok(_) => made(old(report)@, destination@, replace, *a) == Ok::<BackendView, XarFault>(
                final(report)@,
            ),
            Err(e) => made(old(report)@, destination@, replace, *a) == Err::<BackendView, XarFault>(
                e@,
            ),
        },
{
    if replace {
        match &a.removed {
            Ok(_) => {},
            Err(m) => {
                return Err(io_failed(destination, m));
            },
        }
    }
    match &a.created {
        Ok(_) => {
            report.processed(0);
            Ok(())
        },
        Err(m) => Err(io_failed(destination, m)),
    }
}

fn write_file(
    path: &str,
    toc: &XarToc,
    file: &[u8],
    report: &mut XarReport,
    entry: &XarEntry,
    destination: &str,
    a: &XarAnswer,
) -> (r: Result<(), XarError>)
    ensures
        match r {
            Ok(_) => wrote(
                path@,
                old(report)@,
                destination@,
                entry_content(path@, toc@, entry@, file@),
                *a,
            ) == Ok::<BackendView, XarFault>(final(report)@),
            Err(e) => wrote(
                path@,
                old(report)@,
                destination@,
                entry_content(path@, toc@, entry@, file@),
                *a,
            ) == Err::<BackendView, XarFault>(e@),
        },
{
    match &a.created {
        Ok(_) => {},
        Err(m) => {
            return Err(io_failed(destination, m));
        },
    }
    let data: Vec<u8> = match read_entry_to(path, toc, &entry.source, file) {
        Ok(data) => data,
        Err(e) => {
            return Err(e);
        },
    };
    match &a.written {
        Ok(_) => {},
        Err(m) => {
            return Err(io_failed(path, m));
        },
    }
    match &a.committed {
        Ok(_) => {},
        Err(m) => {
            return Err(io_failed(destination, m));
        },
    }
    assert(data@.len() == data.len());
    report.processed(data.len() as u64);
    Ok(())
}

fn extract_entry(
    path: &str,
    toc: &XarToc,
    file: &[u8],
    report: &mut XarReport,
    entry: &XarEntry,
    a: &XarAnswer,
) -> (r: Result<(), XarError>)
    ensures
        match r {
            Ok(_) => extract_step(path@, toc@, file@, old(report)@, entry@, *a) == Ok::<
                BackendView,
                XarFault,
            >(final(report)@),
            Err(e) => extract_step(path@, toc@, file@, old(report)@, entry@, *a) == Err::<
                BackendView,
                XarFault,
            >(e@),
        },
{
    if a.cancelled {
        return Err(XarError::Cancelled);
    }
    match &a.decision {
        EntryDecision::Rejected(m) => Err(XarError::Safety(m.clone())),
        EntryDecision::Skip { warning: _ } => {
            report.skip();
            Ok(())
        },
        EntryDecision::Write { destination, replace_existing } => {
            match entry_work(entry, *replace_existing, &a.unsupported_symlink) {
                ArchiveWork::MakeDirectory { remove } => make(
                    report,
                    destination.as_str(),
                    remove,
                    a,
                ),
                ArchiveWork::WriteFile => write_file(
                    path,
                    toc,
                    file,
                    report,
                    entry,
                    destination.as_str(),
                    a,
                ),
                ArchiveWork::MakeSymlink { target: _, remove } => make(
                    report,
                    destination.as_str(),
                    remove,
                    a,
                ),
                ArchiveWork::SkipLink { warning } => {
                    report.skip();
                    report.warn(warning);
                    Ok(())
                },
            }
        },
    }
}

/// Extracts XAR entries. `root` says whether the destination could be prepared,
/// and `answers` holds what the caller found and did for each entry, in order.
pub fn extract(
    path: &str,
    file: &Result<Vec<u8>, IoFailure>,
    forms: &Vec<NormalPath>,
    destination: &str,
    root: &Result<(), IoFailure>,
    answers: &Vec<XarAnswer>,
) -> (report: Result<XarReport, XarError>)
    ensures
        report_view(report) == (match (*root, listed(path@, *file, forms@)) {
            (Err(m), _) => Err(XarFault::Io { path: destination@, source: m@ }),
            (Ok(_), Err(fault)) => Err(fault),
            (Ok(_), Ok(entries)) => extracted(
                path@,
                opened(path@, *file)->Ok_0,
                (file->Ok_0)@,
                entries,
                answers@,
            ),
        }),
{
    match root {
        Ok(_) => {},
        Err(m) => {
            return Err(io_failed(destination, m));
        },
    }
    let (toc, bytes) = match open(path, file) {
        Ok(r) => r,
        Err(e) => {
            return Err(e);
        },
    };
    let entries: Vec<XarEntry> = match collect_entries(path, &toc, forms) {
        Ok(entries) => entries,
        Err(e) => {
            return Err(e);
        },
    };
    let ghost views = entry_views(entries@);
    let mut report: XarReport = BackendReport::default();
    let mut i: usize = 0;
    assert(views.take(0) =~= Seq::<XarEntryView>::empty());
    while i < entries.len()
        invariant
            *root is Ok,
            opened(path@, *file) == Ok::<TocView, XarFault>(toc@),
            *file == Ok::<Vec<u8>, IoFailure>(*bytes),
            listed(path@, *file, forms@) == Ok::<Seq<XarEntryView>, XarFault>(views),
            views == entry_views(entries@),
            i <= entries@.len(),
            extracted(path@, toc@, bytes@, views.take(i as int), answers@) == Ok::<
                BackendView,
                XarFault,
            >(report@),
        decreases entries@.len() - i,
    {
        proof {
            assert(views.take(i + 1).drop_last() =~= views.take(i as int));
            assert(views.take(i + 1).last() == entries@[i as int]@);
            lemma_extracted_fails(path@, toc@, bytes@, views, answers@, i + 1);
        }
        if i >= answers.len() {
            return Err(XarError::Cancelled);
        }
        match extract_entry(
            path,
            &toc,
            bytes.as_slice(),
            &mut report,
            &entries[i],
            &answers[i],
        ) {
            Ok(_) => {},
            Err(e) => {
                return Err(e);
            },
        }
        i = i + 1;
    }
    assert(views.take(views.len() as int) =~= views);
    Ok(report)
}

/// The content that a copy by number gives.
pub open spec fn copied(
    path: Seq<char>,
    file: Result<Vec<u8>, IoFailure>,
    forms: Seq<NormalPath>,
    index: int,
) -> Result<Seq<u8>, XarFault> {
    match listed(path, file, forms) {
        Err(fault) => Err(fault),
        Ok(entries) => if !(0 <= index < entries.len()) {
            Err(XarFault::Parser { path, message: "retained XAR entry ID is not present"@ })
        } else if entries[index].kind != XarEntryKind::File {
            Err(XarFault::Parser { path, message: "retained XAR entry is not a regular file"@ })
        } else {
            entry_content(path, opened(path, file)->Ok_0, entries[index], (file->Ok_0)@)
        },
    }
}

/// Copies one retained regular file.
pub fn copy(
    path: &str,
    file: &Result<Vec<u8>, IoFailure>,
    forms: &Vec<NormalPath>,
    entry_index: usize,
) -> (content: Result<Vec<u8>, XarError>)
    ensures
        content_view(content) == copied(path@, *file, forms@, entry_index as int),
{
    let (toc, bytes) = match open(path, file) {
        Ok(r) => r,
        Err(e) => {
            return Err(e);
        },
    };
    let entries: Vec<XarEntry> = match collect_entries(path, &toc, forms) {
        Ok(entries) => entries,
        Err(e) => {
            return Err(e);
        },
    };
    if entry_index >= entries.len() {
        return Err(parser_error(path, "retained XAR entry ID is not present"));
    }
    let entry: &XarEntry = &entries[entry_index];
    assert(entry_views(entries@)[entry_index as int] == entry@);
    if entry.kind != XarEntryKind::File {
        return Err(parser_error(path, "retained XAR entry is not a regular file"));
    }
    read_entry_to(path, &toc, &entry.source, bytes.as_slice())
}

/// The number of the entry from `i` on that is the occurrence `n` of a path.
pub open spec fn occurrence(
    entries: Seq<XarEntryView>,
    path: Seq<char>,
    n: int,
    i: int,
) -> Option<int>
    decreases entries.len() - i,
{
    if i >= entries.len() {
        None
    } else if entries[i].path != path {
        occurrence(entries, path, n, i + 1)
    } else if n == 0 {
        Some(i)
    } else {
        occurrence(entries, path, n - 1, i + 1)
    }
}

/// The content that a copy by path and occurrence gives.
pub open spec fn copied_by_path(
    path: Seq<char>,
    file: Result<Vec<u8>, IoFailure>,
    forms: Seq<NormalPath>,
    selected: Seq<char>,
    n: int,
) -> Result<Seq<u8>, XarFault> {
    match listed(path, file, forms) {
        Err(fault) => Err(fault),
        Ok(entries) => match occurrence(entries, selected, n, 0) {
            None => Err(
                XarFault::Parser { path, message: "retained XAR entry is not present"@ },
            ),
            Some(i) => entry_content(path, opened(path, file)->Ok_0, entries[i], (file->Ok_0)@),
        },
    }
}

/// Copies one retained XAR file by path and duplicate occurrence.
pub fn copy_by_path_occurrence(
    path: &str,
    file: &Result<Vec<u8>, IoFailure>,
    forms: &Vec<NormalPath>,
    selected_path: &str,
    selected_occurrence: usize,
) -> (content: Result<Vec<u8>, XarError>)
    ensures
        content_view(content) == copied_by_path(
            path@,
            *file,
            forms@,
            selected_path@,
            selected_occurrence as int,
        ),
{
    let (toc, bytes) = match open(path, file) {
        Ok(r) => r,
        Err(e) => {
            return Err(e);
        },
    };
    let entries: Vec<XarEntry> = match collect_entries(path, &toc, forms) {
        Ok(entries) => entries,
        Err(e) => {
            return Err(e);
        },
    };
    let ghost views = entry_views(entries@);
    let mut left: usize = selected_occurrence;
    let mut i: usize = 0;
    while i < entries.len()
        invariant
            opened(path@, *file) == Ok::<TocView, XarFault>(toc@),
            *file == Ok::<Vec<u8>, IoFailure>(*bytes),
            listed(path@, *file, forms@) == Ok::<Seq<XarEntryView>, XarFault>(views),
            views == entry_views(entries@),
            i <= entries@.len(),
            occurrence(views, selected_path@, selected_occurrence as int, 0) == occurrence(
                views,
                selected_path@,
                left as int,
                i as int,
            ),
        decreases entries@.len() - i,
    {
        assert(views[i as int] == entries@[i as int]@);
        if same_text(entries[i].path.as_str(), selected_path) {
            if left == 0 {
                return read_entry_to(path, &toc, &entries[i].source, bytes.as_slice());
            }
            left = left - 1;
        }
        i = i + 1;
    }
    Err(parser_error(path, "retained XAR entry is not present"))
}

proof fn lemma_collected_entries(
    path: Seq<char>,
    files: Seq<TocFileView>,
    forms: Seq<NormalPath>,
    entries: Seq<XarEntryView>,
)
    requires
        collected(path, files, forms) == Ok::<Seq<XarEntryView>, XarFault>(entries),
    ensures
        entries.len() <= files.len(),
        forall|i: int| 0 <= i < entries.len() ==> (#[trigger] entries[i]).index == i,
        forall|i: int, j: int|
            0 <= i < j < entries.len() ==> (#[trigger] entries[i]).path != (
            #[trigger] entries[j]).path,
        forall|i: int|
            0 <= i < entries.len() ==> files.contains((#[trigger] entries[i]).source)
                && entries[i] == entry_of(i, entries[i].path, entries[i].source),
    decreases files.len(),
{
    if files.len() > 0 {
        let before = collected(path, files.drop_last(), forms)->Ok_0;
        lemma_collected_entries(path, files.drop_last(), forms, before);
        assert forall|i: int| 0 <= i < entries.len() implies files.contains(
            (#[trigger] entries[i]).source,
        ) && entries[i] == entry_of(i, entries[i].path, entries[i].source) by {
            if i < before.len() {
                assert(entries[i] == before[i]);
                let k = choose|k: int|
                    0 <= k < files.drop_last().len() && files.drop_last()[k] == before[i].source;
                assert(files[k] == before[i].source);
            } else {
                assert(files[files.len() - 1] == entries[i].source);
            }
        }
        assert forall|i: int, j: int| 0 <= i < j < entries.len() implies (
        #[trigger] entries[i]).path != (#[trigger] entries[j]).path by {
            assert(entries[i] == before[i]);
            if j < before.len() {
                assert(entries[j] == before[j]);
            } else {
                assert(before[i].path != entries[j].path);
            }
        }
        assert forall|i: int| 0 <= i < entries.len() implies (#[trigger] entries[i]).index == i by {
            if i < before.len() {
                assert(entries[i] == before[i]);
            }
        }
    }
}

/// Every entry of a listing carries its own number, no two have the same path,
/// and each stands for an entry of the table of contents.
pub proof fn law_listed_entries_are_distinct(
    path: Seq<char>,
    files: Seq<TocFileView>,
    forms: Seq<NormalPath>,
    i: int,
    j: int,
)
    requires
        collected(path, files, forms) is Ok,
        0 <= i < j < (collected(path, files, forms)->Ok_0).len(),
    ensures
        ({
            let entries = collected(path, files, forms)->Ok_0;
            &&& entries[i].index == i
            &&& entries[j].index == j
            &&& entries[i].path != entries[j].path
            &&& files.contains(entries[i].source)
            &&& files.contains(entries[j].source)
        }),
{
    let entries = collected(path, files, forms)->Ok_0;
    lemma_collected_entries(path, files, forms, entries);
    assert(entries[i].path != entries[j].path);
}

/// Content that is read has the size that the listing gives for its entry.
pub proof fn law_content_has_its_listed_size(
    path: Seq<char>,
    toc: TocView,
    file: Seq<u8>,
    forms: Seq<NormalPath>,
    i: int,
)
    requires
        collected(path, toc.files, forms) is Ok,
        0 <= i < (collected(path, toc.files, forms)->Ok_0).len(),
        entry_content(path, toc, (collected(path, toc.files, forms)->Ok_0)[i], file) is Ok,
    ensures
        ({
            let e = (collected(path, toc.files, forms)->Ok_0)[i];
            (entry_content(path, toc, e, file)->Ok_0).len() == e.size
        }),
{
    let entries = collected(path, toc.files, forms)->Ok_0;
    lemma_collected_entries(path, toc.files, forms, entries);
    assert(entries[i] == entry_of(i, entries[i].path, entries[i].source));
}

proof fn lemma_no_occurrence(entries: Seq<XarEntryView>, path: Seq<char>, n: int, i: int)
    requires
        forall|k: int| i <= k < entries.len() ==> (#[trigger] entries[k]).path != path,
        0 <= i,
    ensures
        occurrence(entries, path, n, i) is None,
    decreases entries.len() - i,
{
    if i < entries.len() {
        lemma_no_occurrence(entries, path, n, i + 1);
    }
}

proof fn lemma_first_occurrence(entries: Seq<XarEntryView>, at: int, n: int, i: int)
    requires
        0 <= i <= at < entries.len(),
        n >= 0,
        forall|k: int|
            0 <= k < entries.len() && k != at ==> (#[trigger] entries[k]).path != entries[at].path,
    ensures
        occurrence(entries, entries[at].path, n, i) == (if n == 0 {
            Some(at)
        } else {
            None
        }),
    decreases at - i,
{
    if i < at {
        lemma_first_occurrence(entries, at, n, i + 1);
    } else if n > 0 {
        lemma_no_occurrence(entries, entries[at].path, n - 1, i + 1);
    }
}

/// A file is copied the same way by its number and by the first occurrence of
/// its path, and its path has no further occurrence.
pub proof fn law_copies_agree(
    path: Seq<char>,
    file: Result<Vec<u8>, IoFailure>,
    forms: Seq<NormalPath>,
    i: int,
    n: int,
)
    requires
        listed(path, file, forms) is Ok,
        0 <= i < (listed(path, file, forms)->Ok_0).len(),
        (listed(path, file, forms)->Ok_0)[i].kind == XarEntryKind::File,
        n > 0,
    ensures
        ({
            let selected = (listed(path, file, forms)->Ok_0)[i].path;
            &&& copied_by_path(path, file, forms, selected, 0) == copied(path, file, forms, i)
            &&& copied_by_path(path, file, forms, selected, n) is Err
        }),
{
    let entries = listed(path, file, forms)->Ok_0;
    lemma_collected_entries(path, (opened(path, file)->Ok_0).files, forms, entries);
    assert forall|k: int| 0 <= k < entries.len() && k != i implies (#[trigger] entries[k]).path
        != entries[i].path by {
        if k < i {
            assert(entries[k].path != entries[i].path);
        } else {
            assert(entries[i].path != entries[k].path);
        }
    }
    lemma_first_occurrence(entries, i, 0, 0);
    lemma_first_occurrence(entries, i, n, 0);
}

/// A successful test accounts for every entry: it was tested or not selected.
pub proof fn law_tests_account_for_every_entry(
    path: Seq<char>,
    toc: TocView,
    file: Seq<u8>,
    entries: Seq<XarEntryView>,
    options: TestOptions,
)
    requires
        entries.len() <= usize::MAX,
    ensures
        tested(path, toc, file, entries, options) matches Ok(r) ==> r.entries + r.skipped_entries
            == entries.len(),
    decreases entries.len(),
{
    if entries.len() > 0 {
        law_tests_account_for_every_entry(path, toc, file, entries.drop_last(), options);
    }
}

/// A successful extraction accounts for every entry: it was written or skipped.
/// Warnings are given for skipped entries alone.
pub proof fn law_extractions_account_for_every_entry(
    path: Seq<char>,
    toc: TocView,
    file: Seq<u8>,
    entries: Seq<XarEntryView>,
    answers: Seq<XarAnswer>,
)
    requires
        entries.len() <= usize::MAX,
    ensures
        extracted(path, toc, file, entries, answers) matches Ok(r) ==> r.entries + r.skipped_entries
            == entries.len() && r.warnings.len() <= r.skipped_entries,
    decreases entries.len(),
{
    if entries.len() > 0 {
        law_extractions_account_for_every_entry(path, toc, file, entries.drop_last(), answers);
    }
}

/// The contents of a file lie in the heap, which begins behind the header and the packed
/// table of contents: they are the stored bytes themselves, or what the named encoding
/// unpacks them to, and must have the size that is declared.
pub proof fn law_contents_are_unpacked_from_the_heap(
    path: Seq<char>,
    header_size: u16,
    toc_compressed_len: u64,
    entry: TocFileView,
    data: TocDataView,
    file: Seq<u8>,
)
    requires
        entry.data == Some(data),
        header_size + toc_compressed_len + data.offset <= i64::MAX,
        header_size + toc_compressed_len + data.offset + data.length <= file.len(),
        data.size < u64::MAX,
        data.length >= 2,
    ensures
        ({
            let start = header_size + toc_compressed_len + data.offset;
            let stored = file.subrange(start, start + data.length);
            let limit = (data.size + 1) as u64;
            let name = data.encoding;
            let content = content_of(path, header_size, toc_compressed_len, entry, file);
            let packed = if name == "application/octet-stream"@ {
                Some(Ok::<Seq<u8>, IoFailureView>(stored))
            } else if name == "application/zlib"@ || name == "application/x-zlib"@ {
                Some(zlib_output(stored, limit))
            } else if name == "application/x-bzip2"@ {
                Some(bzip2_output(stored, limit))
            } else if name == "application/x-gzip"@ {
                if stored[0] == 0x1f && stored[1] == 0x8b {
                    Some(gzip_output(stored, limit))
                } else {
                    Some(zlib_output(stored, limit))
                }
            } else {
                None
            };
            match packed {
                None => content is Err,
                Some(Err(failure)) => content == Err::<Seq<u8>, XarFault>(
                    XarFault::Io { path, source: failure },
                ),
                Some(Ok(unpacked)) => if unpacked.len() == data.size {
                    content == Ok::<Seq<u8>, XarFault>(unpacked)
                } else {
                    content is Err
                },
            }
        }),
{
    reveal_strlit("application/octet-stream");
    reveal_strlit("application/zlib");
    reveal_strlit("application/x-zlib");
    reveal_strlit("application/x-bzip2");
    reveal_strlit("application/x-gzip");
    assert("application/octet-stream"@.len() == 24 && "application/zlib"@.len() == 16
        && "application/x-zlib"@.len() == 18 && "application/x-bzip2"@.len() == 19
        && "application/x-gzip"@.len() == 18);
    assert("application/x-zlib"@[14] != "application/x-gzip"@[14]);
    let start = header_size + toc_compressed_len + data.offset;
    let stored_bytes = file.subrange(start, start + data.length);
    assert(stored_bytes[0] == file[start] && stored_bytes[1] == file[start + 1]);
}

/// A file without content is empty.
pub proof fn law_files_without_data_are_empty(
    path: Seq<char>,
    header_size: u16,
    toc_compressed_len: u64,
    entry: TocFileView,
    file: Seq<u8>,
)
    requires
        entry.data is None,
    ensures
        content_of(path, header_size, toc_compressed_len, entry, file) == Ok::<Seq<u8>, XarFault>(
            Seq::empty(),
        ),
{
}

/// One slash at the front of a path is left out, also behind a `./`; any other path is
/// taken as it is. The root is no entry.
pub proof fn law_paths_lose_one_leading_slash(path: Seq<char>)
    requires
        path.len() > 0,
        path != seq!['.'],
    ensures
        candidate(seq!['/'] + path) == Some(path),
        candidate(seq!['.', '/', '/'] + path) == Some(path),
        path[0] != '/' && path[0] != '.' ==> candidate(path) == Some(path),
        path[0] != '/' ==> candidate(seq!['.', '/'] + path) == Some(seq!['.', '/'] + path),
        candidate(Seq::empty()) is None,
        candidate(seq!['.']) is None,
        candidate(seq!['/']) is None,
{
    let one = seq!['/'] + path;
    assert(one.skip(1) =~= path);
    let two = seq!['.', '/', '/'] + path;
    assert(two.skip(2) =~= seq!['/'] + path);
    assert((seq!['/'] + path).skip(1) =~= path);
    let three = seq!['.', '/'] + path;
    assert(three.skip(2) =~= path);
    assert(three.len() > 1);
    assert(seq!['/'].skip(1) =~= Seq::<char>::empty());
}

/// One more file of the table of contents adds one entry with its own path in normal
/// form, its kind, its size and, if it is a link, its target. The root adds none. A path
/// that is rejected, or that an earlier entry has, fails the whole.
pub proof fn law_files_are_listed_one_for_one(
    path: Seq<char>,
    files: Seq<TocFileView>,
    forms: Seq<NormalPath>,
    before: Seq<XarEntryView>,
)
    requires
        files.len() > 0,
        collected(path, files.drop_last(), forms) == Ok::<Seq<XarEntryView>, XarFault>(before),
    ensures
        ({
            let file = files.last();
            let result = collected(path, files, forms);
            match candidate(file.path) {
                None => result == Ok::<Seq<XarEntryView>, XarFault>(before),
                Some(raw) => match normal_form(forms, raw) {
                    Err(message) => result == Err::<Seq<XarEntryView>, XarFault>(
                        XarFault::Safety(message),
                    ),
                    Ok(normal) => if exists|k: int|
                        0 <= k < before.len() && (#[trigger] before[k]).path == normal {
                        result matches Err(XarFault::Parser { .. })
                    } else {
                        result matches Ok(entries) && entries.len() == before.len() + 1
                            && entries.drop_last() == before && {
                            let entry = entries.last();
                            &&& entry.index == before.len()
                            &&& entry.path == normal
                            &&& entry.kind == file.kind
                            &&& entry.source == file
                            &&& entry.size == (match file.data {
                                Some(data) => data.size,
                                None => 0u64,
                            })
                            &&& file.kind == XarEntryKind::Symlink ==> entry.link_target
                                == file.link
                            &&& file.kind != XarEntryKind::Symlink ==> entry.link_target is None
                        }
                    },
                },
            }
        }),
{
    if let Ok(entries) = collected(path, files, forms) {
        if entries.len() > before.len() {
            assert(entries.drop_last() =~= before);
        }
    }
}

/// One more entry adds to a test as follows. A cancelled test fails. An entry that is
/// not selected is skipped. A selected file is unpacked: what goes wrong there fails the
/// test, and else it counts with the bytes that came out. Any other selected entry
/// counts without bytes.
pub proof fn law_tests_unpack_every_selected_file(
    path: Seq<char>,
    toc: TocView,
    file: Seq<u8>,
    entries: Seq<XarEntryView>,
    options: TestOptions,
    before: BackendView,
)
    requires
        0 < entries.len() <= usize::MAX,
        tested(path, toc, file, entries.drop_last(), options) == Ok::<BackendView, XarFault>(
            before,
        ),
    ensures
        ({
            let entry = entries.last();
            let result = tested(path, toc, file, entries, options);
            if options.cancelled_from matches Some(n) && n < entries.len() {
                result == Err::<BackendView, XarFault>(XarFault::Cancelled)
            } else if !options.wants(entry.path) {
                result matches Ok(after) && after.entries == before.entries && after.bytes
                    == before.bytes && after.skipped_entries == before.skipped_entries + 1
            } else if entry.kind == XarEntryKind::File {
                match content_of(
                    path,
                    toc.header_size,
                    toc.toc_compressed_len,
                    entry.source,
                    file,
                ) {
                    Err(fault) => result == Err::<BackendView, XarFault>(fault),
                    Ok(data) => result matches Ok(after) && after.entries == before.entries + 1
                        && after.skipped_entries == before.skipped_entries && (before.bytes
                        + data.len() <= u64::MAX ==> after.bytes == before.bytes + data.len()),
                }
            } else {
                result matches Ok(after) && after.entries == before.entries + 1 && after.bytes
                    == before.bytes && after.skipped_entries == before.skipped_entries
            }
        }),
{
    law_tests_account_for_every_entry(path, toc, file, entries.drop_last(), options);
}

/// One more entry adds to an extraction as follows. A cancelled job and a rejected entry
/// fail it, and a skipped entry is counted as skipped. A file counts with the bytes that
/// were unpacked for it. A directory or a link counts without bytes. A link without a
/// target, or one that the system does not support, is skipped with a warning. What goes
/// wrong with unpacking, removing, making or writing fails the extraction.
pub proof fn law_extractions_add_what_was_done(
    path: Seq<char>,
    toc: TocView,
    file: Seq<u8>,
    entries: Seq<XarEntryView>,
    answers: Seq<XarAnswer>,
    before: BackendView,
)
    requires
        0 < entries.len() <= usize::MAX,
        entries.len() <= answers.len(),
        extracted(path, toc, file, entries.drop_last(), answers) == Ok::<BackendView, XarFault>(
            before,
        ),
    ensures
        ({
            let entry = entries.last();
            let answer = answers[entries.len() - 1];
            let result = extracted(path, toc, file, entries, answers);
            let content = content_of(
                path,
                toc.header_size,
                toc.toc_compressed_len,
                entry.source,
                file,
            );
            if answer.cancelled {
                result == Err::<BackendView, XarFault>(XarFault::Cancelled)
            } else {
                match answer.decision {
                    EntryDecision::Rejected(m) => result == Err::<BackendView, XarFault>(
                        XarFault::Safety(m@),
                    ),
                    EntryDecision::Skip { warning } => result matches Ok(after) && after.entries
                        == before.entries && after.bytes == before.bytes && after.skipped_entries
                        == before.skipped_entries + 1,
                    EntryDecision::Write { destination, replace_existing } => if entry.kind
                        == XarEntryKind::File {
                        if answer.created is Ok && content is Ok && answer.written is Ok
                            && answer.committed is Ok {
                            result matches Ok(after) && after.entries == before.entries + 1
                                && after.skipped_entries == before.skipped_entries && after.warnings
                                == before.warnings && (before.bytes + content->Ok_0.len()
                                <= u64::MAX ==> after.bytes == before.bytes + content->Ok_0.len())
                        } else {
                            result is Err
                        }
                    } else if entry.kind == XarEntryKind::Symlink && (
                    answer.unsupported_symlink is Some || entry.link_target is None
                        || entry.link_target->0.len() == 0) {
                        result matches Ok(after) && after.entries == before.entries && after.bytes
                            == before.bytes && after.skipped_entries == before.skipped_entries + 1
                            && after.warnings.len() == before.warnings.len() + 1
                    } else if (replace_existing && answer.removed is Err) || answer.created is Err {
                        result matches Err(XarFault::Io { path: at, .. }) && at == destination@
                    } else {
                        result matches Ok(after) && after.entries == before.entries + 1
                            && after.bytes == before.bytes && after.skipped_entries
                            == before.skipped_entries && after.warnings == before.warnings
                    },
                }
            }
        }),
{
    law_extractions_account_for_every_entry(path, toc, file, entries.drop_last(), answers);
}

/// What there is to do for an entry follows from what it is: a directory is made, a file
/// is written, and a link is made to its own target. What stands in the way of a
/// directory or a link is removed first where it may be replaced.
pub proof fn law_work_follows_from_the_kind(
    e: XarEntryView,
    replace: bool,
    unsupported_symlink: Option<Seq<char>>,
)
    ensures
        ({
            let work = work_of(e, replace, unsupported_symlink);
            &&& e.kind == XarEntryKind::File <==> work is WriteFile
            &&& e.kind == XarEntryKind::Directory <==> work is MakeDirectory
            &&& work matches ArchiveWorkView::MakeDirectory { remove } ==> remove == replace
            &&& e.kind == XarEntryKind::Symlink ==> (work is MakeSymlink <==> (
            e.link_target matches Some(target) && target.len() > 0) && unsupported_symlink is None)
            &&& work matches ArchiveWorkView::MakeSymlink { target, remove } ==> e.link_target
                == Some(target) && remove == replace
        }),
{
}

/// A copy by number gives the content of the entry with that number, a file; a copy by
/// path gives the content of the entry with that path.
pub proof fn law_copies_give_the_content_of_the_entry(
    path: Seq<char>,
    file: Result<Vec<u8>, IoFailure>,
    forms: Seq<NormalPath>,
    toc: TocView,
    entries: Seq<XarEntryView>,
    i: int,
)
    requires
        opened(path, file) == Ok::<TocView, XarFault>(toc),
        file is Ok,
        collected(path, toc.files, forms) == Ok::<Seq<XarEntryView>, XarFault>(entries),
        0 <= i < entries.len(),
    ensures
        ({
            let content = content_of(
                path,
                toc.header_size,
                toc.toc_compressed_len,
                entries[i].source,
                (file->Ok_0)@,
            );
            &&& entries[i].kind == XarEntryKind::File ==> copied(path, file, forms, i) == content
            &&& entries[i].kind != XarEntryKind::File ==> copied(path, file, forms, i) is Err
            &&& copied_by_path(path, file, forms, entries[i].path, 0) == content
            &&& copied(path, file, forms, entries.len() as int) is Err
        }),
{
    lemma_collected_entries(path, toc.files, forms, entries);
    assert forall|k: int| 0 <= k < entries.len() && k != i implies (#[trigger] entries[k]).path
        != entries[i].path by {
        if k < i {
            assert(entries[k].path != entries[i].path);
        } else {
            assert(entries[i].path != entries[k].path);
        }
    }
    lemma_first_occurrence(entries, i, 0, 0);
}

/// The encodings of contents go by their media types; any other is unknown.
pub proof fn law_encodings_go_by_their_media_types(name: Seq<char>)
    ensures
        encoding_named("application/octet-stream"@) is Plain,
        encoding_named("application/x-gzip"@) is Gzip,
        encoding_named("application/zlib"@) is Zlib,
        encoding_named("application/x-zlib"@) is Zlib,
        encoding_named("application/x-bzip2"@) is Bzip2,
        name != "application/octet-stream"@ && name != "application/x-gzip"@ && name
            != "application/zlib"@ && name != "application/x-zlib"@ && name
            != "application/x-bzip2"@ ==> encoding_named(name) is Unknown,
{
    reveal_strlit("application/octet-stream");
    reveal_strlit("application/x-gzip");
    reveal_strlit("application/zlib");
    reveal_strlit("application/x-zlib");
    reveal_strlit("application/x-bzip2");
    assert("application/octet-stream"@.len() == 24);
    assert("application/x-gzip"@.len() == 18);
    assert("application/zlib"@.len() == 16);
    assert("application/x-zlib"@.len() == 18);
    assert("application/x-bzip2"@.len() == 19);
    assert("application/x-gzip"@[14] == 'g');
    assert("application/x-zlib"@[14] == 'z');
}

/// A fault of a XAR archive tells the path where there is one, and its own words.
pub proof fn law_faults_are_told(
    path: Seq<char>,
    source: crate::failure::IoFailureView,
    message: Seq<char>,
)
    ensures
        xar_message(XarFault::Io { path, source }) == "I/O failed for "@ + path + ": "@
            + source.message,
        xar_message(XarFault::Parser { path, message }) == "invalid XAR "@ + path + ": "@ + message,
        xar_message(XarFault::Safety(message)) == "extraction safety rejected XAR entry: "@
            + message,
        xar_message(XarFault::Cancelled) == "job cancelled"@,
{
}

} // verus!
