//! What is done for an entry that an extraction writes.
use vstd::prelude::*;

verus! {

/// What is done for an entry that an extraction writes.
#[derive(Debug, PartialEq, Eq)]
pub enum ArchiveWork {
    /// Make a directory.
    MakeDirectory {
        /// Whether what is there is removed before.
        remove: bool,
    },
    /// Write a file.
    WriteFile,
    /// Make a symbolic link.
    MakeSymlink {
        /// Where the link leads.
        target: String,
        /// Whether what is there is removed before.
        remove: bool,
    },
    /// Leave the link out and say why.
    SkipLink {
        /// What is said.
        warning: String,
    },
}

/// The work for an entry with its texts taken as sequences.
pub enum ArchiveWorkView {
    MakeDirectory { remove: bool },
    WriteFile,
    MakeSymlink { target: Seq<char>, remove: bool },
    SkipLink { warning: Seq<char> },
}

impl View for ArchiveWork {
    type V = ArchiveWorkView;

    open spec fn view(&self) -> ArchiveWorkView {
        match self {
            ArchiveWork::MakeDirectory { remove } => ArchiveWorkView::MakeDirectory {
                remove: *remove,
            },
            ArchiveWork::WriteFile => ArchiveWorkView::WriteFile,
            ArchiveWork::MakeSymlink { target, remove } => ArchiveWorkView::MakeSymlink {
                target: target@,
                remove: *remove,
            },
            ArchiveWork::SkipLink { warning } => ArchiveWorkView::SkipLink { warning: warning@ },
        }
    }
}

} // verus!
