//! Which of the files on the local clipboard are offered to the peers.

use vstd::prelude::*;
use vstd::utf8::encode_utf8;

use crate::paths::{file_name, is_file_name_of, name_view};
use crate::protocol::{file_views, FileMetadata, FileView};
use crate::round_trip::is_short;
use crate::text::texts;

verus! {

/// How many files are offered at once.
pub const MAX_FILES: usize = 10_000;

/// The largest file that is offered: 10 GiB.
pub const MAX_FILE_SIZE: u64 = 10 * 1024 * 1024 * 1024;

/// How much is offered at once: 20 GiB.
pub const MAX_TOTAL_SIZE: u64 = 20 * 1024 * 1024 * 1024;

/// The longest name, in bytes, of a file that is offered.
pub const MAX_FILENAME_LEN: usize = 255;

/// What the file system says of a path.
#[derive(Debug, Clone, Copy, PartialEq, Eq, Structural)]
pub struct FileProbe {
    pub is_file: bool,
    pub size: u64,
}

/// Whether to go on to the next path.
#[derive(Debug, Clone, Copy, PartialEq, Eq, Structural)]
pub enum Verdict {
    Next,
    Stop,
}

/// The files that have been chosen so far.
#[derive(Debug)]
pub struct FileSelection {
    paths: Vec<String>,
    metadata: Vec<FileMetadata>,
    total_size: u64,
}

/// What a [`FileSelection`] holds.
#[verifier::ext_equal]
pub struct SelectionView {
    pub paths: Seq<Seq<char>>,
    pub files: Seq<FileView>,
}

/// The size of all of `files` together.
pub open spec fn total_size(files: Seq<FileView>) -> nat
    decreases files.len(),
{
    if files.len() == 0 {
        0
    } else {
        total_size(files.drop_last()) + files.last().size as nat
    }
}

impl View for FileSelection {
    type V = SelectionView;

    closed spec fn view(&self) -> SelectionView {
        SelectionView { paths: texts(self.paths@), files: file_views(self.metadata@) }
    }
}

impl SelectionView {
    /// Whether the limits on what is offered are kept.
    pub open spec fn within_limits(self) -> bool {
        &&& self.paths.len() == self.files.len()
        &&& self.files.len() <= MAX_FILES
        &&& total_size(self.files) <= MAX_TOTAL_SIZE
        &&& forall|i: int|
            0 <= i < self.files.len() ==> (#[trigger] self.files[i]).size <= MAX_FILE_SIZE
                && is_short(self.files[i].name)
    }

    /// The selection after `path` has been considered. The path is chosen if
    /// it is a file with a usable name and fits; a file that would burst the
    /// total ends the selection.
    pub open spec fn considered(
        self,
        path: Seq<char>,
        probe: Option<FileProbe>,
        name: Option<Seq<char>>,
    ) -> (SelectionView, Verdict) {
        match (probe, name) {
            (Some(p), _) if p.is_file && p.size <= MAX_FILE_SIZE && total_size(self.files) + p.size
                > MAX_TOTAL_SIZE => (self, Verdict::Stop),
            (Some(p), Some(n)) if p.is_file && p.size <= MAX_FILE_SIZE && encode_utf8(n).len()
                <= MAX_FILENAME_LEN => (
                SelectionView {
                    paths: self.paths.push(path),
                    files: self.files.push(FileView { name: n, size: p.size }),
                },
                Verdict::Next,
            ),
            _ => (self, Verdict::Next),
        }
    }
}

impl FileSelection {
    /// The limits are kept, and the running total is that of the chosen files.
    pub closed spec fn well_formed(&self) -> bool {
        &&& self@.within_limits()
        &&& self.total_size == total_size(self@.files)
    }

    /// No file yet.
    pub fn new() -> (r: FileSelection)
        ensures
            r.well_formed(),
            r@ == (SelectionView { paths: seq![], files: seq![] }),
    {
        let r = FileSelection { paths: Vec::new(), metadata: Vec::new(), total_size: 0 };
        assert(r@ =~= SelectionView { paths: seq![], files: seq![] });
        r
    }

    /// Whether no further path needs to be considered.
    pub fn is_full(&self) -> (r: bool)
        requires
            self.well_formed(),
        ensures
            r == (self@.files.len() >= MAX_FILES),
    {
        self.metadata.len() >= MAX_FILES
    }

    /// Considers `path`, of which the file system says `probe` and whose file
    /// name is `name`.
    pub fn consider(
        &mut self,
        path: String,
        probe: Option<FileProbe>,
        name: Option<String>,
    ) -> (r: Verdict)
        requires
            old(self).well_formed(),
            old(self)@.files.len() < MAX_FILES,
        ensures
            final(self).well_formed(),
            final(self)@.within_limits(),
            (final(self)@, r) == old(self)@.considered(path@, probe, name_view(name)),
    {
        let size: u64 = match probe {
            Some(p) => if p.is_file && p.size <= MAX_FILE_SIZE {
                p.size
            } else {
                return Verdict::Next;
            },
            None => return Verdict::Next,
        };
        if self.total_size + size > MAX_TOTAL_SIZE {
            return Verdict::Stop;
        }
        let name = match name {
            Some(n) => n,
            None => return Verdict::Next,
        };
        if name.as_str().as_bytes().len() > MAX_FILENAME_LEN {
            return Verdict::Next;
        }
        let ghost before = self@;
        let ghost file = FileView { name: name@, size };
        self.total_size = self.total_size + size;
        self.paths.push(path);
        self.metadata.push(FileMetadata { name, size });
        proof {
            assert(self@.paths =~= before.paths.push(path@));
            assert(self@.files =~= before.files.push(file));
            assert(self@.files.drop_last() =~= before.files);
        }
        Verdict::Next
    }

    /// Considers `path`, of which the file system says `probe`.
    pub fn offer(&mut self, path: String, probe: Option<FileProbe>) -> (r: Verdict)
        requires
            old(self).well_formed(),
            old(self)@.files.len() < MAX_FILES,
        ensures
            final(self).well_formed(),
            final(self)@.within_limits(),
            exists|name: Option<Seq<char>>| #[trigger]
                is_file_name_of(path@, name) && (final(self)@, r) == old(self)@.considered(
                    path@,
                    probe,
                    name,
                ),
    {
        let name = file_name(path.as_str());
        self.consider(path, probe, name)
    }

    /// The chosen paths and what is told of them.
    pub fn into_parts(self) -> (r: (Vec<String>, Vec<FileMetadata>))
        requires
            self.well_formed(),
        ensures
            texts(r.0@) == self@.paths,
            file_views(r.1@) == self@.files,
            self@.within_limits(),
    {
        (self.paths, self.metadata)
    }
}

} // verus!
