//! Discovery: which entries of a directory are source documents, which are
//! directories to descend into, and the walk over a tree of directories
//! that is read one directory at a time.

use crate::text::{compare_text, copy_files, ends_with, has_suffix, texts, TextOrder};
use vstd::prelude::*;
use vstd::string::StringExecFns;

verus! {

/// `name` has the extension of a source document.
pub open spec fn is_markdown_name(name: Seq<char>) -> bool {
    has_suffix(name, seq!['.', 'm', 'd'])
}

/// `name` is a directory that is never looked into.
pub open spec fn is_ignored_name(name: Seq<char>) -> bool {
    name == seq!['.', 'g', 'i', 't']
}

/// The path of the entry `name` of the directory `dir`, both relative to
/// the root; the root itself is the empty path.
pub open spec fn entry_path(dir: Seq<char>, name: Seq<char>) -> Seq<char> {
    if dir.len() == 0 {
        name
    } else {
        dir + seq!['/'] + name
    }
}

/// Whether `name` has the extension of a source document.
pub fn is_markdown(name: &str) -> (r: bool)
    ensures
        r == is_markdown_name(name@),
{
    proof {
        reveal_strlit(".md");
        assert(".md"@ =~= seq!['.', 'm', 'd']);
    }
    ends_with(name, ".md")
}

/// Whether `name` is a directory that is never looked into.
pub fn is_ignored_dir(name: &str) -> (r: bool)
    ensures
        r == is_ignored_name(name@),
{
    proof {
        reveal_strlit(".git");
        assert(".git"@ =~= seq!['.', 'g', 'i', 't']);
    }
    compare_text(name, ".git") == TextOrder::Same
}

/// The path of the entry `name` of the directory `dir`.
pub fn join_entry(dir: &str, name: &str) -> (path: String)
    ensures
        path@ == entry_path(dir@, name@),
{
    if dir.is_empty() {
        String::from_str(name)
    } else {
        proof {
            reveal_strlit("/");
        }
        let mut path = String::from_str(dir);
        path.append("/");
        path.append(name);
        path
    }
}

/// One entry of a directory, as it was read.
#[derive(Debug, PartialEq, Eq)]
pub struct DirEntry {
    /// The entry's name within its directory.
    pub name: String,
    /// Whether the entry is a directory.
    pub is_dir: bool,
}

/// The source documents among `entries`, as paths below `dir`, in the
/// order of the entries.
pub open spec fn files_in(dir: Seq<char>, entries: Seq<DirEntry>) -> Seq<Seq<char>>
    decreases entries.len(),
{
    if entries.len() == 0 {
        Seq::empty()
    } else {
        let entry = entries.last();
        let before = files_in(dir, entries.drop_last());
        if !entry.is_dir && is_markdown_name(entry.name@) {
            before.push(entry_path(dir, entry.name@))
        } else {
            before
        }
    }
}

/// The directories among `entries` that are looked into, as paths below
/// `dir`, in the order of the entries.
pub open spec fn dirs_in(dir: Seq<char>, entries: Seq<DirEntry>) -> Seq<Seq<char>>
    decreases entries.len(),
{
    if entries.len() == 0 {
        Seq::empty()
    } else {
        let entry = entries.last();
        let before = dirs_in(dir, entries.drop_last());
        if entry.is_dir && !is_ignored_name(entry.name@) {
            before.push(entry_path(dir, entry.name@))
        } else {
            before
        }
    }
}

/// An entry with the extension of a source document keeps it in its path.
pub proof fn lemma_entry_path_keeps_extension(dir: Seq<char>, name: Seq<char>)
    requires
        is_markdown_name(name),
    ensures
        is_markdown_name(entry_path(dir, name)),
{
    let path = entry_path(dir, name);
    if dir.len() > 0 {
        assert(path.subrange(path.len() - 3, path.len() as int) =~= name.subrange(
            name.len() - 3,
            name.len() as int,
        ));
    }
}

/// Only source documents are found: every path among the files of a
/// directory has the extension of a source document.
pub proof fn lemma_files_are_markdown(dir: Seq<char>, entries: Seq<DirEntry>, i: int)
    requires
        0 <= i < files_in(dir, entries).len(),
    ensures
        is_markdown_name(files_in(dir, entries)[i]),
    decreases entries.len(),
{
    let entry = entries.last();
    let before = files_in(dir, entries.drop_last());
    if i < before.len() {
        lemma_files_are_markdown(dir, entries.drop_last(), i);
    } else {
        lemma_entry_path_keeps_extension(dir, entry.name@);
    }
}

/// Directories that are never looked into are not found: every path among
/// the directories of a directory is that of an entry which is a directory
/// and is not one of them.
pub proof fn lemma_ignored_dirs_are_left_out(dir: Seq<char>, entries: Seq<DirEntry>, i: int)
    requires
        0 <= i < dirs_in(dir, entries).len(),
    ensures
        exists|k: int|
            0 <= k < entries.len() && entries[k].is_dir && !is_ignored_name(
                (#[trigger] entries[k]).name@,
            ) && dirs_in(dir, entries)[i] == entry_path(dir, entries[k].name@),
    decreases entries.len(),
{
    let before = dirs_in(dir, entries.drop_last());
    if i < before.len() {
        lemma_ignored_dirs_are_left_out(dir, entries.drop_last(), i);
        let k = choose|k: int|
            0 <= k < entries.drop_last().len() && entries.drop_last()[k].is_dir
                && !is_ignored_name((#[trigger] entries.drop_last()[k]).name@) && before[i]
                == entry_path(dir, entries.drop_last()[k].name@);
        assert(entries[k] == entries.drop_last()[k]);
    } else {
        assert(entries[entries.len() - 1] == entries.last());
    }
}

/// The source documents that lie directly in the directory `dir`, whose
/// entries are `entries`.
pub fn broad_file_search(dir: &str, entries: &Vec<DirEntry>) -> (files: Vec<String>)
    ensures
        texts(files@) == files_in(dir@, entries@),
{
    let mut files: Vec<String> = Vec::new();
    let mut i: usize = 0;
    while i < entries.len()
        invariant
            i <= entries@.len(),
            texts(files@) == files_in(dir@, entries@.take(i as int)),
        decreases entries@.len() - i,
    {
        assert(entries@.take(i + 1).drop_last() == entries@.take(i as int));
        let entry = &entries[i];
        if !entry.is_dir && is_markdown(entry.name.as_str()) {
            files.push(join_entry(dir, entry.name.as_str()));
        }
        i = i + 1;
    }
    assert(entries@.take(entries@.len() as int) == entries@);
    files
}

/// The directories directly in the directory `dir`, whose entries are
/// `entries`, that are to be looked into.
pub fn broad_dir_search(dir: &str, entries: &Vec<DirEntry>) -> (dirs: Vec<String>)
    ensures
        texts(dirs@) == dirs_in(dir@, entries@),
{
    let mut dirs: Vec<String> = Vec::new();
    let mut i: usize = 0;
    while i < entries.len()
        invariant
            i <= entries@.len(),
            texts(dirs@) == dirs_in(dir@, entries@.take(i as int)),
        decreases entries@.len() - i,
    {
        assert(entries@.take(i + 1).drop_last() == entries@.take(i as int));
        let entry = &entries[i];
        if entry.is_dir && !is_ignored_dir(entry.name.as_str()) {
            dirs.push(join_entry(dir, entry.name.as_str()));
        }
        i = i + 1;
    }
    assert(entries@.take(entries@.len() as int) == entries@);
    dirs
}

/// The walk over the tree below the root: the directories that are still
/// to be read, and what was found so far.
pub struct Scan {
    pending: Vec<String>,
    files: Vec<String>,
    dirs: Vec<String>,
}

/// The state of a walk as plain mathematics.
pub ghost struct ScanView {
    /// The directories that are still to be read; the last is read next.
    pub pending: Seq<Seq<char>>,
    /// The source documents found.
    pub files: Seq<Seq<char>>,
    /// The directories found, the root not among them.
    pub dirs: Seq<Seq<char>>,
}

impl ScanView {
    /// The walk before anything was read: only the root is to be read.
    pub open spec fn start() -> ScanView {
        ScanView { pending: seq![Seq::empty()], files: Seq::empty(), dirs: Seq::empty() }
    }

    /// The walk after the entries of `dir` were taken in.
    pub open spec fn fed(self, dir: Seq<char>, entries: Seq<DirEntry>) -> ScanView {
        ScanView {
            pending: self.pending + dirs_in(dir, entries),
            files: self.files + files_in(dir, entries),
            dirs: self.dirs + dirs_in(dir, entries),
        }
    }
}

/// A walk finds only source documents: where every file found so far has
/// the extension of a source document, so has every file found after the
/// entries of one more directory were taken in.
pub proof fn lemma_scan_finds_only_documents(scan: ScanView, dir: Seq<char>, entries: Seq<DirEntry>)
    requires
        forall|i: int| 0 <= i < scan.files.len() ==> is_markdown_name(#[trigger] scan.files[i]),
    ensures
        forall|i: int|
            0 <= i < scan.fed(dir, entries).files.len() ==> is_markdown_name(
                #[trigger] scan.fed(dir, entries).files[i],
            ),
{
    assert forall|i: int| 0 <= i < scan.fed(dir, entries).files.len() implies is_markdown_name(
        #[trigger] scan.fed(dir, entries).files[i],
    ) by {
        if i >= scan.files.len() {
            lemma_files_are_markdown(dir, entries, i - scan.files.len());
        }
    }
}

impl View for Scan {
    type V = ScanView;

    closed spec fn view(&self) -> ScanView {
        ScanView {
            pending: texts(self.pending@),
            files: texts(self.files@),
            dirs: texts(self.dirs@),
        }
    }
}

/// Appends the strings of `more` to `all`.
fn append_all(all: &mut Vec<String>, more: Vec<String>)
    ensures
        texts(final(all)@) == texts(old(all)@) + texts(more@),
{
    let ghost start = all@;
    let ghost added = more@;
    for item in it: more
        invariant
            it.seq() == added,
            texts(all@) == texts(start) + texts(added).take(it.index()),
    {
        assert(texts(all@.push(item)) == texts(all@).push(item@));
        all.push(item);
    }
}

impl Scan {
    /// A walk that has read nothing yet.
    pub fn new() -> (scan: Self)
        ensures
            scan@ == ScanView::start(),
    {
        let mut pending: Vec<String> = Vec::new();
        pending.push(String::new());
        let scan = Scan { pending, files: Vec::new(), dirs: Vec::new() };
        assert(scan@.pending =~= seq![Seq::<char>::empty()]);
        assert(scan@.files =~= Seq::<Seq<char>>::empty());
        assert(scan@.dirs =~= Seq::<Seq<char>>::empty());
        scan
    }

    /// The directory to read next, taken from those that are pending;
    /// nothing when the walk is done.
    pub fn next_dir(&mut self) -> (dir: Option<String>)
        ensures
            final(self)@.files == old(self)@.files,
            final(self)@.dirs == old(self)@.dirs,
            match dir {
                Some(dir) => old(self)@.pending.len() > 0 && dir@ == old(self)@.pending.last()
                    && final(self)@.pending == old(self)@.pending.drop_last(),
                None => old(self)@.pending.len() == 0 && final(self)@.pending == old(
                    self,
                )@.pending,
            },
    {
        self.pending.pop()
    }

    /// Takes in the entries of the directory `dir`: its source documents
    /// are found, its directories are found and become pending, but for
    /// those that are never looked into.
    pub fn feed(&mut self, dir: &str, entries: &Vec<DirEntry>)
        ensures
            final(self)@ == old(self)@.fed(dir@, entries@),
    {
        let files = broad_file_search(dir, entries);
        let dirs = broad_dir_search(dir, entries);
        let again = copy_files(&dirs);
        append_all(&mut self.files, files);
        append_all(&mut self.dirs, dirs);
        append_all(&mut self.pending, again);
    }

    /// The source documents found so far.
    pub fn files(&self) -> (files: Vec<String>)
        ensures
            texts(files@) == self@.files,
    {
        copy_files(&self.files)
    }

    /// The directories found so far.
    pub fn dirs(&self) -> (dirs: Vec<String>)
        ensures
            texts(dirs@) == self@.dirs,
    {
        copy_files(&self.dirs)
    }
}

} // verus!
