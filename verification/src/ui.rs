//! What the page templates need from the core: what a page shows, the
//! grouping of the listing by directory, and the fingerprint by which a
//! script is told apart from its earlier versions.

use crate::builder::BuiltFile;
use crate::text::{compare_text, TextOrder};
use std::collections::hash_map::DefaultHasher;
use std::hash::Hasher;
use vstd::prelude::*;
use vstd::slice::slice_subrange;
use vstd::std_specs::hash::DefaultHasherAdditionalSpecFns;

verus! {

/// What the main part of a page shows.
pub enum Contents<'a> {
    Html(&'a BuiltFile),
    Text(&'a str),
    NotFound(),
}

/// The writes by which `s` is fed to a hasher: its bytes, then one byte that
/// no text holds.
pub open spec fn hashed_writes(s: Seq<char>) -> Seq<Seq<u8>> {
    seq![vstd::utf8::encode_utf8(s), seq![0xffu8]]
}

/// The fingerprint of `s` under the standard library's default hasher.
pub fn hash(s: &'static str) -> (digest: u64)
    ensures
        digest == DefaultHasher::spec_finish(hashed_writes(s@)),
{
    let mut hasher = DefaultHasher::new();
    hasher.write(s.as_bytes());
    let end: [u8; 1] = [0xff];
    let end_slice = end.as_slice();
    proof {
        vstd::array::axiom_spec_array_as_slice(&end);
        assert(end_slice@ =~= seq![0xffu8]);
    }
    hasher.write(end_slice);
    assert(hasher@ =~= hashed_writes(s@));
    hasher.finish()
}

/// The components of `file` from `depth` on.
#[inline]
pub fn determine_visible_file<'a>(file: &'a Vec<&str>, depth: usize) -> (visible: &'a [&'a str])
    requires
        depth <= file@.len(),
    ensures
        visible@ == file@.subrange(depth as int, file@.len() as int),
{
    slice_subrange(file.as_slice(), depth, file.len())
}

/// `file` lies directly in the directory at `depth`: its component at
/// `depth` is its last.
pub open spec fn lies_at(file: &Vec<&str>, depth: int) -> bool {
    file@.len() == depth + 1
}

/// The files among `files` that lie directly in the directory at `depth`,
/// in their order.
pub fn files_at_depth<'a>(files: &'a [&'a Vec<&'a str>], depth: usize) -> (direct: Vec<
    &'a Vec<&'a str>,
>)
    ensures
        direct@ == files@.filter(|file: &Vec<&str>| lies_at(file, depth as int)),
{
    let ghost here = |file: &Vec<&str>| lies_at(file, depth as int);
    let mut direct: Vec<&Vec<&str>> = Vec::new();
    let mut i: usize = 0;
    proof {
        reveal(Seq::filter);
        assert(files@.take(0) == Seq::<&Vec<&str>>::empty());
    }
    while i < files.len()
        invariant
            i <= files@.len(),
            here == |file: &Vec<&str>| lies_at(file, depth as int),
            direct@ == files@.take(i as int).filter(here),
        decreases files@.len() - i,
    {
        proof {
            reveal(Seq::filter);
            assert(files@.take(i + 1).drop_last() == files@.take(i as int));
        }
        let file = files[i];
        if file.len() > 0 && file.len() - 1 == depth {
            direct.push(file);
        }
        i = i + 1;
    }
    assert(files@.take(files@.len() as int) == files@);
    direct
}

/// Whether `file` lies in a directory below `depth`: it has a component at
/// `depth` that is not its last.
pub open spec fn has_dir(file: &Vec<&str>, depth: int) -> bool {
    file@.len() > depth + 1
}

/// Where the run of files that share the directory of `files[start]` ends,
/// given that it reaches at least to `at`.
pub open spec fn run_end(files: Seq<&Vec<&str>>, depth: int, start: int, at: int) -> int
    decreases files.len() - at,
{
    if 0 <= start < at < files.len() && has_dir(files[at], depth) && files[at]@[depth]@
        == files[start]@[depth]@ {
        run_end(files, depth, start, at + 1)
    } else {
        at
    }
}

/// The maximal runs of neighbouring files, from `from` on, that lie in one
/// directory at `depth`: each as the index of its first file and the index
/// after its last.
pub open spec fn dir_runs(files: Seq<&Vec<&str>>, depth: int, from: int) -> Seq<(int, int)>
    decreases files.len() - from,
{
    if from < 0 || from >= files.len() {
        Seq::empty()
    } else if !has_dir(files[from], depth) {
        dir_runs(files, depth, from + 1)
    } else {
        let end = run_end(files, depth, from, from + 1);
        if from < end <= files.len() {
            seq![(from, end)] + dir_runs(files, depth, end)
        } else {
            Seq::empty()
        }
    }
}

pub proof fn lemma_run_end_bounds(files: Seq<&Vec<&str>>, depth: int, start: int, at: int)
    requires
        0 <= start < at <= files.len(),
    ensures
        at <= run_end(files, depth, start, at) <= files.len(),
    decreases files.len() - at,
{
    if at < files.len() && has_dir(files[at], depth) && files[at]@[depth]@
        == files[start]@[depth]@ {
        lemma_run_end_bounds(files, depth, start, at + 1);
    }
}

/// Splits given files in their directory at depth, if they have an directory
/// at the given depth: one pair for each maximal run of neighbouring files in
/// one directory, with the directory's name and the files of the run.
pub fn split_dirs<'a>(files: &'a [&'a Vec<&'a str>], depth: usize) -> (dirs: Vec<
    (&'a str, &'a [&'a Vec<&'a str>]),
>)
    requires
        forall|i: int| 0 <= i < files@.len() ==> depth <= (#[trigger] files@[i])@.len(),
    ensures
        dirs@.len() == dir_runs(files@, depth as int, 0).len(),
        forall|k: int|
            0 <= k < dirs@.len() ==> {
                let run = #[trigger] dir_runs(files@, depth as int, 0)[k];
                &&& 0 <= run.0 < run.1 <= files@.len()
                &&& has_dir(files@[run.0], depth as int)
                &&& dirs@[k].0@ == files@[run.0]@[depth as int]@
                &&& dirs@[k].1@ == files@.subrange(run.0, run.1)
            },
{
    let ghost d = depth as int;
    let mut dirs: Vec<(&str, &[&Vec<&str>])> = Vec::new();
    let mut last_dir: Option<&str> = None;
    let mut start_index: usize = 0;
    let mut current_index: usize = 0;
    let ghost mut found: Seq<(int, int)> = Seq::empty();
    while current_index < files.len()
        invariant
            d == depth,
            start_index <= current_index <= files@.len(),
            forall|i: int| 0 <= i < files@.len() ==> depth <= (#[trigger] files@[i])@.len(),
            dir_runs(files@, d, 0) == found + dir_runs(files@, d, start_index as int),
            dirs@.len() == found.len(),
            forall|k: int|
                0 <= k < found.len() ==> {
                    let run = #[trigger] found[k];
                    &&& 0 <= run.0 < run.1 <= files@.len()
                    &&& has_dir(files@[run.0], d)
                    &&& dirs@[k].0@ == files@[run.0]@[d]@
                    &&& dirs@[k].1@ == files@.subrange(run.0, run.1)
                },
            match last_dir {
                None => start_index == current_index,
                Some(name) => {
                    &&& start_index < current_index
                    &&& has_dir(files@[start_index as int], d)
                    &&& name@ == files@[start_index as int]@[d]@
                    &&& run_end(files@, d, start_index as int, start_index + 1) == run_end(
                        files@,
                        d,
                        start_index as int,
                        current_index as int,
                    )
                },
            },
        decreases files@.len() - current_index,
    {
        let file = files[current_index];
        let visible_file = determine_visible_file(file, depth);
        if visible_file.len() > 1 {
            // Path has at least one directory?
            let dir: &str = visible_file[0];
            match last_dir {
                None => {
                    last_dir = Some(dir);
                },
                Some(name) => {
                    if compare_text(name, dir) != TextOrder::Same {
                        proof {
                            lemma_run_end_bounds(
                                files@,
                                d,
                                start_index as int,
                                start_index + 1,
                            );
                            found = found.push((start_index as int, current_index as int));
                            assert(dir_runs(files@, d, 0) == found + dir_runs(
                                files@,
                                d,
                                current_index as int,
                            ));
                        }
                        dirs.push((name, slice_subrange(files, start_index, current_index)));
                        start_index = current_index;
                        last_dir = Some(dir);
                    }
                },
            }
        } else {
            // No directory (anymore), start searching at next index and, if
            // appropriate, push the last discovered directory to the result
            match last_dir {
                Some(name) => {
                    proof {
                        found = found.push((start_index as int, current_index as int));
                    }
                    dirs.push((name, slice_subrange(files, start_index, current_index)));
                    start_index = current_index + 1;
                    last_dir = None;
                },
                None => {
                    start_index = current_index + 1;
                },
            }
        }
        current_index += 1;
    }
    match last_dir {
        Some(name) => {
            proof {
                assert(dir_runs(files@, d, current_index as int) == Seq::<(int, int)>::empty());
                assert(dir_runs(files@, d, start_index as int) == seq![
                    (start_index as int, current_index as int),
                ]);
                found = found.push((start_index as int, current_index as int));
            }
            dirs.push((name, slice_subrange(files, start_index, current_index)));
        },
        None => {},
    }
    dirs
}

} // verus!
