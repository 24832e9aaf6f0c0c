//! Logical paths: the path under which a file is known, and the path that
//! a request names.

use crate::text::{after_prefix, char_limit, compare_text, texts, TextOrder};
use vstd::prelude::*;
use vstd::string::{StrSliceExecFns, StringExecFns};

verus! {

/// The logical path of a file that lies at `file` below the root.
pub open spec fn logical_path(file: Seq<char>) -> Seq<char> {
    seq!['/'] + file
}

/// The logical path of `file`.
pub fn webpath(file: &str) -> (path: String)
    ensures
        path@ == logical_path(file@),
{
    proof {
        reveal_strlit("/");
    }
    let mut path = String::from_str("/");
    path.append(file);
    path
}

/// The parts of `s` between its slashes: a slash ends a part and begins an
/// empty one, any other character extends the last part.
pub open spec fn split_path(s: Seq<char>) -> Seq<Seq<char>>
    decreases s.len(),
{
    if s.len() == 0 {
        seq![Seq::empty()]
    } else {
        let front = split_path(s.drop_last());
        if s.last() == '/' {
            front.push(Seq::empty())
        } else if front.len() > 0 {
            front.update(front.len() - 1, front.last().push(s.last()))
        } else {
            front
        }
    }
}

/// `parts` joined by slashes, the empty parts at the front left out.
pub open spec fn join_path(parts: Seq<Seq<char>>) -> Seq<char>
    decreases parts.len(),
{
    if parts.len() == 0 {
        Seq::empty()
    } else {
        let front = join_path(parts.drop_last());
        if front.len() == 0 {
            parts.last()
        } else {
            front + seq!['/'] + parts.last()
        }
    }
}

/// How far below the root the walk along `parts` ends: `..` climbs one
/// directory, `.` and an empty part stay, any other part descends. `None`
/// where the walk climbs above the root.
pub open spec fn level(parts: Seq<Seq<char>>) -> Option<nat>
    decreases parts.len(),
{
    if parts.len() == 0 {
        Some(0)
    } else {
        match level(parts.drop_last()) {
            None => None,
            Some(below) => if parts.last() == seq!['.', '.'] {
                if below == 0 {
                    None
                } else {
                    Some((below - 1) as nat)
                }
            } else if parts.last().len() == 0 || parts.last() == seq!['.'] {
                Some(below)
            } else {
                Some(below + 1)
            },
        }
    }
}

/// What urlencoding's `decode` makes of `part`: the text with each `%` and
/// two hexadecimal digits replaced by the byte they name, or nothing where
/// the bytes so made are no UTF-8.
pub uninterp spec fn percent_decoded(part: Seq<char>) -> Option<Seq<char>>;

/// The text of a string that may be missing.
pub open spec fn text_of(text: Option<String>) -> Option<Seq<char>> {
    match text {
        Some(text) => Some(text@),
        None => None,
    }
}

/// Calls urlencoding's `decode` on `part`. The contract claims that the
/// outcome depends on `part` alone, and that a part without `%` comes back
/// as it is.
#[verifier::external_body]
fn percent_decode(part: &str) -> (r: Option<String>)
    ensures
        text_of(r) == percent_decoded(part@),
        !part@.contains('%') ==> text_of(r) == Some(part@),
{
    match urlencoding::decode(part) {
        Ok(text) => Some(text.into_owned()),
        Err(_) => None,
    }
}

/// Each part decoded, where every one can be.
pub open spec fn decoded_parts(parts: Seq<Seq<char>>) -> Option<Seq<Seq<char>>> {
    if forall|i: int| 0 <= i < parts.len() ==> percent_decoded(#[trigger] parts[i]) is Some {
        Some(Seq::new(parts.len(), |i: int| percent_decoded(parts[i])->0))
    } else {
        None
    }
}

/// The logical path made of decoded parts: they are joined, and a slash is
/// put in front. Nothing where the path so made climbs above the root.
pub open spec fn path_of_parts(parts: Seq<Seq<char>>) -> Option<Seq<char>> {
    let path = join_path(parts);
    if level(split_path(path)) is Some {
        Some(logical_path(path))
    } else {
        None
    }
}

/// The logical path that a request for `path` names: its parts between the
/// slashes are decoded, joined again and checked. Nothing where a part
/// cannot be decoded or the path climbs above the root.
pub open spec fn real_path(path: Seq<char>) -> Option<Seq<char>> {
    match decoded_parts(split_path(path)) {
        Some(parts) => path_of_parts(parts),
        None => None,
    }
}

/// Splits `path` at its slashes.
pub fn split_at_slashes(path: &str) -> (parts: Vec<&str>)
    ensures
        parts@.map_values(|p: &str| p@) == split_path(path@),
{
    let limit = char_limit(path);
    let mut parts: Vec<&str> = Vec::new();
    let mut start: usize = 0;
    let mut at: usize = 0;
    assert(path@.subrange(0, 0) == Seq::<char>::empty());
    for c in it: path.chars()
        invariant
            it.seq() == path@,
            path@.len() <= limit,
            at == it.index(),
            start <= at,
            parts@.map_values(|p: &str| p@).push(path@.subrange(start as int, at as int))
                == split_path(path@.take(at as int)),
    {
        proof {
            let next = path@.take(at + 1);
            assert(next.drop_last() == path@.take(at as int));
            assert(path@.subrange(start as int, at as int).push(c) == path@.subrange(
                start as int,
                at + 1,
            ));
        }
        if c == '/' {
            parts.push(path.substring_char(start, at));
            start = at + 1;
            assert(path@.subrange(start as int, start as int) == Seq::<char>::empty());
        }
        at = at + 1;
    }
    parts.push(path.substring_char(start, at));
    assert(path@.take(path@.len() as int) == path@);
    parts
}

/// The components of a logical path: the parts between the slashes of what
/// follows its first slash.
pub open spec fn components(path: Seq<char>) -> Seq<Seq<char>> {
    if path.len() > 0 && path[0] == '/' {
        split_path(path.drop_first())
    } else {
        split_path(path)
    }
}

/// The components of the logical path `path`.
pub fn path_components(path: &str) -> (parts: Vec<&str>)
    ensures
        parts@.map_values(|p: &str| p@) == components(path@),
{
    proof {
        reveal_strlit("/");
        assert("/"@ =~= seq!['/']);
        if path@.len() > 0 {
            assert(path@.subrange(0, 1) =~= seq![path@[0]]);
            assert(seq![path@[0]][0] == path@[0]);
        }
    }
    match after_prefix(path, "/") {
        Some(rest) => {
            assert(rest@ == path@.drop_first());
            split_at_slashes(rest)
        },
        None => split_at_slashes(path),
    }
}

/// Joins `parts` by slashes, leaving out the empty parts at the front.
pub fn join_parts(parts: &Vec<String>) -> (path: String)
    ensures
        path@ == join_path(texts(parts@)),
{
    let mut path = String::new();
    let mut i: usize = 0;
    while i < parts.len()
        invariant
            i <= parts@.len(),
            path@ == join_path(texts(parts@).take(i as int)),
        decreases parts@.len() - i,
    {
        proof {
            reveal_strlit("/");
            let next = texts(parts@).take(i + 1);
            assert(next.drop_last() == texts(parts@).take(i as int));
        }
        if path.as_str().is_empty() {
            path = parts[i].clone();
        } else {
            path.append("/");
            path.append(parts[i].as_str());
        }
        i = i + 1;
    }
    assert(texts(parts@).take(parts@.len() as int) == texts(parts@));
    path
}

/// Whether the walk along the parts of `path` stays at or below the root.
pub fn stays_below_root(path: &str) -> (r: bool)
    ensures
        r == level(split_path(path@)) is Some,
{
    let parts = split_at_slashes(path);
    let ghost all = parts@.map_values(|p: &str| p@);
    let mut below: usize = 0;
    let mut i: usize = 0;
    while i < parts.len()
        invariant
            i <= parts@.len(),
            all == parts@.map_values(|p: &str| p@),
            all == split_path(path@),
            below <= i,
            level(all.take(i as int)) == Some(below as nat),
        decreases parts@.len() - i,
    {
        proof {
            reveal_strlit("..");
            reveal_strlit(".");
            let next = all.take(i + 1);
            assert(next.drop_last() == all.take(i as int));
            assert(".."@ =~= seq!['.', '.']);
            assert("."@ =~= seq!['.']);
        }
        let part = parts[i];
        if compare_text(part, "..") == TextOrder::Same {
            if below == 0 {
                proof {
                    lemma_level_stays_none(all, i + 1);
                }
                return false;
            }
            below = below - 1;
        } else if !(part.is_empty() || compare_text(part, ".") == TextOrder::Same) {
            below = below + 1;
        }
        i = i + 1;
    }
    assert(all.take(parts@.len() as int) == all);
    true
}

/// A walk that has climbed above the root stays counted as such, however it
/// goes on.
pub proof fn lemma_level_stays_none(parts: Seq<Seq<char>>, n: int)
    requires
        0 <= n <= parts.len(),
        level(parts.take(n)) is None,
    ensures
        level(parts) is None,
    decreases parts.len() - n,
{
    if n < parts.len() {
        assert(parts.take(n + 1).drop_last() == parts.take(n));
        lemma_level_stays_none(parts, n + 1);
    } else {
        assert(parts.take(n) == parts);
    }
}

/// The logical path made of decoded parts.
pub fn path_from_parts(parts: &Vec<String>) -> (r: Option<String>)
    ensures
        text_of(r) == path_of_parts(texts(parts@)),
{
    let joined = join_parts(parts);
    if stays_below_root(joined.as_str()) {
        Some(webpath(joined.as_str()))
    } else {
        None
    }
}

/// The logical path that a request for `path` names, or nothing where the
/// request is malformed: a part that cannot be decoded, or a path that
/// climbs above the root.
pub fn determine_real_path(path: &str) -> (r: Option<String>)
    ensures
        text_of(r) == real_path(path@),
{
    let parts = split_at_slashes(path);
    let ghost raw = split_path(path@);
    let mut decoded: Vec<String> = Vec::new();
    let mut i: usize = 0;
    while i < parts.len()
        invariant
            i <= parts@.len(),
            raw == parts@.map_values(|p: &str| p@),
            raw == split_path(path@),
            decoded@.len() == i,
            forall|j: int|
                0 <= j < i ==> percent_decoded(#[trigger] raw[j]) == Some(decoded@[j]@),
        decreases parts@.len() - i,
    {
        match percent_decode(parts[i]) {
            Some(text) => {
                decoded.push(text);
            },
            None => {
                assert(percent_decoded(raw[i as int]) is None);
                return None;
            },
        }
        i = i + 1;
    }
    assert(decoded_parts(raw) == Some(texts(decoded@)));
    path_from_parts(&decoded)
}

} // verus!
