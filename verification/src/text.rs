//! Character-level helpers on strings: counting characters and words,
//! lexicographic comparison, and tests of how a text begins and ends.

use vstd::prelude::*;
use vstd::std_specs::iter::IteratorSpec;
use vstd::string::StrSliceExecFns;

verus! {

/// How often `c` occurs in `s`.
pub open spec fn count_char(s: Seq<char>, c: char) -> nat
    decreases s.len(),
{
    if s.len() == 0 {
        0
    } else {
        count_char(s.drop_last(), c) + if s.last() == c {
            1nat
        } else {
            0nat
        }
    }
}

/// Lexicographic order on character sequences by code point; a proper prefix
/// comes first.
pub open spec fn lex_le(a: Seq<char>, b: Seq<char>) -> bool
    decreases a.len(),
{
    if a.len() == 0 {
        true
    } else if b.len() == 0 {
        false
    } else if a[0] != b[0] {
        a[0] < b[0]
    } else {
        lex_le(a.drop_first(), b.drop_first())
    }
}

/// Whether `c` has the Unicode property White_Space.
pub open spec fn is_space(c: char) -> bool {
    ||| c == ' '
    ||| '\t' <= c <= '\r'
    ||| c == '\u{85}'
    ||| c == '\u{a0}'
    ||| c == '\u{1680}'
    ||| '\u{2000}' <= c <= '\u{200a}'
    ||| c == '\u{2028}'
    ||| c == '\u{2029}'
    ||| c == '\u{202f}'
    ||| c == '\u{205f}'
    ||| c == '\u{3000}'
}

/// Number of words in `s`: maximal runs of characters that are not white
/// space. A word is counted where it starts.
pub open spec fn word_count(s: Seq<char>) -> nat
    decreases s.len(),
{
    if s.len() == 0 {
        0
    } else {
        let starts_word = !is_space(s.last()) && (s.len() == 1 || is_space(s[s.len() - 2]));
        word_count(s.drop_last()) + if starts_word {
            1nat
        } else {
            0nat
        }
    }
}

/// `s` ends with `suffix`.
pub open spec fn has_suffix(s: Seq<char>, suffix: Seq<char>) -> bool {
    suffix.len() <= s.len() && s.subrange(s.len() - suffix.len(), s.len() as int) == suffix
}

/// `s` begins with `prefix`.
pub open spec fn has_prefix(s: Seq<char>, prefix: Seq<char>) -> bool {
    prefix.len() <= s.len() && s.subrange(0, prefix.len() as int) == prefix
}

/// The texts of a sequence of strings.
pub open spec fn texts(files: Seq<String>) -> Seq<Seq<char>> {
    files.map_values(|s: String| s@)
}

/// Outcome of comparing two texts lexicographically.
#[derive(Clone, Copy, Debug, PartialEq, Eq, Structural)]
pub enum TextOrder {
    Before,
    Same,
    After,
}

/// A text has at most as many characters as its UTF-8 encoding has bytes.
pub proof fn lemma_chars_fit_bytes(s: Seq<char>)
    ensures
        s.len() <= vstd::utf8::encode_utf8(s).len(),
    decreases s.len(),
{
    if s.len() > 0 {
        lemma_chars_fit_bytes(s.drop_first());
    }
}

/// Every text is at most itself.
pub proof fn lemma_lex_le_reflexive(a: Seq<char>)
    ensures
        lex_le(a, a),
    decreases a.len(),
{
    if a.len() > 0 {
        lemma_lex_le_reflexive(a.drop_first());
    }
}

/// Of two texts one is at most the other.
pub proof fn lemma_lex_le_total(a: Seq<char>, b: Seq<char>)
    ensures
        lex_le(a, b) || lex_le(b, a),
    decreases a.len(),
{
    if a.len() > 0 && b.len() > 0 && a[0] == b[0] {
        lemma_lex_le_total(a.drop_first(), b.drop_first());
    }
}

/// Two texts that are each at most the other are the same.
pub proof fn lemma_lex_le_antisymmetric(a: Seq<char>, b: Seq<char>)
    requires
        lex_le(a, b),
        lex_le(b, a),
    ensures
        a == b,
    decreases a.len(),
{
    if a.len() > 0 {
        lemma_lex_le_antisymmetric(a.drop_first(), b.drop_first());
        assert(b =~= seq![b[0]] + b.drop_first());
    }
}

/// The order passes along a chain.
pub proof fn lemma_lex_le_transitive(a: Seq<char>, b: Seq<char>, c: Seq<char>)
    requires
        lex_le(a, b),
        lex_le(b, c),
    ensures
        lex_le(a, c),
    decreases a.len(),
{
    if a.len() > 0 && a[0] == b[0] && b[0] == c[0] {
        lemma_lex_le_transitive(a.drop_first(), b.drop_first(), c.drop_first());
    }
}

/// The number of bytes of `s`, which bounds the number of its characters.
pub fn char_limit(s: &str) -> (limit: usize)
    ensures
        limit == vstd::utf8::encode_utf8(s@).len(),
        s@.len() <= limit,
{
    proof {
        lemma_chars_fit_bytes(s@);
    }
    s.as_bytes().len()
}

/// The characters of `s`, in order.
pub fn chars_of(s: &str) -> (v: Vec<char>)
    ensures
        v@ == s@,
{
    let mut v: Vec<char> = Vec::new();
    for c in it: s.chars()
        invariant
            it.seq() == s@,
            v@ == s@.take(it.index()),
    {
        v.push(c);
    }
    v
}

/// Counts the occurrences of `c` in `s`.
pub fn count_of(s: &str, c: char) -> (n: usize)
    ensures
        n == count_char(s@, c),
{
    let limit = char_limit(s);
    let mut n: usize = 0;
    for d in it: s.chars()
        invariant
            it.seq() == s@,
            s@.len() <= limit,
            n == count_char(s@.take(it.index()), c),
            n <= it.index(),
    {
        proof {
            let next = s@.take(it.index() + 1);
            assert(next.drop_last() == s@.take(it.index()));
        }
        if d == c {
            n = n + 1;
        }
    }
    assert(s@.take(s@.len() as int) == s@);
    n
}

/// A copy of `files`.
pub fn copy_files(files: &Vec<String>) -> (copy: Vec<String>)
    ensures
        texts(copy@) == texts(files@),
{
    let mut copy: Vec<String> = Vec::new();
    let mut i: usize = 0;
    while i < files.len()
        invariant
            i <= files@.len(),
            texts(copy@) == texts(files@).take(i as int),
        decreases files@.len() - i,
    {
        copy.push(files[i].clone());
        proof {
            assert(texts(files@).take(i + 1) == texts(files@).take(i as int).push(files@[i as int]@));
        }
        i = i + 1;
    }
    copy
}

/// Whether `c` is white space.
pub fn is_whitespace(c: char) -> (r: bool)
    ensures
        r == is_space(c),
{
    c == ' ' || ('\t' <= c && c <= '\r') || c == '\u{85}' || c == '\u{a0}' || c == '\u{1680}'
        || ('\u{2000}' <= c && c <= '\u{200a}') || c == '\u{2028}' || c == '\u{2029}'
        || c == '\u{202f}' || c == '\u{205f}' || c == '\u{3000}'
}

/// Counts the words of `s`.
pub fn count_words(s: &str) -> (n: usize)
    ensures
        n == word_count(s@),
{
    let limit = char_limit(s);
    let mut n: usize = 0;
    let mut in_word = false;
    for c in it: s.chars()
        invariant
            it.seq() == s@,
            s@.len() <= limit,
            n == word_count(s@.take(it.index())),
            n <= it.index(),
            in_word == (it.index() > 0 && !is_space(s@[it.index() - 1])),
    {
        proof {
            let next = s@.take(it.index() + 1);
            assert(next.drop_last() == s@.take(it.index()));
        }
        let space = is_whitespace(c);
        if !space && !in_word {
            n = n + 1;
        }
        in_word = !space;
    }
    assert(s@.take(s@.len() as int) == s@);
    n
}

/// Whether `s` ends with `suffix`.
pub fn ends_with(s: &str, suffix: &str) -> (r: bool)
    ensures
        r == has_suffix(s@, suffix@),
{
    let text = chars_of(s);
    let tail = chars_of(suffix);
    if tail.len() > text.len() {
        return false;
    }
    let offset = text.len() - tail.len();
    let mut i: usize = 0;
    while i < tail.len()
        invariant
            i <= tail@.len(),
            offset + tail@.len() == text@.len(),
            text@.len() <= usize::MAX,
            text@ == s@,
            tail@ == suffix@,
            s@.subrange(offset as int, offset + i) == suffix@.take(i as int),
        decreases tail@.len() - i,
    {
        if text[offset + i] != tail[i] {
            return false;
        }
        i = i + 1;
    }
    assert(suffix@.take(suffix@.len() as int) == suffix@);
    true
}

/// What follows `prefix` in `s`, where `s` begins with it.
pub fn after_prefix<'a>(s: &'a str, prefix: &str) -> (r: Option<&'a str>)
    ensures
        match r {
            Some(rest) => has_prefix(s@, prefix@) && rest@ == s@.subrange(
                prefix@.len() as int,
                s@.len() as int,
            ),
            None => !has_prefix(s@, prefix@),
        },
{
    let text = chars_of(s);
    let head = chars_of(prefix);
    if head.len() > text.len() {
        return None;
    }
    let mut i: usize = 0;
    while i < head.len()
        invariant
            i <= head@.len(),
            head@.len() <= text@.len(),
            text@ == s@,
            head@ == prefix@,
            s@.subrange(0, i as int) == prefix@.take(i as int),
        decreases head@.len() - i,
    {
        if text[i] != head[i] {
            return None;
        }
        i = i + 1;
    }
    assert(prefix@.take(prefix@.len() as int) == prefix@);
    Some(s.substring_char(head.len(), text.len()))
}

/// Compares two texts lexicographically by code point.
pub fn compare_text(a: &str, b: &str) -> (r: TextOrder)
    ensures
        r == TextOrder::Same <==> a@ == b@,
        r == TextOrder::Before <==> lex_le(a@, b@) && a@ != b@,
        r == TextOrder::After <==> lex_le(b@, a@) && a@ != b@,
{
    let mut left = a.chars();
    let mut right = b.chars();
    let ghost mut i: int = 0;
    loop
        invariant
            0 <= i <= a@.len(),
            i <= b@.len(),
            left.remaining() == a@.skip(i),
            right.remaining() == b@.skip(i),
            a@.take(i) == b@.take(i),
            lex_le(a@, b@) == lex_le(a@.skip(i), b@.skip(i)),
            lex_le(b@, a@) == lex_le(b@.skip(i), a@.skip(i)),
        decreases a@.len() - i,
    {
        let x = left.next();
        let y = right.next();
        proof {
            if i < a@.len() {
                assert(a@.skip(i).drop_first() == a@.skip(i + 1));
            }
            if i < b@.len() {
                assert(b@.skip(i).drop_first() == b@.skip(i + 1));
            }
        }
        match (x, y) {
            (None, None) => {
                proof {
                    assert(a@ == a@.take(i));
                    assert(b@ == b@.take(i));
                }
                return TextOrder::Same;
            },
            (None, Some(_)) => {
                return TextOrder::Before;
            },
            (Some(_), None) => {
                return TextOrder::After;
            },
            (Some(p), Some(q)) => {
                if p < q {
                    return TextOrder::Before;
                } else if q < p {
                    return TextOrder::After;
                }
                proof {
                    i = i + 1;
                }
            },
        }
    }
}

} // verus!
