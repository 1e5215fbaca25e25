//! Character-level text utilities: line splitting with the semantics of
//! `str::lines` (split at `'\n'`, a trailing `'\r'` stripped from each line),
//! whitespace and word-character classification, and small scanning helpers
//! that the directive and import scanners share.

use vstd::prelude::*;
use vstd::string::*;

verus! {

/// ASCII whitespace: the characters the scanners treat as blank space.
pub open spec fn is_space(c: char) -> bool {
    c == ' ' || c == '\t' || c == '\n' || c == '\r' || c == '\x0B' || c == '\x0C'
}

/// Word characters: letters, digits and underscore, what may appear in a
/// dependency identifier.
pub open spec fn is_word_char(c: char) -> bool {
    ('a' <= c && c <= 'z') || ('A' <= c && c <= 'Z') || ('0' <= c && c <= '9') || c == '_'
}

/// Index of the first character at or after `i` that is not whitespace.
pub open spec fn skip_spaces(line: Seq<char>, i: int) -> int
    decreases line.len() - i,
{
    if 0 <= i < line.len() && is_space(line[i]) {
        skip_spaces(line, i + 1)
    } else {
        i
    }
}

/// Index of the first character at or after `i` that is not a word character.
pub open spec fn skip_word_chars(line: Seq<char>, i: int) -> int
    decreases line.len() - i,
{
    if 0 <= i < line.len() && is_word_char(line[i]) {
        skip_word_chars(line, i + 1)
    } else {
        i
    }
}

/// Index of the first occurrence of `c` in `line[i..end]`, or `end` when the
/// character does not occur there.
pub open spec fn find_char(line: Seq<char>, c: char, i: int, end: int) -> int
    decreases end - i,
{
    if 0 <= i && i < end && end <= line.len() {
        if line[i] == c {
            i
        } else {
            find_char(line, c, i + 1, end)
        }
    } else {
        end
    }
}

pub proof fn lemma_find_char_bounds(line: Seq<char>, c: char, i: int, end: int)
    requires
        0 <= i <= end <= line.len(),
    ensures
        i <= find_char(line, c, i, end) <= end,
        find_char(line, c, i, end) < end ==> line[find_char(line, c, i, end)] == c,
    decreases end - i,
{
    if 0 <= i && i < end && end <= line.len() && line[i] != c {
        lemma_find_char_bounds(line, c, i + 1, end);
    }
}

/// Index of the next `'\n'` at or after `i`, or the text's length when none
/// follows.
pub open spec fn line_end(text: Seq<char>, i: int) -> int
    decreases text.len() - i,
{
    if 0 <= i < text.len() {
        if text[i] == '\n' {
            i
        } else {
            line_end(text, i + 1)
        }
    } else {
        text.len() as int
    }
}

pub proof fn lemma_line_end_bounds(text: Seq<char>, i: int)
    requires
        0 <= i <= text.len(),
    ensures
        i <= line_end(text, i) <= text.len(),
    decreases text.len() - i,
{
    if 0 <= i < text.len() && text[i] != '\n' {
        lemma_line_end_bounds(text, i + 1);
    }
}

/// The line that starts at index `i`: everything up to the next `'\n'`, with
/// a `'\r'` stripped when it stands right before that `'\n'` — a bare
/// carriage return is no line ending and stays.
pub open spec fn line_at(text: Seq<char>, i: int) -> Seq<char> {
    let k = line_end(text, i);
    if k < text.len() && i < k && text[k - 1] == '\r' {
        text.subrange(i, k - 1)
    } else {
        text.subrange(i, k)
    }
}

/// The lines of `text[i..]`, split as `str::lines` splits them.
pub open spec fn lines_from(text: Seq<char>, i: int) -> Seq<Seq<char>>
    decreases text.len() - i,
{
    if 0 <= i < text.len() {
        let k = line_end(text, i);
        proof {
            lemma_line_end_bounds(text, i);
        }
        if k == text.len() {
            seq![line_at(text, i)]
        } else {
            seq![line_at(text, i)] + lines_from(text, k + 1)
        }
    } else {
        Seq::empty()
    }
}

/// All lines of `text`.
pub open spec fn spec_lines(text: Seq<char>) -> Seq<Seq<char>> {
    lines_from(text, 0)
}

/// The views of a sequence of character vectors.
pub open spec fn views_of(ls: Seq<Vec<char>>) -> Seq<Seq<char>> {
    ls.map_values(|l: Vec<char>| l@)
}

/// Relies on `String::push`: appends exactly the given character at the end.
#[verifier::external_body]
pub(crate) fn push_char(s: &mut String, c: char)
    ensures
        final(s)@ == old(s)@.push(c),
{
    s.push(c);
}

/// The characters of a string slice, as a vector.
pub fn chars_of(s: &str) -> (v: Vec<char>)
    ensures
        v@ == s@,
{
    let n: usize = s.unicode_len();
    let mut v: Vec<char> = Vec::new();
    let mut i: usize = 0;
    while i < n
        invariant
            n == s@.len(),
            i <= n,
            v@ == s@.subrange(0, i as int),
        decreases n - i,
    {
        let c = s.get_char(i);
        v.push(c);
        i = i + 1;
        proof {
            assert(v@ =~= s@.subrange(0, i as int));
        }
    }
    proof {
        assert(v@ =~= s@);
    }
    v
}

/// A copy of `v[a..b]`.
pub fn copy_range(v: &Vec<char>, a: usize, b: usize) -> (r: Vec<char>)
    requires
        a <= b <= v.len(),
    ensures
        r@ == v@.subrange(a as int, b as int),
{
    let mut r: Vec<char> = Vec::new();
    let mut i: usize = a;
    while i < b
        invariant
            a <= i <= b <= v@.len(),
            r@ == v@.subrange(a as int, i as int),
        decreases b - i,
    {
        r.push(v[i]);
        i = i + 1;
        proof {
            assert(r@ =~= v@.subrange(a as int, i as int));
        }
    }
    r
}

/// A `String` holding exactly the characters `v[a..b]`.
pub fn string_of_range(v: &Vec<char>, a: usize, b: usize) -> (s: String)
    requires
        a <= b <= v.len(),
    ensures
        s@ == v@.subrange(a as int, b as int),
{
    let mut s = String::new();
    let mut i: usize = a;
    while i < b
        invariant
            a <= i <= b <= v@.len(),
            s@ == v@.subrange(a as int, i as int),
        decreases b - i,
    {
        push_char(&mut s, v[i]);
        i = i + 1;
        proof {
            assert(s@ =~= v@.subrange(a as int, i as int));
        }
    }
    s
}

pub(crate) fn is_space_exec(c: char) -> (b: bool)
    ensures
        b == is_space(c),
{
    c == ' ' || c == '\t' || c == '\n' || c == '\r' || c == '\x0B' || c == '\x0C'
}

pub(crate) fn is_word_char_exec(c: char) -> (b: bool)
    ensures
        b == is_word_char(c),
{
    ('a' <= c && c <= 'z') || ('A' <= c && c <= 'Z') || ('0' <= c && c <= '9') || c == '_'
}

/// Executable counterpart of `skip_spaces`.
pub fn skip_spaces_exec(line: &Vec<char>, i: usize) -> (r: usize)
    requires
        i <= line.len(),
    ensures
        r == skip_spaces(line@, i as int),
        i <= r <= line@.len(),
{
    let mut r: usize = i;
    while r < line.len() && is_space_exec(line[r])
        invariant
            i <= r <= line@.len(),
            skip_spaces(line@, i as int) == skip_spaces(line@, r as int),
        decreases line@.len() - r,
    {
        r = r + 1;
    }
    r
}

/// Executable counterpart of `skip_word_chars`.
pub fn skip_word_chars_exec(line: &Vec<char>, i: usize) -> (r: usize)
    requires
        i <= line.len(),
    ensures
        r == skip_word_chars(line@, i as int),
        i <= r <= line@.len(),
{
    let mut r: usize = i;
    while r < line.len() && is_word_char_exec(line[r])
        invariant
            i <= r <= line@.len(),
            skip_word_chars(line@, i as int) == skip_word_chars(line@, r as int),
        decreases line@.len() - r,
    {
        r = r + 1;
    }
    r
}

/// Executable counterpart of `find_char`.
pub fn find_char_exec(line: &Vec<char>, c: char, i: usize, end: usize) -> (r: usize)
    requires
        i <= end <= line.len(),
    ensures
        r == find_char(line@, c, i as int, end as int),
        i <= r <= end,
{
    let mut r: usize = i;
    while r < end && line[r] != c
        invariant
            i <= r <= end <= line@.len(),
            find_char(line@, c, i as int, end as int) == find_char(line@, c, r as int, end as int),
        decreases end - r,
    {
        r = r + 1;
    }
    r
}

/// Whether `v[a..b]` holds exactly the characters of `pat`.
pub fn range_eq(v: &Vec<char>, a: usize, b: usize, pat: &Vec<char>) -> (r: bool)
    requires
        a <= b <= v.len(),
    ensures
        r <==> v@.subrange(a as int, b as int) == pat@,
{
    if b - a != pat.len() {
        return false;
    }
    let mut i: usize = 0;
    while i < pat.len()
        invariant
            a <= b <= v@.len(),
            b - a == pat@.len(),
            i <= pat@.len(),
            forall|j: int| 0 <= j < i ==> v@[a + j] == pat@[j],
        decreases pat@.len() - i,
    {
        if v[a + i] != pat[i] {
            proof {
                assert(v@.subrange(a as int, b as int)[i as int] != pat@[i as int]);
            }
            return false;
        }
        i = i + 1;
    }
    proof {
        assert(v@.subrange(a as int, b as int) =~= pat@);
    }
    true
}

/// The lines of `text`, as vectors of characters.
pub fn split_lines(text: &Vec<char>) -> (lines: Vec<Vec<char>>)
    ensures
        views_of(lines@) == spec_lines(text@),
        lines@.len() == spec_lines(text@).len(),
        forall|i: int| 0 <= i < lines@.len() ==> (#[trigger] lines@[i])@ == spec_lines(text@)[i],
{
    let n: usize = text.len();
    let mut lines: Vec<Vec<char>> = Vec::new();
    let mut pos: usize = 0;
    while pos < n
        invariant
            pos <= n,
            n == text@.len(),
            lines_from(text@, 0) == views_of(lines@) + lines_from(text@, pos as int),
        decreases n - pos,
    {
        let ghost start = pos as int;
        let mut k: usize = pos;
        while k < n && text[k] != '\n'
            invariant
                pos <= k <= n,
                n == text@.len(),
                line_end(text@, pos as int) == line_end(text@, k as int),
            decreases n - k,
        {
            k = k + 1;
        }
        proof {
            assert(line_end(text@, pos as int) == k as int);
        }
        let stripped_end: usize = if k < n && k > pos && text[k - 1] == '\r' {
            k - 1
        } else {
            k
        };
        let line = copy_range(text, pos, stripped_end);
        proof {
            assert(line@ == line_at(text@, pos as int));
        }
        lines.push(line);
        proof {
            assert(views_of(lines@) =~= views_of(lines@.drop_last()).push(line@));
        }
        if k == n {
            pos = n;
            proof {
                assert(lines_from(text@, start) =~= seq![line_at(text@, start)]);
                assert(lines_from(text@, 0) =~= views_of(lines@) + lines_from(text@, pos as int));
            }
        } else {
            pos = k + 1;
            proof {
                assert(lines_from(text@, start) =~= seq![line_at(text@, start)] + lines_from(
                    text@,
                    pos as int,
                ));
                assert(lines_from(text@, 0) =~= views_of(lines@) + lines_from(text@, pos as int));
            }
        }
    }
    proof {
        assert(lines_from(text@, pos as int) =~= Seq::<Seq<char>>::empty());
        assert(views_of(lines@) =~= spec_lines(text@));
        assert forall|i: int| 0 <= i < lines@.len() implies (#[trigger] lines@[i])@ == spec_lines(
            text@,
        )[i] by {
            assert(views_of(lines@)[i] == lines@[i]@);
        }
    }
    lines
}

/// Whether two string slices hold the same characters.
pub fn str_eq(a: &str, b: &str) -> (r: bool)
    ensures
        r <==> a@ == b@,
{
    let va = chars_of(a);
    let vb = chars_of(b);
    let r = range_eq(&va, 0, va.len(), &vb);
    proof {
        if r {
            assert(va@.subrange(0, va@.len() as int) =~= va@);
        } else {
            if a@ == b@ {
                assert(va@.subrange(0, va@.len() as int) =~= vb@);
            }
        }
    }
    r
}

} // verus!
