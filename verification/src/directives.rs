//! The directive scanner's model: a directive is a comment line of the form
//! `// rust-runner: name=value[;name=value...]`, recognized only in the
//! leading run of comment and blank lines of a source text. Scanning stops at
//! the first line that is neither blank nor a comment. Later occurrences of
//! an option overwrite earlier ones; a fragment without `=` or an
//! unrecognized option name is a `DirectiveError`.

use vstd::prelude::*;
use vstd::string::*;
use crate::text::chars_of;
use crate::text::find_char;
use crate::text::find_char_exec;
use crate::text::is_space;
use crate::text::lemma_find_char_bounds;
use crate::text::range_eq;
use crate::text::skip_spaces;
use crate::text::spec_lines;
use crate::text::string_of_range;

verus! {

/// The marker that introduces a directive comment.
pub open spec fn marker() -> Seq<char> {
    seq!['r', 'u', 's', 't', '-', 'r', 'u', 'n', 'n', 'e', 'r', ':']
}

/// The one recognized option name.
pub open spec fn toolchain_name() -> Seq<char> {
    seq!['t', 'o', 'o', 'l', 'c', 'h', 'a', 'i', 'n']
}

/// The toolchain used when no directive names one.
pub open spec fn default_toolchain() -> Seq<char> {
    seq!['s', 't', 'a', 'b', 'l', 'e']
}

/// The closed set of recognized option names.
#[derive(Debug, Clone, Copy, PartialEq, Eq, Structural, Hash)]
pub enum OptionType {
    Toolchain,
}

impl OptionType {
    /// Parse an option name against the closed set of recognized names.
    pub fn parse(name: &str) -> (r: Option<OptionType>)
        ensures
            r == (if name@ == toolchain_name() {
                Option::Some(OptionType::Toolchain)
            } else {
                Option::None::<OptionType>
            }),
    {
        let pat = toolchain_name_chars();
        let v = chars_of(name);
        let eq = range_eq(&v, 0, v.len(), &pat);
        proof {
            assert(v@.subrange(0, v@.len() as int) =~= v@);
        }
        if eq {
            Some(OptionType::Toolchain)
        } else {
            None
        }
    }
}

/// The mathematical form of a directive error: which rule a directive broke,
/// with the offending fragment or name.
pub enum DirectiveErrorSpec {
    InvalidOptionString(Seq<char>),
    UnknownOption(Seq<char>),
}

/// A malformed or unknown directive: a fragment without `=`, or an option
/// name outside the recognized set.
#[derive(Debug)]
pub enum DirectiveError {
    InvalidOptionString(String),
    UnknownOption(String),
}

impl View for DirectiveError {
    type V = DirectiveErrorSpec;

    open spec fn view(&self) -> DirectiveErrorSpec {
        match self {
            DirectiveError::InvalidOptionString(s) => DirectiveErrorSpec::InvalidOptionString(s@),
            DirectiveError::UnknownOption(s) => DirectiveErrorSpec::UnknownOption(s@),
        }
    }
}

impl DirectiveError {
    /// A human-readable description of the error.
    pub fn message(&self) -> (m: String)
        ensures
            self@ matches DirectiveErrorSpec::InvalidOptionString(s) ==> m@ == "invalid option string: "@ + s,
            self@ matches DirectiveErrorSpec::UnknownOption(s) ==> m@ == "unknown option: "@ + s,
    {
        match self {
            DirectiveError::InvalidOptionString(s) => {
                let mut m = "invalid option string: ".to_owned();
                m.append(s.as_str());
                m
            },
            DirectiveError::UnknownOption(s) => {
                let mut m = "unknown option: ".to_owned();
                m.append(s.as_str());
                m
            },
        }
    }
}

/// The directive set: the value each recognized option resolved to. With one
/// recognized option this is the optional toolchain value.
pub struct DirectiveSet {
    pub toolchain: Option<String>,
}

/// The view of an optional string.
pub open spec fn opt_view(o: Option<String>) -> Option<Seq<char>> {
    match o {
        Option::Some(s) => Option::Some(s@),
        Option::None => Option::None,
    }
}

impl View for DirectiveSet {
    type V = Option<Seq<char>>;

    open spec fn view(&self) -> Option<Seq<char>> {
        opt_view(self.toolchain)
    }
}

/// The resolved toolchain: the scanned value, or the default when absent.
pub open spec fn spec_toolchain(cur: Option<Seq<char>>) -> Seq<char> {
    match cur {
        Option::Some(v) => v,
        Option::None => default_toolchain(),
    }
}

/// A line whose characters are all whitespace.
pub open spec fn is_blank_line(line: Seq<char>) -> bool {
    skip_spaces(line, 0) == line.len()
}

/// A line that, after leading whitespace, starts with `//`.
pub open spec fn is_comment_line(line: Seq<char>) -> bool {
    let i = skip_spaces(line, 0);
    i + 2 <= line.len() && line[i] == '/' && line[i + 1] == '/'
}

/// Where the options part of a directive comment starts: the index after
/// `// rust-runner:` and any following whitespace, when the line matches that
/// shape, and nothing otherwise.
pub open spec fn options_start(line: Seq<char>) -> Option<int> {
    let i = skip_spaces(line, 0);
    if i + 2 <= line.len() && line[i] == '/' && line[i + 1] == '/' {
        let j = skip_spaces(line, i + 2);
        if j + marker().len() <= line.len() && line.subrange(j, j + marker().len() as int)
            == marker() {
            Option::Some(skip_spaces(line, j + marker().len() as int))
        } else {
            Option::None
        }
    } else {
        Option::None
    }
}

/// The value a single `name=value` fragment `line[i..k]` contributes: the
/// value when the name is the recognized toolchain option, and the matching
/// error otherwise.
pub open spec fn fragment_value(line: Seq<char>, i: int, k: int) -> Result<
    Seq<char>,
    DirectiveErrorSpec,
> {
    let e = find_char(line, '=', i, k);
    if e >= k {
        Result::Err(DirectiveErrorSpec::InvalidOptionString(line.subrange(i, k)))
    } else if line.subrange(i, e) == toolchain_name() {
        Result::Ok(line.subrange(e + 1, k))
    } else {
        Result::Err(DirectiveErrorSpec::UnknownOption(line.subrange(i, e)))
    }
}

/// Process the `;`-separated fragments of `line[i..]`, threading the current
/// toolchain value; a later fragment overwrites an earlier one.
pub open spec fn apply_options(line: Seq<char>, i: int, cur: Option<Seq<char>>) -> Result<
    Option<Seq<char>>,
    DirectiveErrorSpec,
>
    decreases line.len() - i,
{
    if 0 <= i <= line.len() {
        let k = find_char(line, ';', i, line.len() as int);
        match fragment_value(line, i, k) {
            Result::Err(e) => Result::Err(e),
            Result::Ok(v) => if k >= line.len() {
                Result::Ok(Option::Some(v))
            } else {
                proof {
                    lemma_find_char_bounds(line, ';', i, line.len() as int);
                }
                apply_options(line, k + 1, Option::Some(v))
            },
        }
    } else {
        Result::Ok(cur)
    }
}

/// Scan the lines from index `i` on: skip blank lines, stop at the first
/// non-comment line, and fold every directive comment into the current
/// toolchain value.
pub open spec fn scan_from(lines: Seq<Seq<char>>, i: int, cur: Option<Seq<char>>) -> Result<
    Option<Seq<char>>,
    DirectiveErrorSpec,
>
    decreases lines.len() - i,
{
    if 0 <= i < lines.len() {
        let line = lines[i];
        if is_blank_line(line) {
            scan_from(lines, i + 1, cur)
        } else if !is_comment_line(line) {
            Result::Ok(cur)
        } else {
            match options_start(line) {
                Option::None => scan_from(lines, i + 1, cur),
                Option::Some(o) => match apply_options(line, o, cur) {
                    Result::Ok(cur2) => scan_from(lines, i + 1, cur2),
                    Result::Err(e) => Result::Err(e),
                },
            }
        }
    } else {
        Result::Ok(cur)
    }
}

/// The result of directive scanning on a whole text: the optional toolchain
/// value, or the first directive error in file order.
pub open spec fn scan_directives(text: Seq<char>) -> Result<
    Option<Seq<char>>,
    DirectiveErrorSpec,
> {
    scan_from(spec_lines(text), 0, Option::None)
}

/// Process the `;`-separated fragments of `line[i..]`, the executable
/// counterpart of `apply_options`.
pub(crate) fn apply_options_exec(line: &Vec<char>, i: usize, cur: Option<String>) -> (r: Result<
    Option<String>,
    DirectiveError,
>)
    requires
        i <= line.len(),
    ensures
        match r {
            Result::Ok(c2) => apply_options(line@, i as int, opt_view(cur)) == Result::Ok::<
                Option<Seq<char>>,
                DirectiveErrorSpec,
            >(opt_view(c2)),
            Result::Err(e) => apply_options(line@, i as int, opt_view(cur)) == Result::Err::<
                Option<Seq<char>>,
                DirectiveErrorSpec,
            >(e@),
        },
    decreases line.len() - i,
{
    let n = line.len();
    let k = find_char_exec(line, ';', i, n);
    let e = find_char_exec(line, '=', i, k);
    if e >= k {
        let frag = string_of_range(line, i, k);
        return Result::Err(DirectiveError::InvalidOptionString(frag));
    }
    let name = string_of_range(line, i, e);
    match OptionType::parse(name.as_str()) {
        Option::None => Result::Err(DirectiveError::UnknownOption(name)),
        Option::Some(OptionType::Toolchain) => {
            let value = string_of_range(line, e + 1, k);
            if k >= n {
                Result::Ok(Option::Some(value))
            } else {
                apply_options_exec(line, k + 1, Option::Some(value))
            }
        },
    }
}

/// Every `;`-separated fragment of `line[i..]` is well formed: it has an `=`
/// and its name is a recognized option.
pub open spec fn options_ok(line: Seq<char>, i: int) -> bool
    decreases line.len() - i,
{
    if 0 <= i <= line.len() {
        let k = find_char(line, ';', i, line.len() as int);
        if fragment_value(line, i, k) is Err {
            false
        } else if k >= line.len() {
            true
        } else {
            proof {
                lemma_find_char_bounds(line, ';', i, line.len() as int);
            }
            options_ok(line, k + 1)
        }
    } else {
        true
    }
}

/// The value of the last fragment of a well-formed options string.
pub open spec fn last_option_value(line: Seq<char>, i: int) -> Seq<char>
    recommends
        0 <= i <= line.len(),
        options_ok(line, i),
    decreases line.len() - i,
{
    if 0 <= i <= line.len() {
        let k = find_char(line, ';', i, line.len() as int);
        if k >= line.len() {
            let e = find_char(line, '=', i, k);
            line.subrange(e + 1, k)
        } else {
            proof {
                lemma_find_char_bounds(line, ';', i, line.len() as int);
            }
            last_option_value(line, k + 1)
        }
    } else {
        Seq::empty()
    }
}

/// Later occurrences of an option overwrite earlier ones: a well-formed
/// options string always parses, and the value that stands afterwards is the
/// last fragment's, whatever value stood before.
pub proof fn lemma_last_write_wins(line: Seq<char>, i: int, cur: Option<Seq<char>>)
    requires
        0 <= i <= line.len(),
        options_ok(line, i),
    ensures
        apply_options(line, i, cur) == Result::Ok::<Option<Seq<char>>, DirectiveErrorSpec>(
            Option::Some(last_option_value(line, i)),
        ),
    decreases line.len() - i,
{
    lemma_find_char_bounds(line, ';', i, line.len() as int);
    let k = find_char(line, ';', i, line.len() as int);
    if k < line.len() {
        let v = fragment_value(line, i, k)->Ok_0;
        lemma_last_write_wins(line, k + 1, Option::Some(v));
    }
}

/// A malformed fragment — one without `=` — or one naming an option outside
/// the recognized set always yields a directive error, whatever the
/// surrounding fragments hold.
pub proof fn lemma_bad_fragment_rejected(line: Seq<char>, i: int, cur: Option<Seq<char>>)
    requires
        0 <= i <= line.len(),
        !options_ok(line, i),
    ensures
        apply_options(line, i, cur) is Err,
    decreases line.len() - i,
{
    lemma_find_char_bounds(line, ';', i, line.len() as int);
    let k = find_char(line, ';', i, line.len() as int);
    if !(fragment_value(line, i, k) is Err) && k < line.len() {
        let v = fragment_value(line, i, k)->Ok_0;
        lemma_bad_fragment_rejected(line, k + 1, Option::Some(v));
    }
}

/// Scanning a run of lines none of which is a directive comment leaves the
/// current value untouched.
proof fn lemma_scan_no_marker(lines: Seq<Seq<char>>, i: int, cur: Option<Seq<char>>)
    requires
        0 <= i <= lines.len(),
        forall|j: int| i <= j < lines.len() ==> options_start(#[trigger] lines[j]) is None,
    ensures
        scan_from(lines, i, cur) == Result::Ok::<Option<Seq<char>>, DirectiveErrorSpec>(cur),
    decreases lines.len() - i,
{
    if 0 <= i < lines.len() {
        lemma_scan_no_marker(lines, i + 1, cur);
    }
}

/// For a text with no directive comment anywhere — in particular one with no
/// leading comment block at all — the scan succeeds with no toolchain entry,
/// so the toolchain resolves to the default.
pub proof fn lemma_default_toolchain(text: Seq<char>)
    requires
        forall|j: int|
            0 <= j < spec_lines(text).len() ==> options_start(#[trigger] spec_lines(text)[j])
                is None,
    ensures
        scan_directives(text) == Result::Ok::<Option<Seq<char>>, DirectiveErrorSpec>(Option::None),
        spec_toolchain(scan_directives(text)->Ok_0) == default_toolchain(),
{
    lemma_scan_no_marker(spec_lines(text), 0, Option::None);
}

/// Scanning a run of blank lines that ends at a line that is neither blank
/// nor a comment stops with the current value untouched.
proof fn lemma_scan_blank_prefix(lines: Seq<Seq<char>>, i: int, c: int, cur: Option<Seq<char>>)
    requires
        0 <= i <= c < lines.len(),
        forall|j: int| i <= j < c ==> is_blank_line(#[trigger] lines[j]),
        !is_blank_line(lines[c]),
        !is_comment_line(lines[c]),
    ensures
        scan_from(lines, i, cur) == Result::Ok::<Option<Seq<char>>, DirectiveErrorSpec>(cur),
    decreases c - i,
{
    if i < c {
        lemma_scan_blank_prefix(lines, i + 1, c, cur);
    }
}

/// For a text with no leading comment block — one whose first non-blank line
/// is not a comment — the scan finds no directive, so the toolchain resolves
/// to the default, whatever the rest of the text holds.
pub proof fn lemma_no_leading_block_gives_default(text: Seq<char>, c: int)
    requires
        0 <= c < spec_lines(text).len(),
        forall|j: int| 0 <= j < c ==> is_blank_line(#[trigger] spec_lines(text)[j]),
        !is_blank_line(spec_lines(text)[c]),
        !is_comment_line(spec_lines(text)[c]),
    ensures
        scan_directives(text) == Result::Ok::<Option<Seq<char>>, DirectiveErrorSpec>(Option::None),
        spec_toolchain(scan_directives(text)->Ok_0) == default_toolchain(),
{
    lemma_scan_blank_prefix(spec_lines(text), 0, c, Option::None);
}

/// The inductive step behind `lemma_scan_stops_at_code`: scanning two line
/// sequences that agree up to a stopping line is the same from any position
/// at or before it.
proof fn lemma_scan_same_prefix(
    l1: Seq<Seq<char>>,
    l2: Seq<Seq<char>>,
    stop: int,
    i: int,
    cur: Option<Seq<char>>,
)
    requires
        0 <= i <= stop,
        stop < l1.len(),
        stop < l2.len(),
        forall|j: int| 0 <= j <= stop ==> l1[j] == l2[j],
        !is_blank_line(l1[stop]),
        !is_comment_line(l1[stop]),
    ensures
        scan_from(l1, i, cur) == scan_from(l2, i, cur),
    decreases stop - i,
{
    if i < stop {
        let line = l1[i];
        if is_blank_line(line) {
            lemma_scan_same_prefix(l1, l2, stop, i + 1, cur);
        } else if is_comment_line(line) {
            match options_start(line) {
                Option::None => {
                    lemma_scan_same_prefix(l1, l2, stop, i + 1, cur);
                },
                Option::Some(o) => {
                    match apply_options(line, o, cur) {
                        Result::Ok(cur2) => {
                            lemma_scan_same_prefix(l1, l2, stop, i + 1, cur2);
                        },
                        Result::Err(_) => {
                        },
                    }
                },
            }
        }
    }
}

/// Directive scanning never looks past the first non-comment, non-blank
/// line: two line sequences that agree up to and including such a line scan
/// to the same result, whatever follows that line in either — a
/// directive-shaped comment after real code is never recognized.
pub proof fn lemma_scan_stops_at_code(l1: Seq<Seq<char>>, l2: Seq<Seq<char>>, stop: int)
    requires
        0 <= stop < l1.len(),
        stop < l2.len(),
        forall|j: int| 0 <= j <= stop ==> l1[j] == l2[j],
        !is_blank_line(l1[stop]),
        !is_comment_line(l1[stop]),
    ensures
        scan_from(l1, 0, Option::None) == scan_from(l2, 0, Option::None),
{
    lemma_scan_same_prefix(l1, l2, stop, 0, Option::None);
}

/// The characters of the directive marker, for executable matching.
pub(crate) fn marker_chars() -> (v: Vec<char>)
    ensures
        v@ == marker(),
{
    let mut v: Vec<char> = Vec::new();
    v.push('r');
    v.push('u');
    v.push('s');
    v.push('t');
    v.push('-');
    v.push('r');
    v.push('u');
    v.push('n');
    v.push('n');
    v.push('e');
    v.push('r');
    v.push(':');
    proof {
        assert(v@ =~= marker());
    }
    v
}

/// The characters of the toolchain option name, for executable matching.
pub(crate) fn toolchain_name_chars() -> (v: Vec<char>)
    ensures
        v@ == toolchain_name(),
{
    let mut v: Vec<char> = Vec::new();
    v.push('t');
    v.push('o');
    v.push('o');
    v.push('l');
    v.push('c');
    v.push('h');
    v.push('a');
    v.push('i');
    v.push('n');
    proof {
        assert(v@ =~= toolchain_name());
    }
    v
}

} // verus!
