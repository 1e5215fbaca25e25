//! The scan result of one source text: the resolved toolchain and the set of
//! dependency identifiers, built by the directive scanner and the dependency
//! scanner over the same text.

use vstd::prelude::*;
use vstd::string::*;
use crate::directives::apply_options_exec;
use crate::directives::is_blank_line;
use crate::directives::is_comment_line;
use crate::directives::marker;
use crate::directives::marker_chars;
use crate::directives::opt_view;
use crate::directives::options_start;
use crate::directives::scan_directives;
use crate::directives::scan_from;
use crate::directives::spec_toolchain;
use crate::directives::default_toolchain;
use crate::directives::DirectiveError;
use crate::directives::DirectiveErrorSpec;
use crate::directives::DirectiveSet;
use crate::imports::import_of;
use crate::imports::import_range;
use crate::imports::is_reserved;
use crate::imports::name_crate;
use crate::imports::name_self;
use crate::imports::name_std;
use crate::imports::name_super;
use crate::imports::spec_imports;
use crate::imports::DependencySet;
use crate::text::chars_of;
use crate::text::skip_spaces_exec;
use crate::text::spec_lines;
use crate::text::split_lines;
use crate::text::str_eq;
use crate::text::string_of_range;

verus! {

/// What one source text asks for: the toolchain to pin and the dependencies
/// to add.
#[derive(Debug)]
pub struct Context {
    pub toolchain: String,
    pub imports: DependencySet,
}

impl Context {
    /// Scan a whole source text: resolve the directive block into a toolchain
    /// value (the default when no directive names one) and collect the
    /// dependency identifiers, or fail with the text's first directive error.
    pub fn parse(content: &str) -> (r: Result<Context, DirectiveError>)
        ensures
            match r {
                Result::Ok(ctx) => {
                    &&& scan_directives(content@) matches Result::Ok(cur) && ctx.toolchain@
                        == spec_toolchain(cur)
                    &&& ctx.imports@ == spec_imports(content@)
                    &&& ctx.imports.wf()
                },
                Result::Err(e) => scan_directives(content@) == Result::Err::<
                    Option<Seq<char>>,
                    DirectiveErrorSpec,
                >(e@),
            },
    {
        let options = match Context::gather_options(content) {
            Result::Ok(o) => o,
            Result::Err(e) => {
                return Result::Err(e);
            },
        };
        let toolchain = Context::parse_toolchain(&options);
        let imports = Context::parse_imports(content);
        Result::Ok(Context { toolchain, imports })
    }

    /// Scan the leading run of comment and blank lines for directive
    /// comments and fold them into a directive set, in file order with later
    /// occurrences overwriting earlier ones; stop at the first line that is
    /// neither blank nor a comment.
    pub fn gather_options(content: &str) -> (r: Result<DirectiveSet, DirectiveError>)
        ensures
            match r {
                Result::Ok(ds) => scan_directives(content@) == Result::Ok::<
                    Option<Seq<char>>,
                    DirectiveErrorSpec,
                >(ds@),
                Result::Err(e) => scan_directives(content@) == Result::Err::<
                    Option<Seq<char>>,
                    DirectiveErrorSpec,
                >(e@),
            },
    {
        let text = chars_of(content);
        let lines = split_lines(&text);
        let ghost ls = spec_lines(content@);
        let mut cur: Option<String> = Option::None;
        let mut li: usize = 0;
        while li < lines.len()
            invariant
                li <= lines@.len(),
                lines@.len() == ls.len(),
                forall|i: int| 0 <= i < ls.len() ==> (#[trigger] lines@[i])@ == ls[i],
                ls == spec_lines(content@),
                scan_from(ls, 0, Option::None) == scan_from(ls, li as int, opt_view(cur)),
            decreases lines@.len() - li,
        {
            let line = &lines[li];
            let ghost l = line@;
            let n = line.len();
            let t0 = skip_spaces_exec(line, 0);
            if t0 == n {
                // a blank line is skipped
                li = li + 1;
                continue ;
            }
            if !(t0 + 1 < n && line[t0] == '/' && line[t0 + 1] == '/') {
                // the first real code line ends the directive block
                proof {
                    assert(!is_blank_line(l));
                    assert(!is_comment_line(l));
                }
                return Result::Ok(DirectiveSet { toolchain: cur });
            }
            let j = skip_spaces_exec(line, t0 + 2);
            let mpat = marker_chars();
            let is_marker = n >= 12 && j <= n - 12 && range_is_marker(line, j, &mpat);
            if !is_marker {
                // an ordinary comment line carries no directive
                proof {
                    assert(marker().len() == 12);
                    assert(options_start(l) is None);
                }
                li = li + 1;
                continue ;
            }
            let o = skip_spaces_exec(line, j + 12);
            proof {
                assert(marker().len() == 12);
                assert(options_start(l) == Option::Some(o as int));
                assert(!is_blank_line(l));
                assert(is_comment_line(l));
            }
            cur =
            match apply_options_exec(line, o, cur) {
                Result::Ok(c2) => c2,
                Result::Err(e) => {
                    return Result::Err(e);
                },
            };
            li = li + 1;
        }
        Result::Ok(DirectiveSet { toolchain: cur })
    }

    /// The toolchain a directive set resolves to: its toolchain entry, or the
    /// default `stable` when the entry is absent.
    pub fn parse_toolchain(options: &DirectiveSet) -> (r: String)
        ensures
            r@ == spec_toolchain(options@),
    {
        match &options.toolchain {
            Option::Some(s) => s.clone(),
            Option::None => {
                let r = "stable".to_owned();
                proof {
                    reveal_strlit("stable");
                    assert(r@ =~= default_toolchain());
                }
                r
            },
        }
    }

    /// Collect the dependency identifiers of every import-shaped line in the
    /// whole text, with the four reserved names left out.
    pub fn parse_imports(content: &str) -> (r: DependencySet)
        ensures
            r@ == spec_imports(content@),
            r.wf(),
    {
        let text = chars_of(content);
        let lines = split_lines(&text);
        let ghost ls = spec_lines(content@);
        let mut deps = DependencySet::new();
        let mut li: usize = 0;
        proof {
            assert(deps@ =~= imports_up_to(ls, 0));
        }
        while li < lines.len()
            invariant
                li <= lines@.len(),
                lines@.len() == ls.len(),
                forall|i: int| 0 <= i < ls.len() ==> (#[trigger] lines@[i])@ == ls[i],
                ls == spec_lines(content@),
                deps.wf(),
                deps@ == imports_up_to(ls, li as int),
            decreases lines@.len() - li,
        {
            let line = &lines[li];
            let ghost l = line@;
            match import_range(line) {
                Option::None => {
                    proof {
                        lemma_imports_step(ls, li as int, deps@);
                    }
                },
                Option::Some((a, b)) => {
                    let id = string_of_range(line, a, b);
                    let reserved = str_eq(id.as_str(), "std") || str_eq(id.as_str(), "crate")
                        || str_eq(id.as_str(), "self") || str_eq(id.as_str(), "super");
                    proof {
                        reveal_strlit("std");
                        reveal_strlit("crate");
                        reveal_strlit("self");
                        reveal_strlit("super");
                        assert("std"@ =~= name_std());
                        assert("crate"@ =~= name_crate());
                        assert("self"@ =~= name_self());
                        assert("super"@ =~= name_super());
                        assert(reserved == is_reserved(id@));
                    }
                    if !reserved {
                        let ghost before = deps@;
                        deps.insert(id);
                        proof {
                            lemma_imports_step(ls, li as int, before);
                        }
                    } else {
                        proof {
                            lemma_imports_step(ls, li as int, deps@);
                        }
                    }
                },
            }
            li = li + 1;
        }
        proof {
            assert(imports_up_to(ls, ls.len() as int) =~= spec_imports(content@));
        }
        deps
    }
}

/// The dependency set contributed by the first `li` lines.
pub open spec fn imports_up_to(ls: Seq<Seq<char>>, li: int) -> Set<Seq<char>> {
    Set::new(
        |id: Seq<char>|
            !is_reserved(id) && exists|i: int|
                0 <= i < li && i < ls.len() && import_of(#[trigger] ls[i]) == Option::Some(id),
    )
}

/// One scanning step extends the collected set by the line's contribution,
/// when it has one and it is not reserved.
proof fn lemma_imports_step(ls: Seq<Seq<char>>, li: int, before: Set<Seq<char>>)
    requires
        0 <= li < ls.len(),
        before == imports_up_to(ls, li),
    ensures
        (match import_of(ls[li]) {
            Option::Some(id) => if is_reserved(id) {
                imports_up_to(ls, li + 1) == before
            } else {
                imports_up_to(ls, li + 1) == before.insert(id)
            },
            Option::None => imports_up_to(ls, li + 1) == before,
        }),
{
    match import_of(ls[li]) {
        Option::Some(id) => {
            if is_reserved(id) {
                assert(imports_up_to(ls, li + 1) =~= before);
            } else {
                assert forall|x: Seq<char>| imports_up_to(ls, li + 1).contains(x) implies before
                    .insert(id).contains(x) by {
                    let i = choose|i: int|
                        0 <= i < li + 1 && i < ls.len() && import_of(#[trigger] ls[i])
                            == Option::Some(x);
                    if i < li {
                        assert(before.contains(x));
                    }
                }
                assert forall|x: Seq<char>| before.insert(id).contains(x) implies imports_up_to(
                    ls,
                    li + 1,
                ).contains(x) by {
                    if x == id {
                        assert(import_of(ls[li]) == Option::Some(x));
                    }
                }
                assert(imports_up_to(ls, li + 1) =~= before.insert(id));
            }
        },
        Option::None => {
            assert(imports_up_to(ls, li + 1) =~= before);
        },
    }
}

/// Whether `line[j..j+12]` is the directive marker; a shape the directive
/// scanner checks after bounds are known.
fn range_is_marker(line: &Vec<char>, j: usize, mpat: &Vec<char>) -> (r: bool)
    requires
        j + 12 <= line@.len(),
        mpat@ == marker(),
    ensures
        r <==> line@.subrange(j as int, j as int + 12) == marker(),
{
    let n = line.len();
    proof {
        assert(marker().len() == 12);
    }
    crate::text::range_eq(line, j, j + 12, mpat)
}

} // verus!
