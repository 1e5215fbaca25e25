//! The dependency scanner's model: every line of the text that matches the
//! import pattern — optional leading whitespace, the `use` keyword, at least
//! one whitespace character, then a bare identifier — contributes its leading
//! identifier to the dependency set. The four reserved self-referential names
//! are never part of the set.

use vstd::prelude::*;
use crate::text::is_space;
use crate::text::is_space_exec;
use crate::text::is_word_char;
use crate::text::is_word_char_exec;
use crate::text::range_eq;
use crate::text::skip_spaces;
use crate::text::skip_spaces_exec;
use crate::text::skip_word_chars;
use crate::text::skip_word_chars_exec;
use crate::text::spec_lines;
use crate::text::str_eq;

verus! {

/// The standard-library root name.
pub open spec fn name_std() -> Seq<char> {
    seq!['s', 't', 'd']
}

/// The current-crate name.
pub open spec fn name_crate() -> Seq<char> {
    seq!['c', 'r', 'a', 't', 'e']
}

/// The self-reference name.
pub open spec fn name_self() -> Seq<char> {
    seq!['s', 'e', 'l', 'f']
}

/// The parent-module name.
pub open spec fn name_super() -> Seq<char> {
    seq!['s', 'u', 'p', 'e', 'r']
}

/// The reserved names that are never installable dependencies.
pub open spec fn is_reserved(id: Seq<char>) -> bool {
    id == name_std() || id == name_crate() || id == name_self() || id == name_super()
}

/// The import keyword.
pub open spec fn use_keyword() -> Seq<char> {
    seq!['u', 's', 'e']
}

/// The identifier an import-shaped line contributes: after optional leading
/// whitespace, the `use` keyword, then at least one whitespace character, the
/// longest run of word characters — only the first path segment, and nothing
/// when that run is empty.
pub open spec fn import_of(line: Seq<char>) -> Option<Seq<char>> {
    let i = skip_spaces(line, 0);
    if i + 3 < line.len() && line.subrange(i, i + 3) == use_keyword() && is_space(line[i + 3]) {
        let k = skip_spaces(line, i + 3);
        if k < line.len() && is_word_char(line[k]) {
            Option::Some(line.subrange(k, skip_word_chars(line, k)))
        } else {
            Option::None
        }
    } else {
        Option::None
    }
}

/// The dependency set of a text: every identifier captured from an
/// import-shaped line anywhere in the text, with the reserved names left out.
pub open spec fn spec_imports(text: Seq<char>) -> Set<Seq<char>> {
    Set::new(
        |id: Seq<char>|
            !is_reserved(id) && exists|i: int|
                0 <= i < spec_lines(text).len() && import_of(#[trigger] spec_lines(text)[i])
                    == Option::Some(id),
    )
}

/// A set of distinct dependency identifiers; insertion order carries no
/// meaning.
#[derive(Debug)]
pub struct DependencySet {
    names: Vec<String>,
}

impl View for DependencySet {
    type V = Set<Seq<char>>;

    closed spec fn view(&self) -> Set<Seq<char>> {
        Set::new(
            |id: Seq<char>|
                exists|j: int| 0 <= j < self.names@.len() && (#[trigger] self.names@[j])@ == id,
        )
    }
}

impl DependencySet {
    /// The identifiers, in the (meaningless) order they are held.
    pub closed spec fn names_view(&self) -> Seq<Seq<char>> {
        self.names@.map_values(|s: String| s@)
    }

    /// Well-formed: no identifier is held twice, and the held identifiers are
    /// exactly the set.
    pub open spec fn wf(&self) -> bool {
        &&& (forall|j1: int, j2: int|
            0 <= j1 < j2 < self.names_view().len() ==> self.names_view()[j1]
                != self.names_view()[j2])
        &&& (forall|j: int|
            0 <= j < self.names_view().len() ==> self@.contains(#[trigger] self.names_view()[j]))
        &&& (forall|id: Seq<char>|
            self@.contains(id) ==> exists|j: int|
                0 <= j < self.names_view().len() && #[trigger] self.names_view()[j] == id)
    }

    /// An empty dependency set.
    pub fn new() -> (r: DependencySet)
        ensures
            r@ == Set::<Seq<char>>::empty(),
            r.wf(),
            r.names_view().len() == 0,
    {
        let r = DependencySet { names: Vec::new() };
        proof {
            assert(r@ =~= Set::<Seq<char>>::empty());
        }
        r
    }

    /// Whether the set holds the given identifier.
    pub fn contains(&self, name: &str) -> (r: bool)
        ensures
            r == self@.contains(name@),
    {
        let mut j: usize = 0;
        while j < self.names.len()
            invariant
                j <= self.names@.len(),
                forall|l: int| 0 <= l < j ==> (#[trigger] self.names@[l])@ != name@,
            decreases self.names@.len() - j,
        {
            if str_eq(self.names[j].as_str(), name) {
                return true;
            }
            j = j + 1;
        }
        false
    }

    /// Add an identifier; adding one already present changes nothing.
    pub fn insert(&mut self, name: String)
        requires
            old(self).wf(),
        ensures
            final(self).wf(),
            final(self)@ == old(self)@.insert(name@),
            final(self).names_view() == (if old(self)@.contains(name@) {
                old(self).names_view()
            } else {
                old(self).names_view().push(name@)
            }),
    {
        if !self.contains(name.as_str()) {
            let ghost old_self = *self;
            let ghost nv = name@;
            self.names.push(name);
            proof {
                let n = old_self.names@.len() as int;
                assert(self.names@[n]@ == nv);
                assert forall|j: int| 0 <= j < n implies #[trigger] self.names_view()[j]
                    == old_self.names_view()[j] by {
                    assert(self.names@[j] == old_self.names@[j]);
                }
                assert(self.names_view() =~= old_self.names_view().push(nv));
                assert forall|id: Seq<char>| #[trigger] self@.contains(id) implies old_self@
                    .contains(id) || id == nv by {
                    let j = choose|j: int|
                        0 <= j < self.names@.len() && (#[trigger] self.names@[j])@ == id;
                    if j < n {
                        assert(old_self.names@[j]@ == id);
                    }
                }
                assert forall|id: Seq<char>| #[trigger] old_self@.contains(id) implies self@
                    .contains(id) by {
                    let j = choose|j: int|
                        0 <= j < old_self.names@.len() && (#[trigger] old_self.names@[j])@ == id;
                    assert(self.names@[j]@ == id);
                }
                assert(self@.contains(nv));
                assert(self@ =~= old_self@.insert(nv));
                assert forall|j1: int, j2: int| 0 <= j1 < j2 < self.names_view().len() implies self
                    .names_view()[j1] != self.names_view()[j2] by {
                    if j2 == n {
                        assert(old_self@.contains(old_self.names_view()[j1]));
                    }
                }
                assert forall|j: int| 0 <= j < self.names_view().len() implies self@.contains(
                    #[trigger] self.names_view()[j],
                ) by {
                    assert(self.names_view()[j] == self.names@[j]@);
                }
                assert forall|id: Seq<char>| self@.contains(id) implies exists|j: int|
                    0 <= j < self.names_view().len() && #[trigger] self.names_view()[j] == id by {
                    let j = choose|j: int|
                        0 <= j < self.names@.len() && (#[trigger] self.names@[j])@ == id;
                    assert(self.names_view()[j] == id);
                }
            }
        } else {
            proof {
                assert(self@ =~= self@.insert(name@));
            }
        }
    }

    /// How many identifiers the set holds.
    pub fn len(&self) -> (r: usize)
        ensures
            r == self.names_view().len(),
    {
        self.names.len()
    }

    /// The identifier at the given position.
    pub fn name_at(&self, i: usize) -> (s: &String)
        requires
            i < self.names_view().len(),
        ensures
            s@ == self.names_view()[i as int],
            self@.contains(s@),
    {
        &self.names[i]
    }
}

/// The characters of the import keyword, for executable matching.
pub(crate) fn use_chars() -> (v: Vec<char>)
    ensures
        v@ == use_keyword(),
{
    let mut v: Vec<char> = Vec::new();
    v.push('u');
    v.push('s');
    v.push('e');
    proof {
        assert(v@ =~= use_keyword());
    }
    v
}

/// The range of the identifier an import-shaped line captures, the executable
/// counterpart of `import_of`.
pub(crate) fn import_range(line: &Vec<char>) -> (r: Option<(usize, usize)>)
    ensures
        match r {
            Option::Some(p) => p.0 <= p.1 <= line@.len() && import_of(line@) == Option::Some(
                line@.subrange(p.0 as int, p.1 as int),
            ),
            Option::None => import_of(line@) is None,
        },
{
    let n = line.len();
    let t0 = skip_spaces_exec(line, 0);
    if !(n > 3 && t0 < n - 3) {
        return Option::None;
    }
    let upat = use_chars();
    if !range_eq(line, t0, t0 + 3, &upat) {
        return Option::None;
    }
    if !is_space_exec(line[t0 + 3]) {
        return Option::None;
    }
    let k = skip_spaces_exec(line, t0 + 3);
    if !(k < n && is_word_char_exec(line[k])) {
        return Option::None;
    }
    let m = skip_word_chars_exec(line, k);
    Option::Some((k, m))
}

/// The four reserved names are never in a text's dependency set, whatever the
/// text holds.
pub proof fn lemma_reserved_never_included(text: Seq<char>)
    ensures
        !spec_imports(text).contains(name_std()),
        !spec_imports(text).contains(name_crate()),
        !spec_imports(text).contains(name_self()),
        !spec_imports(text).contains(name_super()),
{
}

/// The dependency set does not depend on the order lines appear in: two texts
/// whose lines are a rearrangement of one another have the same set.
pub proof fn lemma_imports_order_independent(t1: Seq<char>, t2: Seq<char>)
    requires
        spec_lines(t1).to_multiset() == spec_lines(t2).to_multiset(),
    ensures
        spec_imports(t1) == spec_imports(t2),
{
    broadcast use vstd::seq_lib::group_to_multiset_ensures;
    broadcast use vstd::multiset::group_multiset_axioms;

    assert forall|id: Seq<char>| spec_imports(t1).contains(id) implies spec_imports(t2).contains(
        id,
    ) by {
        let i = choose|i: int|
            0 <= i < spec_lines(t1).len() && import_of(#[trigger] spec_lines(t1)[i])
                == Option::Some(id);
        let l = spec_lines(t1)[i];
        assert(spec_lines(t1).contains(l));
        assert(spec_lines(t1).to_multiset().count(l) > 0);
        assert(spec_lines(t2).contains(l));
        let j = choose|j: int| 0 <= j < spec_lines(t2).len() && spec_lines(t2)[j] == l;
        assert(import_of(spec_lines(t2)[j]) == Option::Some(id));
    }
    assert forall|id: Seq<char>| spec_imports(t2).contains(id) implies spec_imports(t1).contains(
        id,
    ) by {
        let i = choose|i: int|
            0 <= i < spec_lines(t2).len() && import_of(#[trigger] spec_lines(t2)[i])
                == Option::Some(id);
        let l = spec_lines(t2)[i];
        assert(spec_lines(t2).contains(l));
        assert(spec_lines(t2).to_multiset().count(l) > 0);
        assert(spec_lines(t1).contains(l));
        let j = choose|j: int| 0 <= j < spec_lines(t1).len() && spec_lines(t1)[j] == l;
        assert(import_of(spec_lines(t1)[j]) == Option::Some(id));
    }
    assert(spec_imports(t1) =~= spec_imports(t2));
}

} // verus!
