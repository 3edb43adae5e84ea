//! Type names: which are qualified, which need an import, and how a name is
//! shortened to its last segment.

use crate::text::{contains_char, starts_with};
use vstd::prelude::*;

verus! {

/// A name is qualified when it holds a package separator.
pub open spec fn is_qualified(name: Seq<char>) -> bool {
    name.contains('.')
}

/// Names under `java.lang` are visible in every compilation unit without an import.
pub open spec fn in_prelude(name: Seq<char>) -> bool {
    "java.lang."@.is_prefix_of(name)
}

/// A name needs an import line when it is qualified and lies outside `java.lang`.
pub open spec fn is_import_worthy(name: Seq<char>) -> bool {
    is_qualified(name) && !in_prelude(name)
}

/// What follows the last separator of `name`; all of `name` where it has none.
pub open spec fn simple_name(name: Seq<char>) -> Seq<char> {
    match name.index_of_last('.') {
        Some(i) => name.subrange(i + 1, name.len() as int),
        None => name,
    }
}

/// How a type name is written inside a compilation unit whose import lines are
/// `imports`: shortened where the short form is certain to mean this very type
/// (a `java.lang` type, or one of the imports), left as it stands otherwise.
pub open spec fn display_name(name: Seq<char>, imports: Seq<Seq<char>>) -> Seq<char> {
    if !is_qualified(name) {
        name
    } else if in_prelude(name) || imports.contains(name) {
        simple_name(name)
    } else {
        name
    }
}

/// Appending a character to a name either starts a new last segment or extends it.
pub(crate) proof fn lemma_simple_name_push(name: Seq<char>, c: char)
    ensures
        simple_name(name.push(c)) == if c == '.' {
            Seq::<char>::empty()
        } else {
            simple_name(name).push(c)
        },
{
    let longer = name.push(c);
    name.index_of_last_ensures('.');
    longer.index_of_last_ensures('.');
    if c == '.' {
        assert(longer[name.len() as int] == '.');
        let i = longer.index_of_last('.').unwrap();
        assert(i == name.len());
        assert(longer.subrange(i + 1, longer.len() as int) =~= Seq::<char>::empty());
    } else if name.contains('.') {
        let i = name.index_of_last('.').unwrap();
        assert(longer[i] == '.');
        let j = longer.index_of_last('.').unwrap();
        assert(j < name.len());
        assert(name[j] == '.');
        assert(i == j);
        assert(longer.subrange(j + 1, longer.len() as int) =~= name.subrange(
            i + 1,
            name.len() as int,
        ).push(c));
    } else {
        if longer.contains('.') {
            let j = longer.index_of_last('.').unwrap();
            assert(name[j] == '.');
        }
    }
}

/// The simple name of a type holds no separator.
pub proof fn law_simple_name_is_unqualified(name: Seq<char>)
    ensures
        !is_qualified(simple_name(name)),
{
    name.index_of_last_ensures('.');
    let short = simple_name(name);
    if short.contains('.') {
        let k = choose|k: int| 0 <= k < short.len() && short[k] == '.';
        match name.index_of_last('.') {
            Some(i) => {
                assert(name[i + 1 + k] == '.');
            },
            None => {},
        }
    }
}

/// Whether `ty` must be imported before it can be written by its simple name.
pub fn is_import_type(ty: &str) -> (worthy: bool)
    ensures
        worthy == is_import_worthy(ty@),
{
    contains_char(ty, '.') && !starts_with(ty, "java.lang.")
}

/// The last segment of a possibly qualified name.
pub fn get_unqualified_name(name: String) -> (short: String)
    ensures
        short@ == simple_name(name@),
{
    last_segment(name.as_str())
}

/// The last segment of a possibly qualified name.
pub fn last_segment(name: &str) -> (short: String)
    ensures
        short@ == simple_name(name@),
{
    let mut short = String::new();
    proof {
        Seq::<char>::empty().index_of_last_ensures('.');
        assert(name@.take(0) =~= Seq::<char>::empty());
    }
    for c in it: name.chars()
        invariant
            it.seq() == name@,
            short@ == simple_name(it.seq().take(it.index())),
    {
        proof {
            lemma_simple_name_push(it.seq().take(it.index()), c);
            assert(it.seq().take(it.index() + 1) == it.seq().take(it.index()).push(c));
        }
        if c == '.' {
            short = String::new();
        } else {
            short.push(c);
        }
    }
    proof {
        assert(name@.take(name@.len() as int) =~= name@);
    }
    short
}

/// Whether `imports` holds exactly the name `name`.
pub fn is_imported(name: &String, imports: &Vec<String>) -> (found: bool)
    ensures
        found == imports.deep_view().contains(name@),
{
    let mut i: usize = 0;
    while i < imports.len()
        invariant
            i <= imports.len(),
            forall|k: int| 0 <= k < i ==> imports@[k]@ != name@,
        decreases imports.len() - i,
    {
        if imports[i] == *name {
            proof {
                assert(imports.deep_view()[i as int] == name@);
            }
            return true;
        }
        i = i + 1;
    }
    proof {
        if imports.deep_view().contains(name@) {
            let k = choose|k: int|
                0 <= k < imports.deep_view().len() && imports.deep_view()[k] == name@;
            assert(imports@[k]@ == name@);
        }
    }
    false
}

/// The form in which `name` is written inside a unit that imports `imports`.
pub fn display_text(name: &String, imports: &Vec<String>) -> (shown: String)
    ensures
        shown@ == display_name(name@, imports.deep_view()),
{
    if !contains_char(name.as_str(), '.') {
        name.clone()
    } else if starts_with(name.as_str(), "java.lang.") || is_imported(name, imports) {
        last_segment(name.as_str())
    } else {
        name.clone()
    }
}

} // verus!
