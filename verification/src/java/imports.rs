//! The import lines of a compilation unit.
//!
//! Every place of a unit that refers to a type offers a candidate. Two
//! candidates with the same simple name cannot both be imported: the one met
//! first is kept, and the other is written in full wherever it occurs.

use crate::java::java_source_code::{unit_imports, JavaCompilationUnit};
use crate::java::names::{
    display_name,
    in_prelude,
    is_import_type,
    is_import_worthy,
    last_segment,
    simple_name,
};
use vstd::prelude::*;

verus! {

/// Whether an entry of `imports` has the simple name `short`.
pub open spec fn names_simple(imports: Seq<Seq<char>>, short: Seq<char>) -> bool {
    exists|i: int| 0 <= i < imports.len() && simple_name(#[trigger] imports[i]) == short
}

/// The import lines that the candidates lead to: each import-worthy candidate
/// whose simple name no earlier line has taken, in the order of the candidates.
pub open spec fn resolve_imports(candidates: Seq<Seq<char>>) -> Seq<Seq<char>>
    decreases candidates.len(),
{
    if candidates.len() == 0 {
        Seq::empty()
    } else {
        let kept = resolve_imports(candidates.drop_last());
        let next = candidates.last();
        if is_import_worthy(next) && !names_simple(kept, simple_name(next)) {
            kept.push(next)
        } else {
            kept
        }
    }
}

/// No two import lines end in the same simple name.
pub proof fn law_imports_have_distinct_simple_names(candidates: Seq<Seq<char>>)
    ensures
        forall|i: int, j: int|
            #![trigger resolve_imports(candidates)[i], resolve_imports(candidates)[j]]
            0 <= i < j < resolve_imports(candidates).len() ==> simple_name(
                resolve_imports(candidates)[i],
            ) != simple_name(resolve_imports(candidates)[j]),
    decreases candidates.len(),
{
    if candidates.len() > 0 {
        law_imports_have_distinct_simple_names(candidates.drop_last());
        let kept = resolve_imports(candidates.drop_last());
        let all = resolve_imports(candidates);
        assert forall|i: int, j: int| 0 <= i < j < all.len() implies simple_name(all[i])
            != simple_name(all[j]) by {
            if j < kept.len() {
                assert(all[i] == kept[i] && all[j] == kept[j]);
            } else {
                assert(all[i] == kept[i]);
            }
        }
    }
}

/// Every import line is one of the candidates and needs an import.
pub proof fn law_imports_are_worthy_candidates(candidates: Seq<Seq<char>>)
    ensures
        forall|i: int|
            0 <= i < resolve_imports(candidates).len() ==> is_import_worthy(
                #[trigger] resolve_imports(candidates)[i],
            ) && candidates.contains(resolve_imports(candidates)[i]),
    decreases candidates.len(),
{
    if candidates.len() > 0 {
        let shorter = candidates.drop_last();
        law_imports_are_worthy_candidates(shorter);
        let kept = resolve_imports(shorter);
        let all = resolve_imports(candidates);
        assert forall|i: int| 0 <= i < all.len() implies is_import_worthy(#[trigger] all[i])
            && candidates.contains(all[i]) by {
            if i < kept.len() {
                assert(all[i] == kept[i]);
                let k = choose|k: int| 0 <= k < shorter.len() && shorter[k] == kept[i];
                assert(candidates[k] == kept[i]);
            } else {
                assert(all[i] == candidates[candidates.len() - 1]);
            }
        }
    }
}

/// The simple name of every import-worthy candidate is taken by an import line.
pub proof fn law_every_candidate_is_covered(candidates: Seq<Seq<char>>, k: int)
    requires
        0 <= k < candidates.len(),
        is_import_worthy(candidates[k]),
    ensures
        names_simple(resolve_imports(candidates), simple_name(candidates[k])),
    decreases candidates.len(),
{
    let shorter = candidates.drop_last();
    let kept = resolve_imports(shorter);
    let all = resolve_imports(candidates);
    if k < candidates.len() - 1 {
        law_every_candidate_is_covered(shorter, k);
        let i = choose|i: int|
            0 <= i < kept.len() && simple_name(#[trigger] kept[i]) == simple_name(candidates[k]);
        assert(all[i] == kept[i]);
    } else {
        if names_simple(kept, simple_name(candidates[k])) {
            let i = choose|i: int|
                0 <= i < kept.len() && simple_name(#[trigger] kept[i]) == simple_name(
                    candidates[k],
                );
            assert(all[i] == kept[i]);
        } else {
            assert(all[kept.len() as int] == candidates[k]);
        }
    }
}

/// Among candidates with the same simple name the first one is imported.
pub proof fn law_first_candidate_wins(candidates: Seq<Seq<char>>, k: int)
    requires
        0 <= k < candidates.len(),
        is_import_worthy(candidates[k]),
        forall|j: int|
            0 <= j < k && is_import_worthy(candidates[j]) ==> simple_name(#[trigger] candidates[j])
                != simple_name(candidates[k]),
    ensures
        resolve_imports(candidates).contains(candidates[k]),
    decreases candidates.len(),
{
    let shorter = candidates.drop_last();
    let kept = resolve_imports(shorter);
    let all = resolve_imports(candidates);
    if k < candidates.len() - 1 {
        law_first_candidate_wins(shorter, k);
        let i = choose|i: int| 0 <= i < kept.len() && kept[i] == candidates[k];
        assert(all[i] == kept[i]);
    } else {
        if names_simple(kept, simple_name(candidates[k])) {
            let i = choose|i: int|
                0 <= i < kept.len() && simple_name(#[trigger] kept[i]) == simple_name(
                    candidates[k],
                );
            law_imports_are_worthy_candidates(shorter);
            let j = choose|j: int| 0 <= j < shorter.len() && shorter[j] == kept[i];
            assert(candidates[j] == kept[i]);
            assert(false);
        }
        assert(all[kept.len() as int] == candidates[k]);
    }
}

/// A type name is never written in a form that stands for another type of
/// the unit: it is shown in full, or by a simple name that no import line of
/// another type shares.
pub proof fn law_display_is_faithful(candidates: Seq<Seq<char>>, name: Seq<char>)
    ensures
        ({
            let imports = resolve_imports(candidates);
            let shown = display_name(name, imports);
            &&& shown == name || shown == simple_name(name)
            &&& shown != name ==> in_prelude(name) || imports.contains(name)
            &&& imports.contains(name) ==> forall|i: int|
                0 <= i < imports.len() && simple_name(#[trigger] imports[i]) == simple_name(name)
                    ==> imports[i] == name
        }),
{
    let imports = resolve_imports(candidates);
    law_imports_have_distinct_simple_names(candidates);
    if imports.contains(name) {
        let k = choose|k: int| 0 <= k < imports.len() && imports[k] == name;
        assert forall|i: int|
            0 <= i < imports.len() && simple_name(#[trigger] imports[i]) == simple_name(
                name,
            ) implies imports[i] == name by {
            if i < k {
                assert(simple_name(imports[i]) != simple_name(imports[k]));
            } else if k < i {
                assert(simple_name(imports[k]) != simple_name(imports[i]));
            }
        }
    }
}

/// Whether an entry of `shorts` equals `short`.
fn holds_text(shorts: &Vec<String>, short: &String) -> (found: bool)
    ensures
        found == shorts.deep_view().contains(short@),
{
    let mut i: usize = 0;
    while i < shorts.len()
        invariant
            i <= shorts.len(),
            forall|k: int| 0 <= k < i ==> shorts@[k]@ != short@,
        decreases shorts.len() - i,
    {
        if shorts[i] == *short {
            proof {
                assert(shorts.deep_view()[i as int] == short@);
            }
            return true;
        }
        i = i + 1;
    }
    proof {
        if shorts.deep_view().contains(short@) {
            let k = choose|k: int|
                0 <= k < shorts.deep_view().len() && shorts.deep_view()[k] == short@;
            assert(shorts@[k]@ == short@);
        }
    }
    false
}

/// The import lines that `candidates` lead to.
pub fn resolve(candidates: &Vec<String>) -> (imports: Vec<String>)
    ensures
        imports.deep_view() == resolve_imports(candidates.deep_view()),
{
    let ghost all = candidates.deep_view();
    let mut imports: Vec<String> = Vec::new();
    let mut shorts: Vec<String> = Vec::new();
    let mut i: usize = 0;
    proof {
        assert(all.take(0) =~= Seq::<Seq<char>>::empty());
        assert(imports.deep_view() =~= Seq::<Seq<char>>::empty());
    }
    while i < candidates.len()
        invariant
            i <= candidates.len(),
            all == candidates.deep_view(),
            imports.deep_view() == resolve_imports(all.take(i as int)),
            shorts.len() == imports.len(),
            forall|k: int| 0 <= k < imports.len() ==> shorts@[k]@ == simple_name(imports@[k]@),
        decreases candidates.len() - i,
    {
        let ghost kept = imports.deep_view();
        proof {
            assert(all.take(i + 1).drop_last() =~= all.take(i as int));
            assert(all.take(i + 1).last() == candidates@[i as int]@);
        }
        if is_import_type(candidates[i].as_str()) {
            let short = last_segment(candidates[i].as_str());
            let taken = holds_text(&shorts, &short);
            proof {
                if shorts.deep_view().contains(short@) {
                    let k = choose|k: int|
                        0 <= k < shorts.deep_view().len() && shorts.deep_view()[k] == short@;
                    assert(simple_name(kept[k]) == short@);
                }
                if names_simple(kept, short@) {
                    let k = choose|k: int|
                        0 <= k < kept.len() && simple_name(#[trigger] kept[k]) == short@;
                    assert(shorts.deep_view()[k] == short@);
                }
            }
            if !taken {
                imports.push(candidates[i].clone());
                shorts.push(short);
                proof {
                    assert(imports.deep_view() =~= kept.push(candidates@[i as int]@));
                }
            }
        }
        i = i + 1;
    }
    proof {
        assert(all.take(candidates.len() as int) =~= all);
    }
    imports
}

/// The import lines of `unit`: every type name that the unit refers to and
/// that needs an import, once for each simple name and in the order in which
/// the unit refers to them.
pub fn discover_imports(unit: &JavaCompilationUnit) -> (imports: Vec<String>)
    ensures
        imports.deep_view() == resolve_imports(unit_imports(unit@)),
{
    let candidates = unit.determine_imports();
    resolve(&candidates)
}

} // verus!
