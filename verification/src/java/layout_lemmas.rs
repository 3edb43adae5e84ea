//! What the emitter needs to know about the text it is held to: how lists of
//! annotations come out, and that a fault, once met, is the fault of the whole.

use crate::java::annotation::{annotation_text, AnnotationView};
use crate::java::java_source_code::{MethodView, TypeView};
use crate::java::layout::{
    annotation_block,
    annotation_end,
    annotation_lines,
    inline_annotations,
    lead,
    method_text,
    method_written,
    methods_fault,
    methods_text,
    methods_written,
    plain_annotations,
    statement_text,
    statements_fault,
    statements_written,
    type_text,
    type_written,
    types_fault,
    types_text,
    types_written,
};
use crate::java::template::StatementView;
use crate::text::{
    lemma_concat_assoc,
    lemma_concat_nothing,
    lemma_flatten_ends,
    lemma_flatten_step,
    lemma_regroup_3,
};
use vstd::prelude::*;

verus! {

/// Annotations that ask for indentation each stand behind `pad`.
pub(crate) proof fn lemma_indented_block(list: Seq<AnnotationView>, owed: bool, pad: Seq<char>)
    ensures
        annotation_block(list, owed, true, true, pad) == annotation_lines(list, pad),
    decreases list.len(),
{
    let each = list.map_values(|a: AnnotationView| pad + annotation_text(a) + "\n"@);
    if list.len() == 0 {
        lemma_flatten_ends(each);
        assert(each.take(0) =~= each);
    } else {
        let shorter = list.drop_last();
        lemma_indented_block(shorter, owed, pad);
        let before = shorter.map_values(|a: AnnotationView| pad + annotation_text(a) + "\n"@);
        let last = pad + annotation_text(list.last()) + "\n"@;
        assert(each =~= before.push(last));
        before.lemma_flatten_push(last);
        lemma_regroup_3(before.flatten(), pad, annotation_text(list.last()), "\n"@);
    }
}

/// Annotations that ask for no indentation get only what the writer owed, in
/// front of the first.
pub(crate) proof fn lemma_plain_block(
    list: Seq<AnnotationView>,
    owed: bool,
    need_wrap: bool,
    pad: Seq<char>,
)
    ensures
        annotation_block(list, owed, false, need_wrap, pad) == if list.len() == 0 {
            Seq::<char>::empty()
        } else if owed {
            pad + plain_annotations(list, need_wrap)
        } else {
            plain_annotations(list, need_wrap)
        },
        list.len() == 0 ==> plain_annotations(list, need_wrap) == Seq::<char>::empty(),
    decreases list.len(),
{
    let each = list.map_values(|a: AnnotationView| annotation_text(a) + annotation_end(need_wrap));
    if list.len() == 0 {
        lemma_flatten_ends(each);
        assert(each.take(0) =~= each);
    } else {
        let shorter = list.drop_last();
        lemma_plain_block(shorter, owed, need_wrap, pad);
        let before = shorter.map_values(
            |a: AnnotationView| annotation_text(a) + annotation_end(need_wrap),
        );
        let text = annotation_text(list.last());
        let end = annotation_end(need_wrap);
        let last = text + end;
        assert(each =~= before.push(last));
        before.lemma_flatten_push(last);
        let block = annotation_block(shorter, owed, false, need_wrap, pad);
        if list.len() == 1 {
            assert(block == Seq::<char>::empty());
            assert(before.flatten() == Seq::<char>::empty());
            lemma_concat_nothing(last);
            lemma_concat_nothing(pad);
            lemma_concat_nothing(text);
            if owed {
                lemma_concat_assoc(pad, text, end);
            } else {
                assert(lead(false, pad) == Seq::<char>::empty());
            }
        } else {
            assert(lead(false, pad) == Seq::<char>::empty());
            lemma_concat_nothing(block);
            lemma_concat_assoc(block, text, end);
            if owed {
                lemma_concat_assoc(pad, before.flatten(), last);
            }
        }
    }
}

/// What stands in the text when annotations that ask for no indentation are
/// followed by one more write.
pub(crate) proof fn lemma_plain_then(
    start: Seq<char>,
    list: Seq<AnnotationView>,
    owed: bool,
    need_wrap: bool,
    pad: Seq<char>,
    next: Seq<char>,
)
    ensures
        ({
            let block = annotation_block(list, owed, false, need_wrap, pad);
            let plain = plain_annotations(list, need_wrap);
            let written = if owed && list.len() == 0 {
                start + block + pad + next
            } else {
                start + block + next
            };
            written == if owed {
                start + pad + (plain + next)
            } else {
                start + (plain + next)
            }
        }),
{
    lemma_plain_block(list, owed, need_wrap, pad);
    let plain = plain_annotations(list, need_wrap);
    lemma_concat_nothing(start);
    lemma_concat_nothing(next);
    if list.len() > 0 {
        if owed {
            lemma_concat_assoc(start, pad, plain);
            lemma_concat_assoc(start + pad, plain, next);
        } else {
            lemma_concat_assoc(start, plain, next);
        }
    }
}

/// Annotations written without indentation, each ending its line, are lines
/// without indentation.
pub(crate) proof fn lemma_unindented_lines(list: Seq<AnnotationView>)
    ensures
        plain_annotations(list, true) == annotation_lines(list, Seq::empty()),
{
    assert forall|a: AnnotationView|
        #[trigger] annotation_text(a) + annotation_end(true) == Seq::<char>::empty()
            + annotation_text(a) + "\n"@ by {
        lemma_concat_nothing(annotation_text(a));
    }
    assert(list.map_values(|a: AnnotationView| annotation_text(a) + annotation_end(true))
        =~= list.map_values(
        |a: AnnotationView| Seq::<char>::empty() + annotation_text(a) + "\n"@,
    ));
}

/// Annotations written without indentation and without line breaks stand
/// on one line, one behind the other.
pub(crate) proof fn lemma_inline_block(list: Seq<AnnotationView>)
    ensures
        plain_annotations(list, false) == inline_annotations(list),
{
    assert forall|a: AnnotationView|
        #[trigger] annotation_text(a) + annotation_end(false) == annotation_text(a) by {
        lemma_concat_nothing(annotation_text(a));
    }
    assert(list.map_values(|a: AnnotationView| annotation_text(a) + annotation_end(false))
        =~= list.map_values(|a: AnnotationView| annotation_text(a)));
}

/// A fault among the first `k` statements is the first fault of them all.
pub(crate) proof fn lemma_statement_fault_stays(
    statements: Seq<StatementView>,
    imports: Seq<Seq<char>>,
    k: int,
)
    requires
        0 <= k <= statements.len(),
        statements_fault(statements.take(k), imports) is Some,
    ensures
        statements_fault(statements, imports) == statements_fault(statements.take(k), imports),
    decreases statements.len() - k,
{
    if k < statements.len() {
        assert(statements.take(k + 1).drop_last() =~= statements.take(k));
        lemma_statement_fault_stays(statements, imports, k + 1);
    } else {
        assert(statements.take(k) =~= statements);
    }
}

/// Where the statement at the place `k` is the first one at fault, the lines
/// of the statements before it are what is written.
pub(crate) proof fn lemma_statements_stop(
    statements: Seq<StatementView>,
    imports: Seq<Seq<char>>,
    pad: Seq<char>,
    k: int,
)
    requires
        0 <= k < statements.len(),
        k <= usize::MAX,
        statements_fault(statements.take(k), imports) is None,
        statements_fault(statements.take(k + 1), imports) is Some,
    ensures
        statements_fault(statements, imports) == statements_fault(statements.take(k + 1), imports),
        statements_fault(statements, imports) matches Some(found) && found.0 == k,
        statements_written(statements, imports, pad) == statements.map_values(
            |s: StatementView| pad + statement_text(s, imports) + " \n"@,
        ).take(k).flatten(),
{
    lemma_statement_fault_stays(statements, imports, k + 1);
    assert(statements.take(k + 1).drop_last() =~= statements.take(k));
    assert(statements.take(k).map_values(
        |s: StatementView| pad + statement_text(s, imports) + " \n"@,
    ) =~= statements.map_values(
        |s: StatementView| pad + statement_text(s, imports) + " \n"@,
    ).take(k));
}

/// A fault among the first `k` methods is the first fault of them all, and
/// what is written of them is what is written of all.
pub(crate) proof fn lemma_method_fault_stays(
    methods: Seq<MethodView>,
    imports: Seq<Seq<char>>,
    pad: Seq<char>,
    deeper: Seq<char>,
    k: int,
)
    requires
        0 <= k <= methods.len(),
        methods_fault(methods.take(k), imports) is Some,
    ensures
        methods_fault(methods, imports) == methods_fault(methods.take(k), imports),
        methods_written(methods, imports, pad, deeper) == methods_written(
            methods.take(k),
            imports,
            pad,
            deeper,
        ),
    decreases methods.len() - k,
{
    if k < methods.len() {
        assert(methods.take(k + 1).drop_last() =~= methods.take(k));
        lemma_method_fault_stays(methods, imports, pad, deeper, k + 1);
    } else {
        assert(methods.take(k) =~= methods);
    }
}

/// Where the method at the place `k` is the first one with a statement at
/// fault, the methods before it and what is written of it are what is written.
pub(crate) proof fn lemma_methods_stop(
    methods: Seq<MethodView>,
    imports: Seq<Seq<char>>,
    pad: Seq<char>,
    deeper: Seq<char>,
    k: int,
)
    requires
        0 <= k < methods.len(),
        methods_fault(methods.take(k), imports) is None,
        statements_fault(methods[k].statements, imports) is Some,
    ensures
        methods_fault(methods, imports) == methods_fault(methods.take(k + 1), imports),
        methods_written(methods, imports, pad, deeper) == methods_text(
            methods.take(k),
            imports,
            pad,
            deeper,
        ) + method_written(methods[k], imports, pad, deeper),
{
    assert(methods.take(k + 1).drop_last() =~= methods.take(k));
    assert(methods.take(k + 1).last() == methods[k]);
    lemma_method_fault_stays(methods, imports, pad, deeper, k + 1);
}

/// A fault among the first `k` classes is the first fault of them all, and
/// what is written of them is what is written of all.
pub(crate) proof fn lemma_type_fault_stays(
    types: Seq<TypeView>,
    imports: Seq<Seq<char>>,
    pad: Seq<char>,
    deeper: Seq<char>,
    k: int,
)
    requires
        0 <= k <= types.len(),
        types_fault(types.take(k), imports) is Some,
    ensures
        types_fault(types, imports) == types_fault(types.take(k), imports),
        types_written(types, imports, pad, deeper) == types_written(
            types.take(k),
            imports,
            pad,
            deeper,
        ),
    decreases types.len() - k,
{
    if k < types.len() {
        assert(types.take(k + 1).drop_last() =~= types.take(k));
        lemma_type_fault_stays(types, imports, pad, deeper, k + 1);
    } else {
        assert(types.take(k) =~= types);
    }
}

/// Where the class at the place `k` is the first one with a statement at
/// fault, the classes before it and what is written of it are what is written.
pub(crate) proof fn lemma_types_stop(
    types: Seq<TypeView>,
    imports: Seq<Seq<char>>,
    pad: Seq<char>,
    deeper: Seq<char>,
    k: int,
)
    requires
        0 <= k < types.len(),
        types_fault(types.take(k), imports) is None,
        methods_fault(types[k].methods, imports) is Some,
    ensures
        types_fault(types, imports) == types_fault(types.take(k + 1), imports),
        types_written(types, imports, pad, deeper) == types_text(
            types.take(k),
            imports,
            pad,
            deeper,
        ) + type_written(types[k], imports, pad, deeper),
{
    assert(types.take(k + 1).drop_last() =~= types.take(k));
    assert(types.take(k + 1).last() == types[k]);
    lemma_type_fault_stays(types, imports, pad, deeper, k + 1);
}

/// The text that stands behind `base` once the class at the place `k`, the
/// first one with a statement at fault, has stopped the writing: the classes
/// before it and what is written of it.
pub(crate) proof fn lemma_types_stopped(
    base: Seq<char>,
    types: Seq<TypeView>,
    imports: Seq<Seq<char>>,
    pad: Seq<char>,
    deeper: Seq<char>,
    k: int,
)
    requires
        0 <= k < types.len(),
        types_fault(types.take(k), imports) is None,
        methods_fault(types[k].methods, imports) is Some,
    ensures
        types_fault(types, imports) == methods_fault(types[k].methods, imports),
        base + types_written(types, imports, pad, deeper) == if k == 0 {
            base + type_written(types[k], imports, pad, deeper)
        } else {
            base + types.map_values(|t: TypeView| type_text(t, imports, pad, deeper)).take(
                k,
            ).flatten() + type_written(types[k], imports, pad, deeper)
        },
{
    let each = types.map_values(|t: TypeView| type_text(t, imports, pad, deeper));
    let partial = type_written(types[k], imports, pad, deeper);
    lemma_types_stop(types, imports, pad, deeper, k);
    assert(types.take(k + 1).drop_last() =~= types.take(k));
    assert(types.take(k + 1).last() == types[k]);
    assert(types.take(k).map_values(|t: TypeView| type_text(t, imports, pad, deeper))
        =~= each.take(k));
    if k == 0 {
        lemma_flatten_ends(each);
        lemma_concat_nothing(partial);
    } else {
        lemma_concat_assoc(base, each.take(k).flatten(), partial);
    }
}

/// The text that stands behind `base` once the class at the place `k` is
/// written like the classes before it, none of them with a statement at
/// fault.
pub(crate) proof fn lemma_types_continued(
    base: Seq<char>,
    types: Seq<TypeView>,
    imports: Seq<Seq<char>>,
    pad: Seq<char>,
    deeper: Seq<char>,
    k: int,
)
    requires
        0 <= k < types.len(),
        types_fault(types.take(k), imports) is None,
        methods_fault(types[k].methods, imports) is None,
    ensures
        types_fault(types.take(k + 1), imports) is None,
        base + types.map_values(|t: TypeView| type_text(t, imports, pad, deeper)).take(
            k + 1,
        ).flatten() == if k == 0 {
            base + type_written(types[k], imports, pad, deeper)
        } else {
            base + types.map_values(|t: TypeView| type_text(t, imports, pad, deeper)).take(
                k,
            ).flatten() + type_written(types[k], imports, pad, deeper)
        },
{
    let each = types.map_values(|t: TypeView| type_text(t, imports, pad, deeper));
    assert(types.take(k + 1).drop_last() =~= types.take(k));
    assert(types.take(k + 1).last() == types[k]);
    lemma_flatten_step(each, k);
    if k == 0 {
        lemma_flatten_ends(each);
        lemma_concat_nothing(each[0]);
    } else {
        lemma_concat_assoc(base, each.take(k).flatten(), each[k]);
    }
}

/// Where no statement is at fault, what is written of the methods is their
/// whole text.
pub(crate) proof fn lemma_methods_written_whole(
    methods: Seq<MethodView>,
    imports: Seq<Seq<char>>,
    pad: Seq<char>,
    deeper: Seq<char>,
)
    requires
        methods_fault(methods, imports) is None,
    ensures
        methods_written(methods, imports, pad, deeper) == methods_text(
            methods,
            imports,
            pad,
            deeper,
        ),
{
    let each = methods.map_values(|m: MethodView| method_text(m, imports, pad, deeper));
    if methods.len() == 0 {
        lemma_flatten_ends(each);
        assert(each.take(0) =~= each);
    } else {
        let shorter = methods.drop_last();
        let before = shorter.map_values(|m: MethodView| method_text(m, imports, pad, deeper));
        assert(each =~= before.push(each.last()));
        before.lemma_flatten_push(each.last());
    }
}

/// Where no statement is at fault, what is written of the classes is their
/// whole text.
pub(crate) proof fn lemma_types_written_whole(
    types: Seq<TypeView>,
    imports: Seq<Seq<char>>,
    pad: Seq<char>,
    deeper: Seq<char>,
)
    requires
        types_fault(types, imports) is None,
    ensures
        types_written(types, imports, pad, deeper) == types_text(types, imports, pad, deeper),
{
    let each = types.map_values(|t: TypeView| type_text(t, imports, pad, deeper));
    if types.len() == 0 {
        lemma_flatten_ends(each);
        assert(each.take(0) =~= each);
    } else {
        let before = types.drop_last().map_values(
            |t: TypeView| type_text(t, imports, pad, deeper),
        );
        assert(each =~= before.push(each.last()));
        before.lemma_flatten_push(each.last());
    }
}

} // verus!
