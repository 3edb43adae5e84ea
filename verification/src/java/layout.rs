//! The text of a compilation unit, stated as a function of the model.
//!
//! Nothing here runs. These functions say what the emitter must produce, line
//! by line, and which statement is reported when a template is at fault.

use crate::java::annotation::{annotation_text, AnnotationView};
use crate::java::imports::resolve_imports;
use crate::java::java_source_code::{
    unit_imports,
    FieldView,
    MethodView,
    ParameterView,
    TypeView,
    UnitView,
};
use crate::java::modifier::{modifier_text, DeclarationKind};
use crate::java::names::display_name;
use crate::java::template::{expand, StatementView, TemplateError};
use crate::text::{join, repeated};
use vstd::prelude::*;

verus! {

/// The indentation that a write owes: `pad` where it is owed, nothing otherwise.
pub open spec fn lead(owed: bool, pad: Seq<char>) -> Seq<char> {
    if owed {
        pad
    } else {
        Seq::empty()
    }
}

/// What ends an annotation: a line break where annotations stand on lines of
/// their own, nothing where they stand in front of what they annotate.
pub open spec fn annotation_end(need_wrap: bool) -> Seq<char> {
    if need_wrap {
        "\n"@
    } else {
        Seq::empty()
    }
}

/// The annotations of `list`, each on a line of its own that begins with `pad`.
pub open spec fn annotation_lines(list: Seq<AnnotationView>, pad: Seq<char>) -> Seq<char> {
    list.map_values(|a: AnnotationView| pad + annotation_text(a) + "\n"@).flatten()
}

/// The annotations of `list` on one line, one behind the other.
pub open spec fn inline_annotations(list: Seq<AnnotationView>) -> Seq<char> {
    list.map_values(|a: AnnotationView| annotation_text(a)).flatten()
}

/// The annotations of `list` without indentation, each with its ending.
pub open spec fn plain_annotations(list: Seq<AnnotationView>, need_wrap: bool) -> Seq<char> {
    list.map_values(|a: AnnotationView| annotation_text(a) + annotation_end(need_wrap)).flatten()
}

/// The text of a list of annotations written one after another. Each owes
/// `pad` where `need_indent` asks for it; the first also where the writer owed
/// it before.
pub open spec fn annotation_block(
    list: Seq<AnnotationView>,
    owed: bool,
    need_indent: bool,
    need_wrap: bool,
    pad: Seq<char>,
) -> Seq<char>
    decreases list.len(),
{
    if list.len() == 0 {
        Seq::empty()
    } else {
        annotation_block(list.drop_last(), owed, need_indent, need_wrap, pad) + lead(
            need_indent || (owed && list.len() == 1),
            pad,
        ) + annotation_text(list.last()) + annotation_end(need_wrap)
    }
}

/// The import lines of a unit.
pub open spec fn import_lines(imports: Seq<Seq<char>>) -> Seq<char> {
    imports.map_values(|i: Seq<char>| "import "@ + i + ";\n"@).flatten()
}

/// The initializer of a field, where it has one.
pub open spec fn initializer_text(value: Option<Seq<char>>) -> Seq<char> {
    match value {
        Some(v) => " = "@ + v,
        None => Seq::empty(),
    }
}

/// A field: its annotations, then the declaration on a line of its own,
/// followed by an empty line.
pub open spec fn field_text(f: FieldView, imports: Seq<Seq<char>>, pad: Seq<char>) -> Seq<char> {
    annotation_lines(f.annotations, pad) + pad + modifier_text(
        f.modifiers.modifiers,
        DeclarationKind::Field,
    ) + " "@ + display_name(f.return_type, imports) + " "@ + f.name + initializer_text(f.value)
        + ";\n\n"@
}

/// The fields of a class, in their order.
pub open spec fn fields_text(
    fields: Seq<FieldView>,
    imports: Seq<Seq<char>>,
    pad: Seq<char>,
) -> Seq<char> {
    fields.map_values(|f: FieldView| field_text(f, imports, pad)).flatten()
}

/// A parameter: its type and its name, behind its annotations and a space
/// where it has any.
pub open spec fn parameter_text(p: ParameterView, imports: Seq<Seq<char>>) -> Seq<char> {
    if p.annotations.len() == 0 {
        display_name(p.param_type, imports) + " "@ + p.name
    } else {
        inline_annotations(p.annotations) + " "@ + display_name(p.param_type, imports) + " "@
            + p.name
    }
}

/// The parameters of a method, separated by commas.
pub open spec fn parameters_text(parameters: Seq<ParameterView>, imports: Seq<Seq<char>>) -> Seq<
    char,
> {
    join(parameters.map_values(|p: ParameterView| parameter_text(p, imports)), ","@)
}

/// The fault of a statement inside a unit with the given imports, if it has one.
pub open spec fn statement_fault(s: StatementView, imports: Seq<Seq<char>>) -> Option<
    TemplateError,
> {
    match expand(s.statement, s.args, Some(imports)) {
        Ok(_) => None,
        Err(e) => Some(e),
    }
}

/// The text of a statement inside a unit with the given imports.
pub open spec fn statement_text(s: StatementView, imports: Seq<Seq<char>>) -> Seq<char> {
    match expand(s.statement, s.args, Some(imports)) {
        Ok(text) => text,
        Err(_) => Seq::empty(),
    }
}

/// The statements of a method body, each on a line of its own: `pad`, the
/// text, one space and the line break.
pub open spec fn statement_lines(
    statements: Seq<StatementView>,
    imports: Seq<Seq<char>>,
    pad: Seq<char>,
) -> Seq<char> {
    statements.map_values(|s: StatementView| pad + statement_text(s, imports) + " \n"@).flatten()
}

/// The head of a method: its annotations, each on a line of its own, and the
/// line that declares it, up to the brace that opens its body.
pub open spec fn method_header(m: MethodView, imports: Seq<Seq<char>>, pad: Seq<char>) -> Seq<
    char,
> {
    annotation_lines(m.annotations, pad) + pad + modifier_text(
        m.modifiers.modifiers,
        DeclarationKind::Method,
    ) + " "@ + display_name(m.return_type, imports) + " "@ + m.name + "("@ + parameters_text(
        m.parameters,
        imports,
    ) + ") {\n"@
}

/// A method: its head, its body one level deeper, an empty line and the
/// closing brace.
pub open spec fn method_text(
    m: MethodView,
    imports: Seq<Seq<char>>,
    pad: Seq<char>,
    deeper: Seq<char>,
) -> Seq<char> {
    method_header(m, imports, pad) + statement_lines(m.statements, imports, deeper) + "\n"@ + pad
        + "}\n"@
}

/// The methods of a class, in their order.
pub open spec fn methods_text(
    methods: Seq<MethodView>,
    imports: Seq<Seq<char>>,
    pad: Seq<char>,
    deeper: Seq<char>,
) -> Seq<char> {
    methods.map_values(|m: MethodView| method_text(m, imports, pad, deeper)).flatten()
}

/// The superclass of a class, where it has one.
pub open spec fn extends_text(parent: Option<Seq<char>>, imports: Seq<Seq<char>>) -> Seq<char> {
    match parent {
        Some(name) => "extends "@ + display_name(name, imports) + " "@,
        None => Seq::empty(),
    }
}

/// The interfaces of a class, where it has any.
pub open spec fn implements_text(interfaces: Seq<Seq<char>>, imports: Seq<Seq<char>>) -> Seq<
    char,
> {
    if interfaces.len() == 0 {
        Seq::empty()
    } else {
        "implements "@ + join(
            interfaces.map_values(|i: Seq<char>| display_name(i, imports)),
            ", "@,
        ) + " "@
    }
}

/// The head of a class: its annotations, each on a line of its own, and the
/// line that declares it, up to the brace that opens its body.
pub open spec fn type_header(t: TypeView, imports: Seq<Seq<char>>) -> Seq<char> {
    annotation_lines(t.annotations, Seq::empty()) + modifier_text(
        t.modifiers.modifiers,
        DeclarationKind::Type,
    ) + " class "@ + t.name + " "@ + extends_text(t.extends, imports) + implements_text(
        t.implements,
        imports,
    ) + "{\n\n"@
}

/// A class: its head, its fields and its methods behind `pad`, and the
/// closing brace.
pub open spec fn type_text(
    t: TypeView,
    imports: Seq<Seq<char>>,
    pad: Seq<char>,
    deeper: Seq<char>,
) -> Seq<char> {
    type_header(t, imports) + fields_text(t.fields, imports, pad) + methods_text(
        t.methods,
        imports,
        pad,
        deeper,
    ) + "\n}"@
}

/// The classes of a unit, in their order.
pub open spec fn types_text(
    types: Seq<TypeView>,
    imports: Seq<Seq<char>>,
    pad: Seq<char>,
    deeper: Seq<char>,
) -> Seq<char> {
    types.map_values(|t: TypeView| type_text(t, imports, pad, deeper)).flatten()
}

/// What stands above the classes of a unit: the package line, an empty line,
/// the import lines and another empty line.
pub open spec fn unit_head(u: UnitView, imports: Seq<Seq<char>>) -> Seq<char> {
    "package "@ + u.package_name + ";\n\n"@ + import_lines(imports) + "\n"@
}

/// A unit with the given import lines: its head, then its classes.
pub open spec fn unit_text_with(
    u: UnitView,
    imports: Seq<Seq<char>>,
    pad: Seq<char>,
    deeper: Seq<char>,
) -> Seq<char> {
    unit_head(u, imports) + types_text(u.type_declarations, imports, pad, deeper)
}

/// The import lines of a unit: what its candidates resolve to.
pub open spec fn unit_import_list(u: UnitView) -> Seq<Seq<char>> {
    resolve_imports(unit_imports(u))
}

/// The text of the source file of a unit, indented by four spaces a level.
pub open spec fn unit_text(u: UnitView) -> Seq<char> {
    unit_text_with(u, unit_import_list(u), repeated("    "@, 1), repeated("    "@, 2))
}

/// A fault found while a unit is written: the statement at fault and why.
pub struct FaultView {
    pub unit: Seq<char>,
    pub method: Seq<char>,
    pub statement: usize,
    pub cause: TemplateError,
}

/// The first statement of `statements` at fault, by its index, and its fault.
pub open spec fn statements_fault(
    statements: Seq<StatementView>,
    imports: Seq<Seq<char>>,
) -> Option<(usize, TemplateError)>
    decreases statements.len(),
{
    if statements.len() == 0 {
        None
    } else {
        match statements_fault(statements.drop_last(), imports) {
            Some(found) => Some(found),
            None => match statement_fault(statements.last(), imports) {
                Some(e) => Some(((statements.len() - 1) as usize, e)),
                None => None,
            },
        }
    }
}

/// A fault of a statement together with the name of the method it stands in.
pub open spec fn named_fault(method: Seq<char>, found: Option<(usize, TemplateError)>) -> Option<
    (Seq<char>, usize, TemplateError),
> {
    match found {
        Some((index, e)) => Some((method, index, e)),
        None => None,
    }
}

/// The first statement at fault among the methods, with the name of its method.
pub open spec fn methods_fault(methods: Seq<MethodView>, imports: Seq<Seq<char>>) -> Option<
    (Seq<char>, usize, TemplateError),
>
    decreases methods.len(),
{
    if methods.len() == 0 {
        None
    } else {
        match methods_fault(methods.drop_last(), imports) {
            Some(found) => Some(found),
            None => named_fault(
                methods.last().name,
                statements_fault(methods.last().statements, imports),
            ),
        }
    }
}

/// The first statement at fault among the classes of a unit.
pub open spec fn types_fault(types: Seq<TypeView>, imports: Seq<Seq<char>>) -> Option<
    (Seq<char>, usize, TemplateError),
>
    decreases types.len(),
{
    if types.len() == 0 {
        None
    } else {
        match types_fault(types.drop_last(), imports) {
            Some(found) => Some(found),
            None => methods_fault(types.last().methods, imports),
        }
    }
}

/// What is written of the statements of a method: all their lines, or the
/// lines of those that stand before the first one at fault.
pub open spec fn statements_written(
    statements: Seq<StatementView>,
    imports: Seq<Seq<char>>,
    pad: Seq<char>,
) -> Seq<char> {
    match statements_fault(statements, imports) {
        Some((index, _)) => statement_lines(statements.take(index as int), imports, pad),
        None => statement_lines(statements, imports, pad),
    }
}

/// What is written of a method: all of it, or its head and what is written of
/// its statements where one of them is at fault.
pub open spec fn method_written(
    m: MethodView,
    imports: Seq<Seq<char>>,
    pad: Seq<char>,
    deeper: Seq<char>,
) -> Seq<char> {
    if statements_fault(m.statements, imports) is Some {
        method_header(m, imports, pad) + statements_written(m.statements, imports, deeper)
    } else {
        method_text(m, imports, pad, deeper)
    }
}

/// What is written of the methods of a class: the methods before the first
/// one with a statement at fault, and what is written of that one.
pub open spec fn methods_written(
    methods: Seq<MethodView>,
    imports: Seq<Seq<char>>,
    pad: Seq<char>,
    deeper: Seq<char>,
) -> Seq<char>
    decreases methods.len(),
{
    if methods.len() == 0 {
        Seq::empty()
    } else if methods_fault(methods.drop_last(), imports) is Some {
        methods_written(methods.drop_last(), imports, pad, deeper)
    } else {
        methods_text(methods.drop_last(), imports, pad, deeper) + method_written(
            methods.last(),
            imports,
            pad,
            deeper,
        )
    }
}

/// What is written of a class: all of it, or its head, its fields and what is
/// written of its methods where a statement is at fault.
pub open spec fn type_written(
    t: TypeView,
    imports: Seq<Seq<char>>,
    pad: Seq<char>,
    deeper: Seq<char>,
) -> Seq<char> {
    if methods_fault(t.methods, imports) is Some {
        type_header(t, imports) + fields_text(t.fields, imports, pad) + methods_written(
            t.methods,
            imports,
            pad,
            deeper,
        )
    } else {
        type_text(t, imports, pad, deeper)
    }
}

/// What is written of the classes of a unit: the classes before the first one
/// with a statement at fault, and what is written of that one.
pub open spec fn types_written(
    types: Seq<TypeView>,
    imports: Seq<Seq<char>>,
    pad: Seq<char>,
    deeper: Seq<char>,
) -> Seq<char>
    decreases types.len(),
{
    if types.len() == 0 {
        Seq::empty()
    } else if types_fault(types.drop_last(), imports) is Some {
        types_written(types.drop_last(), imports, pad, deeper)
    } else {
        types_text(types.drop_last(), imports, pad, deeper) + type_written(
            types.last(),
            imports,
            pad,
            deeper,
        )
    }
}

/// What is written of a unit: its head and what is written of its classes.
/// Where no statement is at fault this is the whole text of the unit.
pub open spec fn unit_written(
    u: UnitView,
    imports: Seq<Seq<char>>,
    pad: Seq<char>,
    deeper: Seq<char>,
) -> Seq<char> {
    unit_head(u, imports) + types_written(u.type_declarations, imports, pad, deeper)
}

/// The fault that stops a unit from being written, if there is one: its first
/// statement whose template cannot be expanded.
pub open spec fn unit_fault(u: UnitView) -> Option<FaultView> {
    match types_fault(u.type_declarations, unit_import_list(u)) {
        Some((method, statement, cause)) => Some(
            FaultView { unit: u.name, method, statement, cause },
        ),
        None => None,
    }
}

} // verus!
