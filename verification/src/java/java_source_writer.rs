//! The emitter: a writer that keeps a nesting level and remembers when a new
//! line still owes its indentation, and the steps that write a compilation
//! unit through it.

use crate::java::annotation::{AnnotationView, JavaAnnotationDeclaration};
use crate::java::imports::{resolve, resolve_imports};
use crate::java::java_source_code::{
    source_file_path,
    FieldView,
    JavaCompilationUnit,
    JavaFieldDeclaration,
    JavaMethodDeclaration,
    JavaMethodParameter,
    JavaSourceCode,
    JavaSourceStructure,
    JavaTypeDeclaration,
    MethodView,
    ParameterView,
    TypeView,
    UnitView,
};
use crate::java::layout::{
    annotation_block,
    annotation_end,
    annotation_lines,
    extends_text,
    field_text,
    fields_text,
    implements_text,
    import_lines,
    initializer_text,
    inline_annotations,
    method_header,
    method_text,
    method_written,
    methods_fault,
    methods_written,
    named_fault,
    parameter_text,
    parameters_text,
    statement_fault,
    statement_lines,
    statement_text,
    statements_fault,
    statements_written,
    type_header,
    type_text,
    type_written,
    types_fault,
    types_written,
    unit_fault,
    unit_head,
    unit_import_list,
    unit_text,
    unit_written,
    FaultView,
};
use crate::java::layout_lemmas::{
    lemma_indented_block,
    lemma_inline_block,
    lemma_methods_stop,
    lemma_methods_written_whole,
    lemma_plain_block,
    lemma_plain_then,
    lemma_statements_stop,
    lemma_types_continued,
    lemma_types_stopped,
    lemma_types_written_whole,
    lemma_unindented_lines,
};
use crate::java::names::{display_name, display_text};
use crate::java::template::{JavaMethodStatement, StatementView, TemplateError};
use crate::text::{
    join,
    join_texts,
    lemma_concat_assoc,
    lemma_concat_nothing,
    lemma_flatten_ends,
    lemma_flatten_step,
    lemma_join_step,
    lemma_regroup_10,
    lemma_regroup_3,
    lemma_regroup_4,
    lemma_regroup_5,
    lemma_regroup_7,
    lemma_regroup_9,
    repeat_text,
    repeated,
};
use vstd::prelude::*;

verus! {

/// A statement that could not be written, and where it stands.
#[derive(Debug, Clone)]
pub struct EmitError {
    pub unit: String,
    pub method: String,
    pub statement: usize,
    pub cause: TemplateError,
}

impl View for EmitError {
    type V = FaultView;

    open spec fn view(&self) -> FaultView {
        FaultView {
            unit: self.unit@,
            method: self.method@,
            statement: self.statement,
            cause: self.cause,
        }
    }
}

/// Writes one compilation unit into a text of its own.
#[derive(Debug, Clone)]
pub struct CompilationUnitWriter {
    /// How deep the next line is nested.
    pub level: u8,
    /// The indentation of one level.
    pub ident: String,
    /// Whether the next write begins a line and owes its indentation.
    pub need_ident: bool,
    /// The import lines of the unit that is being written.
    pub imports: Vec<String>,
    /// The name of the unit that is being written.
    pub unit: String,
    /// What has been written so far.
    pub out: String,
}

/// What is written one level deeper than its surroundings.
#[derive(Clone, Copy)]
pub enum IndentedBlock<'a> {
    /// The fields of a class.
    Fields(&'a Vec<JavaFieldDeclaration>),
    /// The methods of a class.
    Methods(&'a Vec<JavaMethodDeclaration>),
    /// The statements of the method of the given name.
    Statements(&'a Vec<JavaMethodStatement>, &'a str),
}

/// How many levels a block reaches below the level of its surroundings.
pub open spec fn block_depth(block: IndentedBlock<'_>) -> nat {
    match block {
        IndentedBlock::Fields(_) => 1,
        IndentedBlock::Methods(_) => 2,
        IndentedBlock::Statements(_, _) => 1,
    }
}

/// Whether a block holds nothing to write.
pub open spec fn block_is_empty(block: IndentedBlock<'_>) -> bool {
    match block {
        IndentedBlock::Fields(fields) => fields.len() == 0,
        IndentedBlock::Methods(methods) => methods.len() == 0,
        IndentedBlock::Statements(statements, _) => statements.len() == 0,
    }
}

/// What is written of a block whose lines begin with `pad`, and with
/// `deeper` one level further down: all of it, or what stands before its
/// first statement at fault.
pub open spec fn block_written(
    block: IndentedBlock<'_>,
    imports: Seq<Seq<char>>,
    pad: Seq<char>,
    deeper: Seq<char>,
) -> Seq<char> {
    match block {
        IndentedBlock::Fields(fields) => fields_text(fields.deep_view(), imports, pad),
        IndentedBlock::Methods(methods) => methods_written(
            methods.deep_view(),
            imports,
            pad,
            deeper,
        ),
        IndentedBlock::Statements(statements, _) => statements_written(
            statements.deep_view(),
            imports,
            pad,
        ),
    }
}

/// Whether indentation is still owed after a block stopped at the fault `e`:
/// only where it was owed before and nothing of the block was written.
pub open spec fn owed_after_fault(block: IndentedBlock<'_>, owed: bool, e: EmitError) -> bool {
    block is Statements && owed && e.statement == 0
}

/// The first statement of a block at fault: the name of its method, its index
/// and its fault.
pub open spec fn block_fault(block: IndentedBlock<'_>, imports: Seq<Seq<char>>) -> Option<
    (Seq<char>, usize, TemplateError),
> {
    match block {
        IndentedBlock::Fields(_) => None,
        IndentedBlock::Methods(methods) => methods_fault(methods.deep_view(), imports),
        IndentedBlock::Statements(statements, method) => named_fault(
            method@,
            statements_fault(statements.deep_view(), imports),
        ),
    }
}

impl CompilationUnitWriter {
    /// The indentation of a line at the current nesting level.
    pub open spec fn pad(&self) -> Seq<char> {
        repeated(self.ident@, self.level as nat)
    }

    /// The indentation of a line nested `deeper` levels below the current one.
    pub open spec fn pad_below(&self, deeper: nat) -> Seq<char> {
        repeated(self.ident@, self.level as nat + deeper)
    }

    /// Everything but the text and the owed indentation is as in `before`.
    pub open spec fn same_frame(&self, before: &Self) -> bool {
        &&& self.level == before.level
        &&& self.ident@ == before.ident@
        &&& self.imports.deep_view() == before.imports.deep_view()
        &&& self.unit@ == before.unit@
    }

    /// The text after `text` was written behind what `before` holds: the
    /// indentation that was owed comes first.
    pub open spec fn text_after(before: &Self, text: Seq<char>) -> Seq<char> {
        if before.need_ident {
            before.out@ + before.pad() + text
        } else {
            before.out@ + text
        }
    }

    /// Since `before`, `text` was written: behind the indentation that was
    /// owed, and leaving none owed.
    pub open spec fn wrote(&self, before: &Self, text: Seq<char>) -> bool {
        &&& self.same_frame(before)
        &&& self.out@ == Self::text_after(before, text)
        &&& !self.need_ident
    }

    /// Since `before`, nothing was written.
    pub open spec fn wrote_nothing(&self, before: &Self) -> bool {
        &&& self.same_frame(before)
        &&& self.out@ == before.out@
        &&& self.need_ident == before.need_ident
    }

    /// The error `e` reports the fault `fault`, together with the name of the
    /// unit that `before` was writing.
    pub open spec fn reports(
        before: &Self,
        e: EmitError,
        fault: Option<(Seq<char>, usize, TemplateError)>,
    ) -> bool {
        &&& fault == Some((e.method@, e.statement, e.cause))
        &&& e.unit@ == before.unit@
    }

    /// A writer at the outermost level with nothing written, indenting by four
    /// spaces a level.
    pub fn new() -> (writer: CompilationUnitWriter)
        ensures
            writer.level == 0,
            writer.ident@ == "    "@,
            !writer.need_ident,
            writer.imports.deep_view() == Seq::<Seq<char>>::empty(),
            writer.unit@ == Seq::<char>::empty(),
            writer.out@ == Seq::<char>::empty(),
    {
        let writer = CompilationUnitWriter {
            level: 0,
            ident: "    ".to_owned(),
            need_ident: false,
            imports: Vec::new(),
            unit: String::new(),
            out: String::new(),
        };
        proof {
            assert(writer.imports.deep_view() =~= Seq::<Seq<char>>::empty());
        }
        writer
    }

    /// Writes `text`, behind the indentation of the current level where it is
    /// owed.
    pub fn write_to(&mut self, text: &str)
        ensures
            final(self).wrote(old(self), text@),
    {
        if self.need_ident {
            let pad = repeat_text(self.ident.as_str(), self.level as usize);
            self.out.append(pad.as_str());
            self.need_ident = false;
        }
        self.out.append(text);
    }

    /// Notes that the next write begins a line.
    pub fn need_ident(&mut self)
        ensures
            final(self).same_frame(old(self)),
            final(self).out@ == old(self).out@,
            final(self).need_ident,
    {
        self.need_ident = true;
    }

    /// The form in which the type `name` is written in this unit: its simple
    /// name where that is certain to mean this type, the full name otherwise.
    pub fn get_unqualified_name(&self, name: String) -> (shown: String)
        ensures
            shown@ == display_name(name@, self.imports.deep_view()),
    {
        display_text(&name, &self.imports)
    }

    /// Fixes the import lines of the unit from the candidates `imports` and
    /// writes them.
    pub fn write_imports(&mut self, imports: Vec<String>)
        ensures
            final(self).level == old(self).level,
            final(self).ident@ == old(self).ident@,
            final(self).unit@ == old(self).unit@,
            final(self).imports.deep_view() == resolve_imports(imports.deep_view()),
            if final(self).imports.len() == 0 {
                final(self).out@ == old(self).out@ && final(self).need_ident == old(
                    self,
                ).need_ident
            } else {
                final(self).out@ == Self::text_after(
                    old(self),
                    import_lines(final(self).imports.deep_view()),
                ) && !final(self).need_ident
            },
    {
        self.imports = resolve(&imports);
        let ghost lines = self.imports.deep_view().map_values(
            |i: Seq<char>| "import "@ + i + ";\n"@,
        );
        let ghost base = if self.need_ident {
            self.out@ + self.pad()
        } else {
            self.out@
        };
        let mut i: usize = 0;
        while i < self.imports.len()
            invariant
                i <= self.imports.len(),
                self.level == old(self).level,
                self.ident@ == old(self).ident@,
                self.unit@ == old(self).unit@,
                self.imports.deep_view() == resolve_imports(imports.deep_view()),
                lines == self.imports.deep_view().map_values(
                    |i: Seq<char>| "import "@ + i + ";\n"@,
                ),
                base == if old(self).need_ident {
                    old(self).out@ + old(self).pad()
                } else {
                    old(self).out@
                },
                i == 0 ==> self.out@ == old(self).out@ && self.need_ident == old(self).need_ident,
                i > 0 ==> self.out@ == base + lines.take(i as int).flatten() && !self.need_ident,
            decreases self.imports.len() - i,
        {
            let line = self.imports[i].clone();
            self.write_to("import ");
            self.out.append(line.as_str());
            self.out.append(";\n");
            proof {
                let one = "import "@ + line@ + ";\n"@;
                assert(lines[i as int] == one);
                lemma_flatten_step(lines, i as int);
                if i == 0 {
                    lemma_regroup_3(base, "import "@, line@, ";\n"@);
                } else {
                    let flat = lines.take(i as int).flatten();
                    lemma_regroup_3(base + flat, "import "@, line@, ";\n"@);
                    lemma_concat_assoc(base, flat, one);
                }
            }
            i = i + 1;
        }
        proof {
            lemma_flatten_ends(lines);
        }
    }

    /// Writes the annotations of `annotations` one after another. Each begins
    /// a line of its own where `need_indent` says so, and ends its line where
    /// `need_wrap` says so; otherwise nothing follows it.
    pub fn write_annotation(
        &mut self,
        annotations: &Vec<JavaAnnotationDeclaration>,
        need_indent: bool,
        need_wrap: bool,
    )
        ensures
            final(self).same_frame(old(self)),
            final(self).out@ == old(self).out@ + annotation_block(
                annotations.deep_view(),
                old(self).need_ident,
                need_indent,
                need_wrap,
                old(self).pad(),
            ),
            final(self).need_ident == (old(self).need_ident && annotations.len() == 0),
    {
        let ghost list = annotations.deep_view();
        let ghost owed = self.need_ident;
        let ghost pad = self.pad();
        let mut i: usize = 0;
        proof {
            assert(list.take(0) =~= Seq::<AnnotationView>::empty());
            lemma_concat_nothing(self.out@);
        }
        while i < annotations.len()
            invariant
                i <= annotations.len(),
                list == annotations.deep_view(),
                self.same_frame(old(self)),
                pad == self.pad(),
                owed == old(self).need_ident,
                self.out@ == old(self).out@ + annotation_block(
                    list.take(i as int),
                    owed,
                    need_indent,
                    need_wrap,
                    pad,
                ),
                self.need_ident == (owed && i == 0),
            decreases annotations.len() - i,
        {
            let ghost block = annotation_block(
                list.take(i as int),
                owed,
                need_indent,
                need_wrap,
                pad,
            );
            if need_indent {
                self.need_ident();
            }
            let text = annotations[i].render();
            self.write_to(text.as_str());
            if need_wrap {
                self.write_to("\n");
            }
            proof {
                let longer = list.take(i + 1);
                assert(longer.drop_last() =~= list.take(i as int));
                assert(longer.last() == annotations@[i as int]@);
                let end = annotation_end(need_wrap);
                if !need_wrap {
                    lemma_concat_nothing(self.out@);
                }
                if need_indent || (owed && i == 0) {
                    lemma_regroup_4(old(self).out@, block, pad, text@, end);
                } else {
                    lemma_concat_nothing(block);
                    lemma_regroup_3(old(self).out@, block, text@, end);
                }
            }
            i = i + 1;
        }
        proof {
            assert(list.take(annotations.len() as int) =~= list);
        }
    }

    /// Writes one field: its annotations, each on a line of its own, then the
    /// declaration and an empty line.
    pub fn write_field(&mut self, field: &JavaFieldDeclaration)
        ensures
            final(self).same_frame(old(self)),
            final(self).out@ == old(self).out@ + field_text(
                field@,
                old(self).imports.deep_view(),
                old(self).pad(),
            ),
            !final(self).need_ident,
    {
        let ghost start = self.out@;
        let ghost pad = self.pad();
        let ghost imports = self.imports.deep_view();
        let ghost above = annotation_lines(field@.annotations, pad);
        proof {
            lemma_indented_block(field@.annotations, self.need_ident, pad);
        }
        self.write_annotation(&field.annotations, true, true);
        self.need_ident();
        let modifiers = field.modifiers.gen_field_modifiers();
        self.write_to(modifiers.as_str());
        self.write_to(" ");
        let shown = self.get_unqualified_name(field.return_type.clone());
        self.write_to(shown.as_str());
        self.write_to(" ");
        self.write_to(field.name.as_str());
        let ghost named = self.out@;
        match &field.value {
            Some(value) => {
                self.write_to(" = ");
                self.write_to(value.as_str());
                proof {
                    lemma_concat_assoc(named, " = "@, value@);
                }
            },
            None => {
                proof {
                    lemma_concat_nothing(named);
                }
            },
        }
        self.write_to(";\n\n");
        proof {
            lemma_regroup_9(
                start,
                above,
                pad,
                modifiers@,
                " "@,
                shown@,
                " "@,
                field@.name,
                crate::java::layout::initializer_text(field@.value),
                ";\n\n"@,
            );
        }
    }

    /// Writes the fields of a class at the current level.
    pub fn write_fields(&mut self, field_declarations: &Vec<JavaFieldDeclaration>)
        ensures
            final(self).same_frame(old(self)),
            final(self).out@ == old(self).out@ + fields_text(
                field_declarations.deep_view(),
                old(self).imports.deep_view(),
                old(self).pad(),
            ),
            final(self).need_ident == (old(self).need_ident && field_declarations.len() == 0),
    {
        let ghost imports = self.imports.deep_view();
        let ghost pad = self.pad();
        let ghost each = field_declarations.deep_view().map_values(
            |f: FieldView| field_text(f, imports, pad),
        );
        let mut i: usize = 0;
        proof {
            lemma_flatten_ends(each);
            lemma_concat_nothing(self.out@);
        }
        while i < field_declarations.len()
            invariant
                i <= field_declarations.len(),
                self.same_frame(old(self)),
                imports == self.imports.deep_view(),
                pad == self.pad(),
                each == field_declarations.deep_view().map_values(
                    |f: FieldView| field_text(f, imports, pad),
                ),
                self.out@ == old(self).out@ + each.take(i as int).flatten(),
                self.need_ident == (old(self).need_ident && i == 0),
            decreases field_declarations.len() - i,
        {
            self.write_field(&field_declarations[i]);
            proof {
                assert(each[i as int] == field_text(field_declarations@[i as int]@, imports, pad));
                lemma_flatten_step(each, i as int);
                lemma_concat_assoc(old(self).out@, each.take(i as int).flatten(), each[i as int]);
            }
            i = i + 1;
        }
        proof {
            lemma_flatten_ends(each);
        }
    }

    /// Writes one parameter: its type and its name, behind its annotations
    /// and a space where it has any.
    pub fn write_parameter(&mut self, parameter: &JavaMethodParameter)
        ensures
            final(self).wrote(
                old(self),
                parameter_text(parameter@, old(self).imports.deep_view()),
            ),
    {
        let ghost start = self.out@;
        let ghost owed = self.need_ident;
        let ghost pad = self.pad();
        let ghost list = parameter@.annotations;
        let ghost base = if owed {
            start + pad
        } else {
            start
        };
        proof {
            lemma_plain_block(list, owed, false, pad);
            lemma_inline_block(list);
            lemma_concat_nothing(start);
            lemma_concat_assoc(start, pad, inline_annotations(list));
        }
        self.write_annotation(&parameter.annotations, false, false);
        let shown = self.get_unqualified_name(parameter.param_type.clone());
        if parameter.annotations.len() > 0 {
            self.write_to(" ");
            self.write_to(shown.as_str());
            self.write_to(" ");
            self.write_to(parameter.name.as_str());
            proof {
                lemma_regroup_5(
                    base,
                    inline_annotations(list),
                    " "@,
                    shown@,
                    " "@,
                    parameter@.name,
                );
            }
        } else {
            self.write_to(shown.as_str());
            self.write_to(" ");
            self.write_to(parameter.name.as_str());
            proof {
                lemma_regroup_3(base, shown@, " "@, parameter@.name);
            }
        }
    }

    /// Writes the parameters of a method between its parentheses.
    pub fn write_method_paramters(&mut self, parameters: &Vec<JavaMethodParameter>)
        ensures
            if parameters.len() == 0 {
                final(self).wrote_nothing(old(self))
            } else {
                final(self).wrote(
                    old(self),
                    parameters_text(parameters.deep_view(), old(self).imports.deep_view()),
                )
            },
    {
        let ghost imports = self.imports.deep_view();
        let ghost base = if self.need_ident {
            self.out@ + self.pad()
        } else {
            self.out@
        };
        let ghost each = parameters.deep_view().map_values(
            |p: ParameterView| parameter_text(p, imports),
        );
        let mut i: usize = 0;
        while i < parameters.len()
            invariant
                i <= parameters.len(),
                self.same_frame(old(self)),
                imports == self.imports.deep_view(),
                base == if old(self).need_ident {
                    old(self).out@ + old(self).pad()
                } else {
                    old(self).out@
                },
                each == parameters.deep_view().map_values(
                    |p: ParameterView| parameter_text(p, imports),
                ),
                i == 0 ==> self.wrote_nothing(old(self)),
                i > 0 ==> self.out@ == base + join(each.take(i as int), ","@) && !self.need_ident,
            decreases parameters.len() - i,
        {
            if i > 0 {
                self.write_to(",");
            }
            self.write_parameter(&parameters[i]);
            proof {
                assert(each[i as int] == parameter_text(parameters@[i as int]@, imports));
                lemma_join_step(each, ","@, i as int);
                if i > 0 {
                    lemma_regroup_3(base, join(each.take(i as int), ","@), ","@, each[i as int]);
                }
            }
            i = i + 1;
        }
        proof {
            assert(each.take(parameters.len() as int) =~= each);
        }
    }

    /// Writes the statement at place `index` of the method `method` on a line
    /// of its own, or reports its fault and writes nothing.
    pub fn write_statement(
        &mut self,
        statement: &JavaMethodStatement,
        index: usize,
        method: &str,
    ) -> (r: Result<(), EmitError>)
        ensures
            final(self).same_frame(old(self)),
            match r {
                Ok(()) => {
                    &&& statement_fault(statement@, old(self).imports.deep_view()) is None
                    &&& final(self).out@ == old(self).out@ + (old(self).pad() + statement_text(
                        statement@,
                        old(self).imports.deep_view(),
                    ) + " \n"@)
                    &&& !final(self).need_ident
                },
                Err(e) => {
                    &&& statement_fault(statement@, old(self).imports.deep_view()) == Some(e.cause)
                    &&& e.statement == index
                    &&& e.method@ == method@
                    &&& e.unit@ == old(self).unit@
                    &&& final(self).out@ == old(self).out@
                    &&& final(self).need_ident == old(self).need_ident
                },
            },
    {
        match statement.expand(&self.imports) {
            Ok(text) => {
                self.need_ident();
                self.write_to(text.as_str());
                self.write_to(" \n");
                proof {
                    lemma_regroup_3(old(self).out@, old(self).pad(), text@, " \n"@);
                }
                Ok(())
            },
            Err(cause) => Err(
                EmitError {
                    unit: self.unit.clone(),
                    method: method.to_owned(),
                    statement: index,
                    cause,
                },
            ),
        }
    }

    /// Writes the statements of the method `method`, one to a line. The first
    /// statement whose template is at fault ends the writing; the lines of
    /// the statements before it are written.
    pub fn write_method_statements(
        &mut self,
        statements: &Vec<JavaMethodStatement>,
        method: &str,
    ) -> (r: Result<(), EmitError>)
        ensures
            final(self).same_frame(old(self)),
            final(self).out@ == old(self).out@ + statements_written(
                statements.deep_view(),
                old(self).imports.deep_view(),
                old(self).pad(),
            ),
            match r {
                Ok(()) => {
                    &&& statements_fault(statements.deep_view(), old(self).imports.deep_view())
                        is None
                    &&& final(self).need_ident == (old(self).need_ident && statements.len() == 0)
                },
                Err(e) => {
                    &&& Self::reports(
                        old(self),
                        e,
                        named_fault(
                            method@,
                            statements_fault(statements.deep_view(), old(self).imports.deep_view()),
                        ),
                    )
                    &&& final(self).need_ident == (old(self).need_ident && e.statement == 0)
                },
            },
    {
        let ghost imports = self.imports.deep_view();
        let ghost pad = self.pad();
        let ghost all = statements.deep_view();
        let ghost each = all.map_values(
            |s: StatementView| pad + statement_text(s, imports) + " \n"@,
        );
        let mut i: usize = 0;
        proof {
            lemma_flatten_ends(each);
            lemma_concat_nothing(self.out@);
            assert(all.take(0) =~= Seq::<StatementView>::empty());
        }
        while i < statements.len()
            invariant
                i <= statements.len(),
                self.same_frame(old(self)),
                imports == self.imports.deep_view(),
                pad == self.pad(),
                all == statements.deep_view(),
                each == all.map_values(
                    |s: StatementView| pad + statement_text(s, imports) + " \n"@,
                ),
                statements_fault(all.take(i as int), imports) is None,
                self.out@ == old(self).out@ + each.take(i as int).flatten(),
                self.need_ident == (old(self).need_ident && i == 0),
            decreases statements.len() - i,
        {
            proof {
                assert(all.take(i + 1).drop_last() =~= all.take(i as int));
                assert(all.take(i + 1).last() == statements@[i as int]@);
            }
            match self.write_statement(&statements[i], i, method) {
                Ok(()) => {
                    proof {
                        lemma_flatten_step(each, i as int);
                        lemma_concat_assoc(
                            old(self).out@,
                            each.take(i as int).flatten(),
                            each[i as int],
                        );
                    }
                },
                Err(e) => {
                    proof {
                        lemma_statements_stop(all, imports, pad, i as int);
                    }
                    return Err(e);
                },
            }
            i = i + 1;
        }
        proof {
            lemma_flatten_ends(each);
            assert(all.take(statements.len() as int) =~= all);
        }
        Ok(())
    }

    /// Writes one method: its head, its statements one level deeper, and the
    /// closing brace. A statement at fault ends the writing; the head and the
    /// lines of the statements before it are written.
    pub fn write_method(&mut self, method: &JavaMethodDeclaration) -> (r: Result<(), EmitError>)
        requires
            old(self).level < u8::MAX,
        ensures
            final(self).same_frame(old(self)),
            final(self).out@ == old(self).out@ + method_written(
                method@,
                old(self).imports.deep_view(),
                old(self).pad(),
                old(self).pad_below(1),
            ),
            !final(self).need_ident,
            match r {
                Ok(()) => statements_fault(method@.statements, old(self).imports.deep_view())
                    is None,
                Err(e) => Self::reports(
                    old(self),
                    e,
                    named_fault(
                        method@.name,
                        statements_fault(method@.statements, old(self).imports.deep_view()),
                    ),
                ),
            },
        decreases 1nat, 2nat,
    {
        let ghost start = self.out@;
        let ghost pad = self.pad();
        let ghost deeper = self.pad_below(1);
        let ghost imports = self.imports.deep_view();
        let ghost above = annotation_lines(method@.annotations, pad);
        let ghost params = parameters_text(method@.parameters, imports);
        proof {
            lemma_indented_block(method@.annotations, self.need_ident, pad);
        }
        self.write_annotation(&method.annotations, true, true);
        self.need_ident();
        let modifiers = method.modifiers.gen_method_modifiers();
        self.write_to(modifiers.as_str());
        self.write_to(" ");
        let shown = self.get_unqualified_name(method.return_type.clone());
        self.write_to(shown.as_str());
        self.write_to(" ");
        self.write_to(method.name.as_str());
        self.write_to("(");
        if method.parameters.len() > 0 {
            self.write_method_paramters(&method.parameters);
        } else {
            proof {
                lemma_concat_nothing(self.out@);
            }
        }
        self.write_to(") {\n");
        let ghost head = method_header(method@, imports, pad);
        proof {
            lemma_regroup_10(
                start,
                above,
                pad,
                modifiers@,
                " "@,
                shown@,
                " "@,
                method@.name,
                "("@,
                params,
                ") {\n"@,
            );
            assert(self.out@ == start + head);
        }
        let body = IndentedBlock::Statements(&method.statements, method.name.as_str());
        match self.write_with_indent(body) {
            Ok(()) => {},
            Err(e) => {
                proof {
                    lemma_concat_assoc(
                        start,
                        head,
                        statements_written(method@.statements, imports, deeper),
                    );
                }
                return Err(e);
            },
        }
        let ghost lines = statement_lines(method@.statements, imports, deeper);
        self.write_to("\n");
        self.need_ident();
        self.write_to("}\n");
        proof {
            lemma_regroup_5(start, head, lines, "\n"@, pad, "}\n"@);
        }
        Ok(())
    }

    /// Writes the methods of a class at the current level. The first statement
    /// at fault ends the writing; what stands before it is written.
    pub fn write_methods(&mut self, method_declarations: &Vec<JavaMethodDeclaration>) -> (r:
        Result<(), EmitError>)
        requires
            old(self).level < u8::MAX,
        ensures
            final(self).same_frame(old(self)),
            final(self).out@ == old(self).out@ + methods_written(
                method_declarations.deep_view(),
                old(self).imports.deep_view(),
                old(self).pad(),
                old(self).pad_below(1),
            ),
            match r {
                Ok(()) => {
                    &&& methods_fault(
                        method_declarations.deep_view(),
                        old(self).imports.deep_view(),
                    ) is None
                    &&& final(self).need_ident == (old(self).need_ident
                        && method_declarations.len() == 0)
                },
                Err(e) => {
                    &&& Self::reports(
                        old(self),
                        e,
                        methods_fault(
                            method_declarations.deep_view(),
                            old(self).imports.deep_view(),
                        ),
                    )
                    &&& !final(self).need_ident
                },
            },
        decreases 1nat, 3nat,
    {
        let ghost imports = self.imports.deep_view();
        let ghost pad = self.pad();
        let ghost deeper = self.pad_below(1);
        let ghost all = method_declarations.deep_view();
        let ghost each = all.map_values(|m: MethodView| method_text(m, imports, pad, deeper));
        let mut i: usize = 0;
        proof {
            lemma_flatten_ends(each);
            lemma_concat_nothing(self.out@);
            assert(all.take(0) =~= Seq::<MethodView>::empty());
        }
        while i < method_declarations.len()
            invariant
                i <= method_declarations.len(),
                self.same_frame(old(self)),
                old(self).level < u8::MAX,
                imports == self.imports.deep_view(),
                pad == self.pad(),
                deeper == self.pad_below(1),
                all == method_declarations.deep_view(),
                each == all.map_values(|m: MethodView| method_text(m, imports, pad, deeper)),
                methods_fault(all.take(i as int), imports) is None,
                self.out@ == old(self).out@ + each.take(i as int).flatten(),
                self.need_ident == (old(self).need_ident && i == 0),
            decreases method_declarations.len() - i,
        {
            let ghost done = each.take(i as int).flatten();
            proof {
                assert(all.take(i + 1).drop_last() =~= all.take(i as int));
                assert(all.take(i + 1).last() == method_declarations@[i as int]@);
                assert(all.take(i as int).map_values(
                    |m: MethodView| method_text(m, imports, pad, deeper),
                ) =~= each.take(i as int));
            }
            match self.write_method(&method_declarations[i]) {
                Ok(()) => {
                    proof {
                        lemma_flatten_step(each, i as int);
                        lemma_concat_assoc(old(self).out@, done, each[i as int]);
                    }
                },
                Err(e) => {
                    proof {
                        lemma_methods_stop(all, imports, pad, deeper, i as int);
                        lemma_concat_assoc(
                            old(self).out@,
                            done,
                            method_written(all[i as int], imports, pad, deeper),
                        );
                    }
                    return Err(e);
                },
            }
            i = i + 1;
        }
        proof {
            lemma_flatten_ends(each);
            assert(all.take(method_declarations.len() as int) =~= all);
            lemma_methods_written_whole(all, imports, pad, deeper);
        }
        Ok(())
    }

    /// Writes `block` one level deeper than the current one. The level is the
    /// same afterwards as before, whether the block was written to its end or
    /// a statement at fault stopped it.
    pub fn write_with_indent(&mut self, block: IndentedBlock<'_>) -> (r: Result<(), EmitError>)
        requires
            old(self).level as nat + block_depth(block) <= u8::MAX,
        ensures
            final(self).same_frame(old(self)),
            final(self).out@ == old(self).out@ + block_written(
                block,
                old(self).imports.deep_view(),
                old(self).pad_below(1),
                old(self).pad_below(2),
            ),
            match r {
                Ok(()) => {
                    &&& block_fault(block, old(self).imports.deep_view()) is None
                    &&& final(self).need_ident == (old(self).need_ident && block_is_empty(block))
                },
                Err(e) => {
                    &&& Self::reports(
                        old(self),
                        e,
                        block_fault(block, old(self).imports.deep_view()),
                    )
                    &&& final(self).need_ident == owed_after_fault(
                        block,
                        old(self).need_ident,
                        e,
                    )
                },
            },
        decreases block_depth(block), 0nat,
    {
        self.level = self.level + 1;
        let r = match block {
            IndentedBlock::Fields(fields) => {
                self.write_fields(fields);
                Ok(())
            },
            IndentedBlock::Methods(methods) => self.write_methods(methods),
            IndentedBlock::Statements(statements, method) => self.write_method_statements(
                statements,
                method,
            ),
        };
        self.level = self.level - 1;
        r
    }

    /// Writes the fields of a class, one level deeper than the class.
    pub fn write_type_fields(&mut self, field_declarations: &Vec<JavaFieldDeclaration>) -> (r:
        Result<(), EmitError>)
        requires
            old(self).level < u8::MAX,
        ensures
            r is Ok,
            final(self).same_frame(old(self)),
            final(self).out@ == old(self).out@ + fields_text(
                field_declarations.deep_view(),
                old(self).imports.deep_view(),
                old(self).pad_below(1),
            ),
            final(self).need_ident == (old(self).need_ident && field_declarations.len() == 0),
    {
        self.write_with_indent(IndentedBlock::Fields(field_declarations))
    }

    /// Writes the methods of a class, one level deeper than the class, and
    /// their statements one level deeper again. The first statement at fault
    /// ends the writing; what stands before it is written.
    pub fn write_type_methods(&mut self, method_declarations: &Vec<JavaMethodDeclaration>) -> (r:
        Result<(), EmitError>)
        requires
            old(self).level as nat + 2 <= u8::MAX,
        ensures
            final(self).same_frame(old(self)),
            final(self).out@ == old(self).out@ + methods_written(
                method_declarations.deep_view(),
                old(self).imports.deep_view(),
                old(self).pad_below(1),
                old(self).pad_below(2),
            ),
            match r {
                Ok(()) => {
                    &&& methods_fault(
                        method_declarations.deep_view(),
                        old(self).imports.deep_view(),
                    ) is None
                    &&& final(self).need_ident == (old(self).need_ident
                        && method_declarations.len() == 0)
                },
                Err(e) => {
                    &&& Self::reports(
                        old(self),
                        e,
                        methods_fault(
                            method_declarations.deep_view(),
                            old(self).imports.deep_view(),
                        ),
                    )
                    &&& !final(self).need_ident
                },
            },
    {
        self.write_with_indent(IndentedBlock::Methods(method_declarations))
    }

    /// The names of `names` in the form in which this unit writes them.
    fn shown_names(&self, names: &Vec<String>) -> (shown: Vec<String>)
        ensures
            shown.deep_view() == names.deep_view().map_values(
                |i: Seq<char>| display_name(i, self.imports.deep_view()),
            ),
    {
        let ghost imports = self.imports.deep_view();
        let ghost target = names.deep_view().map_values(|i: Seq<char>| display_name(i, imports));
        let mut shown: Vec<String> = Vec::new();
        let mut i: usize = 0;
        proof {
            assert(shown.deep_view() =~= target.take(0));
        }
        while i < names.len()
            invariant
                i <= names.len(),
                imports == self.imports.deep_view(),
                target == names.deep_view().map_values(|i: Seq<char>| display_name(i, imports)),
                shown.deep_view() == target.take(i as int),
            decreases names.len() - i,
        {
            let ghost before = shown.deep_view();
            let one = display_text(&names[i], &self.imports);
            shown.push(one);
            proof {
                assert(shown.deep_view() =~= before.push(target[i as int]));
                assert(target.take(i + 1) =~= target.take(i as int).push(target[i as int]));
            }
            i = i + 1;
        }
        proof {
            assert(target.take(names.len() as int) =~= target);
        }
        shown
    }

    /// Writes the head of a class: its annotations and the line that declares
    /// it, up to the opening brace.
    pub fn write_type_header(&mut self, declaration: &JavaTypeDeclaration)
        ensures
            final(self).wrote(old(self), type_header(declaration@, old(self).imports.deep_view())),
    {
        let ghost start = self.out@;
        let ghost owed = self.need_ident;
        let ghost pad = self.pad();
        let ghost imports = self.imports.deep_view();
        let ghost list = declaration@.annotations;
        let ghost base = if owed {
            start + pad
        } else {
            start
        };
        self.write_annotation(&declaration.annotations, false, true);
        let modifiers = declaration.modifiers.gen_type_modifiers();
        self.write_to(modifiers.as_str());
        proof {
            lemma_plain_then(start, list, owed, true, pad, modifiers@);
            lemma_unindented_lines(list);
        }
        let ghost first = annotation_lines(list, Seq::empty()) + modifiers@;
        assert(self.out@ == base + first);
        self.write_to(" class ");
        self.write_to(declaration.name.as_str());
        self.write_to(" ");
        let ghost named = self.out@;
        match &declaration.extends {
            Some(parent) => {
                let shown = self.get_unqualified_name(parent.clone());
                self.write_to("extends ");
                self.write_to(shown.as_str());
                self.write_to(" ");
                proof {
                    lemma_regroup_3(named, "extends "@, shown@, " "@);
                }
            },
            None => {
                proof {
                    lemma_concat_nothing(named);
                }
            },
        }
        let ghost parent_text = extends_text(declaration@.extends, imports);
        assert(self.out@ == named + parent_text);
        let ghost extended = self.out@;
        if declaration.implements.len() > 0 {
            let names = self.shown_names(&declaration.implements);
            let joined = join_texts(&names, ", ");
            self.write_to("implements ");
            self.write_to(joined.as_str());
            self.write_to(" ");
            proof {
                lemma_regroup_3(extended, "implements "@, joined@, " "@);
            }
        } else {
            proof {
                lemma_concat_nothing(extended);
            }
        }
        let ghost interfaces_text = implements_text(declaration@.implements, imports);
        assert(self.out@ == extended + interfaces_text);
        self.write_to("{\n\n");
        proof {
            lemma_regroup_7(
                base,
                first,
                " class "@,
                declaration@.name,
                " "@,
                parent_text,
                interfaces_text,
                "{\n\n"@,
            );
        }
    }

    /// Writes one class. Its fields and methods stand one level deeper than
    /// the class itself. A statement at fault ends the writing; what stands
    /// before it is written.
    pub fn write_type_declaration(&mut self, declaration: &JavaTypeDeclaration) -> (r: Result<
        (),
        EmitError,
    >)
        requires
            old(self).level as nat + 2 <= u8::MAX,
        ensures
            final(self).same_frame(old(self)),
            final(self).out@ == Self::text_after(
                old(self),
                type_written(
                    declaration@,
                    old(self).imports.deep_view(),
                    old(self).pad_below(1),
                    old(self).pad_below(2),
                ),
            ),
            !final(self).need_ident,
            match r {
                Ok(()) => methods_fault(declaration@.methods, old(self).imports.deep_view())
                    is None,
                Err(e) => Self::reports(
                    old(self),
                    e,
                    methods_fault(declaration@.methods, old(self).imports.deep_view()),
                ),
            },
    {
        let ghost imports = self.imports.deep_view();
        let ghost pad = self.pad_below(1);
        let ghost deeper = self.pad_below(2);
        let ghost base = if self.need_ident {
            self.out@ + self.pad()
        } else {
            self.out@
        };
        let ghost head = type_header(declaration@, imports);
        let ghost fields = fields_text(declaration@.fields, imports, pad);
        self.write_type_header(declaration);
        if declaration.fields.len() > 0 {
            let _ = self.write_type_fields(&declaration.fields);
        } else {
            proof {
                let each = declaration@.fields.map_values(
                    |f: FieldView| field_text(f, imports, pad),
                );
                lemma_flatten_ends(each);
                assert(each.take(0) =~= each);
                lemma_concat_nothing(self.out@);
            }
        }
        assert(self.out@ == base + head + fields);
        if declaration.methods.len() > 0 {
            match self.write_type_methods(&declaration.methods) {
                Ok(()) => {},
                Err(e) => {
                    proof {
                        lemma_regroup_3(
                            base,
                            head,
                            fields,
                            methods_written(declaration@.methods, imports, pad, deeper),
                        );
                    }
                    return Err(e);
                },
            }
        } else {
            proof {
                lemma_concat_nothing(self.out@);
            }
        }
        proof {
            lemma_methods_written_whole(declaration@.methods, imports, pad, deeper);
        }
        let ghost methods = crate::java::layout::methods_text(
            declaration@.methods,
            imports,
            pad,
            deeper,
        );
        assert(self.out@ == base + head + fields + methods);
        self.write_to("\n}");
        proof {
            lemma_regroup_4(base, head, fields, methods, "\n}"@);
        }
        Ok(())
    }

    /// Writes what stands above the classes of a unit: the package line, an
    /// empty line, the import lines and another empty line. The import lines
    /// are fixed here, from every type name the unit refers to.
    pub fn write_unit_head(&mut self, compilation_unit: &JavaCompilationUnit)
        ensures
            final(self).level == old(self).level,
            final(self).ident@ == old(self).ident@,
            final(self).unit@ == compilation_unit@.name,
            final(self).imports.deep_view() == unit_import_list(compilation_unit@),
            final(self).out@ == Self::text_after(
                old(self),
                unit_head(compilation_unit@, unit_import_list(compilation_unit@)),
            ),
            !final(self).need_ident,
    {
        let ghost base = if self.need_ident {
            self.out@ + self.pad()
        } else {
            self.out@
        };
        let ghost unit = compilation_unit@;
        let ghost imports = unit_import_list(unit);
        self.unit = compilation_unit.name.clone();
        self.write_to("package ");
        self.write_to(compilation_unit.package_name.as_str());
        self.write_to(";\n\n");
        let ghost packaged = self.out@;
        let candidates = compilation_unit.determine_imports();
        self.write_imports(candidates);
        proof {
            if imports.len() == 0 {
                let lines = imports.map_values(|i: Seq<char>| "import "@ + i + ";\n"@);
                lemma_flatten_ends(lines);
                assert(lines.take(0) =~= lines);
                lemma_concat_nothing(packaged);
            }
        }
        assert(self.out@ == packaged + import_lines(imports));
        self.write_to("\n");
        proof {
            lemma_regroup_5(
                base,
                "package "@,
                unit.package_name,
                ";\n\n"@,
                import_lines(imports),
                "\n"@,
            );
        }
    }

    /// Writes the classes of a unit in their order. The first statement at
    /// fault ends the writing; what stands before it is written.
    pub fn write_types(&mut self, type_declarations: &Vec<JavaTypeDeclaration>) -> (r: Result<
        (),
        EmitError,
    >)
        requires
            old(self).level as nat + 2 <= u8::MAX,
        ensures
            final(self).same_frame(old(self)),
            if type_declarations.len() == 0 {
                final(self).wrote_nothing(old(self))
            } else {
                final(self).wrote(
                    old(self),
                    types_written(
                        type_declarations.deep_view(),
                        old(self).imports.deep_view(),
                        old(self).pad_below(1),
                        old(self).pad_below(2),
                    ),
                )
            },
            match r {
                Ok(()) => types_fault(type_declarations.deep_view(), old(self).imports.deep_view())
                    is None,
                Err(e) => Self::reports(
                    old(self),
                    e,
                    types_fault(type_declarations.deep_view(), old(self).imports.deep_view()),
                ),
            },
    {
        let ghost imports = self.imports.deep_view();
        let ghost pad = self.pad_below(1);
        let ghost deeper = self.pad_below(2);
        let ghost base = if self.need_ident {
            self.out@ + self.pad()
        } else {
            self.out@
        };
        let ghost all = type_declarations.deep_view();
        let ghost each = all.map_values(|t: TypeView| type_text(t, imports, pad, deeper));
        proof {
            lemma_flatten_ends(each);
            assert(all.take(0) =~= Seq::<TypeView>::empty());
        }
        let mut i: usize = 0;
        while i < type_declarations.len()
            invariant
                i <= type_declarations.len(),
                self.same_frame(old(self)),
                self.level as nat + 2 <= u8::MAX,
                imports == self.imports.deep_view(),
                pad == self.pad_below(1),
                deeper == self.pad_below(2),
                base == if old(self).need_ident {
                    old(self).out@ + old(self).pad()
                } else {
                    old(self).out@
                },
                all == type_declarations.deep_view(),
                each == all.map_values(|t: TypeView| type_text(t, imports, pad, deeper)),
                types_fault(all.take(i as int), imports) is None,
                i == 0 ==> self.wrote_nothing(old(self)),
                i > 0 ==> self.out@ == base + each.take(i as int).flatten() && !self.need_ident,
            decreases type_declarations.len() - i,
        {
            match self.write_type_declaration(&type_declarations[i]) {
                Ok(()) => {
                    proof {
                        lemma_types_continued(base, all, imports, pad, deeper, i as int);
                    }
                },
                Err(e) => {
                    proof {
                        lemma_types_stopped(base, all, imports, pad, deeper, i as int);
                    }
                    return Err(e);
                },
            }
            i = i + 1;
        }
        proof {
            lemma_flatten_ends(each);
            assert(all.take(type_declarations.len() as int) =~= all);
            lemma_types_written_whole(all, imports, pad, deeper);
        }
        Ok(())
    }

    /// Writes a compilation unit: what stands above its classes, then the
    /// classes in their order. The first statement at fault ends the writing;
    /// what stands before it is written.
    pub fn write_compilation_unit(&mut self, compilation_unit: &JavaCompilationUnit) -> (r:
        Result<(), EmitError>)
        requires
            old(self).level as nat + 2 <= u8::MAX,
        ensures
            final(self).level == old(self).level,
            final(self).ident@ == old(self).ident@,
            final(self).unit@ == compilation_unit@.name,
            final(self).imports.deep_view() == unit_import_list(compilation_unit@),
            final(self).out@ == Self::text_after(
                old(self),
                unit_written(
                    compilation_unit@,
                    unit_import_list(compilation_unit@),
                    old(self).pad_below(1),
                    old(self).pad_below(2),
                ),
            ),
            !final(self).need_ident,
            match r {
                Ok(()) => unit_fault(compilation_unit@) is None,
                Err(e) => unit_fault(compilation_unit@) == Some(e@),
            },
    {
        let ghost base = if self.need_ident {
            self.out@ + self.pad()
        } else {
            self.out@
        };
        let ghost unit = compilation_unit@;
        let ghost imports = unit_import_list(unit);
        let ghost classes = types_written(
            unit.type_declarations,
            imports,
            self.pad_below(1),
            self.pad_below(2),
        );
        self.write_unit_head(compilation_unit);
        proof {
            lemma_concat_assoc(base, unit_head(unit, imports), classes);
            if unit.type_declarations.len() == 0 {
                lemma_concat_nothing(self.out@);
            }
        }
        self.write_types(&compilation_unit.type_declarations)
    }
}

/// What an emission hands back, as mathematical content.
pub open spec fn emission(r: Result<String, EmitError>) -> Result<Seq<char>, FaultView> {
    match r {
        Ok(text) => Ok(text@),
        Err(e) => Err(e@),
    }
}

/// Whether `result` is what emitting `unit` gives: the text of the unit where
/// every statement can be written, its first fault otherwise.
pub open spec fn emitted(unit: UnitView, result: Result<Seq<char>, FaultView>) -> bool {
    match result {
        Ok(text) => unit_fault(unit) is None && text == unit_text(unit),
        Err(fault) => unit_fault(unit) == Some(fault),
    }
}

/// Emitting a unit again gives the same again: the same text, character for
/// character, or the same fault.
pub proof fn law_emission_repeats(
    unit: UnitView,
    first: Result<Seq<char>, FaultView>,
    second: Result<Seq<char>, FaultView>,
)
    requires
        emitted(unit, first),
        emitted(unit, second),
    ensures
        first == second,
{
}

/// The text of the source file of `compilation_unit`, or the first statement
/// of the unit whose template is at fault.
pub fn emit_compilation_unit(compilation_unit: &JavaCompilationUnit) -> (r: Result<
    String,
    EmitError,
>)
    ensures
        emitted(compilation_unit@, emission(r)),
{
    let mut writer = CompilationUnitWriter::new();
    match writer.write_compilation_unit(compilation_unit) {
        Ok(()) => {
            proof {
                let unit = compilation_unit@;
                let imports = unit_import_list(unit);
                let pad = repeated("    "@, 1);
                let deeper = repeated("    "@, 2);
                lemma_types_written_whole(unit.type_declarations, imports, pad, deeper);
                lemma_concat_nothing(unit_written(unit, imports, pad, deeper));
            }
            Ok(writer.out)
        },
        Err(e) => Err(e),
    }
}

/// A source file that is ready to be stored: where it belongs and what it holds.
#[derive(Debug, Clone)]
pub struct JavaSourceFile {
    pub path: String,
    pub content: String,
}

/// Whether `file` is the source file of `unit` in a project laid out by
/// `structure`: the unit has no statement at fault, the file holds its text
/// and stands where the package of the unit puts it.
pub open spec fn holds_unit(
    file: JavaSourceFile,
    unit: UnitView,
    structure: &JavaSourceStructure,
) -> bool {
    &&& unit_fault(unit) is None
    &&& file.content@ == unit_text(unit)
    &&& file.path@ == source_file_path(
        structure.source_directory@,
        structure.file_extension@,
        unit.package_name,
        unit.name,
    )
}

/// Whether `result` is what writing `unit` gives in a project laid out by
/// `structure`: the source file of the unit, or the first statement of the
/// unit whose template is at fault.
pub open spec fn written_unit(
    result: Result<JavaSourceFile, EmitError>,
    unit: UnitView,
    structure: &JavaSourceStructure,
) -> bool {
    match result {
        Ok(file) => holds_unit(file, unit, structure),
        Err(e) => unit_fault(unit) == Some(e@),
    }
}

/// Turns the compilation units of a project into source files.
#[derive(Debug, Clone)]
pub struct JavaSourceCodeWriter {}

impl JavaSourceCodeWriter {
    /// A writer of source files.
    pub fn new() -> JavaSourceCodeWriter {
        JavaSourceCodeWriter {  }
    }

    /// What writing each compilation unit of `source_code` gives, unit by
    /// unit and in their order: its source file, placed according to
    /// `structure`, or its fault. A fault stops its own unit and no other.
    pub fn write(
        &mut self,
        structure: &JavaSourceStructure,
        source_code: JavaSourceCode,
    ) -> (written: Vec<Result<JavaSourceFile, EmitError>>)
        ensures
            written.len() == source_code.compilation_units.len(),
            forall|i: int|
                0 <= i < written.len() ==> written_unit(
                    #[trigger] written@[i],
                    source_code.compilation_units@[i]@,
                    structure,
                ),
    {
        let mut written: Vec<Result<JavaSourceFile, EmitError>> = Vec::new();
        let mut i: usize = 0;
        while i < source_code.compilation_units.len()
            invariant
                i <= source_code.compilation_units.len(),
                written.len() == i,
                forall|k: int|
                    0 <= k < i ==> written_unit(
                        #[trigger] written@[k],
                        source_code.compilation_units@[k]@,
                        structure,
                    ),
            decreases source_code.compilation_units.len() - i,
        {
            let unit = &source_code.compilation_units[i];
            let one = match emit_compilation_unit(unit) {
                Ok(content) => {
                    let path = structure.source_file(
                        unit.package_name.as_str(),
                        unit.name.as_str(),
                    );
                    Ok(JavaSourceFile { path, content })
                },
                Err(e) => Err(e),
            };
            written.push(one);
            i = i + 1;
        }
        written
    }
}

} // verus!
