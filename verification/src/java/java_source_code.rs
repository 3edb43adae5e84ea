//! The code model: compilation units, type declarations and their members,
//! and the type names a unit refers to.

use crate::java::annotation::{
    annotations_determine_imports,
    annotations_imports,
    AnnotationView,
    JavaAnnotationDeclaration,
};
use crate::java::modifier::Modifier;
use crate::java::names::{is_import_type, is_import_worthy};
use crate::java::template::{statement_imports, JavaMethodStatement, StatementView};
use crate::text::{
    append_texts,
    chars_of,
    lemma_flatten_step,
    optional,
    replace_char,
    replaced,
};
use vstd::prelude::*;

verus! {

/// The language that source files are written in.
#[derive(Debug, Clone)]
pub struct JavaLanguage {
    pub name: String,
    pub version: String,
    pub file_extension: String,
}

impl Default for JavaLanguage {
    fn default() -> (language: JavaLanguage)
        ensures
            language.name@ == "java"@,
            language.version@ == "1.8"@,
            language.file_extension@ == "java"@,
    {
        JavaLanguage {
            name: "java".to_owned(),
            version: "1.8".to_owned(),
            file_extension: "java".to_owned(),
        }
    }
}

/// A field of a class.
#[derive(Debug, Clone)]
pub struct JavaFieldDeclaration {
    pub name: String,
    pub return_type: String,
    pub modifiers: Modifier,
    pub value: Option<String>,
    pub annotations: Vec<JavaAnnotationDeclaration>,
}

/// A parameter of a method.
#[derive(Debug, Clone)]
pub struct JavaMethodParameter {
    pub name: String,
    pub param_type: String,
    pub annotations: Vec<JavaAnnotationDeclaration>,
}

/// A method of a class.
#[derive(Debug, Clone)]
pub struct JavaMethodDeclaration {
    pub name: String,
    pub return_type: String,
    pub modifiers: Modifier,
    pub annotations: Vec<JavaAnnotationDeclaration>,
    pub parameters: Vec<JavaMethodParameter>,
    pub statements: Vec<JavaMethodStatement>,
}

/// A class.
#[derive(Debug, Clone)]
pub struct JavaTypeDeclaration {
    pub modifiers: Modifier,
    pub name: String,
    pub extends: Option<String>,
    pub implements: Vec<String>,
    pub fields: Vec<JavaFieldDeclaration>,
    pub methods: Vec<JavaMethodDeclaration>,
    pub annotations: Vec<JavaAnnotationDeclaration>,
}

/// The content of one source file: a package and the classes declared in it.
#[derive(Debug, Clone)]
pub struct JavaCompilationUnit {
    pub package_name: String,
    pub name: String,
    pub type_declarations: Vec<JavaTypeDeclaration>,
}

/// The compilation units of a project.
#[derive(Debug, Clone)]
pub struct JavaSourceCode {
    pub compilation_units: Vec<JavaCompilationUnit>,
}

/// Where the files of a project are kept. Directories are written with `/`
/// between their segments.
#[derive(Debug, Clone)]
pub struct JavaSourceStructure {
    pub root_directory: String,
    pub resource_directory: String,
    pub source_directory: String,
    pub file_extension: String,
}

/// The mathematical content of a `JavaFieldDeclaration`.
pub struct FieldView {
    pub name: Seq<char>,
    pub return_type: Seq<char>,
    pub modifiers: Modifier,
    pub value: Option<Seq<char>>,
    pub annotations: Seq<AnnotationView>,
}

/// The mathematical content of a `JavaMethodParameter`.
pub struct ParameterView {
    pub name: Seq<char>,
    pub param_type: Seq<char>,
    pub annotations: Seq<AnnotationView>,
}

/// The mathematical content of a `JavaMethodDeclaration`.
pub struct MethodView {
    pub name: Seq<char>,
    pub return_type: Seq<char>,
    pub modifiers: Modifier,
    pub annotations: Seq<AnnotationView>,
    pub parameters: Seq<ParameterView>,
    pub statements: Seq<StatementView>,
}

/// The mathematical content of a `JavaTypeDeclaration`.
pub struct TypeView {
    pub modifiers: Modifier,
    pub name: Seq<char>,
    pub extends: Option<Seq<char>>,
    pub implements: Seq<Seq<char>>,
    pub fields: Seq<FieldView>,
    pub methods: Seq<MethodView>,
    pub annotations: Seq<AnnotationView>,
}

/// The mathematical content of a `JavaCompilationUnit`.
pub struct UnitView {
    pub package_name: Seq<char>,
    pub name: Seq<char>,
    pub type_declarations: Seq<TypeView>,
}

impl View for JavaFieldDeclaration {
    type V = FieldView;

    open spec fn view(&self) -> FieldView {
        FieldView {
            name: self.name@,
            return_type: self.return_type@,
            modifiers: self.modifiers,
            value: optional(self.value),
            annotations: self.annotations.deep_view(),
        }
    }
}

impl DeepView for JavaFieldDeclaration {
    type V = FieldView;

    open spec fn deep_view(&self) -> FieldView {
        self.view()
    }
}

impl View for JavaMethodParameter {
    type V = ParameterView;

    open spec fn view(&self) -> ParameterView {
        ParameterView {
            name: self.name@,
            param_type: self.param_type@,
            annotations: self.annotations.deep_view(),
        }
    }
}

impl DeepView for JavaMethodParameter {
    type V = ParameterView;

    open spec fn deep_view(&self) -> ParameterView {
        self.view()
    }
}

impl View for JavaMethodDeclaration {
    type V = MethodView;

    open spec fn view(&self) -> MethodView {
        MethodView {
            name: self.name@,
            return_type: self.return_type@,
            modifiers: self.modifiers,
            annotations: self.annotations.deep_view(),
            parameters: self.parameters.deep_view(),
            statements: self.statements.deep_view(),
        }
    }
}

impl DeepView for JavaMethodDeclaration {
    type V = MethodView;

    open spec fn deep_view(&self) -> MethodView {
        self.view()
    }
}

impl View for JavaTypeDeclaration {
    type V = TypeView;

    open spec fn view(&self) -> TypeView {
        TypeView {
            modifiers: self.modifiers,
            name: self.name@,
            extends: optional(self.extends),
            implements: self.implements.deep_view(),
            fields: self.fields.deep_view(),
            methods: self.methods.deep_view(),
            annotations: self.annotations.deep_view(),
        }
    }
}

impl DeepView for JavaTypeDeclaration {
    type V = TypeView;

    open spec fn deep_view(&self) -> TypeView {
        self.view()
    }
}

impl View for JavaCompilationUnit {
    type V = UnitView;

    open spec fn view(&self) -> UnitView {
        UnitView {
            package_name: self.package_name@,
            name: self.name@,
            type_declarations: self.type_declarations.deep_view(),
        }
    }
}

impl DeepView for JavaCompilationUnit {
    type V = UnitView;

    open spec fn deep_view(&self) -> UnitView {
        self.view()
    }
}

/// The import candidate that a type name gives: itself where it needs an
/// import line, nothing otherwise.
pub open spec fn name_import(name: Seq<char>) -> Seq<Seq<char>> {
    if is_import_worthy(name) {
        seq![name]
    } else {
        Seq::empty()
    }
}

/// The import candidates of a field: its type, then those of its annotations.
pub open spec fn field_imports(f: FieldView) -> Seq<Seq<char>> {
    name_import(f.return_type) + annotations_imports(f.annotations)
}

/// The import candidates of a parameter: its type, then those of its annotations.
pub open spec fn parameter_imports(p: ParameterView) -> Seq<Seq<char>> {
    name_import(p.param_type) + annotations_imports(p.annotations)
}

/// The import candidates of a method: its return type, those of its
/// annotations, of its parameters and of its statements, in this order.
pub open spec fn method_imports(m: MethodView) -> Seq<Seq<char>> {
    name_import(m.return_type) + annotations_imports(m.annotations) + m.parameters.map_values(
        |p: ParameterView| parameter_imports(p),
    ).flatten() + m.statements.map_values(|s: StatementView| statement_imports(s)).flatten()
}

/// The import candidate of the superclass of a class, where it has one.
pub open spec fn parent_import(parent: Option<Seq<char>>) -> Seq<Seq<char>> {
    match parent {
        Some(name) => name_import(name),
        None => Seq::empty(),
    }
}

/// The import candidates of a class: its superclass, the interfaces it
/// implements and what its own annotations refer to, then those of its fields
/// and of its methods.
pub open spec fn type_imports(t: TypeView) -> Seq<Seq<char>> {
    parent_import(t.extends) + t.implements.filter(|i: Seq<char>| is_import_worthy(i))
        + annotations_imports(t.annotations) + t.fields.map_values(
        |f: FieldView| field_imports(f),
    ).flatten() + t.methods.map_values(|m: MethodView| method_imports(m)).flatten()
}

/// The import candidates of a compilation unit, class by class. A name stands
/// in this list once for each place that refers to it.
pub open spec fn unit_imports(u: UnitView) -> Seq<Seq<char>> {
    u.type_declarations.map_values(|t: TypeView| type_imports(t)).flatten()
}

/// The import candidate of one type name.
fn name_determine_imports(name: &String) -> (imports: Vec<String>)
    ensures
        imports.deep_view() == name_import(name@),
{
    let mut imports: Vec<String> = Vec::new();
    if is_import_type(name.as_str()) {
        imports.push(name.clone());
        proof {
            assert(imports.deep_view() =~= seq![name@]);
        }
    } else {
        proof {
            assert(imports.deep_view() =~= Seq::<Seq<char>>::empty());
        }
    }
    imports
}

/// The names of `names` that need an import line.
fn names_determine_imports(names: &Vec<String>) -> (imports: Vec<String>)
    ensures
        imports.deep_view() == names.deep_view().filter(|i: Seq<char>| is_import_worthy(i)),
{
    let ghost worthy = |i: Seq<char>| is_import_worthy(i);
    let ghost all = names.deep_view();
    let mut imports: Vec<String> = Vec::new();
    let mut i: usize = 0;
    proof {
        assert(all.take(0) =~= Seq::<Seq<char>>::empty());
        assert(imports.deep_view() =~= Seq::<Seq<char>>::empty());
        reveal(Seq::filter);
    }
    while i < names.len()
        invariant
            i <= names.len(),
            all == names.deep_view(),
            worthy == |i: Seq<char>| is_import_worthy(i),
            imports.deep_view() == all.take(i as int).filter(worthy),
        decreases names.len() - i,
    {
        let ghost before = imports.deep_view();
        proof {
            assert(all.take(i + 1).drop_last() =~= all.take(i as int));
            assert(all.take(i + 1).last() == names@[i as int]@);
            reveal(Seq::filter);
        }
        if is_import_type(names[i].as_str()) {
            imports.push(names[i].clone());
            proof {
                assert(imports.deep_view() =~= before.push(names@[i as int]@));
            }
        }
        i = i + 1;
    }
    proof {
        assert(all.take(names.len() as int) =~= all);
    }
    imports
}

impl JavaFieldDeclaration {
    /// A field without annotations. `value`, where given, is the source text
    /// of its initializer.
    pub fn new(name: &str, return_type: &str, modifiers: u16, value: Option<&str>) -> (field:
        JavaFieldDeclaration)
        ensures
            field@.name == name@,
            field@.return_type == return_type@,
            field@.modifiers.modifiers == modifiers,
            field@.value == match value {
                Some(v) => Some(v@),
                None => None::<Seq<char>>,
            },
            field@.annotations == Seq::<AnnotationView>::empty(),
    {
        let initializer = match value {
            Some(v) => Some(v.to_owned()),
            None => None,
        };
        let field = JavaFieldDeclaration {
            name: name.to_owned(),
            return_type: return_type.to_owned(),
            modifiers: Modifier::new(modifiers),
            value: initializer,
            annotations: Vec::new(),
        };
        proof {
            assert(field@.annotations =~= Seq::<AnnotationView>::empty());
        }
        field
    }

    /// Adds `annotation` behind the annotations that are there.
    pub fn add_annotation(&mut self, annotation: JavaAnnotationDeclaration)
        ensures
            final(self)@ == (FieldView {
                annotations: old(self)@.annotations.push(annotation@),
                ..old(self)@
            }),
    {
        self.annotations.push(annotation);
        proof {
            assert(self.annotations.deep_view() =~= old(self).annotations.deep_view().push(
                annotation@,
            ));
        }
    }

    /// The type names this field refers to that need an import line.
    pub fn determine_imports(&self) -> (imports: Vec<String>)
        ensures
            imports.deep_view() == field_imports(self@),
    {
        let mut imports = name_determine_imports(&self.return_type);
        let found = annotations_determine_imports(&self.annotations);
        append_texts(&mut imports, &found);
        imports
    }
}

impl JavaMethodParameter {
    /// A parameter without annotations.
    pub fn new(name: &str, param_type: &str) -> (parameter: JavaMethodParameter)
        ensures
            parameter@.name == name@,
            parameter@.param_type == param_type@,
            parameter@.annotations == Seq::<AnnotationView>::empty(),
    {
        let parameter = JavaMethodParameter {
            name: name.to_owned(),
            param_type: param_type.to_owned(),
            annotations: Vec::new(),
        };
        proof {
            assert(parameter@.annotations =~= Seq::<AnnotationView>::empty());
        }
        parameter
    }

    /// Adds `annotation` behind the annotations that are there.
    pub fn add_annotation(&mut self, annotation: JavaAnnotationDeclaration)
        ensures
            final(self)@ == (ParameterView {
                annotations: old(self)@.annotations.push(annotation@),
                ..old(self)@
            }),
    {
        self.annotations.push(annotation);
        proof {
            assert(self.annotations.deep_view() =~= old(self).annotations.deep_view().push(
                annotation@,
            ));
        }
    }

    /// The type names this parameter refers to that need an import line.
    pub fn determine_imports(&self) -> (imports: Vec<String>)
        ensures
            imports.deep_view() == parameter_imports(self@),
    {
        let mut imports = name_determine_imports(&self.param_type);
        let found = annotations_determine_imports(&self.annotations);
        append_texts(&mut imports, &found);
        imports
    }
}

impl JavaMethodDeclaration {
    /// A method without annotations, parameters or statements.
    pub fn new(name: &str, return_type: &str, modifiers: u16) -> (method: JavaMethodDeclaration)
        ensures
            method@.name == name@,
            method@.return_type == return_type@,
            method@.modifiers.modifiers == modifiers,
            method@.annotations == Seq::<AnnotationView>::empty(),
            method@.parameters == Seq::<ParameterView>::empty(),
            method@.statements == Seq::<StatementView>::empty(),
    {
        let method = JavaMethodDeclaration {
            name: name.to_owned(),
            return_type: return_type.to_owned(),
            modifiers: Modifier::new(modifiers),
            annotations: Vec::new(),
            parameters: Vec::new(),
            statements: Vec::new(),
        };
        proof {
            assert(method@.annotations =~= Seq::<AnnotationView>::empty());
            assert(method@.parameters =~= Seq::<ParameterView>::empty());
            assert(method@.statements =~= Seq::<StatementView>::empty());
        }
        method
    }

    /// Adds `parameter` behind the parameters that are there.
    pub fn add_parameter(&mut self, parameter: JavaMethodParameter)
        ensures
            final(self)@ == (MethodView {
                parameters: old(self)@.parameters.push(parameter@),
                ..old(self)@
            }),
    {
        self.parameters.push(parameter);
        proof {
            assert(self.parameters.deep_view() =~= old(self).parameters.deep_view().push(
                parameter@,
            ));
        }
    }

    /// Adds `annotation` behind the annotations that are there.
    pub fn add_annotation(&mut self, annotation: JavaAnnotationDeclaration)
        ensures
            final(self)@ == (MethodView {
                annotations: old(self)@.annotations.push(annotation@),
                ..old(self)@
            }),
    {
        self.annotations.push(annotation);
        proof {
            assert(self.annotations.deep_view() =~= old(self).annotations.deep_view().push(
                annotation@,
            ));
        }
    }

    /// Adds `statement` behind the statements that are there.
    pub fn add_statement(&mut self, statement: JavaMethodStatement)
        ensures
            final(self)@ == (MethodView {
                statements: old(self)@.statements.push(statement@),
                ..old(self)@
            }),
    {
        self.statements.push(statement);
        proof {
            assert(self.statements.deep_view() =~= old(self).statements.deep_view().push(
                statement@,
            ));
        }
    }

    /// The import candidates of the parameters, parameter by parameter.
    fn parameters_determine_imports(&self) -> (imports: Vec<String>)
        ensures
            imports.deep_view() == self@.parameters.map_values(
                |p: ParameterView| parameter_imports(p),
            ).flatten(),
    {
        let ghost each = self@.parameters.map_values(|p: ParameterView| parameter_imports(p));
        let mut imports: Vec<String> = Vec::new();
        let mut i: usize = 0;
        proof {
            assert(each.take(0) =~= Seq::<Seq<Seq<char>>>::empty());
            assert(imports.deep_view() =~= Seq::<Seq<char>>::empty());
        }
        while i < self.parameters.len()
            invariant
                i <= self.parameters.len(),
                each == self@.parameters.map_values(|p: ParameterView| parameter_imports(p)),
                imports.deep_view() == each.take(i as int).flatten(),
            decreases self.parameters.len() - i,
        {
            let found = self.parameters[i].determine_imports();
            append_texts(&mut imports, &found);
            proof {
                lemma_flatten_step(each, i as int);
            }
            i = i + 1;
        }
        proof {
            assert(each.take(self.parameters.len() as int) =~= each);
        }
        imports
    }

    /// The import candidates of the statements, statement by statement.
    fn statements_determine_imports(&self) -> (imports: Vec<String>)
        ensures
            imports.deep_view() == self@.statements.map_values(
                |s: StatementView| statement_imports(s),
            ).flatten(),
    {
        let ghost each = self@.statements.map_values(|s: StatementView| statement_imports(s));
        let mut imports: Vec<String> = Vec::new();
        let mut i: usize = 0;
        proof {
            assert(each.take(0) =~= Seq::<Seq<Seq<char>>>::empty());
            assert(imports.deep_view() =~= Seq::<Seq<char>>::empty());
        }
        while i < self.statements.len()
            invariant
                i <= self.statements.len(),
                each == self@.statements.map_values(|s: StatementView| statement_imports(s)),
                imports.deep_view() == each.take(i as int).flatten(),
            decreases self.statements.len() - i,
        {
            let found = self.statements[i].determine_imports();
            append_texts(&mut imports, &found);
            proof {
                lemma_flatten_step(each, i as int);
            }
            i = i + 1;
        }
        proof {
            assert(each.take(self.statements.len() as int) =~= each);
        }
        imports
    }

    /// The type names this method refers to that need an import line: its
    /// return type, then what its annotations, its parameters and its
    /// statements refer to.
    pub fn determine_imports(&self) -> (imports: Vec<String>)
        ensures
            imports.deep_view() == method_imports(self@),
    {
        let mut imports = name_determine_imports(&self.return_type);
        let from_annotations = annotations_determine_imports(&self.annotations);
        append_texts(&mut imports, &from_annotations);
        let from_parameters = self.parameters_determine_imports();
        append_texts(&mut imports, &from_parameters);
        let from_statements = self.statements_determine_imports();
        append_texts(&mut imports, &from_statements);
        imports
    }
}

impl JavaTypeDeclaration {
    /// A class without members. `extends`, where given, names its superclass.
    pub fn new(modifiers: u16, name: &str, extends: Option<&str>) -> (declaration:
        JavaTypeDeclaration)
        ensures
            declaration@.modifiers.modifiers == modifiers,
            declaration@.name == name@,
            declaration@.extends == match extends {
                Some(parent) => Some(parent@),
                None => None::<Seq<char>>,
            },
            declaration@.implements == Seq::<Seq<char>>::empty(),
            declaration@.fields == Seq::<FieldView>::empty(),
            declaration@.methods == Seq::<MethodView>::empty(),
            declaration@.annotations == Seq::<AnnotationView>::empty(),
    {
        let parent = match extends {
            Some(p) => Some(p.to_owned()),
            None => None,
        };
        let declaration = JavaTypeDeclaration {
            modifiers: Modifier::new(modifiers),
            name: name.to_owned(),
            extends: parent,
            implements: Vec::new(),
            fields: Vec::new(),
            methods: Vec::new(),
            annotations: Vec::new(),
        };
        proof {
            assert(declaration@.implements =~= Seq::<Seq<char>>::empty());
            assert(declaration@.fields =~= Seq::<FieldView>::empty());
            assert(declaration@.methods =~= Seq::<MethodView>::empty());
            assert(declaration@.annotations =~= Seq::<AnnotationView>::empty());
        }
        declaration
    }

    /// Adds `field` behind the fields that are there.
    pub fn add_field(&mut self, field: JavaFieldDeclaration)
        ensures
            final(self)@ == (TypeView { fields: old(self)@.fields.push(field@), ..old(self)@ }),
    {
        self.fields.push(field);
        proof {
            assert(self.fields.deep_view() =~= old(self).fields.deep_view().push(field@));
        }
    }

    /// Adds `method` behind the methods that are there.
    pub fn add_method(&mut self, method: JavaMethodDeclaration)
        ensures
            final(self)@ == (TypeView { methods: old(self)@.methods.push(method@), ..old(self)@ }),
    {
        self.methods.push(method);
        proof {
            assert(self.methods.deep_view() =~= old(self).methods.deep_view().push(method@));
        }
    }

    /// Adds `annotation` behind the annotations that are there.
    pub fn add_annotation(&mut self, annotation: JavaAnnotationDeclaration)
        ensures
            final(self)@ == (TypeView {
                annotations: old(self)@.annotations.push(annotation@),
                ..old(self)@
            }),
    {
        self.annotations.push(annotation);
        proof {
            assert(self.annotations.deep_view() =~= old(self).annotations.deep_view().push(
                annotation@,
            ));
        }
    }

    /// Adds `implement` behind the interfaces that are there.
    pub fn add_implement(&mut self, implement: String)
        ensures
            final(self)@ == (TypeView {
                implements: old(self)@.implements.push(implement@),
                ..old(self)@
            }),
    {
        self.implements.push(implement);
        proof {
            assert(self.implements.deep_view() =~= old(self).implements.deep_view().push(
                implement@,
            ));
        }
    }

    /// The import candidates of the fields, field by field.
    fn fields_determine_imports(&self) -> (imports: Vec<String>)
        ensures
            imports.deep_view() == self@.fields.map_values(
                |f: FieldView| field_imports(f),
            ).flatten(),
    {
        let ghost each = self@.fields.map_values(|f: FieldView| field_imports(f));
        let mut imports: Vec<String> = Vec::new();
        let mut i: usize = 0;
        proof {
            assert(each.take(0) =~= Seq::<Seq<Seq<char>>>::empty());
            assert(imports.deep_view() =~= Seq::<Seq<char>>::empty());
        }
        while i < self.fields.len()
            invariant
                i <= self.fields.len(),
                each == self@.fields.map_values(|f: FieldView| field_imports(f)),
                imports.deep_view() == each.take(i as int).flatten(),
            decreases self.fields.len() - i,
        {
            let found = self.fields[i].determine_imports();
            append_texts(&mut imports, &found);
            proof {
                lemma_flatten_step(each, i as int);
            }
            i = i + 1;
        }
        proof {
            assert(each.take(self.fields.len() as int) =~= each);
        }
        imports
    }

    /// The import candidates of the methods, method by method.
    fn methods_determine_imports(&self) -> (imports: Vec<String>)
        ensures
            imports.deep_view() == self@.methods.map_values(
                |m: MethodView| method_imports(m),
            ).flatten(),
    {
        let ghost each = self@.methods.map_values(|m: MethodView| method_imports(m));
        let mut imports: Vec<String> = Vec::new();
        let mut i: usize = 0;
        proof {
            assert(each.take(0) =~= Seq::<Seq<Seq<char>>>::empty());
            assert(imports.deep_view() =~= Seq::<Seq<char>>::empty());
        }
        while i < self.methods.len()
            invariant
                i <= self.methods.len(),
                each == self@.methods.map_values(|m: MethodView| method_imports(m)),
                imports.deep_view() == each.take(i as int).flatten(),
            decreases self.methods.len() - i,
        {
            let found = self.methods[i].determine_imports();
            append_texts(&mut imports, &found);
            proof {
                lemma_flatten_step(each, i as int);
            }
            i = i + 1;
        }
        proof {
            assert(each.take(self.methods.len() as int) =~= each);
        }
        imports
    }

    /// The type names this class refers to that need an import line.
    pub fn determine_imports(&self) -> (imports: Vec<String>)
        ensures
            imports.deep_view() == type_imports(self@),
    {
        let mut imports = match &self.extends {
            Some(parent) => name_determine_imports(parent),
            None => {
                let none: Vec<String> = Vec::new();
                proof {
                    assert(none.deep_view() =~= Seq::<Seq<char>>::empty());
                }
                none
            },
        };
        let from_interfaces = names_determine_imports(&self.implements);
        append_texts(&mut imports, &from_interfaces);
        let from_annotations = annotations_determine_imports(&self.annotations);
        append_texts(&mut imports, &from_annotations);
        let from_fields = self.fields_determine_imports();
        append_texts(&mut imports, &from_fields);
        let from_methods = self.methods_determine_imports();
        append_texts(&mut imports, &from_methods);
        imports
    }
}

impl JavaCompilationUnit {
    /// A unit `name` in the package `package_name`, without classes.
    pub fn new(package_name: &str, name: &str) -> (unit: JavaCompilationUnit)
        ensures
            unit@.package_name == package_name@,
            unit@.name == name@,
            unit@.type_declarations == Seq::<TypeView>::empty(),
    {
        let unit = JavaCompilationUnit {
            package_name: package_name.to_owned(),
            name: name.to_owned(),
            type_declarations: Vec::new(),
        };
        proof {
            assert(unit@.type_declarations =~= Seq::<TypeView>::empty());
        }
        unit
    }

    /// Adds `type_declaration` behind the classes that are there.
    pub fn add_type_declaration(&mut self, type_declaration: JavaTypeDeclaration)
        ensures
            final(self)@ == (UnitView {
                type_declarations: old(self)@.type_declarations.push(type_declaration@),
                ..old(self)@
            }),
    {
        self.type_declarations.push(type_declaration);
        proof {
            assert(self.type_declarations.deep_view() =~= old(
                self,
            ).type_declarations.deep_view().push(type_declaration@));
        }
    }

    /// Every type name this unit refers to that needs an import line, in the
    /// order of the references and with repetitions.
    pub fn determine_imports(&self) -> (imports: Vec<String>)
        ensures
            imports.deep_view() == unit_imports(self@),
    {
        let ghost each = self@.type_declarations.map_values(|t: TypeView| type_imports(t));
        let mut imports: Vec<String> = Vec::new();
        let mut i: usize = 0;
        proof {
            assert(each.take(0) =~= Seq::<Seq<Seq<char>>>::empty());
            assert(imports.deep_view() =~= Seq::<Seq<char>>::empty());
        }
        while i < self.type_declarations.len()
            invariant
                i <= self.type_declarations.len(),
                each == self@.type_declarations.map_values(|t: TypeView| type_imports(t)),
                imports.deep_view() == each.take(i as int).flatten(),
            decreases self.type_declarations.len() - i,
        {
            let found = self.type_declarations[i].determine_imports();
            append_texts(&mut imports, &found);
            proof {
                lemma_flatten_step(each, i as int);
            }
            i = i + 1;
        }
        proof {
            assert(each.take(self.type_declarations.len() as int) =~= each);
        }
        imports
    }
}

impl JavaSourceCode {
    /// A project without compilation units.
    pub fn new() -> (code: JavaSourceCode)
        ensures
            code.compilation_units.deep_view() == Seq::<UnitView>::empty(),
    {
        let code = JavaSourceCode { compilation_units: Vec::new() };
        proof {
            assert(code.compilation_units.deep_view() =~= Seq::<UnitView>::empty());
        }
        code
    }

    /// Adds `compilation_unit` behind the units that are there.
    pub fn add_compilation_unit(&mut self, compilation_unit: JavaCompilationUnit)
        ensures
            final(self).compilation_units.deep_view() == old(
                self,
            ).compilation_units.deep_view().push(compilation_unit@),
    {
        self.compilation_units.push(compilation_unit);
        proof {
            assert(self.compilation_units.deep_view() =~= old(
                self,
            ).compilation_units.deep_view().push(compilation_unit@));
        }
    }
}

/// The directory of a package below the source root: the segments of the
/// package name as nested directories.
pub open spec fn package_path(package_name: Seq<char>) -> Seq<char> {
    replaced(package_name, '.', '/')
}

/// The path `rest` taken from the directory `base`. A separator stands
/// between the two unless `base` is empty or ends in one already; a `rest`
/// that begins with a separator is a path of its own and stands alone.
pub open spec fn joined_path(base: Seq<char>, rest: Seq<char>) -> Seq<char> {
    if rest.len() > 0 && rest[0] == '/' {
        rest
    } else if base.len() > 0 && base.last() != '/' {
        base + "/"@ + rest
    } else {
        base + rest
    }
}

/// The name of the file that holds the unit `file_name`.
pub open spec fn source_file_name(file_name: Seq<char>, file_extension: Seq<char>) -> Seq<char> {
    file_name + "."@ + file_extension
}

/// The path of the file that holds the unit `file_name` of `package_name`.
pub open spec fn source_file_path(
    source_directory: Seq<char>,
    file_extension: Seq<char>,
    package_name: Seq<char>,
    file_name: Seq<char>,
) -> Seq<char> {
    joined_path(
        joined_path(source_directory, package_path(package_name)),
        source_file_name(file_name, file_extension),
    )
}

/// The path `rest` taken from the directory `base`.
pub fn join_path(base: &str, rest: &str) -> (path: String)
    ensures
        path@ == joined_path(base@, rest@),
{
    let from = chars_of(base);
    let to = chars_of(rest);
    if to.len() > 0 && to[0] == '/' {
        rest.to_owned()
    } else {
        let mut path = base.to_owned();
        if from.len() > 0 && from[from.len() - 1] != '/' {
            path.append("/");
        }
        path.append(rest);
        path
    }
}

impl JavaSourceStructure {
    /// The layout of a project kept under `root_directory`: sources under
    /// `java`, resources under `resource`. Under the empty root the two are
    /// the relative directories `java` and `resource`.
    pub fn new(root_directory: String) -> (structure: JavaSourceStructure)
        ensures
            structure.root_directory@ == root_directory@,
            structure.source_directory@ == joined_path(root_directory@, "java"@),
            structure.resource_directory@ == joined_path(root_directory@, "resource"@),
            structure.file_extension@ == "java"@,
    {
        let language = JavaLanguage::default();
        let source_directory = join_path(root_directory.as_str(), language.name.as_str());
        let resource_directory = join_path(root_directory.as_str(), "resource");
        JavaSourceStructure {
            root_directory,
            resource_directory,
            source_directory,
            file_extension: language.file_extension,
        }
    }

    /// The directory that holds the files of `package_name`.
    pub fn package_directory(&self, package_name: &str) -> (path: String)
        ensures
            path@ == joined_path(self.source_directory@, package_path(package_name@)),
    {
        let below = replace_char(package_name, '.', '/');
        join_path(self.source_directory.as_str(), below.as_str())
    }

    /// The path of the file that holds the unit `file_name` of `package_name`.
    pub fn source_file(&self, package_name: &str, file_name: &str) -> (path: String)
        ensures
            path@ == source_file_path(
                self.source_directory@,
                self.file_extension@,
                package_name@,
                file_name@,
            ),
    {
        let directory = self.package_directory(package_name);
        let mut name = file_name.to_owned();
        name.append(".");
        name.append(self.file_extension.as_str());
        join_path(directory.as_str(), name.as_str())
    }
}

} // verus!
