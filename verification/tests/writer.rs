use project_gen::java::java_source_code::join_path;
use project_gen::java::{
    emit_compilation_unit, CompilationUnitWriter, IndentedBlock, JavaAnnotationDeclaration,
    JavaCompilationUnit, JavaFieldDeclaration, JavaMethodDeclaration, JavaMethodParameter,
    JavaMethodStatement, JavaSourceCode, JavaSourceCodeWriter, JavaSourceStructure,
    JavaTypeDeclaration, TemplateError,
};

#[test]
fn a_new_writer_is_empty_and_at_the_outermost_level() {
    let writer = CompilationUnitWriter::new();
    assert_eq!(writer.level, 0);
    assert_eq!(writer.ident, "    ");
    assert!(!writer.need_ident);
    assert!(writer.imports.is_empty());
    assert_eq!(writer.out, "");
}

#[test]
fn owed_indentation_is_written_once() {
    let mut writer = CompilationUnitWriter::new();
    writer.level = 2;
    writer.write_to("a");
    assert_eq!(writer.out, "a");
    writer.need_ident();
    assert!(writer.need_ident);
    writer.write_to("b");
    assert!(!writer.need_ident);
    writer.write_to("c");
    assert_eq!(writer.out, "a        bc");
    writer.level = 0;
    writer.need_ident();
    writer.write_to("d");
    assert_eq!(writer.out, "a        bcd");
}

fn failing_method() -> JavaMethodDeclaration {
    let mut method = JavaMethodDeclaration::new("broken", "void", 2);
    method.add_statement(JavaMethodStatement::new("first();", vec![]));
    method.add_statement(JavaMethodStatement::new("$T second;", vec![]));
    method.add_statement(JavaMethodStatement::new("third();", vec![]));
    method
}

#[test]
fn the_level_is_restored_when_a_block_fails_partway() {
    let methods = vec![failing_method()];
    let mut writer = CompilationUnitWriter::new();
    writer.level = 3;
    let result = writer.write_with_indent(IndentedBlock::Methods(&methods));
    let error = result.unwrap_err();
    assert_eq!(writer.level, 3);
    assert_eq!(error.method, "broken");
    assert_eq!(error.statement, 1);
    assert_eq!(error.cause, TemplateError::MissingArgument { index: 0 });
    assert_eq!(
        writer.out,
        "                public void broken() {\n                    first(); \n"
    );
    assert!(!writer.need_ident);

    let statements = failing_method().statements;
    let mut inner = CompilationUnitWriter::new();
    let result = inner.write_with_indent(IndentedBlock::Statements(&statements, "broken"));
    assert!(result.is_err());
    assert_eq!(inner.level, 0);
    assert_eq!(inner.out, "    first(); \n");

    let mut through_type = CompilationUnitWriter::new();
    assert!(through_type.write_type_methods(&methods).is_err());
    assert_eq!(through_type.level, 0);
}

#[test]
fn the_level_is_restored_when_a_block_succeeds() {
    let mut method = JavaMethodDeclaration::new("fine", "int", 2);
    method.add_statement(JavaMethodStatement::new("return $V;", vec!["1"]));
    let methods = vec![method];
    let mut writer = CompilationUnitWriter::new();
    writer.level = 1;
    assert!(writer.write_type_methods(&methods).is_ok());
    assert_eq!(writer.level, 1);
    assert_eq!(
        writer.out,
        "        public int fine() {\n            return 1; \n\n        }\n"
    );
    let fields = vec![JavaFieldDeclaration::new("n", "int", 4, Some("0"))];
    let mut fields_writer = CompilationUnitWriter::new();
    assert!(fields_writer.write_type_fields(&fields).is_ok());
    assert_eq!(fields_writer.level, 0);
    assert_eq!(fields_writer.out, "    private int n = 0;\n\n");
}

fn sample_unit() -> JavaCompilationUnit {
    let mut unit = JavaCompilationUnit::new("com.example.shop", "Basket");
    let mut class = JavaTypeDeclaration::new(2, "Basket", None);
    class.add_annotation(JavaAnnotationDeclaration::new("Entity"));
    class.add_field(JavaFieldDeclaration::new("items", "java.util.List", 4, None));
    let mut add = JavaMethodDeclaration::new("add", "void", 2);
    add.add_parameter(JavaMethodParameter::new("item", "com.example.shop.Item"));
    add.add_statement(JavaMethodStatement::new("this.items.add($V);", vec!["item"]));
    class.add_method(add);
    unit.add_type_declaration(class);
    unit.add_type_declaration(JavaTypeDeclaration::new(0, "Empty", None));
    unit
}

#[test]
fn emitting_a_unit_twice_gives_the_same_text() {
    let unit = sample_unit();
    let first = emit_compilation_unit(&unit).unwrap();
    let second = emit_compilation_unit(&unit).unwrap();
    assert_eq!(first, second);
    let expected = "package com.example.shop;\n\n\
import java.util.List;\n\
import com.example.shop.Item;\n\
\n\
@Entity\n\
public class Basket {\n\n\
\x20   private List items;\n\n\
\x20   public void add(Item item) {\n\
\x20       this.items.add(item); \n\
\n\
\x20   }\n\
\n} class Empty {\n\n\n}";
    assert_eq!(first, expected);
}

#[test]
fn a_unit_with_a_faulty_statement_is_reported_with_its_place() {
    let mut unit = JavaCompilationUnit::new("p", "Faulty");
    let mut good = JavaTypeDeclaration::new(2, "Good", None);
    let mut fine = JavaMethodDeclaration::new("fine", "void", 2);
    fine.add_statement(JavaMethodStatement::new("ok();", vec![]));
    good.add_method(fine);
    unit.add_type_declaration(good);
    let mut bad = JavaTypeDeclaration::new(2, "Bad", None);
    let mut calm = JavaMethodDeclaration::new("calm", "void", 2);
    calm.add_statement(JavaMethodStatement::new("ok();", vec![]));
    bad.add_method(calm);
    let mut wild = JavaMethodDeclaration::new("wild", "void", 2);
    wild.add_statement(JavaMethodStatement::new("a();", vec![]));
    wild.add_statement(JavaMethodStatement::new("b();", vec![]));
    wild.add_statement(JavaMethodStatement::new("c($Z);", vec!["x"]));
    wild.add_statement(JavaMethodStatement::new("d($V);", vec![]));
    bad.add_method(wild);
    unit.add_type_declaration(bad);
    let error = emit_compilation_unit(&unit).unwrap_err();
    assert_eq!(error.unit, "Faulty");
    assert_eq!(error.method, "wild");
    assert_eq!(error.statement, 2);
    assert_eq!(
        error.cause,
        TemplateError::UnknownPlaceholder { position: 2, found: 'Z' }
    );
    let mut writer = CompilationUnitWriter::new();
    assert!(writer.write_compilation_unit(&unit).is_err());
    assert_eq!(writer.level, 0);
    assert_eq!(writer.unit, "Faulty");
    assert_eq!(
        writer.out,
        "package p;\n\n\npublic class Good {\n\n    public void fine() {\n        ok(); \n\n    }\n\n}public class Bad {\n\n    public void calm() {\n        ok(); \n\n    }\n    public void wild() {\n        a(); \n        b(); \n"
    );
}

#[test]
fn a_fault_stops_its_own_unit_and_no_other() {
    let structure = JavaSourceStructure::new("/project".to_string());
    let mut code = JavaSourceCode::new();
    code.add_compilation_unit(sample_unit());
    let mut faulty = JavaCompilationUnit::new("p", "Faulty");
    let mut class = JavaTypeDeclaration::new(2, "Faulty", None);
    let mut method = JavaMethodDeclaration::new("m", "void", 2);
    method.add_statement(JavaMethodStatement::new("x$", vec![]));
    method.add_statement(JavaMethodStatement::new("y$$", vec![]));
    class.add_method(method);
    faulty.add_type_declaration(class);
    code.add_compilation_unit(faulty);
    code.add_compilation_unit(JavaCompilationUnit::new("solo", "Nothing"));
    let written = JavaSourceCodeWriter::new().write(&structure, code);
    assert_eq!(written.len(), 3);
    let first = written[0].as_ref().unwrap();
    assert_eq!(first.path, "/project/java/com/example/shop/Basket.java");
    assert_eq!(first.content, emit_compilation_unit(&sample_unit()).unwrap());
    let error = written[1].as_ref().unwrap_err();
    assert_eq!(error.unit, "Faulty");
    assert_eq!(error.method, "m");
    assert_eq!(error.statement, 1);
    assert_eq!(error.cause, TemplateError::DanglingMarker { position: 1 });
    let last = written[2].as_ref().unwrap();
    assert_eq!(last.path, "/project/java/solo/Nothing.java");
    assert_eq!(last.content, "package solo;\n\n\n");
    assert!(JavaSourceCodeWriter::new().write(&structure, JavaSourceCode::new()).is_empty());
}

#[test]
fn files_stand_where_their_packages_put_them() {
    let structure = JavaSourceStructure::new("/project".to_string());
    assert_eq!(structure.root_directory, "/project");
    assert_eq!(structure.source_directory, "/project/java");
    assert_eq!(structure.resource_directory, "/project/resource");
    assert_eq!(structure.file_extension, "java");
    assert_eq!(
        structure.package_directory("com.example.shop"),
        "/project/java/com/example/shop"
    );
    assert_eq!(
        structure.source_file("com.example.shop", "Basket"),
        "/project/java/com/example/shop/Basket.java"
    );
    let mut code = JavaSourceCode::new();
    code.add_compilation_unit(sample_unit());
    code.add_compilation_unit(JavaCompilationUnit::new("solo", "Nothing"));
    let written = JavaSourceCodeWriter::new().write(&structure, code);
    assert_eq!(written.len(), 2);
    let first = written[0].as_ref().unwrap();
    assert_eq!(first.path, "/project/java/com/example/shop/Basket.java");
    assert_eq!(first.content, emit_compilation_unit(&sample_unit()).unwrap());
    let second = written[1].as_ref().unwrap();
    assert_eq!(second.path, "/project/java/solo/Nothing.java");
    assert_eq!(second.content, "package solo;\n\n\n");
}

#[test]
fn an_empty_root_gives_relative_directories() {
    let structure = JavaSourceStructure::new(String::new());
    assert_eq!(structure.root_directory, "");
    assert_eq!(structure.source_directory, "java");
    assert_eq!(structure.resource_directory, "resource");
    assert_eq!(structure.package_directory("com.example"), "java/com/example");
    assert_eq!(structure.source_file("com.example", "Test"), "java/com/example/Test.java");
    let bare = JavaSourceStructure {
        root_directory: String::new(),
        resource_directory: String::new(),
        source_directory: String::new(),
        file_extension: "java".to_string(),
    };
    assert_eq!(bare.package_directory("com.example"), "com/example");
    assert_eq!(bare.source_file("com.example", "Test"), "com/example/Test.java");
    assert_eq!(bare.source_file("", "Test"), "Test.java");
}

#[test]
fn paths_are_joined_with_one_separator() {
    assert_eq!(join_path("a", "b"), "a/b");
    assert_eq!(join_path("a/", "b"), "a/b");
    assert_eq!(join_path("/", "b"), "/b");
    assert_eq!(join_path("", "b"), "b");
    assert_eq!(join_path("a", ""), "a/");
    assert_eq!(join_path("a/", ""), "a/");
    assert_eq!(join_path("", ""), "");
    assert_eq!(join_path("a", "/b"), "/b");
    let rooted = JavaSourceStructure::new("/".to_string());
    assert_eq!(rooted.source_directory, "/java");
    let slashed = JavaSourceStructure::new("work/".to_string());
    assert_eq!(slashed.source_directory, "work/java");
    assert_eq!(slashed.resource_directory, "work/resource");
    assert_eq!(slashed.source_file("p", "Unit"), "work/java/p/Unit.java");
    assert_eq!(slashed.source_file("", "Unit"), "work/java/Unit.java");
}

#[test]
fn annotations_stand_on_their_lines_or_in_front_of_a_parameter() {
    let annotations = vec![
        JavaAnnotationDeclaration::new("A"),
        JavaAnnotationDeclaration::new("B"),
    ];
    let mut lines = CompilationUnitWriter::new();
    lines.level = 1;
    lines.write_annotation(&annotations, true, true);
    assert_eq!(lines.out, "    @A\n    @B\n");
    let mut inline = CompilationUnitWriter::new();
    inline.level = 1;
    inline.need_ident();
    inline.write_annotation(&annotations, false, false);
    assert_eq!(inline.out, "    @A@B");
    assert!(!inline.need_ident);
    let mut plain = CompilationUnitWriter::new();
    plain.level = 1;
    plain.write_annotation(&annotations, false, true);
    assert_eq!(plain.out, "@A\n@B\n");
    let mut nothing = CompilationUnitWriter::new();
    nothing.need_ident();
    nothing.write_annotation(&Vec::new(), true, true);
    assert_eq!(nothing.out, "");
    assert!(nothing.need_ident);
}

#[test]
fn parameters_are_separated_by_commas() {
    let mut annotated = JavaMethodParameter::new("id", "long");
    annotated.add_annotation(JavaAnnotationDeclaration::new("PathVariable"));
    let parameters = vec![
        annotated,
        JavaMethodParameter::new("name", "java.lang.String"),
        JavaMethodParameter::new("card", "cn.ljyun.Card"),
    ];
    let mut writer = CompilationUnitWriter::new();
    writer.write_method_paramters(&parameters);
    assert_eq!(writer.out, "@PathVariable long id,String name,cn.ljyun.Card card");
    let mut twice = JavaMethodParameter::new("id", "long");
    twice.add_annotation(JavaAnnotationDeclaration::new("A"));
    twice.add_annotation(JavaAnnotationDeclaration::new("B"));
    let mut owing = CompilationUnitWriter::new();
    owing.level = 1;
    owing.need_ident();
    owing.write_parameter(&twice);
    assert_eq!(owing.out, "    @A@B long id");
}

#[test]
fn an_annotation_in_front_of_what_it_annotates_is_followed_by_nothing() {
    let mut annotation = JavaAnnotationDeclaration::new("Name");
    annotation.add_attribute(project_gen::java::JavaAnnotationAttribute::new(
        "value",
        project_gen::java::ValueType::Value,
        vec!["x", "y"],
    ));
    annotation.add_attribute(project_gen::java::JavaAnnotationAttribute::new(
        "tag",
        project_gen::java::ValueType::Value,
        vec!["a"],
    ));
    let mut writer = CompilationUnitWriter::new();
    writer.write_annotation(&vec![annotation], false, false);
    assert_eq!(writer.out, "@Name(\"x,y\",tag={a})");
}

#[test]
fn the_language_is_java() {
    let language = project_gen::java::JavaLanguage::default();
    assert_eq!(language.name, "java");
    assert_eq!(language.version, "1.8");
    assert_eq!(language.file_extension, "java");
}

#[test]
fn class_references_of_a_class_annotation_are_imported() {
    let mut unit = JavaCompilationUnit::new("p", "Suite");
    let mut class = JavaTypeDeclaration::new(2, "Suite", None);
    let mut run_with = JavaAnnotationDeclaration::new("RunWith");
    run_with.add_attribute(project_gen::java::JavaAnnotationAttribute::new(
        "value",
        project_gen::java::ValueType::Class,
        vec!["org.junit.runner.Runner"],
    ));
    class.add_annotation(run_with);
    unit.add_type_declaration(class);
    let text = emit_compilation_unit(&unit).unwrap();
    assert_eq!(
        text,
        "package p;\n\nimport org.junit.runner.Runner;\n\n@RunWith(\"Runner.class\")\npublic class Suite {\n\n\n}"
    );
}
