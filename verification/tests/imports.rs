use project_gen::java::imports::resolve;
use project_gen::java::discover_imports;
use project_gen::java::{
    emit_compilation_unit, CompilationUnitWriter, JavaAnnotationAttribute,
    JavaAnnotationDeclaration, JavaCompilationUnit, JavaFieldDeclaration, JavaMethodDeclaration,
    JavaMethodParameter, JavaMethodStatement, JavaTypeDeclaration, ValueType,
};

fn texts(list: &[&str]) -> Vec<String> {
    list.iter().map(|s| s.to_string()).collect()
}

#[test]
fn candidates_are_imported_once_and_in_their_order() {
    let imports = resolve(&texts(&["b.Two", "a.One", "b.Two", "a.One", "c.Three"]));
    assert_eq!(imports, texts(&["b.Two", "a.One", "c.Three"]));
}

#[test]
fn of_two_types_with_one_simple_name_the_first_is_imported() {
    assert_eq!(resolve(&texts(&["a.Foo", "b.Foo"])), texts(&["a.Foo"]));
    assert_eq!(resolve(&texts(&["b.Foo", "a.Foo"])), texts(&["b.Foo"]));
}

#[test]
fn names_that_need_no_import_are_left_out() {
    let imports = resolve(&texts(&["int", "java.lang.String", "Foo", "java.util.List"]));
    assert_eq!(imports, texts(&["java.util.List"]));
    assert_eq!(resolve(&Vec::new()), Vec::<String>::new());
}

fn colliding_unit() -> JavaCompilationUnit {
    let mut unit = JavaCompilationUnit::new("p", "Holder");
    let mut class = JavaTypeDeclaration::new(2, "Holder", None);
    class.add_field(JavaFieldDeclaration::new("first", "a.Foo", 4, None));
    class.add_field(JavaFieldDeclaration::new("second", "b.Foo", 4, None));
    unit.add_type_declaration(class);
    unit
}

#[test]
fn colliding_field_types_give_one_import_line_and_stay_apart() {
    let unit = colliding_unit();
    assert_eq!(unit.determine_imports(), texts(&["a.Foo", "b.Foo"]));
    let text = emit_compilation_unit(&unit).unwrap();
    let import_lines: Vec<&str> = text.lines().filter(|l| l.starts_with("import ")).collect();
    assert_eq!(import_lines, vec!["import a.Foo;"]);
    assert!(text.contains("    private Foo first;\n"));
    assert!(text.contains("    private b.Foo second;\n"));
    assert!(!text.contains("private Foo second"));
}

#[test]
fn the_writer_shortens_only_what_it_imports() {
    let mut writer = CompilationUnitWriter::new();
    writer.write_imports(texts(&["a.Foo", "b.Foo", "c.Bar"]));
    assert_eq!(writer.imports, texts(&["a.Foo", "c.Bar"]));
    assert_eq!(writer.out, "import a.Foo;\nimport c.Bar;\n");
    assert_eq!(writer.get_unqualified_name("a.Foo".to_string()), "Foo");
    assert_eq!(writer.get_unqualified_name("b.Foo".to_string()), "b.Foo");
    assert_eq!(writer.get_unqualified_name("c.Bar".to_string()), "Bar");
    assert_eq!(writer.get_unqualified_name("d.Baz".to_string()), "d.Baz");
    assert_eq!(writer.get_unqualified_name("java.lang.String".to_string()), "String");
    assert_eq!(writer.get_unqualified_name("int".to_string()), "int");
}

#[test]
fn a_unit_offers_its_candidates_in_the_order_of_the_walk() {
    let mut unit = JavaCompilationUnit::new("p", "Walk");
    let mut class = JavaTypeDeclaration::new(2, "Walk", Some("x.Parent"));
    class.add_implement("y.Face".to_string());
    class.add_implement("Plain".to_string());
    let mut on_class = JavaAnnotationDeclaration::new("RunWith");
    on_class.add_attribute(JavaAnnotationAttribute::new(
        "value",
        ValueType::Class,
        vec!["o.Runner"],
    ));
    class.add_annotation(on_class);
    let mut field = JavaFieldDeclaration::new("f", "z.FieldType", 4, None);
    let mut marker = JavaAnnotationDeclaration::new("q.Marker");
    marker.add_attribute(JavaAnnotationAttribute::new(
        "of",
        ValueType::Class,
        vec!["r.Target", "Local"],
    ));
    marker.add_attribute(JavaAnnotationAttribute::new(
        "name",
        ValueType::Value,
        vec!["s.not.a.Type"],
    ));
    field.add_annotation(marker);
    class.add_field(field);
    let mut method = JavaMethodDeclaration::new("m", "t.Result", 2);
    let mut on_method = JavaAnnotationDeclaration::new("On");
    on_method.add_attribute(JavaAnnotationAttribute::new(
        "value",
        ValueType::Class,
        vec!["u.OnMethod"],
    ));
    method.add_annotation(on_method);
    let mut param = JavaMethodParameter::new("p", "v.Param");
    let mut on_param = JavaAnnotationDeclaration::new("OnParam");
    on_param.add_attribute(JavaAnnotationAttribute::new(
        "value",
        ValueType::Class,
        vec!["w.OnParam"],
    ));
    param.add_annotation(on_param);
    method.add_parameter(param);
    method.add_statement(JavaMethodStatement::new(
        "$T a = $V;",
        vec!["k.Stated", "k.Value"],
    ));
    class.add_method(method);
    unit.add_type_declaration(class);
    assert_eq!(
        unit.determine_imports(),
        texts(&[
            "x.Parent",
            "y.Face",
            "o.Runner",
            "z.FieldType",
            "r.Target",
            "t.Result",
            "u.OnMethod",
            "v.Param",
            "w.OnParam",
            "k.Stated",
        ])
    );
}

#[test]
fn the_import_lines_of_a_unit_are_its_candidates_resolved() {
    let unit = colliding_unit();
    assert_eq!(discover_imports(&unit), texts(&["a.Foo"]));
    assert_eq!(discover_imports(&unit), resolve(&unit.determine_imports()));
    let nothing = JavaCompilationUnit::new("p", "Nothing");
    assert!(discover_imports(&nothing).is_empty());
}
