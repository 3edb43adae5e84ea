use project_gen::java::{
    emit_compilation_unit, JavaAnnotationAttribute, JavaAnnotationDeclaration,
    JavaCompilationUnit, JavaFieldDeclaration, JavaMethodDeclaration, JavaMethodParameter,
    JavaMethodStatement, JavaSourceCode, JavaSourceCodeWriter, JavaSourceStructure,
    JavaTypeDeclaration, ValueType,
};

fn greeting_unit() -> JavaCompilationUnit {
    let mut unit = JavaCompilationUnit::new("com.example", "Test");
    let mut class = JavaTypeDeclaration::new(2, "Test", None);
    class.add_field(JavaFieldDeclaration::new(
        "name",
        "String",
        0,
        Some("\"zhangsan\""),
    ));
    let mut greet = JavaMethodDeclaration::new("greet", "void", 0);
    greet.add_parameter(JavaMethodParameter::new("c", "Card"));
    greet.add_statement(JavaMethodStatement::new(
        "System.out.println($V.getName());",
        vec!["c"],
    ));
    class.add_method(greet);
    unit.add_type_declaration(class);
    unit
}

#[test]
fn end_to_end_unit_text_is_exact() {
    let text = emit_compilation_unit(&greeting_unit()).unwrap();
    let expected = "package com.example;\n\n\npublic class Test {\n\n     String name = \"zhangsan\";\n\n     void greet(Card c) {\n        System.out.println(c.getName()); \n\n    }\n\n}";
    assert_eq!(text, expected);
}

#[test]
fn end_to_end_scenario() {
    let structure = JavaSourceStructure {
        root_directory: "/work".to_string(),
        resource_directory: "/work/resource".to_string(),
        source_directory: "/work/src".to_string(),
        file_extension: "java".to_string(),
    };
    let mut code = JavaSourceCode::new();
    code.add_compilation_unit(greeting_unit());
    let written = JavaSourceCodeWriter::new().write(&structure, code);
    assert_eq!(written.len(), 1);
    let file = written[0].as_ref().unwrap();
    assert_eq!(file.path, "/work/src/com/example/Test.java");
    let text = &file.content;
    assert!(text.starts_with("package com.example;"));
    assert!(text.contains("public class Test {"));
    let lines: Vec<&str> = text.lines().map(|l| l.trim()).collect();
    assert!(lines.contains(&"String name = \"zhangsan\";"));
    assert!(lines.contains(&"void greet(Card c) {"));
    assert!(lines.contains(&"System.out.println(c.getName());"));
}

#[test]
fn annotated_members_and_imports() {
    let mut unit = JavaCompilationUnit::new("com.example.test", "Test");
    let mut class = JavaTypeDeclaration::new(2, "Test", Some("cn.ljyun.Base"));
    class.add_implement("java.io.Serializable".to_string());
    class.add_implement("Runnable".to_string());
    let mut field = JavaFieldDeclaration::new("name", "java.lang.String", 4, Some("\"x\""));
    let mut annotation = JavaAnnotationDeclaration::new("TestAnnotation");
    annotation.add_attribute(JavaAnnotationAttribute::new(
        "value",
        ValueType::default(),
        vec!["test"],
    ));
    annotation.add_attribute(JavaAnnotationAttribute::new(
        "value2",
        ValueType::Class,
        vec!["cn.ljyun.Test", "com.baidu.Other"],
    ));
    field.add_annotation(annotation);
    class.add_field(field);
    let mut method = JavaMethodDeclaration::new("test", "void", 2);
    let mut param = JavaMethodParameter::new("card", "cn.ljyun.Card");
    param.add_annotation(JavaAnnotationDeclaration::new("NotNull"));
    method.add_parameter(param);
    method.add_parameter(JavaMethodParameter::new("n", "int"));
    method.add_statement(JavaMethodStatement::new(
        "$T $V = new $T();",
        vec!["cn.ljyun.Card", "copy", "cn.ljyun.entity.Card"],
    ));
    class.add_method(method);
    unit.add_type_declaration(class);
    let text = emit_compilation_unit(&unit).unwrap();
    let expected = "package com.example.test;\n\n\
import cn.ljyun.Base;\n\
import java.io.Serializable;\n\
import cn.ljyun.Test;\n\
import com.baidu.Other;\n\
import cn.ljyun.Card;\n\
\n\
public class Test extends Base implements Serializable, Runnable {\n\n\
\x20   @TestAnnotation(\"test\",value2={Test.class,Other.class})\n\
\x20   private String name = \"x\";\n\n\
\x20   public void test(@NotNull Card card,int n) {\n\
\x20       Card copy = new cn.ljyun.entity.Card(); \n\
\n\
\x20   }\n\
\n}";
    assert_eq!(text, expected);
}
