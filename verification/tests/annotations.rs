use project_gen::java::{JavaAnnotationAttribute, JavaAnnotationDeclaration, ValueType};

#[test]
fn an_annotation_without_attributes_is_its_name() {
    let annotation = JavaAnnotationDeclaration::new("Name");
    assert_eq!(annotation.render(), "@Name");
    assert!(annotation.determine_imports().is_empty());
}

#[test]
fn the_value_attribute_is_written_in_the_short_form() {
    let mut annotation = JavaAnnotationDeclaration::new("Name");
    annotation.add_attribute(JavaAnnotationAttribute::new(
        "value",
        ValueType::Value,
        vec!["x", "y"],
    ));
    assert_eq!(annotation.render(), "@Name(\"x,y\")");
}

#[test]
fn another_attribute_is_written_with_its_name_and_braces() {
    let mut annotation = JavaAnnotationDeclaration::new("Name");
    annotation.add_attribute(JavaAnnotationAttribute::new(
        "tag",
        ValueType::Value,
        vec!["a"],
    ));
    assert_eq!(annotation.render(), "@Name(tag={a})");
}

#[test]
fn attributes_are_separated_by_commas() {
    let mut annotation = JavaAnnotationDeclaration::new("Name");
    annotation.add_attribute(JavaAnnotationAttribute::new(
        "value",
        ValueType::default(),
        vec!["test"],
    ));
    annotation.add_attribute(JavaAnnotationAttribute::new(
        "tags",
        ValueType::Value,
        vec!["a", "b"],
    ));
    annotation.add_attribute(JavaAnnotationAttribute::new("none", ValueType::Value, vec![]));
    assert_eq!(annotation.render(), "@Name(\"test\",tags={a,b},none={})");
}

#[test]
fn class_references_are_written_as_class_literals_and_imported() {
    let attribute = JavaAnnotationAttribute::new(
        "of",
        ValueType::Class,
        vec!["cn.ljyun.Test", "Local", "java.lang.String"],
    );
    assert_eq!(attribute.render(), "of={Test.class,Local.class,String.class}");
    assert_eq!(attribute.determine_imports(), vec!["cn.ljyun.Test".to_string()]);
    let mut annotation = JavaAnnotationDeclaration::new("Name");
    annotation.add_attribute(attribute);
    annotation.add_attribute(JavaAnnotationAttribute::new(
        "value",
        ValueType::Class,
        vec!["a.b.C"],
    ));
    assert_eq!(
        annotation.render(),
        "@Name(of={Test.class,Local.class,String.class},\"C.class\")"
    );
    assert_eq!(
        annotation.determine_imports(),
        vec!["cn.ljyun.Test".to_string(), "a.b.C".to_string()]
    );
}

#[test]
fn plain_values_are_never_imported() {
    let attribute = JavaAnnotationAttribute::new("path", ValueType::Value, vec!["a.b.C"]);
    assert!(attribute.determine_imports().is_empty());
    assert_eq!(attribute.render(), "path={a.b.C}");
}

#[test]
fn the_default_kind_of_value_is_plain() {
    assert_eq!(ValueType::default(), ValueType::Value);
}
