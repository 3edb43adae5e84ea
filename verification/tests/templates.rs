use project_gen::java::{
    get_unqualified_name, is_import_type, JavaMethodStatement, TemplateError,
};

#[test]
fn type_and_value_placeholders_are_expanded() {
    let text = JavaMethodStatement::parse_statement(
        "$T $V = new $T();",
        vec!["a.b.Foo", "x", "a.b.Foo"],
    );
    assert_eq!(text, Ok("Foo x = new Foo();".to_string()));
}

#[test]
fn a_template_without_placeholders_stands_for_itself() {
    let text = JavaMethodStatement::parse_statement("return 1;", vec![]);
    assert_eq!(text, Ok("return 1;".to_string()));
    let empty = JavaMethodStatement::parse_statement("", vec![]);
    assert_eq!(empty, Ok(String::new()));
}

#[test]
fn a_value_is_inserted_as_it_is() {
    let text = JavaMethodStatement::parse_statement("call($V);", vec!["a.b.c"]);
    assert_eq!(text, Ok("call(a.b.c);".to_string()));
}

#[test]
fn a_type_is_shortened_whether_it_needs_an_import_or_not() {
    let text = JavaMethodStatement::parse_statement(
        "$T a; $T b; $T c;",
        vec!["java.lang.String", "int", "cn.ljyun.entity.Card"],
    );
    assert_eq!(text, Ok("String a; int b; Card c;".to_string()));
}

#[test]
fn one_trailing_marker_is_set_aside() {
    let text = JavaMethodStatement::parse_statement("done();$", vec![]);
    assert_eq!(text, Ok("done();".to_string()));
    let only = JavaMethodStatement::parse_statement("$", vec![]);
    assert_eq!(only, Ok(String::new()));
}

#[test]
fn a_second_trailing_marker_is_a_fault() {
    let text = JavaMethodStatement::parse_statement("ab$$", vec![]);
    assert_eq!(text, Err(TemplateError::DanglingMarker { position: 2 }));
}

#[test]
fn a_placeholder_without_argument_is_a_fault() {
    let text = JavaMethodStatement::parse_statement("$T $V;", vec!["a.Foo"]);
    assert_eq!(text, Err(TemplateError::MissingArgument { index: 1 }));
    let none = JavaMethodStatement::parse_statement("x = $V;", vec![]);
    assert_eq!(none, Err(TemplateError::MissingArgument { index: 0 }));
}

#[test]
fn an_unknown_placeholder_is_a_fault() {
    let text = JavaMethodStatement::parse_statement("a $X b", vec!["x"]);
    assert_eq!(
        text,
        Err(TemplateError::UnknownPlaceholder { position: 2, found: 'X' })
    );
    let doubled = JavaMethodStatement::parse_statement("$$V", vec!["x"]);
    assert_eq!(
        doubled,
        Err(TemplateError::UnknownPlaceholder { position: 0, found: '$' })
    );
}

#[test]
fn the_first_fault_is_reported() {
    let text = JavaMethodStatement::parse_statement("$V $Q $T", vec!["x"]);
    assert_eq!(
        text,
        Err(TemplateError::UnknownPlaceholder { position: 3, found: 'Q' })
    );
}

#[test]
fn arguments_beyond_the_placeholders_are_left_alone() {
    let text = JavaMethodStatement::parse_statement("$V;", vec!["a", "b", "c"]);
    assert_eq!(text, Ok("a;".to_string()));
}

#[test]
fn positions_count_characters() {
    let text = JavaMethodStatement::parse_statement("é$Z", vec![]);
    assert_eq!(
        text,
        Err(TemplateError::UnknownPlaceholder { position: 1, found: 'Z' })
    );
}

#[test]
fn only_type_arguments_become_import_candidates() {
    let imports = JavaMethodStatement::parse_imports(
        "$T $V = new $T($V, $T, $T);",
        vec!["cn.ljyun.Card", "a.b", "cn.ljyun.entity.Card", "x.y", "java.lang.String", "int"],
    );
    assert_eq!(
        imports,
        vec!["cn.ljyun.Card".to_string(), "cn.ljyun.entity.Card".to_string()]
    );
}

#[test]
fn a_statement_keeps_its_template_and_arguments() {
    let statement = JavaMethodStatement::new("$T $V;", vec!["a.Foo", "x"]);
    assert_eq!(statement.statement, "$T $V;");
    assert_eq!(statement.args, vec!["a.Foo".to_string(), "x".to_string()]);
    assert_eq!(statement.determine_imports(), vec!["a.Foo".to_string()]);
}

#[test]
fn import_candidates_end_at_the_first_fault() {
    let imports =
        JavaMethodStatement::parse_imports("$T $? $T", vec!["a.Foo", "b.Bar"]);
    assert_eq!(imports, vec!["a.Foo".to_string()]);
}

#[test]
fn a_statement_inside_a_unit_follows_its_imports() {
    let statement = JavaMethodStatement::new(
        "$T $V = new $T();",
        vec!["cn.ljyun.Card", "card", "cn.ljyun.entity.Card"],
    );
    let imports = vec!["cn.ljyun.Card".to_string()];
    assert_eq!(
        statement.expand(&imports),
        Ok("Card card = new cn.ljyun.entity.Card();".to_string())
    );
    assert_eq!(
        statement.expand(&Vec::new()),
        Ok("cn.ljyun.Card card = new cn.ljyun.entity.Card();".to_string())
    );
}

#[test]
fn qualified_names_outside_the_prelude_need_an_import() {
    assert!(is_import_type("a.Foo"));
    assert!(is_import_type("java.util.List"));
    assert!(is_import_type("java.langx.Foo"));
    assert!(!is_import_type("Foo"));
    assert!(!is_import_type("int"));
    assert!(!is_import_type("java.lang.String"));
    assert!(!is_import_type("java.lang.reflect.Method"));
    assert!(!is_import_type(""));
}

#[test]
fn the_simple_name_is_the_last_segment() {
    assert_eq!(get_unqualified_name("a.b.Foo".to_string()), "Foo");
    assert_eq!(get_unqualified_name("Foo".to_string()), "Foo");
    assert_eq!(get_unqualified_name("java.lang.String".to_string()), "String");
    assert_eq!(get_unqualified_name("a.".to_string()), "");
    assert_eq!(get_unqualified_name(".Foo".to_string()), "Foo");
    assert_eq!(get_unqualified_name(String::new()), "");
}
