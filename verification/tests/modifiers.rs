use project_gen::java::Modifier;

const PUBLIC: u16 = 0b10;
const PRIVATE: u16 = 0b100;
const PROTECTED: u16 = 0b1000;
const STATIC: u16 = 0b1_0000;
const FINAL: u16 = 0b10_0000;
const ABSTRACT: u16 = 0b100_0000;
const NATIVE: u16 = 0b1000_0000;
const STRICTFP: u16 = 0b1_0000_0000;
const SYNCHRONIZED: u16 = 0b10_0000_0000;
const TRANSIENT: u16 = 0b100_0000_0000;
const VOLATILE: u16 = 0b1000_0000_0000;

#[test]
fn no_flags_give_no_keywords() {
    let none = Modifier::new(0);
    assert_eq!(none.gen_type_modifiers(), "");
    assert_eq!(none.gen_field_modifiers(), "");
    assert_eq!(none.gen_method_modifiers(), "");
}

#[test]
fn one_flag_gives_one_keyword() {
    assert_eq!(Modifier::new(PUBLIC).gen_type_modifiers(), "public");
    assert_eq!(Modifier::new(PRIVATE).gen_field_modifiers(), "private");
    assert_eq!(Modifier::new(NATIVE).gen_method_modifiers(), "native");
}

#[test]
fn all_flags_give_the_legal_keywords_in_their_order() {
    let all = Modifier::new(0xffff);
    assert_eq!(
        all.gen_type_modifiers(),
        "public private protected static final abstract strictfp"
    );
    assert_eq!(
        all.gen_field_modifiers(),
        "public private protected static final transient volatile"
    );
    assert_eq!(
        all.gen_method_modifiers(),
        "public private protected static final abstract strictfp synchronized native"
    );
}

#[test]
fn keywords_follow_the_fixed_order_whatever_the_flags_were_built_from() {
    let one_way = Modifier::new(FINAL | STATIC | PUBLIC);
    let other_way = Modifier::new(PUBLIC | STATIC | FINAL);
    assert_eq!(one_way.gen_type_modifiers(), "public static final");
    assert_eq!(other_way.gen_type_modifiers(), "public static final");
    assert_eq!(one_way.gen_field_modifiers(), "public static final");
    assert_eq!(one_way.gen_method_modifiers(), "public static final");
}

#[test]
fn flags_of_another_kind_are_ignored() {
    let field = Modifier::new(PRIVATE | SYNCHRONIZED | NATIVE | ABSTRACT | STRICTFP);
    assert_eq!(field.gen_field_modifiers(), "private");
    let class = Modifier::new(PUBLIC | TRANSIENT | VOLATILE | SYNCHRONIZED | NATIVE);
    assert_eq!(class.gen_type_modifiers(), "public");
    let method = Modifier::new(PROTECTED | TRANSIENT | VOLATILE);
    assert_eq!(method.gen_method_modifiers(), "protected");
    assert_eq!(Modifier::new(1).gen_method_modifiers(), "");
}

#[test]
fn contradicting_flags_are_written_side_by_side() {
    let both = Modifier::new(ABSTRACT | FINAL);
    assert_eq!(both.gen_type_modifiers(), "final abstract");
    assert_eq!(both.gen_method_modifiers(), "final abstract");
    let access = Modifier::new(PUBLIC | PRIVATE | PROTECTED);
    assert_eq!(access.gen_field_modifiers(), "public private protected");
}

#[test]
fn each_flag_is_told_apart() {
    let m = Modifier::new(STRICTFP | SYNCHRONIZED);
    assert!(m.is_strictfp());
    assert!(m.is_synchronized());
    assert!(!m.is_public());
    assert!(!m.is_private());
    assert!(!m.is_protected());
    assert!(!m.is_static());
    assert!(!m.is_final());
    assert!(!m.is_abstract());
    assert!(!m.is_native());
    assert!(!m.is_transient());
    assert!(!m.is_volatile());
    let n = Modifier::new(TRANSIENT | VOLATILE | PUBLIC | STATIC);
    assert!(n.is_transient() && n.is_volatile() && n.is_public() && n.is_static());
    assert_eq!(n.modifiers, 0b1100_0001_0010);
}
