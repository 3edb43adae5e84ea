//! Annotations: the model, the text of one annotation, and the class names an
//! annotation refers to.

use crate::java::names::{is_import_type, is_import_worthy, last_segment, simple_name};
use crate::text::{append_texts, join, join_texts, same_text, to_owned_texts};
use vstd::prelude::*;

verus! {

/// What the values of an annotation attribute stand for.
#[derive(Debug, Clone, Copy, PartialEq, Eq, Structural)]
pub enum ValueType {
    /// Each value names a class and is written as a class literal.
    Class,
    /// Each value is written as it stands.
    Value,
}

impl Default for ValueType {
    fn default() -> (kind: ValueType)
        ensures
            kind == ValueType::Value,
    {
        ValueType::Value
    }
}

/// One attribute of an annotation: a name and the values given to it.
#[derive(Debug, Clone)]
pub struct JavaAnnotationAttribute {
    pub name: String,
    pub value_type: ValueType,
    pub value: Vec<String>,
}

/// An annotation: its type name and its attributes, in the order they were added.
#[derive(Debug, Clone)]
pub struct JavaAnnotationDeclaration {
    pub name: String,
    pub attributes: Vec<JavaAnnotationAttribute>,
}

/// The mathematical content of a `JavaAnnotationAttribute`.
pub struct AttributeView {
    pub name: Seq<char>,
    pub value_type: ValueType,
    pub value: Seq<Seq<char>>,
}

/// The mathematical content of a `JavaAnnotationDeclaration`.
pub struct AnnotationView {
    pub name: Seq<char>,
    pub attributes: Seq<AttributeView>,
}

impl View for JavaAnnotationAttribute {
    type V = AttributeView;

    open spec fn view(&self) -> AttributeView {
        AttributeView {
            name: self.name@,
            value_type: self.value_type,
            value: self.value.deep_view(),
        }
    }
}

impl DeepView for JavaAnnotationAttribute {
    type V = AttributeView;

    open spec fn deep_view(&self) -> AttributeView {
        self.view()
    }
}

impl View for JavaAnnotationDeclaration {
    type V = AnnotationView;

    open spec fn view(&self) -> AnnotationView {
        AnnotationView { name: self.name@, attributes: self.attributes.deep_view() }
    }
}

impl DeepView for JavaAnnotationDeclaration {
    type V = AnnotationView;

    open spec fn deep_view(&self) -> AnnotationView {
        self.view()
    }
}

/// How one value of an attribute is written: a class reference as the class
/// literal of its simple name, any other value unchanged.
pub open spec fn value_text(kind: ValueType, value: Seq<char>) -> Seq<char> {
    match kind {
        ValueType::Class => simple_name(value) + ".class"@,
        ValueType::Value => value,
    }
}

/// The values of an attribute as they are written, joined by commas.
pub open spec fn values_text(a: AttributeView) -> Seq<char> {
    join(a.value.map_values(|v: Seq<char>| value_text(a.value_type, v)), ","@)
}

/// The text of one attribute. The attribute named `value` is written in the
/// short form, as one quoted literal; any other as `name={v1,v2}`.
pub open spec fn attribute_text(a: AttributeView) -> Seq<char> {
    if a.name == "value"@ {
        "\""@ + values_text(a) + "\""@
    } else {
        a.name + "={"@ + values_text(a) + "}"@
    }
}

/// The text of an annotation: `@Name`, followed by the attributes in
/// parentheses and separated by commas where there are any.
pub open spec fn annotation_text(a: AnnotationView) -> Seq<char> {
    if a.attributes.len() == 0 {
        "@"@ + a.name
    } else {
        "@"@ + a.name + "("@ + join(
            a.attributes.map_values(|x: AttributeView| attribute_text(x)),
            ","@,
        ) + ")"@
    }
}

/// The class names an attribute refers to that need an import line.
pub open spec fn attribute_imports(a: AttributeView) -> Seq<Seq<char>> {
    match a.value_type {
        ValueType::Class => a.value.filter(|v: Seq<char>| is_import_worthy(v)),
        ValueType::Value => Seq::empty(),
    }
}

/// The class names an annotation refers to that need an import line, attribute
/// by attribute.
pub open spec fn annotation_imports(a: AnnotationView) -> Seq<Seq<char>> {
    a.attributes.map_values(|x: AttributeView| attribute_imports(x)).flatten()
}

/// The import candidates of a list of annotations, annotation by annotation.
pub open spec fn annotations_imports(list: Seq<AnnotationView>) -> Seq<Seq<char>> {
    list.map_values(|a: AnnotationView| annotation_imports(a)).flatten()
}

impl JavaAnnotationAttribute {
    /// An attribute `name` with the given values.
    pub fn new(name: &str, value_type: ValueType, value: Vec<&str>) -> (attribute:
        JavaAnnotationAttribute)
        ensures
            attribute@.name == name@,
            attribute@.value_type == value_type,
            attribute@.value == value@.map_values(|s: &str| s@),
    {
        JavaAnnotationAttribute {
            name: name.to_owned(),
            value_type,
            value: to_owned_texts(&value),
        }
    }

    /// The values of this attribute as they are written, joined by commas.
    fn render_values(&self) -> (r: String)
        ensures
            r@ == values_text(self@),
    {
        let ghost shown = self@.value.map_values(|v: Seq<char>| value_text(self.value_type, v));
        let mut written: Vec<String> = Vec::new();
        let mut i: usize = 0;
        while i < self.value.len()
            invariant
                i <= self.value.len(),
                shown == self@.value.map_values(|v: Seq<char>| value_text(self.value_type, v)),
                written.deep_view() == shown.take(i as int),
            decreases self.value.len() - i,
        {
            let ghost before = written.deep_view();
            let one = match self.value_type {
                ValueType::Class => {
                    let mut literal = last_segment(self.value[i].as_str());
                    literal.append(".class");
                    literal
                },
                ValueType::Value => self.value[i].clone(),
            };
            written.push(one);
            proof {
                assert(written.deep_view() =~= before.push(shown[i as int]));
                assert(shown.take(i + 1) =~= shown.take(i as int).push(shown[i as int]));
            }
            i = i + 1;
        }
        proof {
            assert(shown.take(self.value.len() as int) =~= shown);
        }
        join_texts(&written, ",")
    }

    /// The text of this attribute inside the parentheses of its annotation.
    pub fn render(&self) -> (r: String)
        ensures
            r@ == attribute_text(self@),
    {
        let values = self.render_values();
        let mut r = String::new();
        if same_text(self.name.as_str(), "value") {
            r.append("\"");
            r.append(values.as_str());
            r.append("\"");
        } else {
            r.append(self.name.as_str());
            r.append("={");
            r.append(values.as_str());
            r.append("}");
        }
        r
    }

    /// The class names this attribute refers to that need an import line.
    pub fn determine_imports(&self) -> (imports: Vec<String>)
        ensures
            imports.deep_view() == attribute_imports(self@),
    {
        let mut imports: Vec<String> = Vec::new();
        match self.value_type {
            ValueType::Class => {
                let ghost worthy = |v: Seq<char>| is_import_worthy(v);
                let mut i: usize = 0;
                while i < self.value.len()
                    invariant
                        i <= self.value.len(),
                        worthy == |v: Seq<char>| is_import_worthy(v),
                        imports.deep_view() == self@.value.take(i as int).filter(worthy),
                    decreases self.value.len() - i,
                {
                    let ghost before = imports.deep_view();
                    proof {
                        assert(self@.value.take(i + 1).drop_last() =~= self@.value.take(i as int));
                        assert(self@.value.take(i + 1).last() == self.value@[i as int]@);
                        reveal(Seq::filter);
                    }
                    if is_import_type(self.value[i].as_str()) {
                        imports.push(self.value[i].clone());
                        proof {
                            assert(imports.deep_view() =~= before.push(self.value@[i as int]@));
                        }
                    }
                    i = i + 1;
                }
                proof {
                    assert(self@.value.take(self.value.len() as int) =~= self@.value);
                }
            },
            ValueType::Value => {
                proof {
                    assert(imports.deep_view() =~= Seq::<Seq<char>>::empty());
                }
            },
        }
        imports
    }
}

impl JavaAnnotationDeclaration {
    /// An annotation `name` without attributes.
    pub fn new(name: &str) -> (annotation: JavaAnnotationDeclaration)
        ensures
            annotation@ == (AnnotationView { name: name@, attributes: Seq::empty() }),
    {
        let annotation = JavaAnnotationDeclaration {
            name: name.to_owned(),
            attributes: Vec::new(),
        };
        proof {
            assert(annotation@.attributes =~= Seq::<AttributeView>::empty());
        }
        annotation
    }

    /// Adds `attribute` behind the attributes that are there.
    pub fn add_attribute(&mut self, attribute: JavaAnnotationAttribute)
        ensures
            final(self)@ == (AnnotationView {
                attributes: old(self)@.attributes.push(attribute@),
                ..old(self)@
            }),
    {
        self.attributes.push(attribute);
        proof {
            assert(self.attributes.deep_view() =~= old(self).attributes.deep_view().push(
                attribute@,
            ));
        }
    }

    /// The text of this annotation as it stands in a source file.
    pub fn render(&self) -> (r: String)
        ensures
            r@ == annotation_text(self@),
    {
        let mut r = String::new();
        r.append("@");
        r.append(self.name.as_str());
        if self.attributes.len() > 0 {
            let ghost shown = self@.attributes.map_values(|x: AttributeView| attribute_text(x));
            let mut written: Vec<String> = Vec::new();
            let mut i: usize = 0;
            while i < self.attributes.len()
                invariant
                    i <= self.attributes.len(),
                    shown == self@.attributes.map_values(|x: AttributeView| attribute_text(x)),
                    written.deep_view() == shown.take(i as int),
                decreases self.attributes.len() - i,
            {
                let ghost before = written.deep_view();
                written.push(self.attributes[i].render());
                proof {
                    assert(written.deep_view() =~= before.push(shown[i as int]));
                    assert(shown.take(i + 1) =~= shown.take(i as int).push(shown[i as int]));
                }
                i = i + 1;
            }
            proof {
                assert(shown.take(self.attributes.len() as int) =~= shown);
            }
            let attributes = join_texts(&written, ",");
            r.append("(");
            r.append(attributes.as_str());
            r.append(")");
        }
        r
    }

    /// The class names this annotation refers to that need an import line.
    pub fn determine_imports(&self) -> (imports: Vec<String>)
        ensures
            imports.deep_view() == annotation_imports(self@),
    {
        let ghost each = self@.attributes.map_values(|x: AttributeView| attribute_imports(x));
        let mut imports: Vec<String> = Vec::new();
        let mut i: usize = 0;
        proof {
            assert(each.take(0) =~= Seq::<Seq<Seq<char>>>::empty());
            assert(imports.deep_view() =~= Seq::<Seq<char>>::empty());
        }
        while i < self.attributes.len()
            invariant
                i <= self.attributes.len(),
                each == self@.attributes.map_values(|x: AttributeView| attribute_imports(x)),
                imports.deep_view() == each.take(i as int).flatten(),
            decreases self.attributes.len() - i,
        {
            let found = self.attributes[i].determine_imports();
            append_texts(&mut imports, &found);
            proof {
                assert(each.take(i + 1) =~= each.take(i as int).push(each[i as int]));
                each.take(i as int).lemma_flatten_push(each[i as int]);
            }
            i = i + 1;
        }
        proof {
            assert(each.take(self.attributes.len() as int) =~= each);
        }
        imports
    }
}

/// The import candidates of a list of annotations, in order.
pub fn annotations_determine_imports(list: &Vec<JavaAnnotationDeclaration>) -> (imports: Vec<
    String,
>)
    ensures
        imports.deep_view() == annotations_imports(list.deep_view()),
{
    let ghost each = list.deep_view().map_values(|a: AnnotationView| annotation_imports(a));
    let mut imports: Vec<String> = Vec::new();
    let mut i: usize = 0;
    proof {
        assert(each.take(0) =~= Seq::<Seq<Seq<char>>>::empty());
        assert(imports.deep_view() =~= Seq::<Seq<char>>::empty());
    }
    while i < list.len()
        invariant
            i <= list.len(),
            each == list.deep_view().map_values(|a: AnnotationView| annotation_imports(a)),
            imports.deep_view() == each.take(i as int).flatten(),
        decreases list.len() - i,
    {
        let found = list[i].determine_imports();
        append_texts(&mut imports, &found);
        proof {
            assert(each.take(i + 1) =~= each.take(i as int).push(each[i as int]));
            each.take(i as int).lemma_flatten_push(each[i as int]);
        }
        i = i + 1;
    }
    proof {
        assert(each.take(list.len() as int) =~= each);
    }
    imports
}

} // verus!
