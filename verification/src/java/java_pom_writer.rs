//! Writes a build descriptor as an XML document.

use crate::error::PGError;
use crate::java::java_pom::{
    Build,
    Dependency,
    DependencyView,
    Plugin,
    PluginView,
    PomView,
    Property,
    PropertyView,
    POM,
};
use crate::java::xml::{
    event_valid,
    lemma_ascii_valid,
    lemma_escaped_valid,
    lemma_run_concat,
    lemma_run_one,
    lemma_run_text_element,
    lemma_step_valid,
    lemma_text_element_valid,
    new_tag,
    new_writer,
    push_attribute,
    text_element,
    write_end,
    write_start,
    write_text_element,
    written_bytes,
    xml_escaped,
    xml_indent,
    xml_run,
    xml_state,
    xml_step,
    xml_written,
    XmlEvent,
    XmlState,
    EQUALS,
    QUOTE,
    SPACE,
};
use quick_xml::Writer;
use vstd::prelude::*;
use vstd::utf8::{encode_utf8, encode_utf8_valid_utf8, valid_utf8, valid_utf8_concat};

verus! {

pub const PROJECT_XMLNS: &'static str = "http://maven.apache.org/POM/4.0.0";

pub const PROJECT_XSI: &'static str = "http://www.w3.org/2001/XMLSchema-instance";

pub const PROJECT_XSD: &'static str =
    "http://maven.apache.org/POM/4.0.0 http://maven.apache.org/xsd/maven-4.0.0.xsd";

/// Writes build descriptors into a buffer, one after another.
pub struct POMWriter {
    writer: Writer<Vec<u8>>,
}

/// The content of a start tag once the attribute `key` with `value` is added.
pub open spec fn with_attribute(content: Seq<u8>, key: Seq<char>, value: Seq<char>) -> Seq<u8> {
    content + seq![SPACE] + encode_utf8(key) + seq![EQUALS, QUOTE] + xml_escaped(
        encode_utf8(value),
    ) + seq![QUOTE]
}

/// The content of the root tag: its name and the namespaces of the schema.
pub open spec fn root_content() -> Seq<u8> {
    with_attribute(
        with_attribute(
            with_attribute(encode_utf8("project"@), "xmlns"@, PROJECT_XMLNS@),
            "xmlns:xsi"@,
            PROJECT_XSI@,
        ),
        "xsi:schemaLocation"@,
        PROJECT_XSD@,
    )
}

/// A start tag stays valid UTF-8 when an attribute is added to it.
proof fn lemma_attribute_valid(content: Seq<u8>, key: Seq<char>, value: Seq<char>)
    requires
        valid_utf8(content),
    ensures
        valid_utf8(with_attribute(content, key, value)),
{
    let k = encode_utf8(key);
    let v = xml_escaped(encode_utf8(value));
    encode_utf8_valid_utf8(key);
    encode_utf8_valid_utf8(value);
    lemma_escaped_valid(encode_utf8(value));
    lemma_ascii_valid(seq![SPACE]);
    lemma_ascii_valid(seq![EQUALS, QUOTE]);
    lemma_ascii_valid(seq![QUOTE]);
    valid_utf8_concat(content, seq![SPACE]);
    valid_utf8_concat(content + seq![SPACE], k);
    valid_utf8_concat(content + seq![SPACE] + k, seq![EQUALS, QUOTE]);
    valid_utf8_concat(content + seq![SPACE] + k + seq![EQUALS, QUOTE], v);
    valid_utf8_concat(content + seq![SPACE] + k + seq![EQUALS, QUOTE] + v, seq![QUOTE]);
}

/// The content of the root tag is valid UTF-8.
proof fn lemma_root_content_valid()
    ensures
        valid_utf8(root_content()),
{
    let first = with_attribute(encode_utf8("project"@), "xmlns"@, PROJECT_XMLNS@);
    let second = with_attribute(first, "xmlns:xsi"@, PROJECT_XSI@);
    encode_utf8_valid_utf8("project"@);
    lemma_attribute_valid(encode_utf8("project"@), "xmlns"@, PROJECT_XMLNS@);
    lemma_attribute_valid(first, "xmlns:xsi"@, PROJECT_XSI@);
    lemma_attribute_valid(second, "xsi:schemaLocation"@, PROJECT_XSD@);
}

/// The start tag `name`.
pub open spec fn start_of(name: Seq<char>) -> Seq<XmlEvent> {
    seq![XmlEvent::Start(encode_utf8(name))]
}

/// The end tag `name`.
pub open spec fn end_of(name: Seq<char>) -> Seq<XmlEvent> {
    seq![XmlEvent::End(encode_utf8(name))]
}

/// The element `name` with the text `text` inside.
pub open spec fn element(name: Seq<char>, text: Seq<char>) -> Seq<XmlEvent> {
    text_element(encode_utf8(name), encode_utf8(text))
}

/// The version of a dependency, where it has one.
pub open spec fn version_events(version: Option<Seq<char>>) -> Seq<XmlEvent> {
    match version {
        Some(v) => element("version"@, v),
        None => Seq::empty(),
    }
}

/// The coordinates of a dependency: group, artifact and, where given, version.
pub open spec fn dependency_events(d: DependencyView) -> Seq<XmlEvent> {
    element("groupId"@, d.group_id) + element("artifactId"@, d.artifact_id) + version_events(
        d.version,
    )
}

/// The parent of a project, where it has one.
pub open spec fn parent_events(parent: Option<DependencyView>) -> Seq<XmlEvent> {
    match parent {
        Some(p) => start_of("parent"@) + dependency_events(p) + end_of("parent"@),
        None => Seq::empty(),
    }
}

/// The properties one after another, each an element named like the property.
pub open spec fn property_elements(properties: Seq<PropertyView>) -> Seq<XmlEvent> {
    properties.map_values(|p: PropertyView| element(p.name, p.value)).flatten()
}

/// The properties of a project, where it has any.
pub open spec fn properties_events(properties: Seq<PropertyView>) -> Seq<XmlEvent> {
    if properties.len() == 0 {
        Seq::empty()
    } else {
        start_of("properties"@) + property_elements(properties) + end_of("properties"@)
    }
}

/// One dependency of a project.
pub open spec fn dependency_element(d: DependencyView) -> Seq<XmlEvent> {
    start_of("dependency"@) + dependency_events(d) + end_of("dependency"@)
}

/// The dependencies one after another.
pub open spec fn dependency_elements(dependencies: Seq<DependencyView>) -> Seq<XmlEvent> {
    dependencies.map_values(|d: DependencyView| dependency_element(d)).flatten()
}

/// The dependencies of a project, where it has any.
pub open spec fn dependencies_events(dependencies: Seq<DependencyView>) -> Seq<XmlEvent> {
    if dependencies.len() == 0 {
        Seq::empty()
    } else {
        start_of("dependencies"@) + dependency_elements(dependencies) + end_of("dependencies"@)
    }
}

/// One plugin of the build.
pub open spec fn plugin_events(p: PluginView) -> Seq<XmlEvent> {
    start_of("plugin"@) + element("groupId"@, p.group_id) + element("artifactId"@, p.artifact_id)
        + element("version"@, p.version) + end_of("plugin"@)
}

/// The plugins one after another.
pub open spec fn plugin_elements(plugins: Seq<PluginView>) -> Seq<XmlEvent> {
    plugins.map_values(|p: PluginView| plugin_events(p)).flatten()
}

/// The plugins of the build, where it has any.
pub open spec fn plugins_events(plugins: Seq<PluginView>) -> Seq<XmlEvent> {
    if plugins.len() == 0 {
        Seq::empty()
    } else {
        start_of("plugins"@) + plugin_elements(plugins) + end_of("plugins"@)
    }
}

/// The build section of a project, where it has one.
pub open spec fn build_events(build: Option<Seq<PluginView>>) -> Seq<XmlEvent> {
    match build {
        Some(plugins) => start_of("build"@) + plugins_events(plugins) + end_of("build"@),
        None => Seq::empty(),
    }
}

/// What stands between the root tags of a descriptor: the parent, the
/// coordinates of the project, its properties, its dependencies and its build.
pub open spec fn project_events(pom: PomView) -> Seq<XmlEvent> {
    parent_events(pom.parent) + element("modelVersion"@, pom.model_version) + element(
        "groupId"@,
        pom.group_id,
    ) + element("artifactId"@, pom.artifact_id) + element("version"@, pom.version)
        + properties_events(pom.properties) + dependencies_events(pom.dependencies)
        + build_events(pom.build)
}

/// The events of a whole descriptor.
pub open spec fn pom_events(pom: PomView) -> Seq<XmlEvent> {
    seq![XmlEvent::Start(root_content())] + project_events(pom) + end_of("project"@)
}

/// Whether `after` is the state that `events` lead to from `before`, balanced
/// as every sequence of whole elements is: the indentation is the same again
/// and, where anything was written, the next tag begins a new line. What was
/// valid UTF-8 before is valid UTF-8 after.
pub open spec fn ran(before: XmlState, after: XmlState, events: Seq<XmlEvent>) -> bool {
    &&& after == xml_run(before, events)
    &&& after.indent == before.indent
    &&& events.len() > 0 ==> after.breaks
    &&& valid_utf8(before.bytes) ==> valid_utf8(after.bytes)
}

/// What was run in two parts was run as a whole.
pub(crate) proof fn lemma_ran_then(
    s0: XmlState,
    s1: XmlState,
    s2: XmlState,
    first: Seq<XmlEvent>,
    second: Seq<XmlEvent>,
)
    requires
        ran(s0, s1, first),
        ran(s1, s2, second),
    ensures
        ran(s0, s2, first + second),
{
    lemma_run_concat(s0, first, second);
    if second.len() == 0 {
        assert(first + second =~= first);
    }
}

/// An element written between a start tag and its end tag.
pub(crate) proof fn lemma_ran_inside(
    s0: XmlState,
    s1: XmlState,
    s2: XmlState,
    s3: XmlState,
    start: XmlEvent,
    inner: Seq<XmlEvent>,
    end: XmlEvent,
)
    requires
        start is Start,
        end is End,
        event_valid(start),
        event_valid(end),
        s1 == xml_step(s0, start),
        ran(s1, s2, inner),
        s3 == xml_step(s2, end),
    ensures
        ran(s0, s3, seq![start] + inner + seq![end]),
{
    if valid_utf8(s0.bytes) {
        lemma_step_valid(s0, start);
        lemma_step_valid(s2, end);
    }
    lemma_run_one(s0, start);
    lemma_run_one(s2, end);
    lemma_run_concat(s0, seq![start], inner);
    lemma_run_concat(s0, seq![start] + inner, seq![end]);
}

/// Writes the element `name` with the text `text` inside.
fn write_element(w: &mut Writer<Vec<u8>>, name: &str, text: &str) -> (r: Result<
    (),
    quick_xml::Error,
>)
    requires
        xml_indent(*old(w)) + 4 <= usize::MAX,
    ensures
        r is Ok,
        ran(xml_state(*old(w)), xml_state(*final(w)), element(name@, text@)),
{
    proof {
        lemma_run_text_element(xml_state(*w), encode_utf8(name@), encode_utf8(text@));
        if valid_utf8(xml_state(*w).bytes) {
            lemma_text_element_valid(xml_state(*w), name@, text@);
        }
    }
    write_text_element(w, name, text)
}

/// Writes the start tag `name`.
fn open_element(w: &mut Writer<Vec<u8>>, name: &str) -> (r: Result<(), quick_xml::Error>)
    requires
        xml_indent(*old(w)) + 4 <= usize::MAX,
    ensures
        r is Ok,
        xml_state(*final(w)) == xml_step(
            xml_state(*old(w)),
            XmlEvent::Start(encode_utf8(name@)),
        ),
{
    let tag = new_tag(name);
    write_start(w, tag)
}

/// Writes the end tag `name`.
fn close_element(w: &mut Writer<Vec<u8>>, name: &str) -> (r: Result<(), quick_xml::Error>)
    ensures
        r is Ok,
        xml_state(*final(w)) == xml_step(
            xml_state(*old(w)),
            XmlEvent::End(encode_utf8(name@)),
        ),
{
    write_end(w, name)
}

impl POMWriter {
    #[verifier::type_invariant]
    spec fn at_rest(&self) -> bool {
        xml_indent(self.writer) == 0 && valid_utf8(xml_written(self.writer))
    }

    /// What this writer has written, and how its next tag begins.
    pub closed spec fn state(&self) -> XmlState {
        xml_state(self.writer)
    }

    /// Writes the coordinates of a dependency.
    fn write_dependency(w: &mut Writer<Vec<u8>>, dependency: &Dependency) -> (r: Result<
        (),
        quick_xml::Error,
    >)
        requires
            xml_indent(*old(w)) + 4 <= usize::MAX,
        ensures
            r is Ok,
            ran(
                xml_state(*old(w)),
                xml_state(*final(w)),
                dependency_events(dependency@),
            ),
    {
        let ghost s0 = xml_state(*w);
        write_element(w, "groupId", dependency.group_id.as_str())?;
        let ghost s1 = xml_state(*w);
        write_element(w, "artifactId", dependency.artifact_id.as_str())?;
        let ghost s2 = xml_state(*w);
        match &dependency.version {
            Some(v) => {
                write_element(w, "version", v.as_str())?;
            },
            None => {},
        }
        proof {
            let d = dependency@;
            lemma_ran_then(
                s0,
                s1,
                s2,
                element("groupId"@, d.group_id),
                element("artifactId"@, d.artifact_id),
            );
            lemma_ran_then(
                s0,
                s2,
                xml_state(*w),
                element("groupId"@, d.group_id) + element("artifactId"@, d.artifact_id),
                version_events(d.version),
            );
        }
        Ok(())
    }

    /// Writes the parent of a project, where it has one.
    fn write_parent(w: &mut Writer<Vec<u8>>, parent: Option<&Dependency>) -> (r: Result<
        (),
        quick_xml::Error,
    >)
        requires
            xml_indent(*old(w)) + 8 <= usize::MAX,
        ensures
            r is Ok,
            ran(
                xml_state(*old(w)),
                xml_state(*final(w)),
                parent_events(
                    match parent {
                        Some(p) => Some(p@),
                        None => None,
                    },
                ),
            ),
    {
        match parent {
            Some(p) => {
                let ghost s0 = xml_state(*w);
                open_element(w, "parent")?;
                let ghost s1 = xml_state(*w);
                Self::write_dependency(w, p)?;
                let ghost s2 = xml_state(*w);
                close_element(w, "parent")?;
                proof {
                    encode_utf8_valid_utf8("parent"@);
                    lemma_ran_inside(
                        s0,
                        s1,
                        s2,
                        xml_state(*w),
                        XmlEvent::Start(encode_utf8("parent"@)),
                        dependency_events(p@),
                        XmlEvent::End(encode_utf8("parent"@)),
                    );
                }
                Ok(())
            },
            None => Ok(()),
        }
    }

    /// Writes the properties of a project, where it has any.
    fn write_properties(w: &mut Writer<Vec<u8>>, properties: &Vec<Property>) -> (r: Result<
        (),
        quick_xml::Error,
    >)
        requires
            xml_indent(*old(w)) + 8 <= usize::MAX,
        ensures
            r is Ok,
            ran(
                xml_state(*old(w)),
                xml_state(*final(w)),
                properties_events(properties.deep_view()),
            ),
    {
        if properties.len() == 0 {
            return Ok(());
        }
        let ghost s0 = xml_state(*w);
        let ghost all = properties.deep_view();
        let ghost each = all.map_values(|p: PropertyView| element(p.name, p.value));
        open_element(w, "properties")?;
        let ghost s1 = xml_state(*w);
        let mut i: usize = 0;
        proof {
            assert(each.take(0) =~= Seq::<Seq<XmlEvent>>::empty());
        }
        while i < properties.len()
            invariant
                i <= properties.len(),
                all == properties.deep_view(),
                each == all.map_values(|p: PropertyView| element(p.name, p.value)),
                xml_indent(*w) + 4 <= usize::MAX,
                ran(s1, xml_state(*w), each.take(i as int).flatten()),
            decreases properties.len() - i,
        {
            let ghost before = xml_state(*w);
            write_element(w, properties[i].name.as_str(), properties[i].value.as_str())?;
            proof {
                let p = properties@[i as int]@;
                assert(each[i as int] == element(p.name, p.value));
                assert(each.take(i + 1) =~= each.take(i as int).push(each[i as int]));
                each.take(i as int).lemma_flatten_push(each[i as int]);
                lemma_ran_then(
                    s1,
                    before,
                    xml_state(*w),
                    each.take(i as int).flatten(),
                    each[i as int],
                );
            }
            i = i + 1;
        }
        let ghost s2 = xml_state(*w);
        close_element(w, "properties")?;
        proof {
            assert(each.take(properties.len() as int) =~= each);
            encode_utf8_valid_utf8("properties"@);
            lemma_ran_inside(
                s0,
                s1,
                s2,
                xml_state(*w),
                XmlEvent::Start(encode_utf8("properties"@)),
                property_elements(all),
                XmlEvent::End(encode_utf8("properties"@)),
            );
        }
        Ok(())
    }

    /// Writes the dependencies of a project, where it has any.
    fn write_dependenies(w: &mut Writer<Vec<u8>>, dependencies: &Vec<Dependency>) -> (r:
        Result<(), quick_xml::Error>)
        requires
            xml_indent(*old(w)) + 12 <= usize::MAX,
        ensures
            r is Ok,
            ran(
                xml_state(*old(w)),
                xml_state(*final(w)),
                dependencies_events(dependencies.deep_view()),
            ),
    {
        if dependencies.len() == 0 {
            return Ok(());
        }
        let ghost s0 = xml_state(*w);
        let ghost all = dependencies.deep_view();
        let ghost each = all.map_values(|d: DependencyView| dependency_element(d));
        open_element(w, "dependencies")?;
        let ghost s1 = xml_state(*w);
        let mut i: usize = 0;
        proof {
            assert(each.take(0) =~= Seq::<Seq<XmlEvent>>::empty());
        }
        while i < dependencies.len()
            invariant
                i <= dependencies.len(),
                all == dependencies.deep_view(),
                each == all.map_values(|d: DependencyView| dependency_element(d)),
                xml_indent(*w) + 8 <= usize::MAX,
                ran(s1, xml_state(*w), each.take(i as int).flatten()),
            decreases dependencies.len() - i,
        {
            let ghost before = xml_state(*w);
            open_element(w, "dependency")?;
            let ghost inside = xml_state(*w);
            Self::write_dependency(w, &dependencies[i])?;
            let ghost written = xml_state(*w);
            close_element(w, "dependency")?;
            proof {
                encode_utf8_valid_utf8("dependency"@);
                lemma_ran_inside(
                    before,
                    inside,
                    written,
                    xml_state(*w),
                    XmlEvent::Start(encode_utf8("dependency"@)),
                    dependency_events(dependencies@[i as int]@),
                    XmlEvent::End(encode_utf8("dependency"@)),
                );
                assert(each[i as int] == dependency_element(dependencies@[i as int]@));
                assert(each.take(i + 1) =~= each.take(i as int).push(each[i as int]));
                each.take(i as int).lemma_flatten_push(each[i as int]);
                lemma_ran_then(
                    s1,
                    before,
                    xml_state(*w),
                    each.take(i as int).flatten(),
                    each[i as int],
                );
            }
            i = i + 1;
        }
        let ghost s2 = xml_state(*w);
        close_element(w, "dependencies")?;
        proof {
            assert(each.take(dependencies.len() as int) =~= each);
            encode_utf8_valid_utf8("dependencies"@);
            lemma_ran_inside(
                s0,
                s1,
                s2,
                xml_state(*w),
                XmlEvent::Start(encode_utf8("dependencies"@)),
                dependency_elements(all),
                XmlEvent::End(encode_utf8("dependencies"@)),
            );
        }
        Ok(())
    }

    /// Writes one plugin of the build.
    fn write_plugin(w: &mut Writer<Vec<u8>>, plugin: &Plugin) -> (r: Result<
        (),
        quick_xml::Error,
    >)
        requires
            xml_indent(*old(w)) + 8 <= usize::MAX,
        ensures
            r is Ok,
            ran(xml_state(*old(w)), xml_state(*final(w)), plugin_events(plugin@)),
    {
        let ghost s0 = xml_state(*w);
        open_element(w, "plugin")?;
        let ghost s1 = xml_state(*w);
        write_element(w, "groupId", plugin.group_id.as_str())?;
        let ghost s2 = xml_state(*w);
        write_element(w, "artifactId", plugin.artifact_id.as_str())?;
        let ghost s3 = xml_state(*w);
        write_element(w, "version", plugin.version.as_str())?;
        let ghost s4 = xml_state(*w);
        close_element(w, "plugin")?;
        proof {
            let p = plugin@;
            let a = element("groupId"@, p.group_id);
            let b = element("artifactId"@, p.artifact_id);
            let c = element("version"@, p.version);
            lemma_ran_then(s1, s2, s3, a, b);
            lemma_ran_then(s1, s3, s4, a + b, c);
            encode_utf8_valid_utf8("plugin"@);
            lemma_ran_inside(
                s0,
                s1,
                s4,
                xml_state(*w),
                XmlEvent::Start(encode_utf8("plugin"@)),
                a + b + c,
                XmlEvent::End(encode_utf8("plugin"@)),
            );
            assert(plugin_events(p) =~= seq![XmlEvent::Start(encode_utf8("plugin"@))] + (a + b
                + c) + seq![XmlEvent::End(encode_utf8("plugin"@))]);
        }
        Ok(())
    }

    /// Writes the plugins of the build, where it has any.
    fn write_build_plugins(w: &mut Writer<Vec<u8>>, plugins: &Vec<Plugin>) -> (r: Result<
        (),
        quick_xml::Error,
    >)
        requires
            xml_indent(*old(w)) + 12 <= usize::MAX,
        ensures
            r is Ok,
            ran(
                xml_state(*old(w)),
                xml_state(*final(w)),
                plugins_events(plugins.deep_view()),
            ),
    {
        if plugins.len() == 0 {
            return Ok(());
        }
        let ghost s0 = xml_state(*w);
        let ghost all = plugins.deep_view();
        let ghost each = all.map_values(|p: PluginView| plugin_events(p));
        open_element(w, "plugins")?;
        let ghost s1 = xml_state(*w);
        let mut i: usize = 0;
        proof {
            assert(each.take(0) =~= Seq::<Seq<XmlEvent>>::empty());
        }
        while i < plugins.len()
            invariant
                i <= plugins.len(),
                all == plugins.deep_view(),
                each == all.map_values(|p: PluginView| plugin_events(p)),
                xml_indent(*w) + 8 <= usize::MAX,
                ran(s1, xml_state(*w), each.take(i as int).flatten()),
            decreases plugins.len() - i,
        {
            let ghost before = xml_state(*w);
            Self::write_plugin(w, &plugins[i])?;
            proof {
                assert(each[i as int] == plugin_events(plugins@[i as int]@));
                assert(each.take(i + 1) =~= each.take(i as int).push(each[i as int]));
                each.take(i as int).lemma_flatten_push(each[i as int]);
                lemma_ran_then(
                    s1,
                    before,
                    xml_state(*w),
                    each.take(i as int).flatten(),
                    each[i as int],
                );
            }
            i = i + 1;
        }
        let ghost s2 = xml_state(*w);
        close_element(w, "plugins")?;
        proof {
            assert(each.take(plugins.len() as int) =~= each);
            encode_utf8_valid_utf8("plugins"@);
            lemma_ran_inside(
                s0,
                s1,
                s2,
                xml_state(*w),
                XmlEvent::Start(encode_utf8("plugins"@)),
                plugin_elements(all),
                XmlEvent::End(encode_utf8("plugins"@)),
            );
        }
        Ok(())
    }

    /// Writes the build section of a project, where it has one.
    fn write_build(w: &mut Writer<Vec<u8>>, build: Option<&Build>) -> (r: Result<
        (),
        quick_xml::Error,
    >)
        requires
            xml_indent(*old(w)) + 16 <= usize::MAX,
        ensures
            r is Ok,
            ran(
                xml_state(*old(w)),
                xml_state(*final(w)),
                build_events(
                    match build {
                        Some(b) => Some(b@),
                        None => None,
                    },
                ),
            ),
    {
        match build {
            Some(b) => {
                let ghost s0 = xml_state(*w);
                open_element(w, "build")?;
                let ghost s1 = xml_state(*w);
                Self::write_build_plugins(w, &b.plugins)?;
                let ghost s2 = xml_state(*w);
                close_element(w, "build")?;
                proof {
                    encode_utf8_valid_utf8("build"@);
                    lemma_ran_inside(
                        s0,
                        s1,
                        s2,
                        xml_state(*w),
                        XmlEvent::Start(encode_utf8("build"@)),
                        plugins_events(b@),
                        XmlEvent::End(encode_utf8("build"@)),
                    );
                }
                Ok(())
            },
            None => Ok(()),
        }
    }

    /// Writes the root tag with the namespaces of the schema.
    fn write_root_start(w: &mut Writer<Vec<u8>>) -> (r: Result<(), quick_xml::Error>)
        requires
            xml_indent(*old(w)) + 4 <= usize::MAX,
        ensures
            r is Ok,
            xml_state(*final(w)) == xml_step(
                xml_state(*old(w)),
                XmlEvent::Start(root_content()),
            ),
    {
        let mut elem = new_tag("project");
        push_attribute(&mut elem, "xmlns", PROJECT_XMLNS);
        push_attribute(&mut elem, "xmlns:xsi", PROJECT_XSI);
        push_attribute(&mut elem, "xsi:schemaLocation", PROJECT_XSD);
        write_start(w, elem)
    }

    /// Writes the end of the root element.
    fn write_root_end(w: &mut Writer<Vec<u8>>) -> (r: Result<(), quick_xml::Error>)
        ensures
            r is Ok,
            xml_state(*final(w)) == xml_step(
                xml_state(*old(w)),
                XmlEvent::End(encode_utf8("project"@)),
            ),
    {
        close_element(w, "project")
    }

    /// Writes what stands between the root tags of the descriptor `pom`.
    fn write_project(w: &mut Writer<Vec<u8>>, pom: &POM) -> (r: Result<(), quick_xml::Error>)
        requires
            xml_indent(*old(w)) + 16 <= usize::MAX,
        ensures
            r is Ok,
            ran(xml_state(*old(w)), xml_state(*final(w)), project_events(pom@)),
    {
        let ghost s0 = xml_state(*w);
        let ghost p = pom@;
        Self::write_parent(w, pom.parent.as_ref())?;
        let ghost s1 = xml_state(*w);
        write_element(w, "modelVersion", pom.model_version.as_str())?;
        let ghost s2 = xml_state(*w);
        write_element(w, "groupId", pom.group_id.as_str())?;
        let ghost s3 = xml_state(*w);
        write_element(w, "artifactId", pom.artifact_id.as_str())?;
        let ghost s4 = xml_state(*w);
        write_element(w, "version", pom.version.as_str())?;
        let ghost s5 = xml_state(*w);
        Self::write_properties(w, &pom.properties)?;
        let ghost s6 = xml_state(*w);
        Self::write_dependenies(w, &pom.dependencies)?;
        let ghost s7 = xml_state(*w);
        Self::write_build(w, pom.build.as_ref())?;
        proof {
            let e1 = parent_events(p.parent);
            let e2 = e1 + element("modelVersion"@, p.model_version);
            let e3 = e2 + element("groupId"@, p.group_id);
            let e4 = e3 + element("artifactId"@, p.artifact_id);
            let e5 = e4 + element("version"@, p.version);
            let e6 = e5 + properties_events(p.properties);
            let e7 = e6 + dependencies_events(p.dependencies);
            lemma_ran_then(s0, s1, s2, e1, element("modelVersion"@, p.model_version));
            lemma_ran_then(s0, s2, s3, e2, element("groupId"@, p.group_id));
            lemma_ran_then(s0, s3, s4, e3, element("artifactId"@, p.artifact_id));
            lemma_ran_then(s0, s4, s5, e4, element("version"@, p.version));
            lemma_ran_then(s0, s5, s6, e5, properties_events(p.properties));
            lemma_ran_then(s0, s6, s7, e6, dependencies_events(p.dependencies));
            lemma_ran_then(s0, s7, xml_state(*w), e7, build_events(p.build));
        }
        Ok(())
    }

    /// Writes the whole descriptor `pom` into `w`.
    fn write_document(w: &mut Writer<Vec<u8>>, pom: &POM) -> (r: Result<(), quick_xml::Error>)
        requires
            xml_indent(*old(w)) + 20 <= usize::MAX,
        ensures
            r is Ok,
            ran(xml_state(*old(w)), xml_state(*final(w)), pom_events(pom@)),
    {
        let ghost s0 = xml_state(*w);
        Self::write_root_start(w)?;
        let ghost s1 = xml_state(*w);
        Self::write_project(w, pom)?;
        let ghost s2 = xml_state(*w);
        Self::write_root_end(w)?;
        proof {
            lemma_root_content_valid();
            encode_utf8_valid_utf8("project"@);
            lemma_ran_inside(
                s0,
                s1,
                s2,
                xml_state(*w),
                XmlEvent::Start(root_content()),
                project_events(pom@),
                XmlEvent::End(encode_utf8("project"@)),
            );
        }
        Ok(())
    }

    /// Writes the descriptor `pom` behind what this writer has written
    /// before. Writing into the buffer of this writer does not fail.
    pub fn write(&mut self, pom: &POM) -> (r: Result<(), PGError>)
        ensures
            r is Ok,
            final(self).state() == xml_run(old(self).state(), pom_events(pom@)),
    {
        proof {
            use_type_invariant(&*self);
        }
        let mut w = new_writer();
        std::mem::swap(&mut w, &mut self.writer);
        let written = Self::write_document(&mut w, pom);
        self.writer = w;
        match written {
            Ok(()) => Ok(()),
            Err(e) => Err(PGError::Xml(e)),
        }
    }

    /// What this writer has written, as text. The bytes that were written are
    /// the UTF-8 encoding of this text.
    pub fn document(&self) -> (r: Result<String, PGError>)
        ensures
            r matches Ok(text) && encode_utf8(text@) == self.state().bytes,
    {
        proof {
            use_type_invariant(self);
        }
        let bytes = written_bytes(&self.writer);
        match core::str::from_utf8(bytes.as_slice()) {
            Ok(text) => Ok(text.to_owned()),
            Err(e) => Err(PGError::Utf82(e)),
        }
    }
}

impl Default for POMWriter {
    fn default() -> (writer: POMWriter)
        ensures
            writer.state() == (XmlState { bytes: Seq::empty(), indent: 0, breaks: false }),
    {
        POMWriter { writer: new_writer() }
    }
}

} // verus!
