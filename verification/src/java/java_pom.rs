//! The model of a Maven build descriptor.

use crate::text::optional;
use vstd::prelude::*;

verus! {

/// The version of Spring Boot that new descriptors build on.
pub const SPRING_BOOT_VERSION: &'static str = "2.6.6";

/// A property of the build: a name and its value.
#[derive(Debug, Clone)]
pub struct Property {
    pub name: String,
    pub value: String,
}

/// An artifact that a dependency must not bring along.
#[derive(Debug, Clone)]
pub struct Exclusion {
    pub group_id: String,
    pub artifact_id: String,
}

/// An artifact that the project depends on.
#[derive(Debug, Clone)]
pub struct Dependency {
    pub group_id: String,
    pub artifact_id: String,
    pub version: Option<String>,
    pub artifact_type: Option<String>,
    pub classifier: Option<String>,
    pub scope: Option<String>,
    pub optional: Option<bool>,
    pub exclusions: Option<Vec<Exclusion>>,
}

/// A plugin that takes part in the build.
#[derive(Debug, Clone)]
pub struct Plugin {
    pub group_id: String,
    pub artifact_id: String,
    pub version: String,
}

/// The build section of a descriptor.
#[derive(Debug, Clone)]
pub struct Build {
    pub plugins: Vec<Plugin>,
}

/// A Maven build descriptor.
#[derive(Debug, Clone)]
pub struct POM {
    pub model_version: String,
    pub group_id: String,
    pub artifact_id: String,
    pub version: String,
    pub packaging: Option<String>,
    pub parent: Option<Dependency>,
    pub properties: Vec<Property>,
    pub dependencies: Vec<Dependency>,
    pub build: Option<Build>,
}

/// The mathematical content of a `Property`.
pub struct PropertyView {
    pub name: Seq<char>,
    pub value: Seq<char>,
}

/// The mathematical content of an `Exclusion`.
pub struct ExclusionView {
    pub group_id: Seq<char>,
    pub artifact_id: Seq<char>,
}

/// The mathematical content of a `Dependency`.
pub struct DependencyView {
    pub group_id: Seq<char>,
    pub artifact_id: Seq<char>,
    pub version: Option<Seq<char>>,
    pub artifact_type: Option<Seq<char>>,
    pub classifier: Option<Seq<char>>,
    pub scope: Option<Seq<char>>,
    pub optional: Option<bool>,
    pub exclusions: Option<Seq<ExclusionView>>,
}

/// The mathematical content of a `Plugin`.
pub struct PluginView {
    pub group_id: Seq<char>,
    pub artifact_id: Seq<char>,
    pub version: Seq<char>,
}

/// The mathematical content of a `POM`.
pub struct PomView {
    pub model_version: Seq<char>,
    pub group_id: Seq<char>,
    pub artifact_id: Seq<char>,
    pub version: Seq<char>,
    pub packaging: Option<Seq<char>>,
    pub parent: Option<DependencyView>,
    pub properties: Seq<PropertyView>,
    pub dependencies: Seq<DependencyView>,
    pub build: Option<Seq<PluginView>>,
}

impl View for Property {
    type V = PropertyView;

    open spec fn view(&self) -> PropertyView {
        PropertyView { name: self.name@, value: self.value@ }
    }
}

impl DeepView for Property {
    type V = PropertyView;

    open spec fn deep_view(&self) -> PropertyView {
        self.view()
    }
}

impl View for Exclusion {
    type V = ExclusionView;

    open spec fn view(&self) -> ExclusionView {
        ExclusionView { group_id: self.group_id@, artifact_id: self.artifact_id@ }
    }
}

impl DeepView for Exclusion {
    type V = ExclusionView;

    open spec fn deep_view(&self) -> ExclusionView {
        self.view()
    }
}

impl View for Dependency {
    type V = DependencyView;

    open spec fn view(&self) -> DependencyView {
        DependencyView {
            group_id: self.group_id@,
            artifact_id: self.artifact_id@,
            version: optional(self.version),
            artifact_type: optional(self.artifact_type),
            classifier: optional(self.classifier),
            scope: optional(self.scope),
            optional: self.optional,
            exclusions: match self.exclusions {
                Some(list) => Some(list.deep_view()),
                None => None,
            },
        }
    }
}

impl DeepView for Dependency {
    type V = DependencyView;

    open spec fn deep_view(&self) -> DependencyView {
        self.view()
    }
}

impl View for Plugin {
    type V = PluginView;

    open spec fn view(&self) -> PluginView {
        PluginView {
            group_id: self.group_id@,
            artifact_id: self.artifact_id@,
            version: self.version@,
        }
    }
}

impl DeepView for Plugin {
    type V = PluginView;

    open spec fn deep_view(&self) -> PluginView {
        self.view()
    }
}

impl View for Build {
    type V = Seq<PluginView>;

    open spec fn view(&self) -> Seq<PluginView> {
        self.plugins.deep_view()
    }
}

impl View for POM {
    type V = PomView;

    open spec fn view(&self) -> PomView {
        PomView {
            model_version: self.model_version@,
            group_id: self.group_id@,
            artifact_id: self.artifact_id@,
            version: self.version@,
            packaging: optional(self.packaging),
            parent: match self.parent {
                Some(p) => Some(p@),
                None => None,
            },
            properties: self.properties.deep_view(),
            dependencies: self.dependencies.deep_view(),
            build: match self.build {
                Some(b) => Some(b@),
                None => None,
            },
        }
    }
}

/// A dependency on the given artifact with nothing else said about it.
pub open spec fn plain_dependency(
    group_id: Seq<char>,
    artifact_id: Seq<char>,
    version: Option<Seq<char>>,
) -> DependencyView {
    DependencyView {
        group_id,
        artifact_id,
        version,
        artifact_type: None,
        classifier: None,
        scope: None,
        optional: None,
        exclusions: None,
    }
}

/// The parent of new descriptors: the Spring Boot starter parent.
pub open spec fn spring_boot_parent_view() -> DependencyView {
    plain_dependency(
        "org.springframework.boot"@,
        "spring-boot-starter-parent"@,
        Some(SPRING_BOOT_VERSION@),
    )
}

/// The plugins of new descriptors: the Spring Boot Maven plugin alone.
pub open spec fn default_plugins() -> Seq<PluginView> {
    seq![
        PluginView {
            group_id: "org.springframework.boot"@,
            artifact_id: "spring-boot-maven-plugin"@,
            version: SPRING_BOOT_VERSION@,
        },
    ]
}

impl Property {
    /// The property `name` with the value `value`.
    pub fn new(name: &str, value: &str) -> (property: Property)
        ensures
            property@ == (PropertyView { name: name@, value: value@ }),
    {
        Property { name: name.to_owned(), value: value.to_owned() }
    }
}

impl Exclusion {
    /// The exclusion of the given artifact.
    pub fn new(group_id: String, artifact_id: String) -> (exclusion: Exclusion)
        ensures
            exclusion@ == (ExclusionView { group_id: group_id@, artifact_id: artifact_id@ }),
    {
        Exclusion { group_id, artifact_id }
    }
}

impl Dependency {
    /// A dependency on the given artifact with nothing else said about it.
    pub fn new(group_id: &str, artifact_id: &str, version: Option<&str>) -> (dependency:
        Dependency)
        ensures
            dependency@ == plain_dependency(
                group_id@,
                artifact_id@,
                match version {
                    Some(v) => Some(v@),
                    None => None,
                },
            ),
    {
        let version = match version {
            Some(v) => Some(v.to_owned()),
            None => None,
        };
        Dependency {
            group_id: group_id.to_owned(),
            artifact_id: artifact_id.to_owned(),
            version,
            artifact_type: None,
            classifier: None,
            scope: None,
            optional: None,
            exclusions: None,
        }
    }

    /// Says of which type the artifact is.
    pub fn set_artifact_type(&mut self, artifact_type: String) -> (same: &Self)
        ensures
            final(self)@ == (DependencyView { artifact_type: Some(artifact_type@), ..old(self)@ }),
            same@ == final(self)@,
    {
        self.artifact_type = Some(artifact_type);
        self
    }

    /// Says which classifier the artifact has.
    pub fn set_classifier(&mut self, classifier: String) -> (same: &Self)
        ensures
            final(self)@ == (DependencyView { classifier: Some(classifier@), ..old(self)@ }),
            same@ == final(self)@,
    {
        self.classifier = Some(classifier);
        self
    }

    /// Says in which scope the artifact is needed.
    pub fn set_scope(&mut self, scope: String) -> (same: &Self)
        ensures
            final(self)@ == (DependencyView { scope: Some(scope@), ..old(self)@ }),
            same@ == final(self)@,
    {
        self.scope = Some(scope);
        self
    }

    /// Says whether the artifact may be left out.
    pub fn set_optional(&mut self, optional: bool) -> (same: &Self)
        ensures
            final(self)@ == (DependencyView { optional: Some(optional), ..old(self)@ }),
            same@ == final(self)@,
    {
        self.optional = Some(optional);
        self
    }

    /// Says which artifacts must not come along.
    pub fn set_exclusions(&mut self, exclusions: Vec<Exclusion>) -> (same: &Self)
        ensures
            final(self)@ == (DependencyView {
                exclusions: Some(exclusions.deep_view()),
                ..old(self)@
            }),
            same@ == final(self)@,
    {
        self.exclusions = Some(exclusions);
        self
    }
}

impl Default for Build {
    fn default() -> (build: Build)
        ensures
            build@ == default_plugins(),
    {
        let mut plugins: Vec<Plugin> = Vec::new();
        plugins.push(
            Plugin {
                group_id: "org.springframework.boot".to_owned(),
                artifact_id: "spring-boot-maven-plugin".to_owned(),
                version: SPRING_BOOT_VERSION.to_owned(),
            },
        );
        let build = Build { plugins };
        proof {
            assert(build@ =~= default_plugins());
        }
        build
    }
}

impl POM {
    /// The descriptor of a new project: version `0.0.1`, built on the Spring
    /// Boot starter parent with the Spring Boot Maven plugin.
    pub fn new(group_id: &str, artifact_id: &str) -> (pom: POM)
        ensures
            pom@ == (PomView {
                model_version: "4.0.0"@,
                group_id: group_id@,
                artifact_id: artifact_id@,
                version: "0.0.1"@,
                packaging: None,
                parent: Some(spring_boot_parent_view()),
                properties: Seq::empty(),
                dependencies: Seq::empty(),
                build: Some(default_plugins()),
            }),
    {
        let pom = POM {
            model_version: "4.0.0".to_owned(),
            group_id: group_id.to_owned(),
            artifact_id: artifact_id.to_owned(),
            version: "0.0.1".to_owned(),
            parent: Some(Self::spring_boot_parent()),
            packaging: None,
            properties: Vec::new(),
            dependencies: Vec::new(),
            build: Some(Build::default()),
        };
        proof {
            assert(pom@.properties =~= Seq::<PropertyView>::empty());
            assert(pom@.dependencies =~= Seq::<DependencyView>::empty());
        }
        pom
    }

    /// The parent of new descriptors.
    pub fn spring_boot_parent() -> (parent: Dependency)
        ensures
            parent@ == spring_boot_parent_view(),
    {
        Dependency::new(
            "org.springframework.boot",
            "spring-boot-starter-parent",
            Some(SPRING_BOOT_VERSION),
        )
    }

    /// Says how the project is packaged.
    pub fn set_packaging(&mut self, packaging: String) -> (same: &Self)
        ensures
            final(self)@ == (PomView { packaging: Some(packaging@), ..old(self)@ }),
            same@ == final(self)@,
    {
        self.packaging = Some(packaging);
        self
    }

    /// Adds `property` behind the properties that are there.
    pub fn add_property(&mut self, property: Property) -> (same: &Self)
        ensures
            final(self)@ == (PomView {
                properties: old(self)@.properties.push(property@),
                ..old(self)@
            }),
            same@ == final(self)@,
    {
        self.properties.push(property);
        proof {
            assert(self.properties.deep_view() =~= old(self).properties.deep_view().push(
                property@,
            ));
        }
        self
    }

    /// Adds `dependency` behind the dependencies that are there.
    pub fn add_dependency(&mut self, dependency: Dependency) -> (same: &Self)
        ensures
            final(self)@ == (PomView {
                dependencies: old(self)@.dependencies.push(dependency@),
                ..old(self)@
            }),
            same@ == final(self)@,
    {
        self.dependencies.push(dependency);
        proof {
            assert(self.dependencies.deep_view() =~= old(self).dependencies.deep_view().push(
                dependency@,
            ));
        }
        self
    }
}

} // verus!
