//! Maven coordinates and repositories, and a builder that collects them.

use crate::text::optional;
use vstd::prelude::*;

verus! {

/// A property of the build: a name and its value.
#[derive(Debug, Clone)]
pub struct Property {
    pub name: String,
    pub value: String,
}

/// An artifact that a dependency must not bring along.
#[derive(Debug, Clone)]
pub struct Exclusion {
    pub group_id: String,
    pub artifact_id: String,
}

/// An artifact that the project depends on.
#[derive(Debug, Clone)]
pub struct Dependency {
    pub group_id: String,
    pub artifact_id: String,
    pub version: String,
    pub artifact_type: Option<String>,
    pub classifier: Option<String>,
    pub scope: Option<String>,
    pub optional: Option<bool>,
    pub exclusions: Option<Vec<Exclusion>>,
}

/// A repository that artifacts are fetched from.
#[derive(Debug, Clone)]
pub struct MavenRepository {
    pub id: String,
    pub url: String,
    pub name: String,
    pub releases_enabled: bool,
    pub snapshots_enabled: bool,
}

/// Collects what a build descriptor is made of.
#[derive(Debug, Clone)]
pub struct POMBuilder {
    pub properties: Vec<Property>,
    pub dependencies: Vec<Dependency>,
    pub repositories: Vec<MavenRepository>,
    pub plugin_repositories: Vec<MavenRepository>,
}

/// The mathematical content of a `Property`.
pub struct PropertyView {
    pub name: Seq<char>,
    pub value: Seq<char>,
}

/// The mathematical content of an `Exclusion`.
pub struct ExclusionView {
    pub group_id: Seq<char>,
    pub artifact_id: Seq<char>,
}

/// The mathematical content of a `Dependency`.
pub struct DependencyView {
    pub group_id: Seq<char>,
    pub artifact_id: Seq<char>,
    pub version: Seq<char>,
    pub artifact_type: Option<Seq<char>>,
    pub classifier: Option<Seq<char>>,
    pub scope: Option<Seq<char>>,
    pub optional: Option<bool>,
    pub exclusions: Option<Seq<ExclusionView>>,
}

/// The mathematical content of a `MavenRepository`.
pub struct RepositoryView {
    pub id: Seq<char>,
    pub url: Seq<char>,
    pub name: Seq<char>,
    pub releases_enabled: bool,
    pub snapshots_enabled: bool,
}

/// The mathematical content of a `POMBuilder`.
pub struct BuilderView {
    pub properties: Seq<PropertyView>,
    pub dependencies: Seq<DependencyView>,
    pub repositories: Seq<RepositoryView>,
    pub plugin_repositories: Seq<RepositoryView>,
}

impl View for Property {
    type V = PropertyView;

    open spec fn view(&self) -> PropertyView {
        PropertyView { name: self.name@, value: self.value@ }
    }
}

impl DeepView for Property {
    type V = PropertyView;

    open spec fn deep_view(&self) -> PropertyView {
        self.view()
    }
}

impl View for Exclusion {
    type V = ExclusionView;

    open spec fn view(&self) -> ExclusionView {
        ExclusionView { group_id: self.group_id@, artifact_id: self.artifact_id@ }
    }
}

impl DeepView for Exclusion {
    type V = ExclusionView;

    open spec fn deep_view(&self) -> ExclusionView {
        self.view()
    }
}

impl View for Dependency {
    type V = DependencyView;

    open spec fn view(&self) -> DependencyView {
        DependencyView {
            group_id: self.group_id@,
            artifact_id: self.artifact_id@,
            version: self.version@,
            artifact_type: optional(self.artifact_type),
            classifier: optional(self.classifier),
            scope: optional(self.scope),
            optional: self.optional,
            exclusions: match self.exclusions {
                Some(list) => Some(list.deep_view()),
                None => None,
            },
        }
    }
}

impl DeepView for Dependency {
    type V = DependencyView;

    open spec fn deep_view(&self) -> DependencyView {
        self.view()
    }
}

impl View for MavenRepository {
    type V = RepositoryView;

    open spec fn view(&self) -> RepositoryView {
        RepositoryView {
            id: self.id@,
            url: self.url@,
            name: self.name@,
            releases_enabled: self.releases_enabled,
            snapshots_enabled: self.snapshots_enabled,
        }
    }
}

impl DeepView for MavenRepository {
    type V = RepositoryView;

    open spec fn deep_view(&self) -> RepositoryView {
        self.view()
    }
}

impl View for POMBuilder {
    type V = BuilderView;

    open spec fn view(&self) -> BuilderView {
        BuilderView {
            properties: self.properties.deep_view(),
            dependencies: self.dependencies.deep_view(),
            repositories: self.repositories.deep_view(),
            plugin_repositories: self.plugin_repositories.deep_view(),
        }
    }
}

impl Property {
    /// The property `name` with the value `value`.
    pub fn new(name: String, value: String) -> (property: Property)
        ensures
            property@ == (PropertyView { name: name@, value: value@ }),
    {
        Property { name, value }
    }
}

impl Exclusion {
    /// The exclusion of the given artifact.
    pub fn new(group_id: String, artifact_id: String) -> (exclusion: Exclusion)
        ensures
            exclusion@ == (ExclusionView { group_id: group_id@, artifact_id: artifact_id@ }),
    {
        Exclusion { group_id, artifact_id }
    }
}

impl Dependency {
    /// A dependency on the given artifact with nothing else said about it.
    pub fn new(group_id: String, artifact_id: String, version: String) -> (dependency: Dependency)
        ensures
            dependency@ == (DependencyView {
                group_id: group_id@,
                artifact_id: artifact_id@,
                version: version@,
                artifact_type: None,
                classifier: None,
                scope: None,
                optional: None,
                exclusions: None,
            }),
    {
        Dependency {
            group_id,
            artifact_id,
            version,
            artifact_type: None,
            classifier: None,
            scope: None,
            optional: None,
            exclusions: None,
        }
    }

    /// Says of which type the artifact is.
    pub fn set_artifact_type(self, artifact_type: String) -> (dependency: Dependency)
        ensures
            dependency@ == (DependencyView { artifact_type: Some(artifact_type@), ..self@ }),
    {
        let mut dependency = self;
        dependency.artifact_type = Some(artifact_type);
        dependency
    }

    /// Says which classifier the artifact has.
    pub fn set_classifier(self, classifier: String) -> (dependency: Dependency)
        ensures
            dependency@ == (DependencyView { classifier: Some(classifier@), ..self@ }),
    {
        let mut dependency = self;
        dependency.classifier = Some(classifier);
        dependency
    }

    /// Says in which scope the artifact is needed.
    pub fn set_scope(self, scope: String) -> (dependency: Dependency)
        ensures
            dependency@ == (DependencyView { scope: Some(scope@), ..self@ }),
    {
        let mut dependency = self;
        dependency.scope = Some(scope);
        dependency
    }

    /// Says whether the artifact may be left out.
    pub fn set_optional(self, optional: bool) -> (dependency: Dependency)
        ensures
            dependency@ == (DependencyView { optional: Some(optional), ..self@ }),
    {
        let mut dependency = self;
        dependency.optional = Some(optional);
        dependency
    }

    /// Says which artifacts must not come along.
    pub fn set_exclusions(self, exclusions: Vec<Exclusion>) -> (dependency: Dependency)
        ensures
            dependency@ == (DependencyView { exclusions: Some(exclusions.deep_view()), ..self@ }),
    {
        let mut dependency = self;
        dependency.exclusions = Some(exclusions);
        dependency
    }
}

/// Maven Central as a repository of releases.
pub open spec fn maven_central() -> RepositoryView {
    RepositoryView {
        id: "maven-central"@,
        url: "https://repo.maven.apache.org/maven2"@,
        name: "Maven Central"@,
        releases_enabled: true,
        snapshots_enabled: false,
    }
}

impl MavenRepository {
    /// A repository that serves releases and no snapshots.
    pub fn new(id: String, url: String, name: String) -> (repository: MavenRepository)
        ensures
            repository@ == (RepositoryView {
                id: id@,
                url: url@,
                name: name@,
                releases_enabled: true,
                snapshots_enabled: false,
            }),
    {
        MavenRepository { id, url, name, releases_enabled: true, snapshots_enabled: false }
    }

    /// Maven Central.
    pub fn maven_center() -> (repository: MavenRepository)
        ensures
            repository@ == maven_central(),
    {
        MavenRepository::new(
            "maven-central".to_owned(),
            "https://repo.maven.apache.org/maven2".to_owned(),
            "Maven Central".to_owned(),
        )
    }

    /// Says whether the repository serves releases.
    pub fn set_releases_enabled(self, releases_enabled: bool) -> (repository: MavenRepository)
        ensures
            repository@ == (RepositoryView { releases_enabled, ..self@ }),
    {
        let mut repository = self;
        repository.releases_enabled = releases_enabled;
        repository
    }

    /// Says whether the repository serves snapshots.
    pub fn set_snapshots_enabled(self, snapshots_enabled: bool) -> (repository: MavenRepository)
        ensures
            repository@ == (RepositoryView { snapshots_enabled, ..self@ }),
    {
        let mut repository = self;
        repository.snapshots_enabled = snapshots_enabled;
        repository
    }

    /// The repository as one that serves releases and no snapshots.
    pub fn only_releases(self) -> (repository: MavenRepository)
        ensures
            repository@ == (RepositoryView {
                releases_enabled: true,
                snapshots_enabled: false,
                ..self@
            }),
    {
        let mut repository = self;
        repository.releases_enabled = true;
        repository.snapshots_enabled = false;
        repository
    }

    /// The repository as one that serves snapshots and no releases.
    pub fn only_snapshots(self) -> (repository: MavenRepository)
        ensures
            repository@ == (RepositoryView {
                releases_enabled: false,
                snapshots_enabled: true,
                ..self@
            }),
    {
        let mut repository = self;
        repository.releases_enabled = false;
        repository.snapshots_enabled = true;
        repository
    }
}

impl POMBuilder {
    /// A builder that has collected nothing yet.
    pub fn new() -> (builder: POMBuilder)
        ensures
            builder@ == (BuilderView {
                properties: Seq::empty(),
                dependencies: Seq::empty(),
                repositories: Seq::empty(),
                plugin_repositories: Seq::empty(),
            }),
    {
        let builder = POMBuilder {
            properties: Vec::new(),
            dependencies: Vec::new(),
            repositories: Vec::new(),
            plugin_repositories: Vec::new(),
        };
        proof {
            assert(builder@.properties =~= Seq::<PropertyView>::empty());
            assert(builder@.dependencies =~= Seq::<DependencyView>::empty());
            assert(builder@.repositories =~= Seq::<RepositoryView>::empty());
            assert(builder@.plugin_repositories =~= Seq::<RepositoryView>::empty());
        }
        builder
    }

    /// Adds `property` behind the properties that are there.
    pub fn add_property(self, property: Property) -> (builder: POMBuilder)
        ensures
            builder@ == (BuilderView { properties: self@.properties.push(property@), ..self@ }),
    {
        let mut builder = self;
        builder.properties.push(property);
        proof {
            assert(builder.properties.deep_view() =~= self.properties.deep_view().push(property@));
        }
        builder
    }

    /// Adds `dependency` behind the dependencies that are there.
    pub fn add_dependency(self, dependency: Dependency) -> (builder: POMBuilder)
        ensures
            builder@ == (BuilderView {
                dependencies: self@.dependencies.push(dependency@),
                ..self@
            }),
    {
        let mut builder = self;
        builder.dependencies.push(dependency);
        proof {
            assert(builder.dependencies.deep_view() =~= self.dependencies.deep_view().push(
                dependency@,
            ));
        }
        builder
    }

    /// Adds `repository` behind the repositories that are there.
    pub fn add_repository(self, repository: MavenRepository) -> (builder: POMBuilder)
        ensures
            builder@ == (BuilderView {
                repositories: self@.repositories.push(repository@),
                ..self@
            }),
    {
        let mut builder = self;
        builder.repositories.push(repository);
        proof {
            assert(builder.repositories.deep_view() =~= self.repositories.deep_view().push(
                repository@,
            ));
        }
        builder
    }

    /// Adds `repository` behind the plugin repositories that are there.
    pub fn add_plugin_repository(self, repository: MavenRepository) -> (builder: POMBuilder)
        ensures
            builder@ == (BuilderView {
                plugin_repositories: self@.plugin_repositories.push(repository@),
                ..self@
            }),
    {
        let mut builder = self;
        builder.plugin_repositories.push(repository);
        proof {
            assert(builder.plugin_repositories.deep_view()
                =~= self.plugin_repositories.deep_view().push(repository@));
        }
        builder
    }

    /// Ends the collecting. Nothing is stored: what this builder gathered is
    /// given up with it.
    pub fn write(self, path: String) {
    }
}

} // verus!
