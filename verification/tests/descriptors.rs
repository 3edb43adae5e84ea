use project_gen::java::pom::{
    Dependency as Coordinates, Exclusion as Excluded, Property as Pair,
};
use project_gen::java::{
    Build, Dependency, EmitError, Exclusion, MavenRepository, POMBuilder, POMWriter, Plugin,
    Property, TemplateError, POM,
};
use project_gen::PGError;

const ROOT: &str = "<project xmlns=\"http://maven.apache.org/POM/4.0.0\" xmlns:xsi=\"http://www.w3.org/2001/XMLSchema-instance\" xsi:schemaLocation=\"http://maven.apache.org/POM/4.0.0 http://maven.apache.org/xsd/maven-4.0.0.xsd\">";

#[test]
fn a_new_descriptor_builds_on_spring_boot() {
    let pom = POM::new("cn.ljyun", "test");
    assert_eq!(pom.model_version, "4.0.0");
    assert_eq!(pom.group_id, "cn.ljyun");
    assert_eq!(pom.artifact_id, "test");
    assert_eq!(pom.version, "0.0.1");
    assert!(pom.packaging.is_none());
    assert!(pom.properties.is_empty());
    assert!(pom.dependencies.is_empty());
    let parent = pom.parent.unwrap();
    assert_eq!(parent.group_id, "org.springframework.boot");
    assert_eq!(parent.artifact_id, "spring-boot-starter-parent");
    assert_eq!(parent.version.as_deref(), Some("2.6.6"));
    let build = pom.build.unwrap();
    assert_eq!(build.plugins.len(), 1);
    assert_eq!(build.plugins[0].group_id, "org.springframework.boot");
    assert_eq!(build.plugins[0].artifact_id, "spring-boot-maven-plugin");
    assert_eq!(build.plugins[0].version, "2.6.6");
}

#[test]
fn the_document_of_a_new_descriptor() {
    let mut pom = POM::new("cn.ljyun", "test");
    pom.add_property(Property::new("maven.compiler.source", "8"));
    pom.add_property(Property::new("maven.compiler.target", "8"));
    let mut writer = POMWriter::default();
    assert_eq!(writer.document().unwrap(), "");
    writer.write(&pom).unwrap();
    let expected = format!(
        "{}\n    <parent>\n        <groupId>org.springframework.boot</groupId>\n        <artifactId>spring-boot-starter-parent</artifactId>\n        <version>2.6.6</version>\n    </parent>\n    <modelVersion>4.0.0</modelVersion>\n    <groupId>cn.ljyun</groupId>\n    <artifactId>test</artifactId>\n    <version>0.0.1</version>\n    <properties>\n        <maven.compiler.source>8</maven.compiler.source>\n        <maven.compiler.target>8</maven.compiler.target>\n    </properties>\n    <build>\n        <plugins>\n            <plugin>\n                <groupId>org.springframework.boot</groupId>\n                <artifactId>spring-boot-maven-plugin</artifactId>\n                <version>2.6.6</version>\n            </plugin>\n        </plugins>\n    </build>\n</project>",
        ROOT
    );
    assert_eq!(writer.document().unwrap(), expected);
}

#[test]
fn empty_sections_are_left_out() {
    let pom = POM {
        model_version: "4.0.0".to_string(),
        group_id: "g".to_string(),
        artifact_id: "a".to_string(),
        version: "1".to_string(),
        packaging: Some("jar".to_string()),
        parent: None,
        properties: Vec::new(),
        dependencies: Vec::new(),
        build: None,
    };
    let mut writer = POMWriter::default();
    writer.write(&pom).unwrap();
    let expected = format!(
        "{}\n    <modelVersion>4.0.0</modelVersion>\n    <groupId>g</groupId>\n    <artifactId>a</artifactId>\n    <version>1</version>\n</project>",
        ROOT
    );
    assert_eq!(writer.document().unwrap(), expected);
}

#[test]
fn dependencies_and_a_build_without_plugins() {
    let mut pom = POM::new("g", "a");
    pom.parent = None;
    pom.build = Some(Build { plugins: Vec::new() });
    pom.add_dependency(Dependency::new("org.one", "first", Some("1.0")));
    pom.add_dependency(Dependency::new("org.two", "second", None));
    let mut writer = POMWriter::default();
    writer.write(&pom).unwrap();
    let expected = format!(
        "{}\n    <modelVersion>4.0.0</modelVersion>\n    <groupId>g</groupId>\n    <artifactId>a</artifactId>\n    <version>0.0.1</version>\n    <dependencies>\n        <dependency>\n            <groupId>org.one</groupId>\n            <artifactId>first</artifactId>\n            <version>1.0</version>\n        </dependency>\n        <dependency>\n            <groupId>org.two</groupId>\n            <artifactId>second</artifactId>\n        </dependency>\n    </dependencies>\n    <build>\n    </build>\n</project>",
        ROOT
    );
    assert_eq!(writer.document().unwrap(), expected);
}

#[test]
fn reserved_characters_are_escaped_in_text() {
    let mut pom = POM::new("a<b>&'c'\"d\"", "é");
    pom.parent = None;
    pom.build = None;
    let mut writer = POMWriter::default();
    writer.write(&pom).unwrap();
    let expected = format!(
        "{}\n    <modelVersion>4.0.0</modelVersion>\n    <groupId>a&lt;b&gt;&amp;&apos;c&apos;&quot;d&quot;</groupId>\n    <artifactId>é</artifactId>\n    <version>0.0.1</version>\n</project>",
        ROOT
    );
    assert_eq!(writer.document().unwrap(), expected);
}

#[test]
fn a_second_descriptor_follows_the_first() {
    let mut pom = POM::new("g", "a");
    pom.parent = None;
    pom.build = None;
    let mut writer = POMWriter::default();
    writer.write(&pom).unwrap();
    let once = writer.document().unwrap();
    writer.write(&pom).unwrap();
    assert_eq!(writer.document().unwrap(), format!("{}\n{}", once, once));
}

#[test]
fn setters_of_a_dependency_fill_what_they_name() {
    let mut dependency = Dependency::new("g", "a", None);
    assert!(dependency.version.is_none());
    dependency.set_artifact_type("pom".to_string());
    dependency.set_classifier("sources".to_string());
    dependency.set_scope("test".to_string());
    dependency.set_optional(true);
    let same = dependency.set_exclusions(vec![Exclusion::new("x".to_string(), "y".to_string())]);
    assert_eq!(same.scope.as_deref(), Some("test"));
    assert_eq!(dependency.artifact_type.as_deref(), Some("pom"));
    assert_eq!(dependency.classifier.as_deref(), Some("sources"));
    assert_eq!(dependency.optional, Some(true));
    let exclusions = dependency.exclusions.unwrap();
    assert_eq!(exclusions.len(), 1);
    assert_eq!(exclusions[0].group_id, "x");
    assert_eq!(exclusions[0].artifact_id, "y");
}

#[test]
fn setters_of_a_descriptor_fill_what_they_name() {
    let mut pom = POM::new("g", "a");
    assert_eq!(pom.set_packaging("war".to_string()).packaging.as_deref(), Some("war"));
    pom.add_property(Property::new("k", "v"));
    pom.add_dependency(Dependency::new("g", "d", Some("2")));
    assert_eq!(pom.properties.len(), 1);
    assert_eq!(pom.properties[0].name, "k");
    assert_eq!(pom.properties[0].value, "v");
    assert_eq!(pom.dependencies.len(), 1);
    assert_eq!(pom.dependencies[0].artifact_id, "d");
    let plugin = Plugin {
        group_id: "g".to_string(),
        artifact_id: "p".to_string(),
        version: "1".to_string(),
    };
    assert_eq!(plugin.artifact_id, "p");
    assert_eq!(POM::spring_boot_parent().artifact_id, "spring-boot-starter-parent");
    assert_eq!(Build::default().plugins[0].artifact_id, "spring-boot-maven-plugin");
}

#[test]
fn coordinates_are_built_step_by_step() {
    let coordinates = Coordinates::new("g".to_string(), "a".to_string(), "1".to_string())
        .set_artifact_type("jar".to_string())
        .set_classifier("c".to_string())
        .set_scope("runtime".to_string())
        .set_optional(false)
        .set_exclusions(vec![Excluded::new("x".to_string(), "y".to_string())]);
    assert_eq!(coordinates.group_id, "g");
    assert_eq!(coordinates.artifact_id, "a");
    assert_eq!(coordinates.version, "1");
    assert_eq!(coordinates.artifact_type.as_deref(), Some("jar"));
    assert_eq!(coordinates.classifier.as_deref(), Some("c"));
    assert_eq!(coordinates.scope.as_deref(), Some("runtime"));
    assert_eq!(coordinates.optional, Some(false));
    assert_eq!(coordinates.exclusions.unwrap()[0].artifact_id, "y");
}

#[test]
fn repositories_serve_releases_unless_told_otherwise() {
    let central = MavenRepository::maven_center();
    assert_eq!(central.id, "maven-central");
    assert_eq!(central.url, "https://repo.maven.apache.org/maven2");
    assert_eq!(central.name, "Maven Central");
    assert!(central.releases_enabled);
    assert!(!central.snapshots_enabled);
    let snapshots = MavenRepository::new("s".to_string(), "u".to_string(), "n".to_string())
        .only_snapshots();
    assert!(!snapshots.releases_enabled && snapshots.snapshots_enabled);
    let releases = snapshots.clone().only_releases();
    assert!(releases.releases_enabled && !releases.snapshots_enabled);
    let both = releases.set_snapshots_enabled(true);
    assert!(both.releases_enabled && both.snapshots_enabled);
    let neither = both.set_releases_enabled(false).set_snapshots_enabled(false);
    assert!(!neither.releases_enabled && !neither.snapshots_enabled);
}

#[test]
fn a_builder_collects_in_order() {
    let builder = POMBuilder::new()
        .add_property(Pair::new("a".to_string(), "1".to_string()))
        .add_property(Pair::new("b".to_string(), "2".to_string()))
        .add_dependency(Coordinates::new("g".to_string(), "d".to_string(), "1".to_string()))
        .add_repository(MavenRepository::maven_center())
        .add_plugin_repository(MavenRepository::maven_center().only_snapshots());
    assert_eq!(builder.properties.len(), 2);
    assert_eq!(builder.properties[0].name, "a");
    assert_eq!(builder.properties[1].value, "2");
    assert_eq!(builder.dependencies[0].artifact_id, "d");
    assert_eq!(builder.repositories[0].id, "maven-central");
    assert!(builder.plugin_repositories[0].snapshots_enabled);
    builder.write("/nowhere".to_string());
}

#[test]
fn errors_name_their_kind() {
    let error = PGError::StringError("broken".to_string());
    assert!(matches!(error, PGError::StringError(ref m) if m == "broken"));
    let not_text = std::str::from_utf8(&[0xff, 0xfe]).unwrap_err();
    assert!(matches!(PGError::from(not_text), PGError::Utf82(_)));
    let fault = EmitError {
        unit: "U".to_string(),
        method: "m".to_string(),
        statement: 3,
        cause: TemplateError::MissingArgument { index: 1 },
    };
    match PGError::from(fault) {
        PGError::Template(e) => {
            assert_eq!(e.unit, "U");
            assert_eq!(e.method, "m");
            assert_eq!(e.statement, 3);
            assert_eq!(e.cause, TemplateError::MissingArgument { index: 1 });
        }
        other => panic!("unexpected error: {:?}", other),
    }
    let xml = quick_xml::Error::UnexpectedToken("token".to_string());
    assert!(matches!(PGError::from(xml), PGError::Xml(_)));
}
