use project_gen::config::{Config, JavaConfig};
use project_gen::java::pom::Dependency;
use project_gen::name_index::NameIndex;
use project_gen::parse::common::DataType as FieldType;
use project_gen::parse::data::{
    default_host, default_port as default_database_port, DataDefinition, DataSource as Source,
    Entity, Field, TypeList as Elements,
};
use project_gen::parser::{
    default_port, Api, ApiRequest, ApiRequestParamter, Data, DataKind, DataProp, DataSource,
    DataType, TypeList,
};
use project_gen::Parser;

fn data(name: &str, table: &str) -> Data {
    Data {
        name: name.to_string(),
        kind: DataKind::Db,
        table: Some(table.to_string()),
        props: vec![DataProp {
            name: "id".to_string(),
            prop_type: Some(DataType::Id),
            db: Some("id".to_string()),
            reference: None,
            list: Some(TypeList { list_type: Some(DataType::Long), ref_type: None }),
        }],
    }
}

fn project(data: Option<Vec<Data>>) -> Parser {
    Parser {
        project: "shop".to_string(),
        dir: None,
        base_package: "com.example".to_string(),
        group: None,
        git: "git".to_string(),
        data_source: Some(DataSource {
            ip: "127.0.0.1".to_string(),
            port: default_port(),
            username: "u".to_string(),
            password: "p".to_string(),
            database: "d".to_string(),
        }),
        data,
        api: vec![Api {
            name: "orders".to_string(),
            base_url: None,
            requests: vec![ApiRequest {
                name: "list".to_string(),
                method: "GET".to_string(),
                path: None,
                params: Some(vec![ApiRequestParamter {
                    name: Some("page".to_string()),
                    param_type: Some(DataType::Int),
                    path_variable: None,
                    reference: None,
                    list: None,
                }]),
            }],
        }],
        data_ref: NameIndex::new(),
    }
}

#[test]
fn the_default_ports_and_host() {
    assert_eq!(default_port(), 3306);
    assert_eq!(default_database_port(), 3306);
    assert_eq!(default_host(), "127.0.0.1");
}

#[test]
fn checking_a_project_puts_its_data_under_their_names() {
    let mut parser = project(Some(vec![data("Order", "orders"), data("Item", "items")]));
    assert_eq!(parser.data_ref.len(), 0);
    assert!(parser.check().is_ok());
    assert_eq!(parser.data_ref.len(), 2);
    assert_eq!(parser.data_ref.get("Order").unwrap().table.as_deref(), Some("orders"));
    assert_eq!(parser.data_ref.get("Item").unwrap().table.as_deref(), Some("items"));
    assert_eq!(parser.data_ref.get("Item").unwrap().props[0].name, "id");
    assert!(parser.data_ref.get("Nothing").is_none());
    assert_eq!(parser.data.as_ref().unwrap().len(), 2);
    assert_eq!(parser.api[0].requests[0].method, "GET");
}

#[test]
fn of_two_pieces_of_data_with_one_name_the_later_stays() {
    let mut parser = project(Some(vec![
        data("Order", "first"),
        data("Item", "items"),
        data("Order", "second"),
    ]));
    assert!(parser.check().is_ok());
    assert_eq!(parser.data_ref.len(), 2);
    assert_eq!(parser.data_ref.get("Order").unwrap().table.as_deref(), Some("second"));
}

#[test]
fn a_project_without_data_has_an_empty_index() {
    let mut parser = project(None);
    assert!(parser.check().is_ok());
    assert_eq!(parser.data_ref.len(), 0);
    let mut empty = project(Some(Vec::new()));
    assert!(empty.check().is_ok());
    assert_eq!(empty.data_ref.len(), 0);
}

fn entity(name: &str, table: &str) -> Entity {
    Entity {
        name: name.to_string(),
        table: table.to_string(),
        fields: vec![Field {
            name: "owner".to_string(),
            column: "owner_id".to_string(),
            field_type: FieldType::Ref,
            reference: Some("User".to_string()),
            list: Some(Elements { list_type: FieldType::Int64, ref_type: None }),
        }],
    }
}

fn source(database: &str, entities: Vec<Entity>) -> Source {
    Source {
        host: default_host(),
        port: default_database_port(),
        username: "u".to_string(),
        password: "p".to_string(),
        database: database.to_string(),
        entities,
    }
}

#[test]
fn checking_a_definition_puts_the_entities_of_all_sources_under_their_names() {
    let mut definition = DataDefinition {
        datasources: vec![
            source("one", vec![entity("User", "users"), entity("Order", "orders")]),
            source("none", Vec::new()),
            source("two", vec![entity("Item", "items"), entity("User", "people")]),
        ],
        entity_ref: NameIndex::new(),
    };
    assert!(definition.check().is_ok());
    assert_eq!(definition.entity_ref.len(), 3);
    assert_eq!(definition.entity_ref.get("User").unwrap().table, "people");
    assert_eq!(definition.entity_ref.get("Order").unwrap().table, "orders");
    assert_eq!(definition.entity_ref.get("Item").unwrap().table, "items");
    assert_eq!(definition.entity_ref.get("Item").unwrap().fields[0].column, "owner_id");
    assert!(definition.entity_ref.get("user").is_none());
    assert_eq!(definition.datasources.len(), 3);
    assert_eq!(definition.datasources[2].database, "two");
}

#[test]
fn an_index_replaces_what_stood_under_a_name() {
    let mut index: NameIndex<Entity> = NameIndex::new();
    assert!(index.get("a").is_none());
    index.insert("a".to_string(), entity("a", "first"));
    index.insert("b".to_string(), entity("b", "other"));
    index.insert("a".to_string(), entity("a", "second"));
    assert_eq!(index.len(), 2);
    assert_eq!(index.get("a").unwrap().table, "second");
    assert_eq!(index.get("b").unwrap().table, "other");
    assert!(index.get("").is_none());
}

#[test]
fn copies_hold_what_was_copied() {
    let first = data("Order", "orders");
    let copy = first.duplicate();
    assert_eq!(copy.name, first.name);
    assert_eq!(copy.kind, first.kind);
    assert_eq!(copy.table, first.table);
    assert_eq!(copy.props.len(), 1);
    assert_eq!(copy.props[0].prop_type, Some(DataType::Id));
    assert_eq!(copy.props[0].list.as_ref().unwrap().list_type, Some(DataType::Long));
    let entity = entity("User", "users");
    let twin = entity.duplicate();
    assert_eq!(twin.name, "User");
    assert_eq!(twin.fields[0].reference.as_deref(), Some("User"));
    assert_eq!(twin.fields[0].list.as_ref().unwrap().list_type, FieldType::Int64);
}

#[test]
fn a_configuration_holds_what_descriptors_start_with() {
    let config = Config {
        java_config: JavaConfig {
            jdk_version: "17".to_string(),
            pom_parent: Dependency::new("g".to_string(), "parent".to_string(), "1".to_string()),
            pom_dependencies: vec![Dependency::new(
                "g".to_string(),
                "d".to_string(),
                "2".to_string(),
            )],
            pom_plugins: Vec::new(),
        },
    };
    assert_eq!(config.java_config.jdk_version, "17");
    assert_eq!(config.java_config.pom_parent.artifact_id, "parent");
    assert_eq!(config.java_config.pom_dependencies[0].version, "2");
    assert!(config.clone().java_config.pom_plugins.is_empty());
}
