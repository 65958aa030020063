use cql_client::schema::{
    AggregateMeta, ColumnKind, ColumnMeta, FunctionMeta, KeyspaceMeta, MetadataField,
    MetadataFieldValue, TableMeta, UserTypeMeta,
};
use cql_client::snapshot::{SchemaCache, SchemaChange, SchemaSnapshot};
use std::sync::Arc;

fn field(name: &str, value: &str) -> MetadataField {
    MetadataField { name: name.to_string(), value: MetadataFieldValue { text: value.to_string() } }
}

fn keyspace(name: &str, table: &str) -> KeyspaceMeta {
    let column = ColumnMeta {
        name: "id".to_string(),
        kind: ColumnKind::PartitionKey,
        data_type: "uuid".to_string(),
        fields: vec![field("position", "-1")],
    };
    KeyspaceMeta {
        name: name.to_string(),
        tables: vec![TableMeta { name: table.to_string(), columns: vec![column], fields: vec![] }],
        functions: vec![
            FunctionMeta { name: "f".to_string(), arguments: vec!["int".to_string()], fields: vec![] },
            FunctionMeta {
                name: "f".to_string(),
                arguments: vec!["int".to_string(), "text".to_string()],
                fields: vec![],
            },
        ],
        aggregates: vec![AggregateMeta {
            name: "avg2".to_string(),
            arguments: vec!["double".to_string()],
            fields: vec![],
        }],
        user_types: vec![UserTypeMeta {
            name: "address".to_string(),
            field_types: vec![("street".to_string(), "text".to_string())],
        }],
        fields: vec![field("durable_writes", "true")],
    }
}

#[test]
fn keyspace_lookups() {
    let ks = keyspace("shop", "orders");
    assert_eq!(ks.name(), "shop");
    assert_eq!(ks.table_by_name("orders").unwrap().name, "orders");
    assert!(ks.table_by_name("missing").is_none());
    assert_eq!(ks.user_type_by_name("address").unwrap().field_types.len(), 1);
    assert!(ks.user_type_by_name("phone").is_none());
    assert_eq!(ks.field_by_name("durable_writes").unwrap().text, "true");
    assert!(ks.field_by_name("replication").is_none());
    assert_eq!(ks.table_iter().len(), 1);
    assert_eq!(ks.function_iter().len(), 2);
    assert_eq!(ks.aggregrates_iter().len(), 1);
    assert_eq!(ks.user_type_iter().len(), 1);
    assert_eq!(ks.fields_iter().len(), 1);
}

#[test]
fn function_lookup_matches_argument_types() {
    let ks = keyspace("shop", "orders");
    assert_eq!(ks.get_function_by_name("f", vec!["int", "text"]).unwrap().arguments.len(), 2);
    assert_eq!(ks.get_function_by_name("f", vec!["int"]).unwrap().arguments.len(), 1);
    assert!(ks.get_function_by_name("f", vec!["text"]).is_none());
    assert!(ks.get_function_by_name("g", vec!["int"]).is_none());
    assert!(ks.aggregate_by_name("avg2", vec!["double"]).is_some());
    assert!(ks.aggregate_by_name("avg2", vec![]).is_none());
}

#[test]
fn column_accessors() {
    let ks = keyspace("shop", "orders");
    let table = ks.table_by_name("orders").unwrap();
    let col = table.column_by_name("id").unwrap();
    assert_eq!(col.name(), "id");
    assert_eq!(col.get_type(), ColumnKind::PartitionKey);
    assert_eq!(col.data_type(), "uuid");
    assert_eq!(col.field_by_name("position").unwrap().text, "-1");
    assert!(col.field_by_name("kind").is_none());
    assert_eq!(col.field_iter().len(), 1);
    assert!(table.column_by_name("total").is_none());
}

#[test]
fn snapshot_replaces_keyspace_whole() {
    let s0 = SchemaSnapshot::empty();
    let s1 = s0.with_keyspace(Arc::new(keyspace("shop", "orders")));
    let s2 = s1.with_keyspace(Arc::new(keyspace("logs", "events")));
    let s3 = s2.with_keyspace(Arc::new(keyspace("shop", "carts")));
    assert_eq!(s3.len(), 2);
    let shop = s3.keyspace_by_name("shop").unwrap();
    assert!(shop.table_by_name("carts").is_some());
    assert!(shop.table_by_name("orders").is_none());
    let old = s2.keyspace_by_name("shop").unwrap();
    assert!(old.table_by_name("orders").is_some());
    assert!(s3.keyspace_by_name("logs").unwrap().table_by_name("events").is_some());
}

#[test]
fn snapshot_drops_keyspace() {
    let s = SchemaSnapshot::empty()
        .with_keyspace(Arc::new(keyspace("a", "t")))
        .with_keyspace(Arc::new(keyspace("b", "t")));
    let d = s.without_keyspace("a");
    assert_eq!(d.len(), 1);
    assert!(d.keyspace_by_name("a").is_none());
    assert!(d.keyspace_by_name("b").is_some());
    assert_eq!(s.len(), 2);
    assert_eq!(d.without_keyspace("zzz").len(), 1);
}

#[test]
fn reader_keeps_its_snapshot_across_a_change() {
    let mut cache = SchemaCache::new();
    cache.publish(SchemaChange::KeyspaceUpdated(Arc::new(keyspace("shop", "orders"))));
    let before = cache.schema();
    cache.publish(SchemaChange::KeyspaceUpdated(Arc::new(keyspace("shop", "carts"))));
    let after = cache.schema();
    assert!(before.keyspace_by_name("shop").unwrap().table_by_name("orders").is_some());
    assert!(before.keyspace_by_name("shop").unwrap().table_by_name("carts").is_none());
    assert!(after.keyspace_by_name("shop").unwrap().table_by_name("carts").is_some());
    cache.publish(SchemaChange::KeyspaceDropped("shop".to_string()));
    assert!(cache.schema().keyspace_by_name("shop").is_none());
    assert!(after.keyspace_by_name("shop").is_some());
}

#[test]
fn every_listed_item_is_found_by_its_own_name() {
    let ks = keyspace("shop", "orders");
    for t in ks.table_iter() {
        assert_eq!(ks.table_by_name(&t.name).unwrap().name, t.name);
    }
    for u in ks.user_type_iter() {
        assert_eq!(ks.user_type_by_name(&u.name).unwrap().field_types, u.field_types);
    }
    for f in ks.function_iter() {
        let args: Vec<&str> = f.arguments.iter().map(|a| a.as_str()).collect();
        assert_eq!(ks.get_function_by_name(&f.name, args).unwrap().arguments, f.arguments);
    }
    for a in ks.aggregrates_iter() {
        let args: Vec<&str> = a.arguments.iter().map(|x| x.as_str()).collect();
        assert_eq!(ks.aggregate_by_name(&a.name, args).unwrap().arguments, a.arguments);
    }
    for m in ks.fields_iter() {
        assert_eq!(ks.field_by_name(&m.name).unwrap().text, m.value.text);
    }
}
