use bundle_schema::identity::IdentityError;
use bundle_schema::registry::{RegisterOutcome, SchemaMap};

fn obj(pairs: &[(&str, serde_json::Value)]) -> serde_json::Value {
    let mut m = serde_json::Map::new();
    for (k, v) in pairs {
        m.insert((*k).to_string(), v.clone());
    }
    serde_json::Value::Object(m)
}

fn s(text: &str) -> serde_json::Value {
    serde_json::Value::String(text.to_string())
}

#[test]
fn register_stores_one_item() {
    let schema = obj(&[
        ("$id", s("https://foo.com/somelocation/schema.json")),
        ("description", s("I'm just a schema")),
    ]);
    let mut registry = SchemaMap::new();
    let outcome = registry.register_schema(schema);
    assert_eq!(outcome, RegisterOutcome::Stored);
    assert_eq!(registry.size(), 1, "Verify we've got an item.");
}

#[test]
fn end_to_end_example() {
    let schema = obj(&[
        ("$id", s("https://foo.com/somelocation/schema.json")),
        ("description", s("x")),
    ]);
    let mut registry = SchemaMap::new();
    registry.register_schema(schema.clone());
    let item = registry.get("somelocation/schema.json".to_owned());
    assert_eq!(
        item.unwrap(),
        &schema,
        "We got back the schema we registered!"
    );
    let missing = registry.get("somelocation/missing.json".to_owned());
    assert!(missing.is_none(), "Expected None");
}

#[test]
fn reregistration_is_idempotent() {
    let schema = obj(&[
        ("$id", s("https://foo.com/a/b/c.json")),
        ("description", s("same document twice")),
    ]);
    let mut registry = SchemaMap::new();

    registry.register_schema(schema.clone());
    assert_eq!(registry.size(), 1);
    assert_eq!(registry.get("a/b/c.json".to_owned()).unwrap(), &schema);

    registry.register_schema(schema.clone());
    assert_eq!(registry.size(), 1, "size is unchanged by re-registration");
    assert_eq!(registry.get("a/b/c.json".to_owned()).unwrap(), &schema);
}

#[test]
fn collision_overwrites_silently() {
    let doc_a = obj(&[
        ("$id", s("https://foo.com/x/y.json")),
        ("description", s("document A")),
    ]);
    let doc_b = obj(&[
        ("$id", s("https://bar.org/x/y.json")),
        ("description", s("document B")),
    ]);
    let mut registry = SchemaMap::new();

    let first = registry.register_schema(doc_a);
    let second = registry.register_schema(doc_b.clone());
    assert_eq!(first, RegisterOutcome::Stored);
    assert_eq!(second, RegisterOutcome::Stored);

    assert_eq!(
        registry.get("x/y.json".to_owned()).unwrap(),
        &doc_b,
        "last write wins"
    );
    assert_eq!(registry.size(), 1, "still counts as one entry");
}

#[test]
fn absent_identity_is_a_no_op() {
    let doc = obj(&[("description", s("no id here"))]);
    let mut registry = SchemaMap::new();
    let outcome = registry.register_schema(doc);
    assert_eq!(
        outcome,
        RegisterOutcome::Dropped(IdentityError::NoIdentityDeclared)
    );
    assert_eq!(registry.size(), 0);
}

#[test]
fn type_mismatched_identity_is_a_no_op() {
    let doc = obj(&[(
        "$id",
        serde_json::Value::Number(serde_json::Number::from(42)),
    )]);
    let mut registry = SchemaMap::new();
    let outcome = registry.register_schema(doc);
    assert_eq!(
        outcome,
        RegisterOutcome::Dropped(IdentityError::MalformedIdentityType)
    );
    assert_eq!(registry.size(), 0);
}

#[test]
fn unparseable_identity_is_a_no_op() {
    let doc = obj(&[("$id", s("not a url"))]);
    let mut registry = SchemaMap::new();
    let outcome = registry.register_schema(doc);
    assert_eq!(
        outcome,
        RegisterOutcome::Dropped(IdentityError::MalformedIdentityUri)
    );
    assert_eq!(registry.size(), 0);
}

#[test]
fn registers_distinct_documents_under_their_own_keys() {
    let doc_a = obj(&[("$id", s("https://foo.com/a.json"))]);
    let doc_b = obj(&[("$id", s("https://foo.com/b.json"))]);
    let mut registry = SchemaMap::new();
    registry.register_schema(doc_a.clone());
    registry.register_schema(doc_b.clone());
    assert_eq!(registry.size(), 2);
    assert_eq!(registry.get("a.json".to_owned()).unwrap(), &doc_a);
    assert_eq!(registry.get("b.json".to_owned()).unwrap(), &doc_b);
}

#[test]
fn host_only_url_registers_under_empty_relative_id() {
    let doc = obj(&[("$id", s("https://foo.com"))]);
    let mut registry = SchemaMap::new();
    let outcome = registry.register_schema(doc.clone());
    assert_eq!(outcome, RegisterOutcome::Stored);
    assert_eq!(registry.size(), 1);
    assert_eq!(registry.get(String::new()).unwrap(), &doc);
}

#[test]
fn lookup_on_empty_registry_finds_nothing() {
    let registry = SchemaMap::new();
    assert!(registry.get("anything.json".to_owned()).is_none());
}

#[test]
fn default_registry_is_empty() {
    let registry = SchemaMap::default();
    assert_eq!(registry.size(), 0);
}

#[test]
fn stored_document_keeps_its_id_field() {
    let schema = obj(&[("$id", s("https://foo.com/keep/id.json"))]);
    let mut registry = SchemaMap::new();
    registry.register_schema(schema.clone());
    let stored = registry.get("keep/id.json".to_owned()).unwrap();
    assert_eq!(
        stored.get("$id").and_then(|v| v.as_str()),
        Some("https://foo.com/keep/id.json"),
        "the $id field is preserved in place"
    );
}
