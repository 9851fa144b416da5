use jsl_fuzz::schema::{SchemaNode, Type, is_wf};
use jsl_fuzz::value::{Value, obj_insert};

fn pair(k: &str, s: SchemaNode) -> (String, SchemaNode) {
    (k.to_string(), s)
}

#[test]
fn leaves_are_well_formed() {
    assert!(is_wf(&SchemaNode::Empty));
    assert!(is_wf(&SchemaNode::Type(Type::Boolean)));
    assert!(is_wf(&SchemaNode::Type(Type::Number)));
    assert!(is_wf(&SchemaNode::Type(Type::String)));
    assert!(is_wf(&SchemaNode::Type(Type::Timestamp)));
}

#[test]
fn enum_must_be_nonempty_and_duplicate_free() {
    assert!(is_wf(&SchemaNode::Enum(vec!["A".to_string(), "B".to_string()])));
    assert!(!is_wf(&SchemaNode::Enum(vec![])));
    assert!(!is_wf(&SchemaNode::Enum(vec!["A".to_string(), "A".to_string()])));
}

#[test]
fn properties_names_must_not_overlap() {
    let ok = SchemaNode::Properties(
        vec![pair("a", SchemaNode::Empty)],
        vec![pair("b", SchemaNode::Empty)],
    );
    assert!(is_wf(&ok));
    let overlapping = SchemaNode::Properties(
        vec![pair("a", SchemaNode::Empty)],
        vec![pair("a", SchemaNode::Empty)],
    );
    assert!(!is_wf(&overlapping));
    let doubled = SchemaNode::Properties(
        vec![pair("a", SchemaNode::Empty), pair("a", SchemaNode::Empty)],
        vec![],
    );
    assert!(!is_wf(&doubled));
}

#[test]
fn malformed_children_poison_the_tree() {
    let bad_enum = SchemaNode::Enum(vec![]);
    assert!(!is_wf(&SchemaNode::Elements(Box::new(bad_enum))));
    let bad_inner = SchemaNode::Values(Box::new(SchemaNode::Enum(vec![])));
    assert!(!is_wf(&SchemaNode::Elements(Box::new(bad_inner))));
}

#[test]
fn discriminator_mapping_must_be_properties_without_the_tag() {
    let cat = SchemaNode::Properties(vec![pair("name", SchemaNode::Type(Type::String))], vec![]);
    let good = SchemaNode::Discriminator("type".to_string(), vec![("cat".to_string(), cat)]);
    assert!(is_wf(&good));

    let empty_mapping = SchemaNode::Discriminator("type".to_string(), vec![]);
    assert!(!is_wf(&empty_mapping));

    let not_props =
        SchemaNode::Discriminator("type".to_string(), vec![("x".to_string(), SchemaNode::Empty)]);
    assert!(!is_wf(&not_props));

    let tag_collision = SchemaNode::Discriminator(
        "type".to_string(),
        vec![(
            "cat".to_string(),
            SchemaNode::Properties(vec![pair("type", SchemaNode::Empty)], vec![]),
        )],
    );
    assert!(!is_wf(&tag_collision));
}

#[test]
fn object_insert_overwrites_an_existing_binding() {
    let mut fields: Vec<(String, Value)> = Vec::new();
    obj_insert(&mut fields, "k".to_string(), Value::Bool(false));
    obj_insert(&mut fields, "other".to_string(), Value::Null);
    obj_insert(&mut fields, "k".to_string(), Value::Bool(true));
    assert_eq!(fields.len(), 2);
    assert_eq!(
        fields.iter().find(|(k, _)| k == "k").unwrap().1,
        Value::Bool(true)
    );
    assert_eq!(
        fields.iter().find(|(k, _)| k == "other").unwrap().1,
        Value::Null
    );
}
