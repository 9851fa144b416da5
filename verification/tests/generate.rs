use jsl_fuzz::gen::fuzz;
use jsl_fuzz::schema::{SchemaNode, Type};
use jsl_fuzz::value::Value;
use rand::SeedableRng;
use rand::rngs::StdRng;

fn props_schema(
    required: Vec<(&str, SchemaNode)>,
    optional: Vec<(&str, SchemaNode)>,
) -> SchemaNode {
    SchemaNode::Properties(
        required.into_iter().map(|(k, s)| (k.to_string(), s)).collect(),
        optional.into_iter().map(|(k, s)| (k.to_string(), s)).collect(),
    )
}

fn obj_fields(v: &Value) -> &Vec<(String, Value)> {
    match v {
        Value::Object(fields) => fields,
        other => panic!("expected an object, got {:?}", other),
    }
}

#[test]
fn empty_schema_yields_null() {
    let mut rng = StdRng::seed_from_u64(1);
    let schema = SchemaNode::Empty;
    for _ in 0..50 {
        assert_eq!(fuzz(&mut rng, &schema), Value::Null);
    }
}

#[test]
fn boolean_schema_yields_only_booleans() {
    let mut rng = StdRng::seed_from_u64(2);
    let schema = SchemaNode::Type(Type::Boolean);
    let mut saw_true = false;
    let mut saw_false = false;
    for _ in 0..200 {
        match fuzz(&mut rng, &schema) {
            Value::Bool(true) => saw_true = true,
            Value::Bool(false) => saw_false = true,
            other => panic!("expected a boolean, got {:?}", other),
        }
    }
    assert!(saw_true && saw_false);
}

#[test]
fn number_schema_yields_numbers() {
    let mut rng = StdRng::seed_from_u64(3);
    let schema = SchemaNode::Type(Type::Number);
    for _ in 0..100 {
        match fuzz(&mut rng, &schema) {
            Value::Number(_) => {}
            other => panic!("expected a number, got {:?}", other),
        }
    }
}

#[test]
fn string_schema_yields_short_printable_strings() {
    let mut rng = StdRng::seed_from_u64(4);
    let schema = SchemaNode::Type(Type::String);
    let mut lengths = [false; 8];
    for _ in 0..500 {
        match fuzz(&mut rng, &schema) {
            Value::Str(s) => {
                assert!(s.chars().count() < 8);
                for c in s.chars() {
                    assert!((32..127).contains(&(c as u32)));
                }
                lengths[s.chars().count()] = true;
            }
            other => panic!("expected a string, got {:?}", other),
        }
    }
    // every length in [0, 8) should show up over 500 draws
    assert!(lengths.iter().all(|&b| b));
}

#[test]
fn timestamp_schema_yields_rfc3339_strings() {
    let mut rng = StdRng::seed_from_u64(5);
    let schema = SchemaNode::Type(Type::Timestamp);
    for _ in 0..100 {
        match fuzz(&mut rng, &schema) {
            Value::Str(s) => {
                let parsed = chrono::DateTime::parse_from_rfc3339(&s);
                assert!(parsed.is_ok(), "not RFC 3339: {}", s);
                assert!(s.ends_with("+00:00"), "not rendered in UTC: {}", s);
            }
            other => panic!("expected a string, got {:?}", other),
        }
    }
}

#[test]
fn enum_schema_yields_members_and_covers_both() {
    let mut rng = StdRng::seed_from_u64(6);
    let schema = SchemaNode::Enum(vec!["A".to_string(), "B".to_string()]);
    let mut saw_a = false;
    let mut saw_b = false;
    for _ in 0..1000 {
        match fuzz(&mut rng, &schema) {
            Value::Str(s) => {
                if s == "A" {
                    saw_a = true;
                } else if s == "B" {
                    saw_b = true;
                } else {
                    panic!("enum member out of the value set: {}", s);
                }
            }
            other => panic!("expected a string, got {:?}", other),
        }
    }
    assert!(saw_a && saw_b);
}

#[test]
fn elements_schema_yields_bounded_arrays_of_conforming_items() {
    let mut rng = StdRng::seed_from_u64(7);
    let schema = SchemaNode::Elements(Box::new(SchemaNode::Type(Type::Boolean)));
    let mut saw_empty = false;
    let mut saw_long = false;
    for _ in 0..500 {
        match fuzz(&mut rng, &schema) {
            Value::Array(items) => {
                assert!(items.len() < 8);
                saw_empty |= items.is_empty();
                saw_long |= items.len() == 7;
                for item in &items {
                    assert!(matches!(item, Value::Bool(_)));
                }
            }
            other => panic!("expected an array, got {:?}", other),
        }
    }
    assert!(saw_empty && saw_long);
}

#[test]
fn values_schema_yields_bounded_maps_with_distinct_keys() {
    let mut rng = StdRng::seed_from_u64(8);
    let schema = SchemaNode::Values(Box::new(SchemaNode::Type(Type::Number)));
    for _ in 0..300 {
        let v = fuzz(&mut rng, &schema);
        let fields = obj_fields(&v);
        assert!(fields.len() < 8);
        for (i, (key, val)) in fields.iter().enumerate() {
            assert!(key.chars().count() < 8);
            for c in key.chars() {
                assert!((32..127).contains(&(c as u32)));
            }
            assert!(matches!(val, Value::Number(_)));
            for (other, _) in fields.iter().skip(i + 1) {
                assert_ne!(key, other, "a generated map carried a duplicate key");
            }
        }
    }
}

#[test]
fn required_fields_always_present_optional_sometimes_no_third_key() {
    let mut rng = StdRng::seed_from_u64(9);
    let schema = props_schema(
        vec![("id", SchemaNode::Type(Type::String))],
        vec![("note", SchemaNode::Type(Type::String))],
    );
    let mut saw_note = false;
    let mut saw_without_note = false;
    for _ in 0..1000 {
        let v = fuzz(&mut rng, &schema);
        let fields = obj_fields(&v);
        let id = fields.iter().find(|(k, _)| k == "id");
        assert!(id.is_some(), "required field missing");
        assert!(matches!(id.unwrap().1, Value::Str(_)));
        let mut has_note = false;
        for (k, val) in fields {
            if k == "note" {
                has_note = true;
                assert!(matches!(val, Value::Str(_)));
            } else {
                assert_eq!(k, "id", "a generated object carried a stray key");
            }
        }
        saw_note |= has_note;
        saw_without_note |= !has_note;
    }
    assert!(saw_note && saw_without_note);
}

#[test]
fn multiple_required_fields_all_present() {
    let mut rng = StdRng::seed_from_u64(10);
    let schema = props_schema(
        vec![
            ("a", SchemaNode::Type(Type::Boolean)),
            ("b", SchemaNode::Type(Type::Number)),
            ("c", SchemaNode::Empty),
        ],
        vec![],
    );
    for _ in 0..100 {
        let v = fuzz(&mut rng, &schema);
        let fields = obj_fields(&v);
        assert_eq!(fields.len(), 3);
        assert!(matches!(
            fields.iter().find(|(k, _)| k == "a").unwrap().1,
            Value::Bool(_)
        ));
        assert!(matches!(
            fields.iter().find(|(k, _)| k == "b").unwrap().1,
            Value::Number(_)
        ));
        assert!(matches!(
            fields.iter().find(|(k, _)| k == "c").unwrap().1,
            Value::Null
        ));
    }
}

#[test]
fn discriminator_sets_tag_to_mapping_key() {
    let mut rng = StdRng::seed_from_u64(11);
    let cat = props_schema(vec![("name", SchemaNode::Type(Type::String))], vec![]);
    let schema = SchemaNode::Discriminator("type".to_string(), vec![("cat".to_string(), cat)]);
    for _ in 0..200 {
        let v = fuzz(&mut rng, &schema);
        let fields = obj_fields(&v);
        let tag = fields.iter().find(|(k, _)| k == "type");
        assert!(tag.is_some(), "tag field missing");
        match &tag.unwrap().1 {
            Value::Str(s) => assert_eq!(s, "cat"),
            other => panic!("tag bound to a non-string: {:?}", other),
        }
        let name = fields.iter().find(|(k, _)| k == "name");
        assert!(name.is_some(), "required field of the variant missing");
        assert!(matches!(name.unwrap().1, Value::Str(_)));
        assert_eq!(fields.len(), 2);
    }
}

#[test]
fn discriminator_chooses_every_variant() {
    let mut rng = StdRng::seed_from_u64(12);
    let cat = props_schema(vec![("meow", SchemaNode::Type(Type::Boolean))], vec![]);
    let dog = props_schema(vec![("bark", SchemaNode::Type(Type::Boolean))], vec![]);
    let schema = SchemaNode::Discriminator(
        "kind".to_string(),
        vec![("cat".to_string(), cat), ("dog".to_string(), dog)],
    );
    let mut saw_cat = false;
    let mut saw_dog = false;
    for _ in 0..500 {
        let v = fuzz(&mut rng, &schema);
        let fields = obj_fields(&v);
        match &fields.iter().find(|(k, _)| k == "kind").unwrap().1 {
            Value::Str(s) if s == "cat" => {
                saw_cat = true;
                assert!(fields.iter().any(|(k, _)| k == "meow"));
            }
            Value::Str(s) if s == "dog" => {
                saw_dog = true;
                assert!(fields.iter().any(|(k, _)| k == "bark"));
            }
            other => panic!("tag out of the mapping: {:?}", other),
        }
    }
    assert!(saw_cat && saw_dog);
}

#[test]
fn identical_seeds_generate_identical_values() {
    let schema = SchemaNode::Elements(Box::new(props_schema(
        vec![
            ("id", SchemaNode::Type(Type::String)),
            ("when", SchemaNode::Type(Type::Timestamp)),
            ("n", SchemaNode::Type(Type::Number)),
        ],
        vec![("flag", SchemaNode::Type(Type::Boolean))],
    )));
    for seed in [0u64, 42, 12345] {
        let mut rng_a = StdRng::seed_from_u64(seed);
        let mut rng_b = StdRng::seed_from_u64(seed);
        for _ in 0..20 {
            assert_eq!(fuzz(&mut rng_a, &schema), fuzz(&mut rng_b, &schema));
        }
    }
}

#[test]
fn distinct_seeds_eventually_differ() {
    let schema = SchemaNode::Type(Type::Number);
    let mut rng_a = StdRng::seed_from_u64(100);
    let mut rng_b = StdRng::seed_from_u64(101);
    let mut differed = false;
    for _ in 0..20 {
        differed |= fuzz(&mut rng_a, &schema) != fuzz(&mut rng_b, &schema);
    }
    assert!(differed);
}

#[test]
fn nested_composite_schema_conforms_throughout() {
    let mut rng = StdRng::seed_from_u64(13);
    let inner = props_schema(
        vec![("tags", SchemaNode::Elements(Box::new(SchemaNode::Enum(vec![
            "x".to_string(),
            "y".to_string(),
        ]))))],
        vec![],
    );
    let schema = SchemaNode::Values(Box::new(inner));
    for _ in 0..100 {
        let v = fuzz(&mut rng, &schema);
        for (_, val) in obj_fields(&v) {
            let fields = obj_fields(val);
            assert_eq!(fields.len(), 1);
            match &fields[0].1 {
                Value::Array(items) => {
                    assert!(items.len() < 8);
                    for item in items {
                        match item {
                            Value::Str(s) => assert!(s == "x" || s == "y"),
                            other => panic!("expected an enum member, got {:?}", other),
                        }
                    }
                }
                other => panic!("expected an array, got {:?}", other),
            }
        }
    }
}
