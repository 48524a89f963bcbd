use hogan::config::{resolve_environments, Config, Environment, EnvironmentType};
use hogan::json::{is_well_formed, json_eq, merge, Json, JsonNumber};
use serde_json::Value;

fn to_model(v: &Value) -> Json {
    match v {
        Value::Null => Json::Null,
        Value::Bool(b) => Json::Bool(*b),
        Value::Number(n) => {
            if let Some(u) = n.as_u64() {
                Json::Number(JsonNumber::PosInt(u))
            } else if let Some(i) = n.as_i64() {
                Json::Number(JsonNumber::NegInt(i))
            } else {
                Json::Number(JsonNumber::Float(n.as_f64().unwrap_or(0.0).to_bits()))
            }
        }
        Value::String(s) => Json::String(s.clone()),
        Value::Array(a) => Json::Array(a.iter().map(to_model).collect()),
        Value::Object(m) => {
            Json::Object(m.iter().map(|(k, v)| (k.clone(), to_model(v))).collect())
        }
    }
}

fn parse(text: &str) -> Json {
    to_model(&serde_json::from_str::<Value>(text).unwrap())
}

#[test]
fn test_basic_triple_merge() {
    let global = parse(r#"{"a": null}"#);
    let parent = parse(r#"{"a": 1}"#);
    let doc = parse(r#"{"a": 2}"#);

    let mut merged = global;

    merge(&mut merged, &parent);
    merge(&mut merged, &doc);

    let expected_json = parse(r#"{"a": 2}"#);

    assert!(json_eq(&merged, &expected_json))
}

#[test]
fn test_complex_merge() {
    let global = Json::Null;
    let parent = parse(r#"{"a": 1, "b": null, "c": 3, "d": 4}"#);
    let doc = parse(r#"{"a": null, "b": 2, "c": 4, "e": 5}"#);

    let mut merged = global;

    merge(&mut merged, &parent);
    merge(&mut merged, &doc);

    let expected_json = parse(r#"{"b": 2, "c": 4, "d": 4, "e": 5}"#);

    assert!(json_eq(&merged, &expected_json))
}

#[test]
fn merge_replaces_with_non_object_patch() {
    let mut doc = parse(r#"{"a": {"b": 1}}"#);
    merge(&mut doc, &parse("[1, 2]"));
    assert!(json_eq(&doc, &parse("[1, 2]")));
}

#[test]
fn merge_nested_objects() {
    let mut doc = parse(r#"{"a": {"b": 1, "c": {"d": 2}}, "x": true}"#);
    merge(&mut doc, &parse(r#"{"a": {"c": {"d": null, "e": "f"}}, "x": null}"#));
    assert!(json_eq(&doc, &parse(r#"{"a": {"b": 1, "c": {"e": "f"}}}"#)));
}

#[test]
fn merge_patch_twice_is_merge_once() {
    let patch = parse(r#"{"a": {"b": null, "c": 3}, "d": [1]}"#);
    let mut once = parse(r#"{"a": {"b": 1}, "e": 0}"#);
    merge(&mut once, &patch);
    let mut twice = parse(r#"{"a": {"b": 1}, "e": 0}"#);
    merge(&mut twice, &patch);
    merge(&mut twice, &patch);
    assert!(json_eq(&once, &twice));
}

#[test]
fn json_equality_ignores_member_order_and_zero_sign() {
    let a = Json::Object(vec![
        ("x".to_string(), Json::Number(JsonNumber::Float(0))),
        ("y".to_string(), Json::Bool(true)),
    ]);
    let b = Json::Object(vec![
        ("y".to_string(), Json::Bool(true)),
        (
            "x".to_string(),
            Json::Number(JsonNumber::Float((-0.0f64).to_bits())),
        ),
    ]);
    assert!(json_eq(&a, &b));
    assert!(!json_eq(&parse("1"), &parse("1.0")));
    assert!(!json_eq(&parse(r#"{"a": 1}"#), &parse(r#"{"a": 1, "b": 2}"#)));
}

fn environment(name: &str, env_type: Option<&str>, data: &str) -> Environment {
    Environment {
        environment: name.to_string(),
        environment_type: env_type.map(String::from),
        config_data: parse(data),
    }
}

#[test]
fn environments_get_global_then_type_then_own_config() {
    let types = vec![
        EnvironmentType {
            environment_type: "global".to_string(),
            config_data: parse(r#"{"a": 1, "b": 1, "c": 1}"#),
        },
        EnvironmentType {
            environment_type: "prod".to_string(),
            config_data: parse(r#"{"b": 2, "c": 2}"#),
        },
    ];
    let envs = vec![
        environment("ONE", Some("prod"), r#"{"c": 3}"#),
        environment("TWO", None, r#"{"a": null}"#),
        environment("THREE", Some("unknown"), r#"{}"#),
    ];
    let resolved = resolve_environments(&types, envs);
    assert_eq!(resolved.len(), 3);
    assert_eq!(resolved[0].environment, "ONE");
    assert!(json_eq(
        &resolved[0].config_data,
        &parse(r#"{"a": 1, "b": 2, "c": 3}"#)
    ));
    // Without a known type the null type configuration replaces the global one.
    assert!(json_eq(&resolved[1].config_data, &parse("{}")));
    assert!(json_eq(&resolved[2].config_data, &parse("{}")));
}

#[test]
fn config_variants() {
    let env = Config::Environment(environment("E", None, "{}"));
    assert!(env.into_environment().is_some());
    let ty = Config::EnvironmentType(EnvironmentType {
        environment_type: "global".to_string(),
        config_data: Json::Null,
    });
    assert!(ty.into_environment().is_none());
}

#[test]
fn well_formed_values() {
    assert!(is_well_formed(&parse(r#"{"a": [1, -2, 3.5, {"b": null}], "c": "d"}"#)));
    let duplicate_key = Json::Object(vec![
        ("a".to_string(), Json::Null),
        ("a".to_string(), Json::Bool(true)),
    ]);
    assert!(!is_well_formed(&duplicate_key));
    let nested = Json::Array(vec![Json::Number(JsonNumber::Float(f64::NAN.to_bits()))]);
    assert!(!is_well_formed(&nested));
    assert!(!is_well_formed(&Json::Number(JsonNumber::Float(f64::INFINITY.to_bits()))));
    assert!(is_well_formed(&Json::Number(JsonNumber::Float(1.5f64.to_bits()))));
}

#[test]
fn merge_keeps_the_sign_of_zero() {
    let mut doc = parse(r#"{"a": 1}"#);
    let patch = Json::Object(vec![(
        "a".to_string(),
        Json::Number(JsonNumber::Float((-0.0f64).to_bits())),
    )]);
    merge(&mut doc, &patch);
    match doc {
        Json::Object(members) => match &members[0].1 {
            Json::Number(JsonNumber::Float(bits)) => assert_eq!(*bits, (-0.0f64).to_bits()),
            other => panic!("unexpected member {:?}", other),
        },
        other => panic!("unexpected value {:?}", other),
    }
}
