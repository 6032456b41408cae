use json_render::json::{substitute_json, Json};
use json_render::pipeline::{conclude, render, RenderError, Violation};
use json_render::resolve::{Origin, Sources};
use json_render::store::{StoreValue, VariableStore};
use json_render::substitute::substitute_text;

fn s(t: &str) -> String {
    t.to_string()
}

fn text(t: &str) -> Json {
    Json::Str(s(t))
}

fn obj(members: Vec<(&str, Json)>) -> Json {
    Json::Object(members.into_iter().map(|(k, v)| (s(k), v)).collect())
}

fn store(members: Vec<(&str, StoreValue)>) -> VariableStore {
    let ms: Vec<(String, StoreValue)> = members.into_iter().map(|(k, v)| (s(k), v)).collect();
    VariableStore::from_members(&ms)
}

fn same(a: &Json, b: &Json) -> bool {
    match (a, b) {
        (Json::Null, Json::Null) => true,
        (Json::Bool(x), Json::Bool(y)) => x == y,
        (Json::Number(x), Json::Number(y)) => x == y,
        (Json::Str(x), Json::Str(y)) => x == y,
        (Json::Array(x), Json::Array(y)) => {
            x.len() == y.len() && x.iter().zip(y.iter()).all(|(p, q)| same(p, q))
        }
        (Json::Object(x), Json::Object(y)) => {
            x.len() == y.len()
                && x.iter().zip(y.iter()).all(|(p, q)| p.0 == q.0 && same(&p.1, &q.1))
        }
        _ => false,
    }
}

fn to_serde(j: &Json) -> serde_json::Value {
    match j {
        Json::Null => serde_json::Value::Null,
        Json::Bool(b) => serde_json::Value::Bool(*b),
        Json::Number(t) => serde_json::from_str(t).unwrap(),
        Json::Str(t) => serde_json::Value::String(t.clone()),
        Json::Array(v) => serde_json::Value::Array(v.iter().map(to_serde).collect()),
        Json::Object(m) => {
            let mut o = serde_json::Map::new();
            for (k, v) in m {
                o.insert(k.clone(), to_serde(v));
            }
            serde_json::Value::Object(o)
        }
    }
}

fn vars_only(v: VariableStore) -> Sources {
    Sources { secrets: None, vars: Some(v) }
}

fn text_with(src: &Sources, input: &str) -> Result<String, String> {
    substitute_text(&s(input), src, &s("$")).map_err(|e| e.message())
}

#[test]
fn document_without_placeholders_is_unchanged() {
    let doc = obj(vec![
        ("a", Json::Number(s("1.5"))),
        ("b", Json::Array(vec![Json::Bool(true), Json::Null, text("plain {text}")])),
        ("c", text("{{ no end")),
    ]);
    let src = Sources { secrets: None, vars: None };
    let out = substitute_json(&doc, &src, &s("$")).unwrap();
    assert!(same(&doc, &out));
}

#[test]
fn secrets_shadow_variables() {
    let src = Sources {
        secrets: Some(store(vec![("token", StoreValue::Text(s("from-secrets")))])),
        vars: Some(store(vec![("token", StoreValue::Text(s("from-vars")))])),
    };
    assert_eq!(text_with(&src, "{{ token }}"), Ok(s("from-secrets")));
    match src.resolve("token", "$") {
        Ok((v, o)) => {
            assert_eq!(v, "from-secrets");
            assert_eq!(o, Origin::Secrets);
        }
        Err(_) => panic!("token should resolve"),
    }
}

#[test]
fn variables_used_when_secrets_lack_the_name() {
    let src = Sources {
        secrets: Some(store(vec![("other", StoreValue::Text(s("x")))])),
        vars: Some(store(vec![("token", StoreValue::Text(s("from-vars")))])),
    };
    match src.resolve("token", "$") {
        Ok((v, o)) => {
            assert_eq!(v, "from-vars");
            assert_eq!(o, Origin::Vars);
        }
        Err(_) => panic!("token should resolve"),
    }
}

#[test]
fn lookup_ignores_case_and_spaces() {
    let src = vars_only(store(vec![("foo", StoreValue::Text(s("bar")))]));
    assert_eq!(text_with(&src, "{{ Foo }}"), Ok(s("bar")));
    assert_eq!(text_with(&src, "{{foo}}"), Ok(s("bar")));
    assert_eq!(text_with(&src, "{{ FOO }}"), Ok(s("bar")));
    assert_eq!(text_with(&src, "{{\tfoo\n}}"), Ok(s("bar")));
}

#[test]
fn store_keys_are_lower_cased() {
    let src = vars_only(store(vec![("MiXeD", StoreValue::Text(s("v")))]));
    assert_eq!(src.vars.as_ref().unwrap().entries[0].0, "mixed");
    assert_eq!(text_with(&src, "{{ mixed }}"), Ok(s("v")));
}

#[test]
fn unresolved_placeholder_writes_nothing() {
    let doc = obj(vec![("a", text("{{ missing }}"))]);
    let src = vars_only(store(vec![]));
    match render(false, &doc, &src) {
        Err(RenderError::Unresolved(u)) => {
            assert_eq!(u.name, "missing");
            assert_eq!(u.path, "$.a");
        }
        _ => panic!("expected an unresolved placeholder"),
    }
}

#[test]
fn all_violations_are_reported() {
    let schema: serde_json::Value = serde_json::from_str(
        r#"{"type":"object","required":["a","b"],"properties":{"c":{"type":"integer"}}}"#,
    )
    .unwrap();
    let doc = obj(vec![("c", text("x"))]);
    let validator = jsonschema::validator_for(&schema).unwrap();
    let instance = to_serde(&doc);
    let violations: Vec<Violation> = validator
        .iter_errors(&instance)
        .map(|e| Violation { path: e.instance_path().to_string(), message: e.to_string() })
        .collect();
    assert_eq!(violations.len(), 3);
    match conclude(doc, violations, false) {
        Err(RenderError::Invalid(vs)) => assert_eq!(vs.len(), 3),
        _ => panic!("expected all violations"),
    }
}

#[test]
fn two_runs_agree() {
    let doc = obj(vec![("u", text("{{ user }}@{{ host }}")), ("n", Json::Number(s("3")))]);
    let src = vars_only(store(vec![
        ("user", StoreValue::Text(s("alice"))),
        ("host", StoreValue::Text(s("example"))),
    ]));
    let first = render(false, &doc, &src).ok().unwrap();
    let second = render(false, &doc, &src).ok().unwrap();
    assert!(same(&first, &second));
    let expected = obj(vec![("u", text("alice@example")), ("n", Json::Number(s("3")))]);
    assert!(same(&first, &expected));
}

#[test]
fn substituted_number_stays_a_string() {
    let schema: serde_json::Value = serde_json::from_str(
        r#"{"type":"object","required":["port"],"properties":{"port":{"type":"integer"}}}"#,
    )
    .unwrap();
    let doc = obj(vec![("port", text("{{ port }}"))]);
    let src = vars_only(store(vec![("port", StoreValue::Literal(s("8080")))]));
    let out = render(false, &doc, &src).ok().unwrap();
    assert!(same(&out, &obj(vec![("port", text("8080"))])));
    let validator = jsonschema::validator_for(&schema).unwrap();
    let instance = to_serde(&out);
    let violations: Vec<Violation> = validator
        .iter_errors(&instance)
        .map(|e| Violation { path: e.instance_path().to_string(), message: e.to_string() })
        .collect();
    assert_eq!(violations.len(), 1);
    assert_eq!(violations[0].path, "/port");
    assert!(conclude(out, violations, true).is_err());
}

#[test]
fn secrets_and_variables_together() {
    let doc = obj(vec![("user", text("{{ USER }}")), ("pass", text("{{ pass }}"))]);
    let src = Sources {
        secrets: Some(store(vec![("pass", StoreValue::Text(s("s3cr3t")))])),
        vars: Some(store(vec![
            ("user", StoreValue::Text(s("alice"))),
            ("pass", StoreValue::Text(s("ignored"))),
        ])),
    };
    let out = render(false, &doc, &src).ok().unwrap();
    assert!(same(&out, &obj(vec![("user", text("alice")), ("pass", text("s3cr3t"))])));
    match conclude(out, vec![], true) {
        Ok(Some(d)) => assert!(same(&d, &obj(vec![("user", text("alice")), ("pass", text("s3cr3t"))]))),
        _ => panic!("expected a document to write"),
    }
}

#[test]
fn no_sources_configured() {
    let doc = obj(vec![("config", obj(vec![("token", text("{{ token }}"))]))]);
    let src = Sources { secrets: None, vars: None };
    match render(false, &doc, &src) {
        Err(e) => {
            let msg = e.message();
            assert_eq!(
                msg,
                "Substitution variable 'token' specified at path '$.config.token', but no substitution sources (env_vars, env_secrets) were provided"
            );
        }
        Ok(_) => panic!("expected a failure"),
    }
}

#[test]
fn existing_output_stops_before_any_work() {
    // An unresolvable placeholder: had substitution run, it would have failed otherwise.
    let doc = obj(vec![("a", text("{{ nowhere }}"))]);
    let src = Sources { secrets: None, vars: None };
    assert!(matches!(render(true, &doc, &src), Err(RenderError::OutputAlreadyExists)));
}

#[test]
fn every_occurrence_is_replaced() {
    let src = vars_only(store(vec![("a", StoreValue::Text(s("X")))]));
    assert_eq!(text_with(&src, "{{a}}-{{ a }}-{{a}}"), Ok(s("X-X-X")));
    assert_eq!(text_with(&src, "pre {{ a }} post"), Ok(s("pre X post")));
}

#[test]
fn text_that_is_no_placeholder_is_kept() {
    let src = Sources { secrets: None, vars: None };
    assert_eq!(text_with(&src, ""), Ok(s("")));
    assert_eq!(text_with(&src, "{{}}"), Ok(s("{{}}")));
    assert_eq!(text_with(&src, "{{ a }"), Ok(s("{{ a }")));
    assert_eq!(text_with(&src, "{ a }}"), Ok(s("{ a }}")));
}

#[test]
fn literal_values_lose_their_quotes() {
    let src = vars_only(store(vec![
        ("n", StoreValue::Literal(s("5"))),
        ("b", StoreValue::Literal(s("true"))),
        ("z", StoreValue::Literal(s("null"))),
        ("q", StoreValue::Literal(s("\"quoted\""))),
        ("t", StoreValue::Text(s("\"kept\""))),
    ]));
    assert_eq!(text_with(&src, "{{n}} {{b}} {{z}} {{q}} {{t}}"), Ok(s("5 true null quoted \"kept\"")));
}

#[test]
fn last_entry_wins() {
    let src = vars_only(store(vec![
        ("Foo", StoreValue::Text(s("first"))),
        ("foo", StoreValue::Text(s("second"))),
    ]));
    assert_eq!(text_with(&src, "{{ foo }}"), Ok(s("second")));
}

#[test]
fn array_paths_carry_indices() {
    let mut items = Vec::new();
    for _ in 0..12 {
        items.push(text("ok"));
    }
    items.push(text("{{ gone }}"));
    let doc = obj(vec![("list", Json::Array(items))]);
    let src = vars_only(store(vec![]));
    match substitute_json(&doc, &src, &s("$")) {
        Err(u) => assert_eq!(u.path, "$.list[12]"),
        Ok(_) => panic!("expected a failure"),
    }
}

#[test]
fn messages_name_the_configured_stores() {
    let doc = text("{{ k }}");
    let empty = || Some(store(vec![]));
    let cases = vec![
        (empty(), empty(), "its value was not found in env_secrets or env_vars"),
        (empty(), None, "its value was not found in env_secrets, and no env_vars was specified"),
        (None, empty(), "its value was not found in env_vars, and no env_secrets was specified"),
    ];
    for (secrets, vars, tail) in cases {
        let src = Sources { secrets, vars };
        let msg = render(false, &doc, &src).err().unwrap().message();
        assert_eq!(msg, format!("Substitution variable 'k' specified at path '$', but {}", tail));
    }
}

#[test]
fn report_numbers_each_violation() {
    let vs = vec![
        Violation { path: s("/a"), message: s("bad a") },
        Violation { path: s("/b"), message: s("bad b") },
    ];
    let msg = RenderError::Invalid(vs).message();
    assert_eq!(
        msg,
        "Schema validation failed with 2 error(s):\n  1. Path: '/a' - bad a\n  2. Path: '/b' - bad b"
    );
}

#[test]
fn valid_document_without_output_is_discarded() {
    assert!(matches!(conclude(text("x"), vec![], false), Ok(None)));
}

#[test]
fn value_replaced_after_trimming_name() {
    let src = vars_only(store(vec![("name", StoreValue::Text(s("v")))]));
    assert_eq!(text_with(&src, "{{   name   }}"), Ok(s("v")));
    let missing = text_with(&vars_only(store(vec![])), "{{  Spaced Name  }}").unwrap_err();
    assert!(missing.starts_with("Substitution variable 'Spaced Name' "));
}
