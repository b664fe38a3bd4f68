use fleet_image_policy::doc::Doc;
use fleet_image_policy::engine::{evaluate, Verdict};
use fleet_image_policy::settings::Settings;

fn obj(entries: Vec<(&str, Doc)>) -> Doc {
    Doc::Obj(entries.into_iter().map(|(k, v)| (k.to_string(), v)).collect())
}

fn s(text: &str) -> Doc {
    Doc::Str(text.to_string())
}

fn deployment(name: &str, image: &str) -> Doc {
    obj(vec![
        ("metadata", obj(vec![("name", s(name))])),
        (
            "spec",
            obj(vec![(
                "template",
                obj(vec![(
                    "spec",
                    obj(vec![("containers", Doc::Arr(vec![obj(vec![("image", s(image))])]))]),
                )]),
            )]),
        ),
    ])
}

fn config_map(name: &str, config: &str) -> Doc {
    obj(vec![
        ("metadata", obj(vec![("name", s(name))])),
        ("data", obj(vec![("config", s(config))])),
    ])
}

fn settings(controller: &str, agent: &str) -> Settings {
    Settings { controller_image: controller.to_string(), agent_image: agent.to_string() }
}

fn get<'a>(d: &'a Doc, key: &str) -> &'a Doc {
    match d {
        Doc::Obj(entries) => {
            for (k, v) in entries {
                if k == key {
                    return v;
                }
            }
            panic!("key {} not found", key);
        }
        _ => panic!("not an object"),
    }
}

fn first_container_image(d: &Doc) -> &str {
    let containers = get(get(get(get(d, "spec"), "template"), "spec"), "containers");
    match containers {
        Doc::Arr(items) => match get(&items[0], "image") {
            Doc::Str(text) => text,
            _ => panic!("image is not a string"),
        },
        _ => panic!("containers is not an array"),
    }
}

#[test]
fn fleet_controller_deployment_mutated() {
    let verdict = evaluate(
        &"Deployment".to_string(),
        deployment("fleet-controller", "old"),
        &settings("modified", ""),
    );
    assert!(matches!(verdict, Verdict::Mutated(_)), "change deployment value");
}

#[test]
fn fleet_controller_cm_mutated() {
    let verdict = evaluate(
        &"ConfigMap".to_string(),
        config_map("fleet-controller", "{\"foo\":\"bar\"}"),
        &settings("", "modified"),
    );
    assert!(matches!(verdict, Verdict::Mutated(_)), "change cm value");
}

#[test]
fn validate_settings() {
    let settings = Settings { controller_image: "".to_string(), agent_image: "".to_string() };
    assert!(settings.validate().is_ok());
}

#[test]
fn unrecognized_kind_unchanged() {
    let verdict = evaluate(
        &"Pod".to_string(),
        deployment("fleet-controller", "old:v1"),
        &settings("new:v2", "other"),
    );
    match verdict {
        Verdict::Unchanged(d) => assert_eq!(d, deployment("fleet-controller", "old:v1")),
        Verdict::Mutated(_) => panic!("unrecognized kind must pass through"),
    }
}

#[test]
fn deployment_other_name_unchanged() {
    let verdict = evaluate(
        &"Deployment".to_string(),
        deployment("other-app", "old:v1"),
        &settings("new:v2", ""),
    );
    match verdict {
        Verdict::Unchanged(d) => assert_eq!(d, deployment("other-app", "old:v1")),
        Verdict::Mutated(_) => panic!("non-target deployment must pass through"),
    }
}

#[test]
fn deployment_empty_override_unchanged() {
    let verdict = evaluate(
        &"Deployment".to_string(),
        deployment("fleet-controller", "old:v1"),
        &settings("", "agent:v1"),
    );
    assert!(matches!(verdict, Verdict::Unchanged(_)));
}

#[test]
fn deployment_mutation_sets_first_image() {
    let verdict = evaluate(
        &"Deployment".to_string(),
        deployment("fleet-controller", "old:v1"),
        &settings("new:v2", ""),
    );
    match verdict {
        Verdict::Mutated(d) => {
            assert_eq!(first_container_image(&d), "new:v2");
            assert_eq!(d, deployment("fleet-controller", "new:v2"));
        }
        Verdict::Unchanged(_) => panic!("target deployment must be mutated"),
    }
}

#[test]
fn deployment_mutation_idempotent() {
    let once = evaluate(
        &"Deployment".to_string(),
        deployment("fleet-controller", "old:v1"),
        &settings("new:v2", ""),
    );
    let body = match once {
        Verdict::Mutated(d) => d,
        Verdict::Unchanged(_) => panic!("target deployment must be mutated"),
    };
    assert_eq!(body, deployment("fleet-controller", "new:v2"));
    let twice = evaluate(&"Deployment".to_string(), body, &settings("new:v2", ""));
    match twice {
        Verdict::Mutated(d) => assert_eq!(d, deployment("fleet-controller", "new:v2")),
        Verdict::Unchanged(_) => panic!("rewritten deployment still matches the target"),
    }
}

#[test]
fn deployment_missing_spec_unchanged() {
    let body = obj(vec![("metadata", obj(vec![("name", s("fleet-controller"))]))]);
    let verdict = evaluate(&"Deployment".to_string(), body, &settings("new:v2", ""));
    assert!(matches!(verdict, Verdict::Unchanged(_)));
}

#[test]
fn deployment_empty_containers_unchanged() {
    let body = obj(vec![
        ("metadata", obj(vec![("name", s("fleet-controller"))])),
        (
            "spec",
            obj(vec![(
                "template",
                obj(vec![("spec", obj(vec![("containers", Doc::Arr(vec![]))]))]),
            )]),
        ),
    ]);
    let verdict = evaluate(&"Deployment".to_string(), body, &settings("new:v2", ""));
    assert!(matches!(verdict, Verdict::Unchanged(_)));
}

#[test]
fn config_map_other_name_unchanged() {
    let verdict = evaluate(
        &"ConfigMap".to_string(),
        config_map("other-app", "{\"a\":\"b\"}"),
        &settings("", "agent:v1"),
    );
    match verdict {
        Verdict::Unchanged(d) => assert_eq!(d, config_map("other-app", "{\"a\":\"b\"}")),
        Verdict::Mutated(_) => panic!("non-target config map must pass through"),
    }
}

#[test]
fn config_map_empty_override_unchanged() {
    let verdict = evaluate(
        &"ConfigMap".to_string(),
        config_map("fleet-controller", "{\"a\":\"b\"}"),
        &settings("new:v2", ""),
    );
    assert!(matches!(verdict, Verdict::Unchanged(_)));
}

#[test]
fn config_map_missing_config_key_unchanged() {
    let body = obj(vec![
        ("metadata", obj(vec![("name", s("fleet-controller"))])),
        ("data", obj(vec![("other", s("x"))])),
    ]);
    let verdict = evaluate(&"ConfigMap".to_string(), body, &settings("", "agent:v1"));
    assert!(matches!(verdict, Verdict::Unchanged(_)));
}

#[test]
fn config_map_malformed_embedded_unchanged() {
    let verdict = evaluate(
        &"ConfigMap".to_string(),
        config_map("fleet-controller", "not a document"),
        &settings("", "agent:v1"),
    );
    assert!(matches!(verdict, Verdict::Unchanged(_)));
}

#[test]
fn config_map_non_string_data_unchanged() {
    let body = obj(vec![
        ("metadata", obj(vec![("name", s("fleet-controller"))])),
        ("data", obj(vec![("config", s("{}")), ("count", Doc::Num("3".to_string()))])),
    ]);
    let verdict = evaluate(&"ConfigMap".to_string(), body, &settings("", "agent:v1"));
    assert!(matches!(verdict, Verdict::Unchanged(_)));
}

#[test]
fn config_map_mutation_is_additive() {
    let verdict = evaluate(
        &"ConfigMap".to_string(),
        config_map("fleet-controller", "{\"existingKey\":\"v\",\"n\":3}"),
        &settings("", "agent:v9"),
    );
    let body = match verdict {
        Verdict::Mutated(d) => d,
        Verdict::Unchanged(_) => panic!("target config map must be mutated"),
    };
    assert_eq!(
        match get(get(&body, "metadata"), "name") {
            Doc::Str(text) => text.as_str(),
            _ => panic!("name is not a string"),
        },
        "fleet-controller"
    );
    let new_text = match get(get(&body, "data"), "config") {
        Doc::Str(text) => text.clone(),
        _ => panic!("config is not a string"),
    };
    let parsed: serde_json::Value = serde_json::from_str(&new_text).unwrap();
    let map = parsed.as_object().unwrap();
    assert_eq!(map.len(), 3);
    assert_eq!(map.get("existingKey").unwrap().as_str().unwrap(), "v");
    assert_eq!(map.get("n").unwrap().as_i64().unwrap(), 3);
    assert_eq!(map.get("agentImage").unwrap().as_str().unwrap(), "agent:v9");
}

#[test]
fn config_map_mutation_overwrites_existing_override() {
    let verdict = evaluate(
        &"ConfigMap".to_string(),
        config_map("fleet-controller", "{\"agentImage\":\"stale\",\"keep\":\"yes\"}"),
        &settings("", "fresh:v1"),
    );
    let body = match verdict {
        Verdict::Mutated(d) => d,
        Verdict::Unchanged(_) => panic!("target config map must be mutated"),
    };
    let new_text = match get(get(&body, "data"), "config") {
        Doc::Str(text) => text.clone(),
        _ => panic!("config is not a string"),
    };
    let parsed: serde_json::Value = serde_json::from_str(&new_text).unwrap();
    let map = parsed.as_object().unwrap();
    assert_eq!(map.len(), 2);
    assert_eq!(map.get("agentImage").unwrap().as_str().unwrap(), "fresh:v1");
    assert_eq!(map.get("keep").unwrap().as_str().unwrap(), "yes");
}

#[test]
fn default_settings_request_no_override() {
    let cfg = Settings::default();
    assert_eq!(cfg.controller_image, "");
    assert_eq!(cfg.agent_image, "");
    let verdict = evaluate(
        &"Deployment".to_string(),
        deployment("fleet-controller", "old:v1"),
        &cfg,
    );
    assert!(matches!(verdict, Verdict::Unchanged(_)));
}

#[test]
fn deployment_keeps_sibling_fields() {
    let body = obj(vec![
        ("apiVersion", s("apps/v1")),
        ("metadata", obj(vec![("name", s("fleet-controller")), ("namespace", s("cattle"))])),
        (
            "spec",
            obj(vec![
                ("replicas", Doc::Num("2".to_string())),
                (
                    "template",
                    obj(vec![(
                        "spec",
                        obj(vec![(
                            "containers",
                            Doc::Arr(vec![
                                obj(vec![("name", s("fleet")), ("image", s("old:v1"))]),
                                obj(vec![("name", s("sidecar")), ("image", s("side:v1"))]),
                            ]),
                        )]),
                    )]),
                ),
            ]),
        ),
    ]);
    let expected = obj(vec![
        ("apiVersion", s("apps/v1")),
        ("metadata", obj(vec![("name", s("fleet-controller")), ("namespace", s("cattle"))])),
        (
            "spec",
            obj(vec![
                ("replicas", Doc::Num("2".to_string())),
                (
                    "template",
                    obj(vec![(
                        "spec",
                        obj(vec![(
                            "containers",
                            Doc::Arr(vec![
                                obj(vec![("name", s("fleet")), ("image", s("new:v2"))]),
                                obj(vec![("name", s("sidecar")), ("image", s("side:v1"))]),
                            ]),
                        )]),
                    )]),
                ),
            ]),
        ),
    ]);
    let verdict = evaluate(&"Deployment".to_string(), body, &settings("new:v2", ""));
    match verdict {
        Verdict::Mutated(d) => assert_eq!(d, expected),
        Verdict::Unchanged(_) => panic!("target deployment must be mutated"),
    }
}

#[test]
fn deployment_inserts_missing_image_field() {
    let body = obj(vec![
        ("metadata", obj(vec![("name", s("fleet-controller"))])),
        (
            "spec",
            obj(vec![(
                "template",
                obj(vec![(
                    "spec",
                    obj(vec![(
                        "containers",
                        Doc::Arr(vec![obj(vec![("name", s("fleet"))])]),
                    )]),
                )]),
            )]),
        ),
    ]);
    let verdict = evaluate(&"Deployment".to_string(), body, &settings("new:v2", ""));
    match verdict {
        Verdict::Mutated(d) => assert_eq!(first_container_image(&d), "new:v2"),
        Verdict::Unchanged(_) => panic!("target deployment must be mutated"),
    }
}

#[test]
fn deployment_non_string_image_unchanged() {
    let body = obj(vec![
        ("metadata", obj(vec![("name", s("fleet-controller"))])),
        (
            "spec",
            obj(vec![(
                "template",
                obj(vec![(
                    "spec",
                    obj(vec![(
                        "containers",
                        Doc::Arr(vec![obj(vec![("image", Doc::Num("7".to_string()))])]),
                    )]),
                )]),
            )]),
        ),
    ]);
    let verdict = evaluate(&"Deployment".to_string(), body, &settings("new:v2", ""));
    assert!(matches!(verdict, Verdict::Unchanged(_)));
}

#[test]
fn config_map_missing_data_unchanged() {
    let body = obj(vec![("metadata", obj(vec![("name", s("fleet-controller"))]))]);
    let verdict = evaluate(&"ConfigMap".to_string(), body, &settings("", "agent:v1"));
    assert!(matches!(verdict, Verdict::Unchanged(_)));
}
