use adml::errors::{BuildError, Error};
use adml::project::Project;

fn ok(text: &str) -> Result<String, String> {
    Ok(text.to_string())
}

#[test]
fn valid_manifest_parses() {
    let r = Project::parse_project_config("/p/adml.json", ok(r#"{"id":"pack","display_name":"My Pack"}"#));
    match r {
        Ok(c) => {
            assert_eq!(c.id, "pack");
            assert_eq!(c.display_name, "My Pack");
        },
        Err(_) => panic!("expected a valid manifest"),
    }
}

#[test]
fn manifest_with_extra_field_is_a_configuration_error() {
    let text = r#"{"id":"x","display_name":"y","extra":1}"#;
    let r = Project::parse_project_config("/p/adml.json", ok(text));
    match r {
        Err(BuildError::Configuration(c)) => {
            assert_eq!(c.path, "/p/adml.json");
            assert_eq!(c.name(), "ConfigurationError");
            // the location names the offending key's token
            let col = text.find("\"extra\"").unwrap() + 1;
            assert_eq!(c.location, Some((1, col)));
            // and the human-readable detail carries it too
            assert!(c.info().ends_with(&format!(" at line 1 column {}", col)));
        },
        _ => panic!("an unknown field must fail validation"),
    }
}

#[test]
fn unknown_field_location_tracks_lines() {
    let text = "{\n  \"id\": \"x\",\n  \"display_name\": \"y\",\n  \"extra\": 1\n}";
    let r = Project::parse_project_config("/p/adml.json", ok(text));
    match r {
        Err(BuildError::Configuration(c)) => {
            assert_eq!(c.location, Some((4, 3)));
        },
        _ => panic!("an unknown field must fail validation"),
    }
}

#[test]
fn location_scan_skips_the_name_inside_string_values() {
    // "extra" first appears as a string value; the location must name the
    // later key, not the value
    let text = r#"{"id":"extra","display_name":"y","extra":1}"#;
    let r = Project::parse_project_config("/p/adml.json", ok(text));
    match r {
        Err(BuildError::Configuration(c)) => {
            let col = text.rfind("\"extra\"").unwrap() + 1;
            assert_eq!(c.location, Some((1, col)));
        },
        _ => panic!("an unknown field must fail validation"),
    }
}

#[test]
fn manifest_missing_required_field_fails() {
    // no token stands for the absent field: the record itself is blamed,
    // and the location is its root token
    let r = Project::parse_project_config("/p/adml.json", ok(r#"{"id":"x"}"#));
    match r {
        Err(BuildError::Configuration(c)) => assert_eq!(c.location, Some((1, 1))),
        _ => panic!("a missing required field must fail validation"),
    }
}

#[test]
fn manifest_with_wrong_type_fails() {
    let text = r#"{"id":3,"display_name":"y"}"#;
    let r = Project::parse_project_config("/p/adml.json", ok(text));
    match r {
        Err(BuildError::Configuration(c)) => {
            // the ill-typed field's key is blamed
            let col = text.find("\"id\"").unwrap() + 1;
            assert_eq!(c.location, Some((1, col)));
        },
        _ => panic!("a wrong-typed field must fail validation"),
    }
}

#[test]
fn unreadable_manifest_is_an_io_error() {
    let r = Project::parse_project_config("/p/adml.json", Err("No such file or directory".to_string()));
    match r {
        Err(BuildError::IO(e)) => {
            assert_eq!(e.path, "/p/adml.json");
            assert_eq!(e.msg, "No such file or directory");
            assert_eq!(e.info(), "Failed to process /p/adml.json: No such file or directory");
        },
        _ => panic!("expected an IO error"),
    }
}

#[test]
fn malformed_manifest_carries_the_parser_location() {
    let text = "{\n  \"id\": \"x\",\n  \"display_name\": ";
    let expected = serde_json::from_str::<serde_json::Value>(text).unwrap_err();
    let r = Project::parse_project_config("/p/adml.json", ok(text));
    match r {
        Err(BuildError::Configuration(c)) => {
            assert_eq!(c.location, Some((expected.line(), expected.column())));
            assert_eq!(c.msg, expected.to_string());
        },
        _ => panic!("expected a configuration error"),
    }
}

#[test]
fn minimal_item_parses_with_defaults() {
    let r = Project::parse_item_file("/p/item/a.json", ok(r#"{"id":"apple","display_name":"Apple"}"#));
    match r {
        Ok(it) => {
            assert_eq!(it.id, "apple");
            assert_eq!(it.display_name, "Apple");
            assert_eq!(it.stack_size.0, 1);
            assert!(it.interaction.is_none());
        },
        Err(_) => panic!("expected a valid item"),
    }
}

#[test]
fn item_without_stack_size_defaults_to_one() {
    let r = Project::parse_item_file(
        "/p/item/a.json",
        ok(r#"{"id":"a","display_name":"A","interaction":{}}"#),
    );
    match r {
        Ok(it) => assert_eq!(it.stack_size.0, 1),
        Err(_) => panic!("expected a valid item"),
    }
}

#[test]
fn item_with_explicit_stack_size_keeps_it() {
    let r = Project::parse_item_file("/p/item/a.json", ok(r#"{"id":"a","display_name":"A","stack_size":64}"#));
    match r {
        Ok(it) => assert_eq!(it.stack_size.0, 64),
        Err(_) => panic!("expected a valid item"),
    }
}

#[test]
fn zero_stack_size_is_rejected() {
    let text = r#"{"id":"a","display_name":"A","stack_size":0}"#;
    let r = Project::parse_item_file("/p/item/a.json", ok(text));
    match r {
        Err(BuildError::Configuration(c)) => {
            let col = text.find("\"stack_size\"").unwrap() + 1;
            assert_eq!(c.location, Some((1, col)));
        },
        _ => panic!("a zero stack size must fail validation"),
    }
}

#[test]
fn right_click_without_cooldown_gets_the_default() {
    let r = Project::parse_item_file(
        "/p/item/a.json",
        ok(r#"{"id":"a","display_name":"A","interaction":{"right_click":{"trigger":"use"}}}"#),
    );
    match r {
        Ok(it) => {
            let rc = it.interaction.unwrap().right_click.unwrap();
            assert_eq!(rc.cooldown.value, 32);
            assert!(rc.cooldown.reset_on_release);
            assert_eq!(rc.trigger, "use");
        },
        Err(_) => panic!("expected a valid item"),
    }
}

#[test]
fn explicit_cooldown_overrides_the_default() {
    let r = Project::parse_item_file(
        "/p/item/a.json",
        ok(
            r#"{"id":"a","display_name":"A","interaction":{"right_click":{"trigger":"use","cooldown":{"value":7,"reset_on_release":false}}}}"#,
        ),
    );
    match r {
        Ok(it) => {
            let rc = it.interaction.unwrap().right_click.unwrap();
            assert_eq!(rc.cooldown.value, 7);
            assert!(!rc.cooldown.reset_on_release);
        },
        Err(_) => panic!("expected a valid item"),
    }
}

#[test]
fn both_behaviors_can_coexist() {
    let r = Project::parse_item_file(
        "/p/item/a.json",
        ok(
            r#"{"id":"a","display_name":"A","interaction":{"consume":{"duration":20,"trigger":"eat"},"right_click":{"trigger":"use"}}}"#,
        ),
    );
    match r {
        Ok(it) => {
            let i = it.interaction.unwrap();
            let c = i.consume.unwrap();
            assert_eq!(c.duration, 20);
            assert_eq!(c.trigger, "eat");
            assert!(i.right_click.is_some());
        },
        Err(_) => panic!("expected a valid item"),
    }
}

#[test]
fn unknown_field_inside_interaction_fails() {
    let r = Project::parse_item_file(
        "/p/item/a.json",
        ok(r#"{"id":"a","display_name":"A","interaction":{"sneak":{}}}"#),
    );
    assert!(matches!(r, Err(BuildError::Configuration(_))));
}

#[test]
fn negative_duration_fails() {
    let r = Project::parse_item_file(
        "/p/item/a.json",
        ok(r#"{"id":"a","display_name":"A","interaction":{"consume":{"duration":-1,"trigger":"eat"}}}"#),
    );
    assert!(matches!(r, Err(BuildError::Configuration(_))));
}

#[test]
fn consume_missing_trigger_fails() {
    // the consume record lacks a required field, so the field holding that
    // record is blamed and located
    let text = r#"{"id":"a","display_name":"A","interaction":{"consume":{"duration":1}}}"#;
    let r = Project::parse_item_file("/p/item/a.json", ok(text));
    match r {
        Err(BuildError::Configuration(c)) => {
            let col = text.find("\"consume\"").unwrap() + 1;
            assert_eq!(c.location, Some((1, col)));
        },
        _ => panic!("a consume record without a trigger must fail validation"),
    }
}
