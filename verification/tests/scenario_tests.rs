use promptforge::Role::{Human, System};
use promptforge::{ChatTemplate, Role, Template, TemplateError, VarMap};

fn vars(pairs: &[(&str, &str)]) -> VarMap {
    let mut map = VarMap::new();
    for (k, v) in pairs {
        map.insert(k, v);
    }
    map
}

#[test]
fn test_fmtstring_substitution_scenario() {
    let t = Template::new("Hello, {name}!").unwrap();
    let result = t.format(&vars(&[("name", "Alice")])).unwrap();
    assert_eq!(result, "Hello, Alice!");
}

#[test]
fn test_mustache_substitution_scenario() {
    let t = Template::new("Hi {{name}}!").unwrap();
    let result = t.format(&vars(&[("name", "Bob")])).unwrap();
    assert_eq!(result, "Hi Bob!");
}

#[test]
fn test_plain_text_scenario() {
    let t = Template::new("static text").unwrap();
    let result = t.format(&vars(&[])).unwrap();
    assert_eq!(result, "static text");
}

#[test]
fn test_chat_template_scenario() {
    let chat = ChatTemplate::from_messages(vec![
        (System, "Sys msg".to_string()),
        (Human, "Hi {name}".to_string()),
    ])
    .unwrap();

    let messages = chat.invoke(&vars(&[("name", "Sam")])).unwrap();
    assert_eq!(messages.len(), 2);
    assert_eq!(messages[0].role(), Role::System);
    assert_eq!(messages[0].content(), "Sys msg");
    assert_eq!(messages[1].role(), Role::Human);
    assert_eq!(messages[1].content(), "Hi Sam");
}

#[test]
fn test_mixed_braces_rejected_scenario() {
    let result = Template::new("{name} and {{other}}");
    assert!(matches!(result, Err(TemplateError::MalformedTemplate(_))));
}

#[test]
fn test_classification_is_total() {
    // Every non-empty input yields exactly one format or an explicit error.
    let inputs = ["plain", "{var}", "{{var}}", "{a} {{b}}", "{ two words }", "}{"];
    for input in inputs {
        let detected = promptforge::template_format::detect_template(input);
        match detected {
            Ok(f) => {
                let plain = promptforge::template_format::is_plain_text(input);
                let fmt = promptforge::template_format::is_fmtstring(input);
                let must = promptforge::template_format::is_mustache(input);
                let count = [plain, fmt, must].iter().filter(|b| **b).count();
                assert_eq!(count, 1, "exactly one class for {:?}", input);
                match f {
                    promptforge::TemplateFormat::PlainText => assert!(plain),
                    promptforge::TemplateFormat::FmtString => assert!(fmt),
                    promptforge::TemplateFormat::Mustache => assert!(must),
                }
            }
            Err(e) => {
                assert!(matches!(e, TemplateError::UnsupportedFormat(_)));
            }
        }
    }
}

#[test]
fn test_format_is_repeatable() {
    // Identical inputs always produce identical output.
    let t = Template::new("Tell me a {kind} joke about {topic}.").unwrap();
    let bindings = vars(&[("kind", "short"), ("topic", "compilers")]);
    let first = t.format(&bindings).unwrap();
    let second = t.format(&bindings).unwrap();
    assert_eq!(first, second);

    let u = Template::new("Tell me a {kind} joke about {topic}.").unwrap();
    let third = u.format(&bindings).unwrap();
    assert_eq!(first, third);
}

#[test]
fn test_missing_variable_first_in_declaration_order() {
    // Declaring {a} then {b} and supplying only a fails with "b".
    let t = Template::new("{a} then {b}").unwrap();
    let err = t.format(&vars(&[("a", "1")])).unwrap_err();
    if let TemplateError::MissingVariable(name) = err {
        assert_eq!(name, "b");
    } else {
        panic!("Expected MissingVariable");
    }

    // Supplying neither fails with "a", the first in declaration order.
    let err = t.format(&vars(&[])).unwrap_err();
    if let TemplateError::MissingVariable(name) = err {
        assert_eq!(name, "a");
    } else {
        panic!("Expected MissingVariable");
    }
}

#[test]
fn test_no_declared_placeholder_left_in_output() {
    let t = Template::new("{greeting}, {name}! Enjoy {thing}.").unwrap();
    let bindings = vars(&[("greeting", "Hello"), ("name", "Ada"), ("thing", "proofs")]);
    let out = t.format(&bindings).unwrap();
    assert!(!out.contains("{greeting}"));
    assert!(!out.contains("{name}"));
    assert!(!out.contains("{thing}"));
    assert_eq!(out, "Hello, Ada! Enjoy proofs.");
}

#[test]
fn test_error_variants_have_inputs() {
    // Malformed braces.
    assert!(matches!(
        Template::new("oops {a"),
        Err(TemplateError::MalformedTemplate(_))
    ));
    // Inconclusive classification.
    assert!(matches!(
        Template::new("{ two words }"),
        Err(TemplateError::UnsupportedFormat(_))
    ));
    // Missing variable at format time.
    let t = Template::new("{a}").unwrap();
    assert!(matches!(
        t.format(&vars(&[])),
        Err(TemplateError::MissingVariable(_))
    ));
    // A structural role cannot produce a concrete message.
    assert!(matches!(
        Role::Placeholder.to_message("x"),
        Err(promptforge::InvalidRoleError)
    ));
}

#[test]
fn test_mustache_render_differs_from_input() {
    // The rendering engine substitutes rather than handing the template
    // text back unchanged.
    let t = Template::new("{{a}}-{{b}}").unwrap();
    let out = t.format(&vars(&[("a", "1"), ("b", "2")])).unwrap();
    assert_eq!(out, "1-2");
    assert_ne!(out, "{{a}}-{{b}}");
}

#[test]
fn test_malformed_mustache_fails_at_construction() {
    // The engine compiles eagerly: block syntax left unclosed fails fast.
    let result = Template::new("{{#if}}");
    assert!(matches!(result, Err(TemplateError::MalformedTemplate(_))));
}

#[test]
fn test_nested_group_can_reintroduce_a_placeholder() {
    // A template whose opening braces are not separated by a closing one
    // can see a substituted value complete a placeholder pattern again:
    // the first replacement rebuilds the literal between the outer braces.
    let t = Template::new("{aXb} {a{aXb}b}").unwrap();
    let out = t.format(&vars(&[("aXb", "X")])).unwrap();
    assert_eq!(out, "X {aXb}");
}
