use promptforge::{Template, TemplateError, TemplateFormat, VarMap};

fn vars(pairs: &[(&str, &str)]) -> VarMap {
    let mut map = VarMap::new();
    for (k, v) in pairs {
        map.insert(k, v);
    }
    map
}

#[test]
fn test_prompt_template_new_success() {
    let valid_template = "Tell me a {adjective} joke about {content}.";
    let tmpl = Template::new(valid_template);
    assert!(tmpl.is_ok());
    let tmpl = tmpl.unwrap();
    assert_eq!(tmpl.template(), valid_template);
    assert_eq!(tmpl.template_format(), TemplateFormat::FmtString);
    assert_eq!(tmpl.input_variables(), vec!["adjective", "content"]);

    let valid_mustache_template = "Tell me a {{adjective}} joke about {{content}}.";
    let tmpl = Template::new(valid_mustache_template);
    assert!(tmpl.is_ok());
    let tmpl = tmpl.unwrap();
    assert_eq!(tmpl.template(), valid_mustache_template);
    assert_eq!(tmpl.template_format(), TemplateFormat::Mustache);
    assert_eq!(tmpl.input_variables(), vec!["adjective", "content"]);

    let no_placeholder_template = "Tell me a joke.";
    let tmpl = Template::new(no_placeholder_template);
    assert!(tmpl.is_ok());
    let tmpl = tmpl.unwrap();
    assert_eq!(tmpl.template(), no_placeholder_template);
    assert_eq!(tmpl.template_format(), TemplateFormat::PlainText);
    assert_eq!(tmpl.input_variables().len(), 0);
}

#[test]
fn test_prompt_template_new_error() {
    let mixed_template = "Tell me a {adjective} joke about {{content}}.";
    let tmpl_err = Template::new(mixed_template).unwrap_err();
    assert!(matches!(tmpl_err, TemplateError::MalformedTemplate(_)));

    let malformed_fmtstring = "Tell me a {adjective joke about {content}.";
    let tmpl_err = Template::new(malformed_fmtstring).unwrap_err();
    assert!(matches!(tmpl_err, TemplateError::MalformedTemplate(_)));

    let malformed_mustache = "Tell me a {{adjective joke about {{content}}.";
    let tmpl_err = Template::new(malformed_mustache).unwrap_err();
    assert!(matches!(tmpl_err, TemplateError::MalformedTemplate(_)));
}

#[test]
fn test_fmtstring_formatting() {
    let tmpl = Template::new("Hello, {name}!").unwrap();
    let variables = vars(&[("name", "John")]);
    let formatted = tmpl.format(&variables).unwrap();
    assert_eq!(formatted, "Hello, John!");

    let tmpl = Template::new("Hi {name}, you are {age} years old!").unwrap();
    let variables = vars(&[("name", "Alice"), ("age", "30")]);
    let formatted = tmpl.format(&variables).unwrap();
    assert_eq!(formatted, "Hi Alice, you are 30 years old!");

    let tmpl = Template::new("Hello World!").unwrap();
    let variables = vars(&[]);
    let formatted = tmpl.format(&variables).unwrap();
    assert_eq!(formatted, "Hello World!");

    let tmpl = Template::new("Goodbye, {name}!").unwrap();
    let variables = vars(&[("name", "John"), ("extra", "data")]);
    let formatted = tmpl.format(&variables).unwrap();
    assert_eq!(formatted, "Goodbye, John!");

    let tmpl = Template::new("Goodbye, {name}!").unwrap();
    let variables = vars(&[("wrong_name", "John")]);
    let result = tmpl.format(&variables);
    assert!(result.is_err());

    let tmpl = Template::new("Hi {name}, you are {age} years old!").unwrap();
    let variables = vars(&[("name", "Alice")]);
    let result = tmpl.format(&variables).unwrap_err();
    assert!(matches!(result, TemplateError::MissingVariable(_)));
}

#[test]
fn test_format_mustache_success() {
    let tmpl = Template::new("Hello, {{name}}!").unwrap();
    let variables = vars(&[("name", "John")]);
    let result = tmpl.format(&variables).unwrap();
    assert_eq!(result, "Hello, John!");

    let variables = vars(&[("name", "John"), ("extra", "data")]);
    let result = tmpl.format(&variables).unwrap();
    assert_eq!(result, "Hello, John!");

    let tmpl_multiple_vars = Template::new("Hello, {{name}}! You are {{adjective}}.").unwrap();
    let variables = vars(&[("name", "John"), ("adjective", "awesome")]);
    let result = tmpl_multiple_vars.format(&variables).unwrap();
    assert_eq!(result, "Hello, John! You are awesome.");

    let tmpl_multiple_instances =
        Template::new("{{greeting}}, {{name}}! {{greeting}}, again!").unwrap();
    let variables = vars(&[("greeting", "Hello"), ("name", "John")]);
    let result = tmpl_multiple_instances.format(&variables).unwrap();
    assert_eq!(result, "Hello, John! Hello, again!");
}

#[test]
fn test_format_mustache_error() {
    let tmpl_missing_var = Template::new("Hello, {{name}}!").unwrap();
    let variables = vars(&[("adjective", "cool")]);
    let err = tmpl_missing_var.format(&variables).unwrap_err();
    assert!(matches!(err, TemplateError::MissingVariable(_)));
}

#[test]
fn test_format_plaintext() {
    let tmpl = Template::new("Hello, world!").unwrap();
    let variables = vars(&[]);
    let result = tmpl.format(&variables).unwrap();
    assert_eq!(result, "Hello, world!");

    let tmpl = Template::new("Welcome to the Rust world!").unwrap();
    let variables = vars(&[("name", "John"), ("adjective", "awesome")]);
    let result = tmpl.format(&variables).unwrap();
    assert_eq!(result, "Welcome to the Rust world!");

    let tmpl_no_placeholders = Template::new("No placeholders here").unwrap();
    let variables = vars(&[("name", "ignored")]);
    let result = tmpl_no_placeholders.format(&variables).unwrap();
    assert_eq!(result, "No placeholders here");

    let tmpl_extra_spaces = Template::new("  Just some text   ").unwrap();
    let variables = vars(&[]);
    let result = tmpl_extra_spaces.format(&variables).unwrap();
    assert_eq!(result, "  Just some text   ");

    let tmpl_with_newlines = Template::new("Text with\nmultiple lines\n").unwrap();
    let result = tmpl_with_newlines.format(&vars(&[])).unwrap();
    assert_eq!(result, "Text with\nmultiple lines\n");
}

#[test]
fn test_partial_adds_variables() {
    let mut template = Template::new("Hello, {name}").unwrap();

    template.partial("name", "Jill");

    let partial_vars = template.partial_vars();
    assert_eq!(partial_vars.get("name"), Some(&"Jill".to_string()));

    let variables = vars(&[]);
    let formatted = template.format(&variables).unwrap();
    assert_eq!(formatted, "Hello, Jill");

    let variables = vars(&[("name", "Alice")]);
    let formatted = template.format(&variables).unwrap();
    assert_eq!(formatted, "Hello, Alice");
}

#[test]
fn test_multiple_partials() {
    let mut template = Template::new("Hello, {name}. You are feeling {mood}.").unwrap();

    template.partial("name", "Jill");
    template.partial("mood", "happy");

    let partial_vars = template.partial_vars();
    assert_eq!(partial_vars.get("name"), Some(&"Jill".to_string()));
    assert_eq!(partial_vars.get("mood"), Some(&"happy".to_string()));

    let variables = vars(&[]);
    let formatted = template.format(&variables).unwrap();
    assert_eq!(formatted, "Hello, Jill. You are feeling happy.");

    let variables = vars(&[("mood", "excited")]);
    let formatted = template.format(&variables).unwrap();
    assert_eq!(formatted, "Hello, Jill. You are feeling excited.");
}

#[test]
fn test_clear_partials() {
    let mut template = Template::new("Hello, {name}.").unwrap();

    template.partial("name", "Jill");
    template.clear_partials();

    let partial_vars = template.partial_vars();
    assert!(partial_vars.is_empty());

    let variables = vars(&[("name", "John")]);
    let formatted = template.format(&variables).unwrap();
    assert_eq!(formatted, "Hello, John.");

    let variables = vars(&[]);
    let result = template.format(&variables);
    assert!(result.is_err());
}

#[test]
fn test_partial_vars() {
    let mut template = Template::new("Hello, {name}!").unwrap();
    template.partial("name", "Alice");

    assert_eq!(template.partial_vars().get("name"), Some(&"Alice".to_string()));

    template.partial("name", "Bob");
    assert_eq!(template.partial_vars().get("name"), Some(&"Bob".to_string()));

    template.clear_partials();
    assert!(template.partial_vars().is_empty());

    let variables = vars(&[("name", "Charlie")]);
    let formatted = template.format(&variables).unwrap();
    assert_eq!(formatted, "Hello, Charlie!");

    let variables = vars(&[]);
    let result = template.format(&variables);
    assert!(result.is_err());
}

#[test]
fn test_format_with_partials_and_runtime_vars() {
    let mut template = Template::new("Hello, {name}. You are feeling {mood}.").unwrap();

    template.partial("name", "Alice");
    template.partial("mood", "calm");

    let variables = vars(&[]);
    let formatted = template.format(&variables).unwrap();
    assert_eq!(formatted, "Hello, Alice. You are feeling calm.");

    let variables = vars(&[("mood", "excited")]);
    let formatted = template.format(&variables).unwrap();
    assert_eq!(formatted, "Hello, Alice. You are feeling excited.");

    let variables = vars(&[("name", "Bob")]);
    let formatted = template.format(&variables).unwrap();
    assert_eq!(formatted, "Hello, Bob. You are feeling calm.");

    let variables = vars(&[("name", "Charlie"), ("mood", "joyful")]);
    let formatted = template.format(&variables).unwrap();
    assert_eq!(formatted, "Hello, Charlie. You are feeling joyful.");
}

#[test]
fn test_format_with_missing_variables_in_partials() {
    let mut template = Template::new("Hello, {name}. You are feeling {mood}.").unwrap();

    template.partial("name", "Alice");

    let variables = vars(&[]);
    let result = template.format(&variables);
    assert!(result.is_err());

    let variables = vars(&[("mood", "happy")]);
    let formatted = template.format(&variables).unwrap();
    assert_eq!(formatted, "Hello, Alice. You are feeling happy.");
}

#[test]
fn test_format_with_conflicting_partial_and_runtime_vars() {
    let mut template = Template::new("Hello, {name}. You are feeling {mood}.").unwrap();

    template.partial("name", "Alice");
    template.partial("mood", "calm");

    let variables = vars(&[("name", "Bob"), ("mood", "excited")]);
    let formatted = template.format(&variables).unwrap();
    assert_eq!(formatted, "Hello, Bob. You are feeling excited.");
}

#[test]
fn test_try_from_string_valid_template() {
    let valid_template = "Hello, {name}! Your order number is {order_id}.".to_string();

    let template = Template::try_from(valid_template.clone());
    assert!(template.is_ok());
    let template = template.unwrap();

    assert_eq!(template.template(), valid_template);
    assert_eq!(template.template_format(), TemplateFormat::FmtString);
    assert_eq!(template.input_variables(), vec!["name".to_string(), "order_id".to_string()]);
}

#[test]
fn test_try_from_string_valid_mustache_template() {
    let valid_mustache_template = "Hello, {{name}}! Your favorite color is {{color}}.".to_string();

    let template = Template::try_from(valid_mustache_template.clone());
    assert!(template.is_ok());
    let template = template.unwrap();

    assert_eq!(template.template(), valid_mustache_template);
    assert_eq!(template.template_format(), TemplateFormat::Mustache);
    assert_eq!(template.input_variables(), vec!["name".to_string(), "color".to_string()]);
}

#[test]
fn test_try_from_string_plaintext_template() {
    let plaintext_template = "Hello, world!".to_string();

    let template = Template::try_from(plaintext_template.clone());
    assert!(template.is_ok());
    let template = template.unwrap();

    assert_eq!(template.template(), plaintext_template);
    assert_eq!(template.template_format(), TemplateFormat::PlainText);
    assert!(template.input_variables().is_empty());
}

#[test]
fn test_try_from_string_malformed_template() {
    let invalid_template = "Hello, {name!".to_string();

    let template = Template::try_from(invalid_template.clone());
    assert!(template.is_err());
    if let Err(TemplateError::MalformedTemplate(msg)) = template {
        println!("{}", msg);
    } else {
        panic!("Expected TemplateError::MalformedTemplate");
    }
}

#[test]
fn test_try_from_string_mixed_format_template() {
    let mixed_format_template = "Hello, {name} and {{color}}.".to_string();

    let template = Template::try_from(mixed_format_template.clone());
    assert!(template.is_err());
    if let Err(TemplateError::MalformedTemplate(msg)) = template {
        println!("{}", msg);
    } else {
        panic!("Expected TemplateError::MalformedTemplate");
    }
}

#[test]
fn test_fmtstring_sequential_substitution_order() {
    // Sequential whole-string substitution: a value holding a later
    // variable's placeholder text is substituted again on a later round.
    let tmpl = Template::new("{a} and {b}").unwrap();
    let variables = vars(&[("a", "{b}"), ("b", "x")]);
    let formatted = tmpl.format(&variables).unwrap();
    assert_eq!(formatted, "x and x");

    // A value holding an earlier variable's placeholder text keeps it.
    let tmpl = Template::new("{a} and {b}").unwrap();
    let variables = vars(&[("a", "x"), ("b", "{a}")]);
    let formatted = tmpl.format(&variables).unwrap();
    assert_eq!(formatted, "x and {a}");
}
