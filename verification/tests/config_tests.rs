use promptforge::{ChatTemplate, MessageConfig, MessageValue, TemplateConfig, TemplateError, TemplateFormat};

#[test]
fn test_try_into_template_success() {
    let config = TemplateConfig {
        template: "{name} is learning Rust!".to_string(),
        template_format: "FmtString".to_string(),
        input_variables: vec!["name".to_string()],
    };

    let template: Result<promptforge::Template, TemplateError> = config.try_into();

    assert!(template.is_ok());
    let template = template.unwrap();

    assert_eq!(template.template(), "{name} is learning Rust!");
    assert_eq!(template.template_format(), TemplateFormat::FmtString);
    assert_eq!(template.input_variables(), vec!["name".to_string()]);
}

#[test]
fn test_try_into_template_mustache_format() {
    let config = TemplateConfig {
        template: "Hello, {{name}}!".to_string(),
        template_format: "Mustache".to_string(),
        input_variables: vec!["name".to_string()],
    };

    let template: Result<promptforge::Template, TemplateError> = config.try_into();

    assert!(template.is_ok());
    let template = template.unwrap();

    assert_eq!(template.template(), "Hello, {{name}}!");
    assert_eq!(template.template_format(), TemplateFormat::Mustache);
    assert_eq!(template.input_variables(), vec!["name".to_string()]);
}

#[test]
fn test_try_into_template_invalid_format() {
    let config = TemplateConfig {
        template: "This format is unsupported: <<<var>>>".to_string(),
        template_format: "UnknownFormat".to_string(),
        input_variables: vec!["var".to_string()],
    };

    let result: Result<promptforge::Template, TemplateError> = config.try_into();

    assert!(result.is_err());
    if let Err(TemplateError::UnsupportedFormat(msg)) = result {
        assert_eq!(msg, "Unsupported template format");
    } else {
        panic!("Expected UnsupportedFormat error");
    }
}

#[test]
fn test_try_into_template_missing_variable() {
    let config = TemplateConfig {
        template: "This is a test without variables.".to_string(),
        template_format: "PlainText".to_string(),
        input_variables: vec![],
    };

    let template: Result<promptforge::Template, TemplateError> = config.try_into();

    assert!(template.is_ok());
    let template = template.unwrap();

    assert_eq!(template.template(), "This is a test without variables.");
    assert_eq!(template.template_format(), TemplateFormat::PlainText);
    assert!(template.input_variables().is_empty());
}

#[test]
fn test_try_into_template_detect_format() {
    let config = TemplateConfig {
        template: "Hello, {user}!".to_string(),
        template_format: "FmtString".to_string(),
        input_variables: vec!["user".to_string()],
    };

    let template: Result<promptforge::Template, TemplateError> = config.try_into();

    assert!(template.is_ok());
    let template = template.unwrap();

    assert_eq!(template.template(), "Hello, {user}!");
    assert_eq!(template.template_format(), TemplateFormat::FmtString);
    assert_eq!(template.input_variables(), vec!["user".to_string()]);
}

#[test]
fn test_chat_template_from_message_configs() {
    let configs = vec![
        MessageConfig {
            message_type: "BaseMessage".to_string(),
            value: MessageValue { role: "system".to_string(), content: "System initialized.".to_string() },
        },
        MessageConfig {
            message_type: "BaseMessage".to_string(),
            value: MessageValue { role: "human".to_string(), content: "Hello, AI!".to_string() },
        },
    ];

    let chat = ChatTemplate::try_from(configs).unwrap();
    assert_eq!(chat.messages.len(), 2);

    let bad_role = vec![MessageConfig {
        message_type: "BaseMessage".to_string(),
        value: MessageValue { role: "narrator".to_string(), content: "Hi".to_string() },
    }];
    let result = ChatTemplate::try_from(bad_role);
    assert!(matches!(result, Err(TemplateError::InvalidRoleError)));
}
