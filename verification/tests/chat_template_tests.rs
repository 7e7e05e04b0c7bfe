use promptforge::Role::{Ai, Human, Placeholder, System};
use promptforge::{ChatTemplate, MessageLike, MessagesPlaceholder, Role, TemplateError, VarMap};

fn vars(pairs: &[(&str, &str)]) -> VarMap {
    let mut map = VarMap::new();
    for (k, v) in pairs {
        map.insert(k, v);
    }
    map
}

fn chats(pairs: &[(Role, &str)]) -> Vec<(Role, String)> {
    pairs.iter().map(|(r, s)| (*r, s.to_string())).collect()
}

#[test]
fn test_from_messages_plaintext() {
    let templates = chats(&[(System, "This is a system message."), (Human, "Hello, human!")]);

    let chat_prompt = ChatTemplate::from_messages(templates);
    let chat_prompt = chat_prompt.unwrap();
    assert_eq!(chat_prompt.messages.len(), 2);

    if let MessageLike::BaseMessage(message) = &chat_prompt.messages[0] {
        assert_eq!(message.content(), "This is a system message.");
    } else {
        panic!("Expected a BaseMessage for the system message.");
    }

    if let MessageLike::BaseMessage(message) = &chat_prompt.messages[1] {
        assert_eq!(message.content(), "Hello, human!");
    } else {
        panic!("Expected a BaseMessage for the human message.");
    }
}

#[test]
fn test_from_messages_formatted_template() {
    let templates = chats(&[
        (System, "You are a helpful AI bot. Your name is {name}."),
        (Ai, "I'm doing well, thank you."),
    ]);

    let chat_prompt = ChatTemplate::from_messages(templates);
    let chat_prompt = chat_prompt.unwrap();
    assert_eq!(chat_prompt.messages.len(), 2);

    if let MessageLike::RolePromptTemplate(role, template) = &chat_prompt.messages[0] {
        assert_eq!(template.template(), "You are a helpful AI bot. Your name is {name}.");
        assert_eq!(role, &System);
    } else {
        panic!("Expected a PromptTemplate for the system message.");
    }

    if let MessageLike::BaseMessage(message) = &chat_prompt.messages[1] {
        assert_eq!(message.content(), "I'm doing well, thank you.");
    } else {
        panic!("Expected a BaseMessage for the AI message.");
    }
}

#[test]
fn test_from_messages_placeholder() {
    let templates = chats(&[(System, "This is a valid system message."), (Placeholder, "{history}")]);

    let chat_prompt = ChatTemplate::from_messages(templates).unwrap();
    assert_eq!(chat_prompt.messages.len(), 2);

    if let MessageLike::BaseMessage(system_message) = &chat_prompt.messages[0] {
        assert_eq!(system_message.content(), "This is a valid system message.");
    } else {
        panic!("Expected BaseMessage for the system role.");
    }

    if let MessageLike::Placeholder(placeholder) = &chat_prompt.messages[1] {
        assert_eq!(placeholder.variable_name(), "history");
        assert!(!placeholder.optional());
        assert_eq!(placeholder.n_messages(), MessagesPlaceholder::DEFAULT_LIMIT);
    } else {
        panic!("Expected MessagesPlaceholder for the placeholder role.");
    }
}

#[test]
fn test_invoke_with_base_messages() {
    let templates = chats(&[(System, "This is a system message."), (Human, "Hello, human!")]);

    let chat_prompt = ChatTemplate::from_messages(templates).unwrap();

    assert_eq!(chat_prompt.messages.len(), 2);

    let variables = VarMap::new();
    let result = chat_prompt.invoke(&variables).unwrap();

    assert_eq!(result.len(), 2);
    assert_eq!(result[0].content(), "This is a system message.");
    assert_eq!(result[1].content(), "Hello, human!");
}

#[test]
fn test_invoke_with_role_prompt_template() {
    let templates = chats(&[(System, "System maintenance is scheduled."), (Human, "Hello, {name}!")]);

    let chat_prompt = ChatTemplate::from_messages(templates).unwrap();
    assert_eq!(chat_prompt.messages.len(), 2);

    let variables = vars(&[("name", "Alice")]);
    let result = chat_prompt.invoke(&variables).unwrap();

    assert_eq!(result.len(), 2);
    assert_eq!(result[0].content(), "System maintenance is scheduled.");
    assert_eq!(result[1].content(), "Hello, Alice!");
}

#[test]
fn test_invoke_with_placeholder_and_role_templates() {
    let history_json = r#"[{"role":"human","content":"Hello, AI."},{"role":"ai","content":"Hi, how can I assist you today?"}]"#;

    let templates = chats(&[
        (System, "This is a system message."),
        (Placeholder, "{history}"),
        (Human, "How can I help you, {name}?"),
    ]);

    let chat_prompt = ChatTemplate::from_messages(templates).unwrap();
    assert_eq!(chat_prompt.messages.len(), 3);

    let variables = vars(&[("history", history_json), ("name", "Bob")]);
    let result = chat_prompt.invoke(&variables).unwrap();

    assert_eq!(result.len(), 4);
    assert_eq!(result[0].content(), "This is a system message.");
    assert_eq!(result[1].content(), "Hello, AI.");
    assert_eq!(result[2].content(), "Hi, how can I assist you today?");
    assert_eq!(result[3].content(), "How can I help you, Bob?");
}

#[test]
fn test_invoke_with_invalid_json_history() {
    let invalid_history_json = "invalid json string";

    let templates = chats(&[
        (System, "This is a system message."),
        (Placeholder, "{history}"),
        (Human, "How can I help you, {name}?"),
    ]);

    let chat_prompt = ChatTemplate::from_messages(templates).unwrap();
    let variables = vars(&[("history", invalid_history_json), ("name", "Bob")]);

    let result = chat_prompt.invoke(&variables);
    assert!(result.is_err());
}

#[test]
fn test_empty_templates() {
    let templates: Vec<(Role, String)> = Vec::new();
    let chat_prompt = ChatTemplate::from_messages(templates);
    assert!(chat_prompt.unwrap().messages.is_empty());
}

#[test]
fn test_invoke_with_empty_variables_map() {
    let templates = chats(&[(System, "System maintenance is scheduled."), (Human, "Hello, {name}!")]);

    let chat_prompt = ChatTemplate::from_messages(templates).unwrap();
    let variables = VarMap::new();

    let result = chat_prompt.invoke(&variables);
    assert!(result.is_err());
}

#[test]
fn test_invoke_with_multiple_placeholders_in_one_template() {
    let templates = chats(&[
        (Human, "Hello, {name}. How are you on this {day}?"),
        (System, "Today is {day}. Have a great {day}."),
    ]);

    let chat_prompt = ChatTemplate::from_messages(templates).unwrap();
    let variables = vars(&[("name", "Alice"), ("day", "Monday")]);

    let result = chat_prompt.invoke(&variables).unwrap();

    assert_eq!(result.len(), 2);
    assert_eq!(result[0].content(), "Hello, Alice. How are you on this Monday?");
    assert_eq!(result[1].content(), "Today is Monday. Have a great Monday.");
}

#[test]
fn test_add_two_templates() {
    let template1 =
        ChatTemplate::from_messages(chats(&[(System, "You are a helpful AI bot.")])).unwrap();
    let template2 =
        ChatTemplate::from_messages(chats(&[(Human, "What is the weather today?")])).unwrap();

    let combined_template = template1.concat(template2);

    assert_eq!(combined_template.messages.len(), 2);

    if let MessageLike::BaseMessage(message) = &combined_template.messages[0] {
        assert_eq!(message.content(), "You are a helpful AI bot.");
    } else {
        panic!("Expected a BaseMessage for the system message.");
    }

    if let MessageLike::BaseMessage(message) = &combined_template.messages[1] {
        assert_eq!(message.content(), "What is the weather today?");
    } else {
        panic!("Expected a BaseMessage for the human message.");
    }
}

#[test]
fn test_add_multiple_templates() {
    let system_template = ChatTemplate::from_messages(chats(&[(System, "System message.")])).unwrap();
    let user_template = ChatTemplate::from_messages(chats(&[(Human, "User message.")])).unwrap();
    let ai_template = ChatTemplate::from_messages(chats(&[(Ai, "AI message.")])).unwrap();

    let combined_template = system_template.concat(user_template).concat(ai_template);

    assert_eq!(combined_template.messages.len(), 3);

    if let MessageLike::BaseMessage(message) = &combined_template.messages[0] {
        assert_eq!(message.content(), "System message.");
    } else {
        panic!("Expected a BaseMessage for the system message.");
    }

    if let MessageLike::BaseMessage(message) = &combined_template.messages[1] {
        assert_eq!(message.content(), "User message.");
    } else {
        panic!("Expected a BaseMessage for the human message.");
    }

    if let MessageLike::BaseMessage(message) = &combined_template.messages[2] {
        assert_eq!(message.content(), "AI message.");
    } else {
        panic!("Expected a BaseMessage for the AI message.");
    }
}

#[test]
fn test_add_empty_template() {
    let empty_template = ChatTemplate::from_messages(Vec::new()).unwrap();
    let filled_template =
        ChatTemplate::from_messages(chats(&[(System, "This is a system message.")])).unwrap();

    let combined_template = empty_template.concat(filled_template);

    assert_eq!(combined_template.messages.len(), 1);
    if let MessageLike::BaseMessage(message) = &combined_template.messages[0] {
        assert_eq!(message.content(), "This is a system message.");
    } else {
        panic!("Expected a BaseMessage for the system message.");
    }
}

#[test]
fn test_add_to_empty_template() {
    let filled_template =
        ChatTemplate::from_messages(chats(&[(System, "This is a system message.")])).unwrap();
    let empty_template = ChatTemplate::from_messages(Vec::new()).unwrap();

    let combined_template = filled_template.concat(empty_template);

    assert_eq!(combined_template.messages.len(), 1);
    if let MessageLike::BaseMessage(message) = &combined_template.messages[0] {
        assert_eq!(message.content(), "This is a system message.");
    } else {
        panic!("Expected a BaseMessage for the system message.");
    }
}

#[test]
fn test_format_with_basic_messages() {
    let templates = chats(&[
        (System, "System message."),
        (Human, "Hello, {name}!"),
        (Ai, "Hi {name}, how can I assist you today?"),
    ]);

    let chat_template = ChatTemplate::from_messages(templates).unwrap();
    let variables = vars(&[("name", "Alice")]);

    let formatted_output = chat_template.format(&variables).unwrap();

    let expected_output = "\
system: System message.
human: Hello, Alice!
ai: Hi Alice, how can I assist you today?";

    assert_eq!(formatted_output, expected_output);
}

#[test]
fn test_format_with_placeholders() {
    let history_json = r#"[{"role":"human","content":"What is the capital of France?"},{"role":"ai","content":"The capital of France is Paris."}]"#;

    let templates = chats(&[
        (System, "This is a system message."),
        (Placeholder, "{history}"),
        (Human, "Can I help you with anything else, {name}?"),
    ]);

    let chat_template = ChatTemplate::from_messages(templates).unwrap();
    let variables = vars(&[("history", history_json), ("name", "Bob")]);

    let formatted_output = chat_template.format(&variables).unwrap();

    let expected_output = "\
system: This is a system message.
human: What is the capital of France?
ai: The capital of France is Paris.
human: Can I help you with anything else, Bob?";

    assert_eq!(formatted_output, expected_output);
}

#[test]
fn test_format_with_empty_chat_template() {
    let chat_template = ChatTemplate::from_messages(Vec::new()).unwrap();
    let variables = VarMap::new();

    let formatted_output = chat_template.format(&variables).unwrap();

    let expected_output = "";
    assert_eq!(formatted_output, expected_output);
}

#[test]
fn test_format_with_missing_variable_error() {
    let templates = chats(&[
        (System, "You are a helpful assistant."),
        (Human, "Hello, {name}."),
        (Ai, "How can I assist you today, {name}?"),
    ]);

    let chat_template = ChatTemplate::from_messages(templates).unwrap();
    let variables = VarMap::new();

    let result = chat_template.format(&variables);

    assert!(result.is_err());
    if let Err(TemplateError::MissingVariable(missing_var)) = result {
        assert_eq!(missing_var, "name");
    } else {
        panic!("Expected MissingVariable error");
    }
}

#[test]
fn test_format_with_malformed_placeholder() {
    let templates = chats(&[
        (System, "System maintenance is scheduled."),
        (Placeholder, "{invalid_placeholder}"),
        (Human, "Hello, {name}!"),
    ]);

    let chat_template = ChatTemplate::from_messages(templates).unwrap();
    let variables = vars(&[("name", "Alice")]);

    let result = chat_template.format(&variables);

    // The required placeholder is unbound, so resolution fails on it.
    assert!(result.is_err());
    if let Err(TemplateError::MissingVariable(missing_var)) = result {
        assert_eq!(missing_var, "invalid_placeholder");
    } else {
        panic!("Expected MissingVariable error");
    }
}

#[test]
fn test_format_with_repeated_variables() {
    let templates = chats(&[(System, "Hello {name}."), (Ai, "{name}, how can I assist you today?")]);

    let chat_template = ChatTemplate::from_messages(templates).unwrap();
    let variables = vars(&[("name", "Bob")]);

    let formatted_output = chat_template.format(&variables).unwrap();

    let expected_output = "\
system: Hello Bob.
ai: Bob, how can I assist you today?";

    assert_eq!(formatted_output, expected_output);
}

#[test]
fn test_format_with_plain_text_messages() {
    let templates = chats(&[
        (System, "Welcome to the system."),
        (Human, "This is a plain text message."),
        (Ai, "No variables or placeholders here."),
    ]);

    let chat_template = ChatTemplate::from_messages(templates).unwrap();
    let variables = VarMap::new(); // No variables needed

    let formatted_output = chat_template.format(&variables).unwrap();

    let expected_output = "\
system: Welcome to the system.
human: This is a plain text message.
ai: No variables or placeholders here.";

    assert_eq!(formatted_output, expected_output);
}

#[test]
fn test_format_with_mixed_placeholders_and_plain_text() {
    let templates = chats(&[
        (System, "System notification: {event}."),
        (Ai, "You have {unread_messages} unread messages."),
        (Human, "Thanks, AI."),
    ]);

    let chat_template = ChatTemplate::from_messages(templates).unwrap();
    let variables = vars(&[("event", "System update"), ("unread_messages", "5")]);

    let formatted_output = chat_template.format(&variables).unwrap();

    let expected_output = "\
system: System notification: System update.
ai: You have 5 unread messages.
human: Thanks, AI.";

    assert_eq!(formatted_output, expected_output);
}

#[test]
fn test_to_variables_map_with_full_example() {
    let chat_template = ChatTemplate::from_messages(chats(&[
        (System, "You are a helpful AI bot. Your name is {name}."),
        (Ai, "I'm doing well, thank you."),
    ]))
    .unwrap();

    let variables = chat_template.to_variables_map();
    assert_eq!(variables.len(), 1);
    assert_eq!(variables.get("name"), Some(&"system".to_string()));
}

#[test]
fn test_to_variables_map_with_no_variables() {
    let chat_template = ChatTemplate::from_messages(chats(&[
        (Human, "Hello!"),
        (Ai, "I'm doing well, thank you."),
    ]))
    .unwrap();

    let variables = chat_template.to_variables_map();
    assert!(variables.is_empty());
}

#[test]
fn test_to_variables_map_with_partial_variables() {
    let chat_template = ChatTemplate::from_messages(chats(&[
        (Human, "How are you, {name}?"),
        (Ai, "I'm doing well, thank you."),
    ]))
    .unwrap();

    let variables = chat_template.to_variables_map();
    assert_eq!(variables.len(), 1);
    assert_eq!(variables.get("name"), Some(&"human".to_string()));
}

#[test]
fn test_to_variables_map_with_base_message() {
    let chat_template =
        ChatTemplate::from_messages(chats(&[(Human, "{question}"), (Ai, "{answer}")])).unwrap();

    let variables = chat_template.to_variables_map();
    assert_eq!(variables.len(), 2);
    assert_eq!(variables.get("question"), Some(&"human".to_string()));
    assert_eq!(variables.get("answer"), Some(&"ai".to_string()));
}

#[test]
fn test_to_variables_map_with_empty_template() {
    let chat_template = ChatTemplate::from_messages(Vec::new()).unwrap();

    let variables = chat_template.to_variables_map();
    assert!(variables.is_empty());
}

#[test]
fn test_placeholder_scenarios() {
    // A bound history slot expands into its messages.
    let templates = chats(&[(Placeholder, "{history}")]);
    let chat = ChatTemplate::from_messages(templates).unwrap();
    let variables = vars(&[("history", r#"[{"role":"human","content":"hey"}]"#)]);
    let result = chat.invoke(&variables).unwrap();
    assert_eq!(result.len(), 1);
    assert_eq!(result[0].role(), Human);
    assert_eq!(result[0].content(), "hey");

    // Malformed JSON fails with a malformed-template error.
    let variables = vars(&[("history", "not json")]);
    let err = chat.invoke(&variables).unwrap_err();
    assert!(matches!(err, TemplateError::MalformedTemplate(_)));

    // Unbound and required fails with the slot's variable name.
    let variables = VarMap::new();
    let err = chat.invoke(&variables).unwrap_err();
    if let TemplateError::MissingVariable(name) = err {
        assert_eq!(name, "history");
    } else {
        panic!("Expected MissingVariable error");
    }

    // Unbound and optional expands to nothing.
    let optional_slot = MessagesPlaceholder::with_options("history".to_string(), true, 10);
    let chat = ChatTemplate::from_entries(vec![MessageLike::placeholder(optional_slot)]);
    let result = chat.invoke(&VarMap::new()).unwrap();
    assert_eq!(result.len(), 0);
}

#[test]
fn test_placeholder_truncates_to_limit() {
    let slot = MessagesPlaceholder::with_options("history".to_string(), false, 2);
    let chat = ChatTemplate::from_entries(vec![MessageLike::placeholder(slot)]);
    let history = r#"[{"role":"human","content":"one"},{"role":"ai","content":"two"},{"role":"human","content":"three"}]"#;
    let variables = vars(&[("history", history)]);
    let result = chat.invoke(&variables).unwrap();
    assert_eq!(result.len(), 2);
    assert_eq!(result[0].content(), "one");
    assert_eq!(result[1].content(), "two");
}

#[test]
fn test_from_messages_rejects_tool_plaintext() {
    let templates = chats(&[(Role::Tool, "A plain tool line.")]);
    let result = ChatTemplate::from_messages(templates);
    assert!(matches!(result, Err(TemplateError::InvalidRoleError)));
}

#[test]
fn test_from_messages_rejects_malformed_entry() {
    let templates = chats(&[(Human, "Hello {name"), (Ai, "Fine.")]);
    let result = ChatTemplate::from_messages(templates);
    assert!(matches!(result, Err(TemplateError::MalformedTemplate(_))));
}
