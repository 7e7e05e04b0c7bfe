//! Structured, multi-turn prompt construction: placeholder-syntax
//! classification, variable substitution, and composition of role-tagged
//! message sequences with few-shot example blocks and history placeholders.
pub mod braces;
pub mod chat_template;
pub mod engine;
pub mod few_shot_chat_template;
pub mod few_shot_chat_template_config;
pub mod few_shot_template;
pub mod history;
pub mod is_even;
pub mod laws;
pub mod message;
pub mod message_like;
pub mod messages_placeholder;
pub mod placeholder;
pub mod role;
pub mod subst;
pub mod template;
pub mod template_format;
pub mod text;
pub mod vars;

pub use chat_template::ChatTemplate;
pub use few_shot_chat_template::FewShotChatTemplate;
pub use few_shot_chat_template_config::FewShotChatTemplateConfig;
pub use few_shot_chat_template_config::MessageConfig;
pub use few_shot_chat_template_config::MessageValue;
pub use few_shot_chat_template_config::TemplateConfig;
pub use few_shot_template::FewShotTemplate;
pub use few_shot_template::FewShotTemplateBuilder;
pub use is_even::IsEven;
pub use message::Message;
pub use message_like::MessageLike;
pub use messages_placeholder::MessagesPlaceholder;
pub use placeholder::extract_placeholder_variable;
pub use placeholder::extract_variables;
pub use placeholder::is_valid_identifier;
pub use role::InvalidRoleError;
pub use role::Role;
pub use template::Template;
pub use template_format::TemplateError;
pub use template_format::TemplateFormat;
pub use vars::merge_vars;
pub use vars::VarMap;
