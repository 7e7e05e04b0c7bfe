//! The tagged union of everything a chat template can hold: a concrete
//! message, a role-bound template awaiting substitution, a history
//! placeholder, or a nested few-shot block.
use vstd::prelude::*;

use crate::few_shot_chat_template::FewShotChatTemplate;
use crate::message::Message;
use crate::messages_placeholder::MessagesPlaceholder;
use crate::role::Role;
use crate::template::Template;

verus! {

/// One entry of a chat template.  The few-shot case is the only recursive
/// one (its block holds a chat template of its own), so it is boxed to keep
/// the union's size finite.
#[derive(Debug)]
pub enum MessageLike {
    BaseMessage(Message),
    RolePromptTemplate(Role, Template),
    Placeholder(MessagesPlaceholder),
    FewShotPrompt(Box<FewShotChatTemplate>),
}

impl MessageLike {
    /// Every payload is valid for its variant.
    pub open spec fn wf(&self) -> bool {
        match self {
            MessageLike::BaseMessage(m) => m.wf(),
            MessageLike::RolePromptTemplate(_, t) => t.wf(),
            MessageLike::Placeholder(p) => p.wf(),
            MessageLike::FewShotPrompt(f) => f.wf(),
        }
    }

    pub fn base_message(message: Message) -> (r: MessageLike)
        requires
            message.wf(),
        ensures
            r == MessageLike::BaseMessage(message),
            r.wf(),
    {
        MessageLike::BaseMessage(message)
    }

    pub fn role_prompt_template(role: Role, template: Template) -> (r: MessageLike)
        requires
            template.wf(),
        ensures
            r == MessageLike::RolePromptTemplate(role, template),
            r.wf(),
    {
        MessageLike::RolePromptTemplate(role, template)
    }

    pub fn placeholder(placeholder: MessagesPlaceholder) -> (r: MessageLike)
        requires
            placeholder.wf(),
        ensures
            r == MessageLike::Placeholder(placeholder),
            r.wf(),
    {
        MessageLike::Placeholder(placeholder)
    }

    pub fn few_shot_prompt(few_shot_prompt: FewShotChatTemplate) -> (r: MessageLike)
        requires
            few_shot_prompt.wf(),
        ensures
            r matches MessageLike::FewShotPrompt(f) && *f == few_shot_prompt,
            r.wf(),
    {
        MessageLike::FewShotPrompt(Box::new(few_shot_prompt))
    }

    /// The held concrete message, when it speaks with the given role.
    fn as_message_with_role(&self, role: Role) -> (r: Option<&Message>)
        ensures
            match r {
                Some(m) => *self matches MessageLike::BaseMessage(m2) && m2 == *m && m.spec_role()
                    == role,
                None => !(*self matches MessageLike::BaseMessage(m2) && m2.spec_role() == role),
            },
    {
        match self {
            MessageLike::BaseMessage(m) => {
                if m.role() == role {
                    Some(m)
                } else {
                    None
                }
            },
            _ => None,
        }
    }

    pub fn as_human(&self) -> (r: Option<&Message>)
        ensures
            match r {
                Some(m) => *self matches MessageLike::BaseMessage(m2) && m2 == *m && m.spec_role()
                    == Role::Human,
                None => !(*self matches MessageLike::BaseMessage(m2) && m2.spec_role()
                    == Role::Human),
            },
    {
        self.as_message_with_role(Role::Human)
    }

    pub fn as_ai(&self) -> (r: Option<&Message>)
        ensures
            match r {
                Some(m) => *self matches MessageLike::BaseMessage(m2) && m2 == *m && m.spec_role()
                    == Role::Ai,
                None => !(*self matches MessageLike::BaseMessage(m2) && m2.spec_role()
                    == Role::Ai),
            },
    {
        self.as_message_with_role(Role::Ai)
    }

    pub fn as_system(&self) -> (r: Option<&Message>)
        ensures
            match r {
                Some(m) => *self matches MessageLike::BaseMessage(m2) && m2 == *m && m.spec_role()
                    == Role::System,
                None => !(*self matches MessageLike::BaseMessage(m2) && m2.spec_role()
                    == Role::System),
            },
    {
        self.as_message_with_role(Role::System)
    }

    pub fn as_tool(&self) -> (r: Option<&Message>)
        ensures
            match r {
                Some(m) => *self matches MessageLike::BaseMessage(m2) && m2 == *m && m.spec_role()
                    == Role::Tool,
                None => !(*self matches MessageLike::BaseMessage(m2) && m2.spec_role()
                    == Role::Tool),
            },
    {
        self.as_message_with_role(Role::Tool)
    }
}

} // verus!
