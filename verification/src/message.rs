//! The concrete message value: a speaker role and its text.
use vstd::prelude::*;

use crate::role::{InvalidRoleError, Role};

verus! {

/// Roles that a concrete message can carry.
pub open spec fn is_message_role(r: Role) -> bool {
    r == Role::System || r == Role::Human || r == Role::Ai || r == Role::Tool
}

/// A concrete chat message: one of the four speaker roles, with its text.
#[derive(Debug, Clone)]
pub struct Message {
    role: Role,
    content: String,
}

impl Message {
    pub closed spec fn spec_role(&self) -> Role {
        self.role
    }

    pub closed spec fn spec_content(&self) -> Seq<char> {
        self.content@
    }

    pub open spec fn wf(&self) -> bool {
        is_message_role(self.spec_role())
    }

    /// A message of the given speaker role; structural roles are refused.
    pub fn new(role: Role, content: &str) -> (r: Result<Message, InvalidRoleError>)
        ensures
            r is Ok <==> is_message_role(role),
            r matches Ok(m) ==> m.wf() && m.spec_role() == role && m.spec_content() == content@,
    {
        match role {
            Role::System | Role::Human | Role::Ai | Role::Tool => Ok(
                Message { role, content: content.to_owned() },
            ),
            _ => Err(InvalidRoleError),
        }
    }

    pub fn role(&self) -> (r: Role)
        ensures
            r == self.spec_role(),
    {
        self.role
    }

    pub fn content(&self) -> (r: &str)
        ensures
            r@ == self.spec_content(),
    {
        self.content.as_str()
    }
}

} // verus!
