//! Speaker roles and conversion of raw text into concrete messages.
use vstd::prelude::*;

use crate::message::Message;

verus! {

/// A message's speaker category, or a structural marker.
#[derive(Debug, PartialEq, Eq, Structural, Clone, Copy)]
pub enum Role {
    System,
    Human,
    Ai,
    Tool,
    Placeholder,
    FewShotPrompt,
}

/// The role was not one that can produce or accept a concrete message.
#[derive(Debug, PartialEq, Eq, Structural, Clone, Copy)]
pub struct InvalidRoleError;

/// The canonical lowercase name of each role.
pub open spec fn spec_role_name(r: Role) -> Seq<char> {
    match r {
        Role::System => "system"@,
        Role::Human => "human"@,
        Role::Ai => "ai"@,
        Role::Tool => "tool"@,
        Role::Placeholder => "placeholder"@,
        Role::FewShotPrompt => "fewshotprompt"@,
    }
}

/// ASCII lowercase folding of one character.
pub open spec fn spec_lower_char(c: char) -> char {
    if 'A' <= c && c <= 'Z' {
        ((c as u8) + 32) as char
    } else {
        c
    }
}

/// Case-insensitive equality against a lowercase name.
pub open spec fn spec_eq_ci(s: Seq<char>, name: Seq<char>) -> bool {
    s.len() == name.len() && forall|i: int|
        0 <= i < s.len() ==> spec_lower_char(#[trigger] s[i]) == name[i]
}

/// The role named by `s`, compared case-insensitively.
pub open spec fn spec_parse_role(s: Seq<char>) -> Option<Role> {
    if spec_eq_ci(s, "system"@) {
        Some(Role::System)
    } else if spec_eq_ci(s, "human"@) {
        Some(Role::Human)
    } else if spec_eq_ci(s, "ai"@) {
        Some(Role::Ai)
    } else if spec_eq_ci(s, "tool"@) {
        Some(Role::Tool)
    } else if spec_eq_ci(s, "placeholder"@) {
        Some(Role::Placeholder)
    } else if spec_eq_ci(s, "fewshotprompt"@) {
        Some(Role::FewShotPrompt)
    } else {
        None
    }
}

fn lower_char(c: char) -> (r: char)
    ensures
        r == spec_lower_char(c),
{
    if 'A' <= c && c <= 'Z' {
        ((c as u8) + 32) as char
    } else {
        c
    }
}

/// Case-insensitive comparison of `s` with a lowercase `name`.
fn eq_ci(s: &Vec<char>, name: &str) -> (r: bool)
    ensures
        r == spec_eq_ci(s@, name@),
{
    let nv = crate::text::str_chars(name);
    if s.len() != nv.len() {
        return false;
    }
    let mut i: usize = 0;
    while i < s.len()
        invariant
            i <= s@.len(),
            s@.len() == nv@.len(),
            nv@ == name@,
            forall|j: int| 0 <= j < i ==> spec_lower_char(#[trigger] s@[j]) == name@[j],
        decreases s.len() - i,
    {
        if lower_char(s[i]) != nv[i] {
            return false;
        }
        i += 1;
    }
    true
}

impl Role {
    /// The canonical lowercase string form.
    pub fn as_str(&self) -> (r: &str)
        ensures
            r@ == spec_role_name(*self),
    {
        match self {
            Role::System => "system",
            Role::Human => "human",
            Role::Ai => "ai",
            Role::Tool => "tool",
            Role::Placeholder => "placeholder",
            Role::FewShotPrompt => "fewshotprompt",
        }
    }

    /// Case-insensitive parse of a role name.
    pub fn try_from(role: &str) -> (r: Result<Role, InvalidRoleError>)
        ensures
            r matches Ok(x) ==> spec_parse_role(role@) == Some(x),
            r is Err <==> spec_parse_role(role@) is None,
    {
        let v = crate::text::str_chars(role);
        if eq_ci(&v, "system") {
            Ok(Role::System)
        } else if eq_ci(&v, "human") {
            Ok(Role::Human)
        } else if eq_ci(&v, "ai") {
            Ok(Role::Ai)
        } else if eq_ci(&v, "tool") {
            Ok(Role::Tool)
        } else if eq_ci(&v, "placeholder") {
            Ok(Role::Placeholder)
        } else if eq_ci(&v, "fewshotprompt") {
            Ok(Role::FewShotPrompt)
        } else {
            Err(InvalidRoleError)
        }
    }

    /// A concrete message carrying this role and the given content; only the
    /// speaker roles System, Human and Ai can produce one.
    pub fn to_message(self, content: &str) -> (r: Result<Message, InvalidRoleError>)
        ensures
            r is Ok <==> (self == Role::System || self == Role::Human || self == Role::Ai),
            r matches Ok(m) ==> m.wf() && m.spec_role() == self && m.spec_content() == content@,
    {
        match self {
            Role::System | Role::Human | Role::Ai => Message::new(self, content),
            _ => Err(InvalidRoleError),
        }
    }
}

} // verus!
