//! A named slot in a chat template that expands to recorded history.
use vstd::prelude::*;

use crate::placeholder::{extract_placeholder_variable, spec_extract_vars};
use crate::template_format::{ErrView, TemplateError};

verus! {

/// A named, optionally-skippable slot expanding to at most `n_messages`
/// historical messages.
#[derive(Debug, Clone)]
pub struct MessagesPlaceholder {
    variable_name: String,
    optional: bool,
    n_messages: usize,
}

/// The number of messages a placeholder falls back to when none is given.
pub const DEFAULT_PLACEHOLDER_LIMIT: usize = 100;

impl MessagesPlaceholder {
    pub const DEFAULT_LIMIT: usize = 100;

    pub closed spec fn spec_variable_name(&self) -> Seq<char> {
        self.variable_name@
    }

    pub closed spec fn spec_optional(&self) -> bool {
        self.optional
    }

    pub closed spec fn spec_n_messages(&self) -> int {
        self.n_messages as int
    }

    /// The slot always bounds its expansion by a positive limit.
    pub closed spec fn wf(&self) -> bool {
        self.n_messages >= 1
    }

    /// A required slot with the default limit.
    pub fn new(variable_name: String) -> (r: MessagesPlaceholder)
        ensures
            r.wf(),
            r.spec_variable_name() == variable_name@,
            !r.spec_optional(),
            r.spec_n_messages() == DEFAULT_PLACEHOLDER_LIMIT as int,
    {
        Self::with_options(variable_name, false, Self::DEFAULT_LIMIT)
    }

    /// A slot with explicit options; a zero limit falls back to the default.
    pub fn with_options(variable_name: String, optional: bool, n_messages: usize) -> (r:
        MessagesPlaceholder)
        ensures
            r.wf(),
            r.spec_variable_name() == variable_name@,
            r.spec_optional() == optional,
            r.spec_n_messages() == if n_messages < 1 {
                DEFAULT_PLACEHOLDER_LIMIT as int
            } else {
                n_messages as int
            },
    {
        MessagesPlaceholder {
            variable_name,
            optional,
            n_messages: if n_messages < 1 {
                Self::DEFAULT_LIMIT
            } else {
                n_messages
            },
        }
    }

    pub fn variable_name(&self) -> (r: &str)
        ensures
            r@ == self.spec_variable_name(),
    {
        self.variable_name.as_str()
    }

    pub fn optional(&self) -> (r: bool)
        ensures
            r == self.spec_optional(),
    {
        self.optional
    }

    pub fn n_messages(&self) -> (r: usize)
        ensures
            r as int == self.spec_n_messages(),
    {
        self.n_messages
    }

    /// The slot declared by a template holding exactly one placeholder
    /// variable.
    pub fn try_from(s: &str) -> (r: Result<MessagesPlaceholder, TemplateError>)
        ensures
            r is Ok <==> spec_extract_vars(s@).len() == 1,
            r matches Ok(p) ==> p.wf() && p.spec_variable_name() == spec_extract_vars(s@)[0]
                && !p.spec_optional() && p.spec_n_messages() == DEFAULT_PLACEHOLDER_LIMIT as int,
            r matches Err(e) ==> e@ == ErrView::Malformed(
                "Template must contain exactly one placeholder variable."@,
            ),
    {
        match extract_placeholder_variable(s) {
            Ok(name) => Ok(MessagesPlaceholder::new(name)),
            Err(e) => Err(e),
        }
    }
}

} // verus!
