//! A few-shot block paired with the chat template that supplies its
//! variable-to-role schema.
use vstd::prelude::*;

use crate::chat_template::{spec_vars_map, ChatTemplate};
use crate::few_shot_template::FewShotTemplate;
use crate::template::Template;
use crate::template_format::{ErrView, TemplateError};
use crate::vars::{SpecPair, VarMap};
use vstd::string::StringExecFns;

verus! {

/// Example templates together with an example prompt.  The prompt supplies
/// only the variable-to-role schema used when rendering the examples; the
/// content lives inside each example template's own text.
#[derive(Debug)]
pub struct FewShotChatTemplate {
    examples: FewShotTemplate,
    example_prompt: ChatTemplate,
}

impl FewShotChatTemplate {
    pub closed spec fn spec_examples_block(&self) -> FewShotTemplate {
        self.examples
    }

    pub closed spec fn spec_example_prompt(&self) -> ChatTemplate {
        self.example_prompt
    }

    pub open spec fn wf(&self) -> bool {
        self.spec_examples_block().wf()
    }

    /// The variable-to-role bindings the example prompt induces.
    pub open spec fn spec_schema(&self) -> Seq<SpecPair> {
        spec_vars_map(self.spec_example_prompt().messages@)
    }

    /// What formatting yields: the rendered block with a trailing
    /// separator, or the empty string when nothing rendered.
    pub open spec fn spec_format(&self, rt: Seq<SpecPair>) -> Result<Seq<char>, ErrView> {
        match self.spec_examples_block().spec_format_result(rt) {
            Ok(s) => Ok(
                if s.len() == 0 {
                    s
                } else {
                    s + "\n\n"@
                },
            ),
            Err(e) => Err(e),
        }
    }

    /// What rendering the examples against the prompt's own schema yields.
    pub open spec fn spec_format_examples(&self) -> Result<Seq<char>, ErrView> {
        self.spec_format(self.spec_schema())
    }

    pub fn new(examples: FewShotTemplate, example_prompt: ChatTemplate) -> (r: FewShotChatTemplate)
        requires
            examples.wf(),
        ensures
            r.wf(),
            r.spec_examples_block() == examples,
            r.spec_example_prompt() == example_prompt,
    {
        FewShotChatTemplate { examples, example_prompt }
    }

    /// Renders the block with the given bindings; a non-empty result takes
    /// a trailing separator so it concatenates cleanly before later
    /// messages.
    pub fn format(&self, variables: &VarMap) -> (r: Result<String, TemplateError>)
        requires
            self.wf(),
            variables.wf(),
        ensures
            r matches Ok(s) ==> self.spec_format(variables.spec_pairs()) == Ok::<
                Seq<char>,
                ErrView,
            >(s@),
            r matches Err(e) ==> self.spec_format(variables.spec_pairs()) == Err::<
                Seq<char>,
                ErrView,
            >(e@),
    {
        match self.examples.format(variables) {
            Ok(s) => {
                if s.as_str().is_empty() {
                    Ok(s)
                } else {
                    Ok(s.concat("\n\n"))
                }
            },
            Err(e) => Err(e),
        }
    }

    /// Renders the examples against the schema the example prompt induces:
    /// the bindings' values are role names, not content.
    pub fn format_examples(&self) -> (r: Result<String, TemplateError>)
        requires
            self.wf(),
        ensures
            r matches Ok(s) ==> self.spec_format_examples() == Ok::<Seq<char>, ErrView>(s@),
            r matches Err(e) ==> self.spec_format_examples() == Err::<Seq<char>, ErrView>(e@),
    {
        let variables = self.example_prompt.to_variables_map();
        self.format(&variables)
    }

    pub fn examples(&self) -> (r: &Vec<Template>)
        ensures
            r@ == self.spec_examples_block().spec_examples(),
    {
        self.examples.examples()
    }

    pub fn example_prompt(&self) -> (r: &ChatTemplate)
        ensures
            *r == self.spec_example_prompt(),
    {
        &self.example_prompt
    }

    pub fn example_separator(&self) -> (r: &str)
        ensures
            r@ == self.spec_examples_block().spec_separator(),
    {
        self.examples.example_separator()
    }

    pub fn prefix(&self) -> (r: Option<&Template>)
        ensures
            match r {
                Some(t) => self.spec_examples_block().spec_prefix() == Some(*t),
                None => self.spec_examples_block().spec_prefix() is None,
            },
    {
        self.examples.prefix()
    }

    pub fn suffix(&self) -> (r: Option<&Template>)
        ensures
            match r {
                Some(t) => self.spec_examples_block().spec_suffix() == Some(*t),
                None => self.spec_examples_block().spec_suffix() is None,
            },
    {
        self.examples.suffix()
    }
}

} // verus!
