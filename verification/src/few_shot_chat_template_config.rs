//! Plain configuration records for building few-shot chat templates, and
//! their conversions into the real types.  The serialization layer fills
//! these in; the conversions validate everything eagerly.
use vstd::prelude::*;

use crate::chat_template::{
    pair_views, spec_entry_shape, spec_first_build_error, ChatTemplate,
};
use crate::few_shot_chat_template::FewShotChatTemplate;
use crate::few_shot_template::FewShotTemplate;
use crate::placeholder::spec_extract_vars;
use crate::role::{spec_parse_role, Role};
use crate::template::Template;
use crate::template_format::{
    spec_classifiable, spec_detected_format, spec_is_valid, ErrView, TemplateError, TemplateFormat,
};

verus! {

/// A whole few-shot chat template, as plain records.
#[derive(Debug)]
pub struct FewShotChatTemplateConfig {
    pub example_separator: String,
    pub prefix: TemplateConfig,
    pub suffix: TemplateConfig,
    pub examples: Vec<TemplateConfig>,
    pub messages: Vec<MessageConfig>,
}

/// One template, as plain records.
#[derive(Debug)]
pub struct TemplateConfig {
    pub template: String,
    pub template_format: String,
    pub input_variables: Vec<String>,
}

/// One message entry, as plain records.
#[derive(Debug)]
pub struct MessageConfig {
    pub message_type: String,
    pub value: MessageValue,
}

/// A role name and raw content.
#[derive(Debug)]
pub struct MessageValue {
    pub role: String,
    pub content: String,
}

/// Whether a format name is one of the serialized names.
pub open spec fn spec_format_name_ok(s: Seq<char>) -> bool {
    s == "PlainText"@ || s == "FmtString"@ || s == "Mustache"@
}

impl TemplateConfig {
    /// A template built from the record: the declared format name must be
    /// known, and the text itself must validate; the detected format
    /// governs.
    pub fn try_into(self) -> (r: Result<Template, TemplateError>)
        ensures
            r is Ok <==> spec_format_name_ok(self.template_format@) && spec_is_valid(
                self.template@,
            ) && spec_classifiable(self.template@) && (spec_detected_format(self.template@)
                is Mustache ==> crate::engine::spec_mustache_compile(self.template@) is None),
            r matches Ok(t) ==> {
                &&& t.wf()
                &&& t.spec_template() == self.template@
                &&& t.spec_format() == spec_detected_format(self.template@)
                &&& t.spec_vars() == spec_extract_vars(self.template@)
            },
            r matches Err(e) ==> e@ == if !spec_format_name_ok(self.template_format@) {
                ErrView::Unsupported("Unsupported template format"@)
            } else if !spec_is_valid(self.template@) {
                ErrView::Malformed(self.template@)
            } else if !spec_classifiable(self.template@) {
                ErrView::Unsupported(self.template@)
            } else {
                ErrView::Malformed(
                    "Failed to register template: "@ + crate::engine::spec_mustache_compile(
                        self.template@,
                    )->Some_0,
                )
            },
    {
        if let Err(e) = TemplateFormat::parse_name(self.template_format.as_str()) {
            return Err(e);
        }
        Template::new(self.template.as_str())
    }
}

/// A template record that converts: a known format name, and text that
/// validates, classifies, and — for mustache — compiles.
pub open spec fn spec_template_config_ok(template: Seq<char>, format_name: Seq<char>) -> bool {
    &&& spec_format_name_ok(format_name)
    &&& spec_is_valid(template)
    &&& spec_classifiable(template)
    &&& spec_detected_format(template) is Mustache ==> crate::engine::spec_mustache_compile(
        template,
    ) is None
}

/// A whole few-shot configuration that converts: prefix, suffix and every
/// example each convert as templates, every message role parses, and the
/// message list builds into a chat template.
pub open spec fn spec_config_convertible(c: FewShotChatTemplateConfig) -> bool {
    &&& spec_template_config_ok(c.prefix.template@, c.prefix.template_format@)
    &&& spec_template_config_ok(c.suffix.template@, c.suffix.template_format@)
    &&& forall|i: int|
        0 <= i < c.examples@.len() ==> spec_template_config_ok(
            (#[trigger] c.examples@[i]).template@,
            c.examples@[i].template_format@,
        )
    &&& spec_config_pairs_ok(c.messages@)
    &&& spec_first_build_error(spec_config_views(c.messages@)) is None
}

/// The role-and-text pairs of a config list, with unparseable role names
/// marked.
pub open spec fn spec_config_pairs_ok(configs: Seq<MessageConfig>) -> bool {
    forall|i: int|
        0 <= i < configs.len() ==> spec_parse_role(#[trigger] configs[i].value.role@) is Some
}

/// The (role, text) views a config list denotes, where every role parses.
pub open spec fn spec_config_views(configs: Seq<MessageConfig>) -> Seq<(Role, Seq<char>)> {
    configs.map_values(
        |c: MessageConfig| (spec_parse_role(c.value.role@)->Some_0, c.value.content@),
    )
}

impl ChatTemplate {
    /// A chat template built from message records: each role name must
    /// parse, and the build itself must succeed; a failed build is
    /// reported as one malformed-input error.
    pub fn try_from(configs: Vec<MessageConfig>) -> (r: Result<ChatTemplate, TemplateError>)
        ensures
            r is Ok <==> spec_config_pairs_ok(configs@) && spec_first_build_error(
                spec_config_views(configs@),
            ) is None,
            r matches Ok(ct) ==> {
                &&& ct.wf()
                &&& ct.messages@.len() == configs@.len()
                &&& forall|i: int|
                    0 <= i < configs@.len() ==> spec_entry_shape(
                        spec_config_views(configs@)[i].0,
                        spec_config_views(configs@)[i].1,
                        #[trigger] ct.messages@[i],
                    )
            },
            r matches Err(e) ==> if !spec_config_pairs_ok(configs@) {
                e@ == ErrView::InvalidRole
            } else {
                e@ == ErrView::Malformed(
                    "Failed to deserialize TOML into ChatTemplate messages."@,
                )
            },
    {
        let ghost cviews = spec_config_views(configs@);
        let mut pairs: Vec<(Role, String)> = Vec::new();
        let n = configs.len();
        let mut i: usize = 0;
        while i < n
            invariant
                i <= n,
                n == configs@.len(),
                cviews == spec_config_views(configs@),
                pairs@.len() == i,
                forall|j: int|
                    0 <= j < i ==> spec_parse_role(#[trigger] configs@[j].value.role@) is Some,
                forall|j: int| 0 <= j < i ==> #[trigger] pair_views(pairs@)[j] == cviews[j],
            decreases n - i,
        {
            let ghost oldpairs = pairs@;
            let role = match Role::try_from(configs[i].value.role.as_str()) {
                Ok(ro) => ro,
                Err(_) => {
                    return Err(TemplateError::InvalidRoleError);
                },
            };
            let content = configs[i].value.content.clone();
            let ghost cv = content@;
            pairs.push((role, content));
            proof {
                assert(cviews[i as int] == (
                    spec_parse_role(configs@[i as int].value.role@)->Some_0,
                    configs@[i as int].value.content@,
                ));
                assert forall|j: int| 0 <= j < i + 1 implies #[trigger] pair_views(pairs@)[j]
                    == cviews[j] by {
                    if j < i {
                        assert(pairs@[j] == oldpairs[j]);
                        assert(pair_views(oldpairs)[j] == cviews[j]);
                    } else {
                        assert(pairs@[j].0 == role && pairs@[j].1@ == cv);
                        assert(cv == configs@[i as int].value.content@);
                    }
                }
            }
            i += 1;
        }
        proof {
            assert(pair_views(pairs@) =~= cviews);
        }
        match ChatTemplate::from_messages(pairs) {
            Ok(ct) => Ok(ct),
            Err(_) => Err(
                TemplateError::MalformedTemplate(
                    cfg_err_string("Failed to deserialize TOML into ChatTemplate messages."),
                ),
            ),
        }
    }
}

impl FewShotChatTemplate {
    /// A few-shot chat template built from a whole config: prefix, suffix
    /// and every example must each convert, and the message records must
    /// build; each failure is reported under its own fixed message.
    pub fn try_from(config: FewShotChatTemplateConfig) -> (r: Result<
        FewShotChatTemplate,
        TemplateError,
    >)
        ensures
            r is Ok <==> spec_config_convertible(config),
            r matches Ok(f) ==> {
                &&& f.wf()
                &&& f.spec_examples_block().spec_separator() == config.example_separator@
                &&& f.spec_examples_block().spec_prefix() matches Some(t) && t.spec_template()
                    == config.prefix.template@
                &&& f.spec_examples_block().spec_suffix() matches Some(t) && t.spec_template()
                    == config.suffix.template@
                &&& f.spec_examples_block().spec_examples().len() == config.examples@.len()
                &&& forall|i: int|
                    0 <= i < config.examples@.len() ==> (
                    #[trigger] f.spec_examples_block().spec_examples()[i]).spec_template()
                        == config.examples@[i].template@
                &&& f.spec_example_prompt().messages@.len() == config.messages@.len()
            },
            r matches Err(e) ==> e@ is Malformed,
    {
        let prefix_t = match config.prefix.try_into() {
            Ok(t) => t,
            Err(_) => {
                return Err(
                    TemplateError::MalformedTemplate(
                        cfg_err_string(
                            "Failed to parse 'prefix' in FewShotChatTemplateConfig.",
                        ),
                    ),
                );
            },
        };
        let suffix_t = match config.suffix.try_into() {
            Ok(t) => t,
            Err(_) => {
                return Err(
                    TemplateError::MalformedTemplate(
                        cfg_err_string(
                            "Failed to parse 'suffix' in FewShotChatTemplateConfig.",
                        ),
                    ),
                );
            },
        };
        let mut example_templates: Vec<Template> = Vec::new();
        let n = config.examples.len();
        let mut i: usize = 0;
        let mut failed = false;
        while i < n && !failed
            invariant
                i <= n,
                n == config.examples@.len(),
                example_templates@.len() == i,
                failed ==> !(forall|j: int|
                    0 <= j < config.examples@.len() ==> spec_template_config_ok(
                        (#[trigger] config.examples@[j]).template@,
                        config.examples@[j].template_format@,
                    )),
                !failed ==> forall|j: int|
                    0 <= j < i ==> spec_template_config_ok(
                        (#[trigger] config.examples@[j]).template@,
                        config.examples@[j].template_format@,
                    ),
                forall|j: int|
                    0 <= j < example_templates@.len() ==> (
                    #[trigger] example_templates@[j]).wf() && example_templates@[
                        j
                    ].spec_template() == config.examples@[j].template@,
            decreases n - i, if failed {
                0int
            } else {
                1int
            },
        {
            let ghost oldts = example_templates@;
            let cfg = TemplateConfig {
                template: config.examples[i].template.clone(),
                template_format: config.examples[i].template_format.clone(),
                input_variables: Vec::new(),
            };
            proof {
                assert(cfg.template@ == config.examples@[i as int].template@);
                assert(cfg.template_format@ == config.examples@[i as int].template_format@);
            }
            match cfg.try_into() {
                Ok(t) => {
                    example_templates.push(t);
                    proof {
                        assert(forall|j: int| 0 <= j < i ==> example_templates@[j] == oldts[j]);
                    }
                    i += 1;
                },
                Err(_) => {
                    proof {
                        assert(!spec_template_config_ok(
                            config.examples@[i as int].template@,
                            config.examples@[i as int].template_format@,
                        ));
                    }
                    failed = true;
                },
            }
        }
        if failed {
            proof {
                assert(!spec_config_convertible(config));
            }
            return Err(
                TemplateError::MalformedTemplate(
                    cfg_err_string("Failed to parse an example in FewShotChatTemplateConfig."),
                ),
            );
        }
        let few_shot_template = FewShotTemplate::with_options(
            example_templates,
            Some(prefix_t),
            Some(suffix_t),
            config.example_separator.as_str(),
        );
        let example_prompt = match ChatTemplate::try_from(config.messages) {
            Ok(ct) => ct,
            Err(_) => {
                return Err(
                    TemplateError::MalformedTemplate(
                        cfg_err_string(
                            "Failed to parse 'messages' in FewShotChatTemplateConfig.",
                        ),
                    ),
                );
            },
        };
        proof {
            assert(spec_config_convertible(config));
        }
        Ok(FewShotChatTemplate::new(few_shot_template, example_prompt))
    }
}

/// An owned copy of a string slice.
fn cfg_err_string(s: &str) -> (r: String)
    ensures
        r@ == s@,
{
    s.to_owned()
}

} // verus!
