//! Ordered sequences of message-producing entries, their construction from
//! role-tagged raw text, concatenation, and resolution into messages.
use vstd::prelude::*;

use crate::history::{
    decode_history, is_wire_role, parse_role_lines, spec_decode_history, spec_parse_role_lines,
};
use crate::message::{is_message_role, Message};
use crate::message_like::MessageLike;
use crate::messages_placeholder::{MessagesPlaceholder, DEFAULT_PLACEHOLDER_LIMIT};
use crate::placeholder::spec_extract_vars;
use crate::role::{spec_parse_role, spec_role_name, Role};
use crate::template::Template;
use crate::template_format::{
    spec_classifiable, spec_detected_format, spec_is_valid, ErrView, TemplateError, TemplateFormat,
};
use crate::text::{chars_string, extend_chars, spec_join};
use crate::vars::{assoc_pairs, lemma_get_from_pairs, spec_insert, SpecPair, VarMap};
use vstd::string::StringExecFns;

verus! {

/// An ordered sequence of message-producing entries.
#[derive(Debug)]
pub struct ChatTemplate {
    pub messages: Vec<MessageLike>,
}

/// Roles that convert into a concrete message at resolution time.
pub open spec fn role_is_speaker(r: Role) -> bool {
    r == Role::System || r == Role::Human || r == Role::Ai
}

/// A resolved message at the view level: its role and its text.
pub type MsgView = (Role, Seq<char>);

/// The view of a sequence of concrete messages.
pub open spec fn msgs_view(msgs: Seq<Message>) -> Seq<MsgView> {
    msgs.map_values(|m: Message| (m.spec_role(), m.spec_content()))
}

/// Decoded history items as messages: truncated to the slot's limit, each
/// role name parsed into its role.
pub open spec fn spec_history_msgs(items: Seq<(Seq<char>, Seq<char>)>, limit: int) -> Seq<
    MsgView,
> {
    let kept = if items.len() <= limit {
        items
    } else {
        items.take(limit)
    };
    kept.map_values(|p: (Seq<char>, Seq<char>)| (spec_parse_role(p.0)->Some_0, p.1))
}

/// Parsed example lines as messages.
pub open spec fn spec_line_msgs(items: Seq<(Seq<char>, Seq<char>)>) -> Seq<MsgView> {
    items.map_values(|p: (Seq<char>, Seq<char>)| (spec_parse_role(p.0)->Some_0, p.1))
}

/// What resolving one entry yields, given runtime bindings:
/// - a concrete message passes through;
/// - a role-bound template is formatted, then converted by its role;
/// - a placeholder expands to decoded history, to nothing when optional and
///   unbound, and fails when required and unbound;
/// - a few-shot block renders its examples and re-parses them line by line.
pub open spec fn spec_resolve_entry(e: MessageLike, rt: Seq<SpecPair>) -> Result<
    Seq<MsgView>,
    ErrView,
> {
    match e {
        MessageLike::BaseMessage(m) => Ok(seq![(m.spec_role(), m.spec_content())]),
        MessageLike::RolePromptTemplate(role, t) => match t.spec_format_result(rt) {
            Ok(s) => if role_is_speaker(role) {
                Ok(seq![(role, s)])
            } else {
                Err(ErrView::InvalidRole)
            },
            Err(ev) => Err(ev),
        },
        MessageLike::Placeholder(p) => match assoc_pairs(rt, p.spec_variable_name()) {
            None => if p.spec_optional() {
                Ok(Seq::empty())
            } else {
                Err(ErrView::Missing(p.spec_variable_name()))
            },
            Some(v) => match spec_decode_history(v) {
                Err(m) => Err(ErrView::Malformed("Failed to deserialize placeholder: "@ + m)),
                Ok(items) => Ok(spec_history_msgs(items, p.spec_n_messages())),
            },
        },
        MessageLike::FewShotPrompt(f) => match f.spec_format_examples() {
            Err(ev) => Err(ev),
            Ok(text) => match spec_parse_role_lines(text) {
                Err(m) => Err(ErrView::Malformed("Failed to parse message: "@ + m)),
                Ok(items) => Ok(spec_line_msgs(items)),
            },
        },
    }
}

/// Resolution of a whole entry sequence, in order; the first failure aborts.
pub open spec fn spec_format_messages(entries: Seq<MessageLike>, rt: Seq<SpecPair>) -> Result<
    Seq<MsgView>,
    ErrView,
>
    decreases entries.len(),
{
    if entries.len() == 0 {
        Ok(Seq::empty())
    } else {
        match spec_resolve_entry(entries[0], rt) {
            Err(e) => Err(e),
            Ok(first) => match spec_format_messages(entries.skip(1), rt) {
                Err(e) => Err(e),
                Ok(rest) => Ok(first + rest),
            },
        }
    }
}

/// The prefix a role contributes to the joined text form.
pub open spec fn spec_role_prefix(r: Role) -> Seq<char> {
    match r {
        Role::Human => "human: "@,
        Role::Ai => "ai: "@,
        Role::System => "system: "@,
        _ => Seq::empty(),
    }
}

/// The resolved messages as one text: each line its role prefix and
/// content, joined by newlines.
pub open spec fn spec_render_chat(msgs: Seq<MsgView>) -> Seq<char> {
    spec_join(msgs.map_values(|p: MsgView| spec_role_prefix(p.0) + p.1), seq!['\n'])
}

/// One construction step of the variable-to-role map: a role-bound template
/// records its first declared variable under the entry's role name, a
/// concrete message its content's first extracted variable; later entries
/// overwrite earlier ones that share the variable.
pub open spec fn spec_vars_map_step(acc: Seq<SpecPair>, e: MessageLike) -> Seq<SpecPair> {
    match e {
        MessageLike::RolePromptTemplate(role, t) => if t.spec_vars().len() > 0 {
            spec_insert(acc, t.spec_vars()[0], spec_role_name(role))
        } else {
            acc
        },
        MessageLike::BaseMessage(m) => if spec_extract_vars(m.spec_content()).len() > 0 {
            spec_insert(acc, spec_extract_vars(m.spec_content())[0], spec_role_name(m.spec_role()))
        } else {
            acc
        },
        _ => acc,
    }
}

pub open spec fn spec_vars_map_from(entries: Seq<MessageLike>, acc: Seq<SpecPair>) -> Seq<
    SpecPair,
>
    decreases entries.len(),
{
    if entries.len() == 0 {
        acc
    } else {
        spec_vars_map_from(entries.skip(1), spec_vars_map_step(acc, entries[0]))
    }
}

/// The variable-to-role schema a chat template induces.
pub open spec fn spec_vars_map(entries: Seq<MessageLike>) -> Seq<SpecPair> {
    spec_vars_map_from(entries, Seq::empty())
}

/// What building one entry from a role and raw text can reject:
/// - a placeholder slot must declare exactly one variable;
/// - a few-shot entry cannot be built from raw text here, only from a value;
/// - any other role takes the text through template validation and, when it
///   is plain text, through conversion by a speaker role.
pub open spec fn spec_entry_error(role: Role, text: Seq<char>) -> Option<ErrView> {
    match role {
        Role::Placeholder => if spec_extract_vars(text).len() == 1 {
            None
        } else {
            Some(ErrView::Malformed("Template must contain exactly one placeholder variable."@))
        },
        Role::FewShotPrompt => Some(ErrView::Malformed(text)),
        _ => {
            if !spec_is_valid(text) {
                Some(ErrView::Malformed(text))
            } else if !spec_classifiable(text) {
                Some(ErrView::Unsupported(text))
            } else if spec_detected_format(text) is Mustache && crate::engine::spec_mustache_compile(
                text,
            ) is Some {
                Some(
                    ErrView::Malformed(
                        "Failed to register template: "@ + crate::engine::spec_mustache_compile(
                            text,
                        )->Some_0,
                    ),
                )
            } else if spec_detected_format(text) is PlainText && !role_is_speaker(role) {
                Some(ErrView::InvalidRole)
            } else {
                None
            }
        },
    }
}

/// The first error a build of the whole list runs into, if any.
pub open spec fn spec_first_build_error(pairs: Seq<(Role, Seq<char>)>) -> Option<ErrView>
    decreases pairs.len(),
{
    if pairs.len() == 0 {
        None
    } else {
        match spec_entry_error(pairs[0].0, pairs[0].1) {
            Some(e) => Some(e),
            None => spec_first_build_error(pairs.skip(1)),
        }
    }
}

/// The entry a successful build produces for one role and raw text: plain
/// text is baked into a concrete message at once, anything else is kept as
/// a deferred template; a placeholder slot keeps its defaults.
pub open spec fn spec_entry_shape(role: Role, text: Seq<char>, e: MessageLike) -> bool {
    match role {
        Role::Placeholder => e matches MessageLike::Placeholder(p) && p.spec_variable_name()
            == spec_extract_vars(text)[0] && !p.spec_optional() && p.spec_n_messages()
            == DEFAULT_PLACEHOLDER_LIMIT as int,
        Role::FewShotPrompt => false,
        _ => if spec_detected_format(text) is PlainText {
            e matches MessageLike::BaseMessage(m) && m.spec_role() == role && m.spec_content()
                == text
        } else {
            e matches MessageLike::RolePromptTemplate(r2, t) && r2 == role && t.wf()
                && t.spec_template() == text && t.spec_format() == spec_detected_format(text)
                && t.spec_vars() == spec_extract_vars(text) && t.spec_partials().spec_pairs()
                == Seq::<SpecPair>::empty()
        },
    }
}

/// The pair views of a build input.
pub open spec fn pair_views(pairs: Seq<(Role, String)>) -> Seq<(Role, Seq<char>)> {
    pairs.map_values(|p: (Role, String)| (p.0, p.1@))
}

impl ChatTemplate {
    /// Every entry is valid.
    pub open spec fn wf(&self) -> bool {
        forall|i: int| 0 <= i < self.messages@.len() ==> (#[trigger] self.messages@[i]).wf()
    }

    /// Builds a chat template from role-tagged raw text, entry by entry;
    /// the first invalid entry aborts the whole build.  A few-shot block
    /// arrives as a value through `from_entries`, never as raw text here.
    pub fn from_messages(messages: Vec<(Role, String)>) -> (r: Result<
        ChatTemplate,
        TemplateError,
    >)
        ensures
            r is Ok <==> spec_first_build_error(pair_views(messages@)) is None,
            r matches Err(e) ==> spec_first_build_error(pair_views(messages@)) == Some(e@),
            r matches Ok(ct) ==> {
                &&& ct.wf()
                &&& ct.messages@.len() == messages@.len()
                &&& forall|i: int|
                    0 <= i < messages@.len() ==> spec_entry_shape(
                        messages@[i].0,
                        messages@[i].1@,
                        #[trigger] ct.messages@[i],
                    )
            },
    {
        let ghost views = pair_views(messages@);
        let mut result: Vec<MessageLike> = Vec::new();
        let n = messages.len();
        let mut i: usize = 0;
        proof {
            assert(views.skip(0) =~= views);
        }
        while i < n
            invariant
                i <= n,
                n == messages@.len(),
                views == pair_views(messages@),
                result@.len() == i,
                spec_first_build_error(views) == spec_first_build_error(views.skip(i as int)),
                forall|j: int|
                    0 <= j < i ==> spec_entry_shape(
                        messages@[j].0,
                        messages@[j].1@,
                        #[trigger] result@[j],
                    ),
                forall|j: int| 0 <= j < i ==> (#[trigger] result@[j]).wf(),
            decreases n - i,
        {
            let ghost rest = views.skip(i as int);
            proof {
                assert(rest[0] == views[i as int]);
                assert(views[i as int] == (messages@[i as int].0, messages@[i as int].1@));
                assert(rest.skip(1) =~= views.skip(i as int + 1));
            }
            let role = messages[i].0;
            let text = messages[i].1.as_str();
            let ghost oldresult = result@;
            match role {
                Role::Placeholder => {
                    match MessagesPlaceholder::try_from(text) {
                        Ok(p) => {
                            result.push(MessageLike::placeholder(p));
                            proof {
                                assert(spec_entry_error(rest[0].0, rest[0].1) is None);
                                assert(spec_entry_shape(role, text@, result@[i as int]));
                            }
                        },
                        Err(e) => {
                            proof {
                                reveal_strlit(
                                    "Template must contain exactly one placeholder variable.",
                                );
                                assert(rest[0].0 == Role::Placeholder);
                                assert(rest[0].1 == text@);
                                assert(spec_extract_vars(text@).len() != 1);
                                assert(e@ == ErrView::Malformed(
                                    "Template must contain exactly one placeholder variable."@,
                                ));
                                assert(spec_entry_error(rest[0].0, rest[0].1) == Some(e@));
                                assert(spec_first_build_error(views) == Some(e@));
                            }
                            return Err(e);
                        },
                    }
                },
                Role::FewShotPrompt => {
                    proof {
                        assert(spec_entry_error(rest[0].0, rest[0].1) == Some(
                            ErrView::Malformed(text@),
                        ));
                    }
                    return Err(TemplateError::MalformedTemplate(text.to_owned()));
                },
                _ => {
                    let tmpl = match Template::from_template(text) {
                        Ok(t) => t,
                        Err(e) => {
                            proof {
                                reveal_strlit("Failed to register template: ");
                                assert(spec_entry_error(rest[0].0, rest[0].1) == Some(e@));
                                assert(spec_first_build_error(views) == Some(e@));
                            }
                            return Err(e);
                        },
                    };
                    if tmpl.template_format() == TemplateFormat::PlainText {
                        match role.to_message(text) {
                            Ok(m) => {
                                result.push(MessageLike::base_message(m));
                                proof {
                                    assert(spec_entry_error(rest[0].0, rest[0].1) is None);
                                    assert(spec_entry_shape(role, text@, result@[i as int]));
                                }
                            },
                            Err(_) => {
                                proof {
                                    assert(spec_entry_error(rest[0].0, rest[0].1) == Some(
                                        ErrView::InvalidRole,
                                    ));
                                }
                                return Err(TemplateError::InvalidRoleError);
                            },
                        }
                    } else {
                        result.push(MessageLike::role_prompt_template(role, tmpl));
                        proof {
                            assert(spec_entry_error(rest[0].0, rest[0].1) is None);
                            assert(spec_entry_shape(role, text@, result@[i as int]));
                        }
                    }
                },
            }
            proof {
                assert(spec_first_build_error(rest) == spec_first_build_error(rest.skip(1)));
                assert(forall|j: int| 0 <= j < i ==> result@[j] == oldresult[j]);
            }
            i += 1;
        }
        proof {
            assert(views.skip(n as int).len() == 0);
        }
        Ok(ChatTemplate { messages: result })
    }

    /// A chat template over entries already built as values.
    pub fn from_entries(entries: Vec<MessageLike>) -> (r: ChatTemplate)
        requires
            forall|i: int| 0 <= i < entries@.len() ==> (#[trigger] entries@[i]).wf(),
        ensures
            r.wf(),
            r.messages@ == entries@,
    {
        let ghost es = entries@;
        let r = ChatTemplate { messages: entries };
        proof {
            assert forall|i: int| 0 <= i < r.messages@.len() implies (
            #[trigger] r.messages@[i]).wf() by {
                assert(r.messages@[i] == es[i]);
            }
        }
        r
    }

    /// Concatenation: this template's entries followed by the other's.
    pub fn concat(self, other: ChatTemplate) -> (r: ChatTemplate)
        requires
            self.wf(),
            other.wf(),
        ensures
            r.wf(),
            r.messages@ == self.messages@ + other.messages@,
    {
        let ghost a = self.messages@;
        let ghost b = other.messages@;
        let mut left = self;
        let mut right = other;
        left.messages.append(&mut right.messages);
        proof {
            assert(left.messages@ =~= a + b);
            assert forall|i: int| 0 <= i < left.messages@.len() implies (
            #[trigger] left.messages@[i]).wf() by {
                if i < a.len() {
                    assert(left.messages@[i] == a[i]);
                } else {
                    assert(left.messages@[i] == b[i - a.len()]);
                }
            }
        }
        left
    }

    /// Resolves every entry in order and concatenates the messages; the
    /// first failure aborts the call.
    pub fn format_messages(&self, variables: &VarMap) -> (r: Result<Vec<Message>, TemplateError>)
        requires
            self.wf(),
            variables.wf(),
        ensures
            r matches Ok(msgs) ==> spec_format_messages(self.messages@, variables.spec_pairs())
                == Ok::<Seq<MsgView>, ErrView>(msgs_view(msgs@)) && forall|i: int|
                0 <= i < msgs@.len() ==> (#[trigger] msgs@[i]).wf(),
            r matches Err(e) ==> spec_format_messages(self.messages@, variables.spec_pairs())
                == Err::<Seq<MsgView>, ErrView>(e@),
    {
        let ghost rt = variables.spec_pairs();
        let mut results: Vec<Message> = Vec::new();
        let n = self.messages.len();
        let mut i: usize = 0;
        proof {
            assert(self.messages@.skip(0) =~= self.messages@);
        }
        while i < n
            invariant
                i <= n,
                n == self.messages@.len(),
                self.wf(),
                variables.wf(),
                rt == variables.spec_pairs(),
                forall|j: int| 0 <= j < results@.len() ==> (#[trigger] results@[j]).wf(),
                spec_format_messages(self.messages@, rt) matches Ok(all) ==> {
                    &&& spec_format_messages(self.messages@.skip(i as int), rt) is Ok
                    &&& all =~= msgs_view(results@) + spec_format_messages(
                        self.messages@.skip(i as int),
                        rt,
                    )->Ok_0
                },
                spec_format_messages(self.messages@, rt) is Err ==> spec_format_messages(
                    self.messages@.skip(i as int),
                    rt,
                ) == spec_format_messages(self.messages@, rt),
            decreases n - i,
        {
            let ghost entries_rest = self.messages@.skip(i as int);
            proof {
                assert(entries_rest[0] == self.messages@[i as int]);
                assert(entries_rest.skip(1) =~= self.messages@.skip(i as int + 1));
                assert(self.messages@[i as int].wf());
            }
            let ghost oldview = msgs_view(results@);
            let entry_result = self.resolve_entry(i, variables);
            match entry_result {
                Ok(mut part) => {
                    proof {
                        assert(spec_resolve_entry(self.messages@[i as int], rt) == Ok::<
                            Seq<MsgView>,
                            ErrView,
                        >(msgs_view(part@)));
                        if spec_format_messages(self.messages@, rt) is Ok {
                            let tail = spec_format_messages(entries_rest.skip(1), rt)->Ok_0;
                            assert(spec_format_messages(entries_rest, rt)->Ok_0 =~= msgs_view(
                                part@,
                            ) + tail);
                        }
                    }
                    let ghost partview = msgs_view(part@);
                    let ghost partsnap = part@;
                    let ghost oldres = results@;
                    results.append(&mut part);
                    proof {
                        assert(results@ =~= oldres + partsnap);
                        assert(msgs_view(results@) =~= oldview + partview);
                        if spec_format_messages(self.messages@, rt) is Ok {
                            let tail = spec_format_messages(entries_rest.skip(1), rt)->Ok_0;
                            assert(msgs_view(results@) + tail =~= oldview + (partview + tail));
                        }
                    }
                },
                Err(e) => {
                    proof {
                        assert(spec_format_messages(entries_rest, rt) == Err::<
                            Seq<MsgView>,
                            ErrView,
                        >(e@));
                        if spec_format_messages(self.messages@, rt) is Ok {
                            assert(spec_format_messages(entries_rest, rt) is Ok);
                        }
                    }
                    return Err(e);
                },
            }
            i += 1;
        }
        proof {
            assert(self.messages@.skip(n as int).len() == 0);
            assert(spec_format_messages(self.messages@.skip(n as int), rt) == Ok::<
                Seq<MsgView>,
                ErrView,
            >(Seq::empty()));
            if spec_format_messages(self.messages@, rt) is Ok {
                let all = spec_format_messages(self.messages@, rt)->Ok_0;
                assert(all =~= msgs_view(results@) + Seq::<MsgView>::empty());
                assert(all =~= msgs_view(results@));
            }
        }
        Ok(results)
    }

    /// Resolves the entry at one index.
    fn resolve_entry(&self, i: usize, variables: &VarMap) -> (r: Result<
        Vec<Message>,
        TemplateError,
    >)
        requires
            self.wf(),
            variables.wf(),
            i < self.messages@.len(),
        ensures
            r matches Ok(msgs) ==> spec_resolve_entry(self.messages@[i as int], variables.spec_pairs())
                == Ok::<Seq<MsgView>, ErrView>(msgs_view(msgs@)) && forall|j: int|
                0 <= j < msgs@.len() ==> (#[trigger] msgs@[j]).wf(),
            r matches Err(e) ==> spec_resolve_entry(self.messages@[i as int], variables.spec_pairs())
                == Err::<Seq<MsgView>, ErrView>(e@),
    {
        let ghost rt = variables.spec_pairs();
        proof {
            assert(self.messages@[i as int].wf());
        }
        match &self.messages[i] {
            MessageLike::BaseMessage(m) => {
                let copy = match Message::new(m.role(), m.content()) {
                    Ok(c) => c,
                    Err(_) => {
                        proof {
                            assert(false);
                        }
                        return Err(TemplateError::InvalidRoleError);
                    },
                };
                let mut out: Vec<Message> = Vec::new();
                out.push(copy);
                proof {
                    assert(msgs_view(out@) =~= seq![(m.spec_role(), m.spec_content())]);
                }
                Ok(out)
            },
            MessageLike::RolePromptTemplate(role, template) => {
                let formatted = match template.format(variables) {
                    Ok(s) => s,
                    Err(e) => {
                        return Err(e);
                    },
                };
                match role.to_message(formatted.as_str()) {
                    Ok(m) => {
                        let mut out: Vec<Message> = Vec::new();
                        out.push(m);
                        proof {
                            assert(msgs_view(out@) =~= seq![(*role, formatted@)]);
                        }
                        Ok(out)
                    },
                    Err(_) => Err(TemplateError::InvalidRoleError),
                }
            },
            MessageLike::Placeholder(p) => {
                proof {
                    lemma_get_from_pairs(variables, p.spec_variable_name());
                }
                match variables.get(p.variable_name()) {
                    None => {
                        if p.optional() {
                            let out: Vec<Message> = Vec::new();
                            proof {
                                assert(msgs_view(out@) =~= Seq::<MsgView>::empty());
                            }
                            Ok(out)
                        } else {
                            Err(TemplateError::MissingVariable(p.variable_name().to_owned()))
                        }
                    },
                    Some(value) => {
                        match decode_history(value.as_str()) {
                            Ok(items) => {
                                let limited = self.history_messages(items, p.n_messages());
                                proof {
                                    assert(spec_resolve_entry(self.messages@[i as int], rt) == Ok::<
                                        Seq<MsgView>,
                                        ErrView,
                                    >(msgs_view(limited@)));
                                }
                                Ok(limited)
                            },
                            Err(m) => {
                                let full = String::from_str(
                                    "Failed to deserialize placeholder: ",
                                ).concat(m.as_str());
                                proof {
                                    reveal_strlit("Failed to deserialize placeholder: ");
                                }
                                Err(TemplateError::MalformedTemplate(full))
                            },
                        }
                    },
                }
            },
            MessageLike::FewShotPrompt(f) => {
                let text = match f.format_examples() {
                    Ok(s) => s,
                    Err(e) => {
                        return Err(e);
                    },
                };
                match parse_role_lines(text.as_str()) {
                    Ok(items) => {
                        let msgs = self.wire_messages(&items);
                        proof {
                            assert(msgs_view(msgs@) =~= spec_line_msgs(
                                items@.map_values(|p: (String, String)| (p.0@, p.1@)),
                            ));
                        }
                        Ok(msgs)
                    },
                    Err(m) => {
                        let full = String::from_str("Failed to parse message: ").concat(
                            m.as_str(),
                        );
                        proof {
                            reveal_strlit("Failed to parse message: ");
                        }
                        Err(TemplateError::MalformedTemplate(full))
                    },
                }
            },
        }
    }

    /// Decoded history items as messages, truncated to the slot's limit.
    fn history_messages(&self, items: Vec<(String, String)>, limit: usize) -> (r: Vec<Message>)
        requires
            forall|j: int| 0 <= j < items@.len() ==> is_wire_role(#[trigger] items@[j].0@),
        ensures
            msgs_view(r@) =~= spec_history_msgs(
                items@.map_values(|p: (String, String)| (p.0@, p.1@)),
                limit as int,
            ),
            forall|j: int| 0 <= j < r@.len() ==> (#[trigger] r@[j]).wf(),
    {
        let ghost views = items@.map_values(|p: (String, String)| (p.0@, p.1@));
        let count = if items.len() <= limit {
            items.len()
        } else {
            limit
        };
        let mut out: Vec<Message> = Vec::new();
        let mut j: usize = 0;
        proof {
            let kept = if views.len() <= limit as int {
                views
            } else {
                views.take(limit as int)
            };
            assert(kept.len() == count);
        }
        while j < count
            invariant
                j <= count,
                count <= items@.len(),
                count == if items@.len() <= limit as int {
                    items@.len() as int
                } else {
                    limit as int
                },
                views == items@.map_values(|p: (String, String)| (p.0@, p.1@)),
                forall|k: int| 0 <= k < items@.len() ==> is_wire_role(#[trigger] items@[k].0@),
                out@.len() == j,
                forall|k: int| 0 <= k < j ==> (#[trigger] out@[k]).wf(),
                forall|k: int|
                    0 <= k < j ==> #[trigger] msgs_view(out@)[k] == (
                        spec_parse_role(views[k].0)->Some_0,
                        views[k].1,
                    ),
            decreases count - j,
        {
            let ghost oldout = out@;
            let m = self.wire_message(&items[j]);
            out.push(m);
            proof {
                assert(views[j as int] == (items@[j as int].0@, items@[j as int].1@));
                assert forall|k: int| 0 <= k < j + 1 implies #[trigger] msgs_view(out@)[k] == (
                    spec_parse_role(views[k].0)->Some_0,
                    views[k].1,
                ) by {
                    if k < j {
                        assert(out@[k] == oldout[k]);
                        assert(msgs_view(oldout)[k] == (
                            spec_parse_role(views[k].0)->Some_0,
                            views[k].1,
                        ));
                    } else {
                        assert(out@[k] == m);
                    }
                }
            }
            j += 1;
        }
        proof {
            let kept = if views.len() <= limit as int {
                views
            } else {
                views.take(limit as int)
            };
            assert(msgs_view(out@) =~= spec_history_msgs(views, limit as int));
        }
        out
    }

    /// Every parsed line as a message.
    fn wire_messages(&self, items: &Vec<(String, String)>) -> (r: Vec<Message>)
        requires
            forall|j: int| 0 <= j < items@.len() ==> is_wire_role(#[trigger] items@[j].0@),
        ensures
            msgs_view(r@) =~= spec_line_msgs(
                items@.map_values(|p: (String, String)| (p.0@, p.1@)),
            ),
            forall|j: int| 0 <= j < r@.len() ==> (#[trigger] r@[j]).wf(),
    {
        let ghost views = items@.map_values(|p: (String, String)| (p.0@, p.1@));
        let mut out: Vec<Message> = Vec::new();
        let mut j: usize = 0;
        while j < items.len()
            invariant
                j <= items@.len(),
                views == items@.map_values(|p: (String, String)| (p.0@, p.1@)),
                forall|k: int| 0 <= k < items@.len() ==> is_wire_role(#[trigger] items@[k].0@),
                out@.len() == j,
                forall|k: int| 0 <= k < j ==> (#[trigger] out@[k]).wf(),
                forall|k: int|
                    0 <= k < j ==> #[trigger] msgs_view(out@)[k] == (
                        spec_parse_role(views[k].0)->Some_0,
                        views[k].1,
                    ),
            decreases items@.len() - j,
        {
            let ghost oldout = out@;
            let m = self.wire_message(&items[j]);
            out.push(m);
            proof {
                assert(views[j as int] == (items@[j as int].0@, items@[j as int].1@));
                assert forall|k: int| 0 <= k < j + 1 implies #[trigger] msgs_view(out@)[k] == (
                    spec_parse_role(views[k].0)->Some_0,
                    views[k].1,
                ) by {
                    if k < j {
                        assert(out@[k] == oldout[k]);
                        assert(msgs_view(oldout)[k] == (
                            spec_parse_role(views[k].0)->Some_0,
                            views[k].1,
                        ));
                    } else {
                        assert(out@[k] == m);
                    }
                }
            }
            j += 1;
        }
        proof {
            assert(msgs_view(out@) =~= spec_line_msgs(views));
        }
        out
    }

    /// One decoded (role name, content) pair as a message.
    fn wire_message(&self, item: &(String, String)) -> (r: Message)
        requires
            is_wire_role(item.0@),
        ensures
            r.wf(),
            r.spec_role() == spec_parse_role(item.0@)->Some_0,
            r.spec_content() == item.1@,
    {
        let role = match Role::try_from(item.0.as_str()) {
            Ok(role) => role,
            Err(_) => {
                proof {
                    assert(spec_parse_role(item.0@) is Some) by {
                        reveal_strlit("system");
                        reveal_strlit("human");
                        reveal_strlit("ai");
                        reveal_strlit("tool");
                    }
                    assert(false);
                }
                Role::Human
            },
        };
        proof {
            assert(is_message_role(spec_parse_role(item.0@)->Some_0)) by {
                reveal_strlit("system");
                reveal_strlit("human");
                reveal_strlit("ai");
                reveal_strlit("tool");
                reveal_strlit("placeholder");
                reveal_strlit("fewshotprompt");
            }
        }
        match Message::new(role, item.1.as_str()) {
            Ok(m) => m,
            Err(_) => {
                proof {
                    assert(false);
                }
                Message::new(Role::Human, item.1.as_str()).unwrap()
            },
        }
    }

    /// Resolution, under the name callers commonly use.
    pub fn invoke(&self, variables: &VarMap) -> (r: Result<Vec<Message>, TemplateError>)
        requires
            self.wf(),
            variables.wf(),
        ensures
            r matches Ok(msgs) ==> spec_format_messages(self.messages@, variables.spec_pairs())
                == Ok::<Seq<MsgView>, ErrView>(msgs_view(msgs@)),
            r matches Err(e) ==> spec_format_messages(self.messages@, variables.spec_pairs())
                == Err::<Seq<MsgView>, ErrView>(e@),
    {
        self.format_messages(variables)
    }

    /// Resolves the entries and joins the messages into one role-prefixed
    /// text, one line per message.
    pub fn format(&self, variables: &VarMap) -> (r: Result<String, TemplateError>)
        requires
            self.wf(),
            variables.wf(),
        ensures
            r matches Ok(s) ==> spec_format_messages(self.messages@, variables.spec_pairs())
                matches Ok(m) && s@ == spec_render_chat(m),
            r matches Err(e) ==> spec_format_messages(self.messages@, variables.spec_pairs())
                == Err::<Seq<MsgView>, ErrView>(e@),
    {
        let msgs = match self.format_messages(variables) {
            Ok(m) => m,
            Err(e) => {
                return Err(e);
            },
        };
        let ghost mv = msgs_view(msgs@);
        let mut acc: Vec<char> = Vec::new();
        let ghost lines = mv.map_values(|p: MsgView| spec_role_prefix(p.0) + p.1);
        let mut j: usize = 0;
        proof {
            assert(lines.take(0) =~= Seq::<Seq<char>>::empty());
        }
        while j < msgs.len()
            invariant
                j <= msgs@.len(),
                mv == msgs_view(msgs@),
                lines == mv.map_values(|p: MsgView| spec_role_prefix(p.0) + p.1),
                acc@ == spec_join(lines.take(j as int), seq!['\n']),
            decreases msgs@.len() - j,
        {
            if j > 0 {
                acc.push('\n');
                proof {
                    assert(acc@ =~= spec_join(lines.take(j as int), seq!['\n']) + seq!['\n']);
                }
            }
            let prefix = match msgs[j].role() {
                Role::Human => "human: ",
                Role::Ai => "ai: ",
                Role::System => "system: ",
                _ => "",
            };
            extend_chars(&mut acc, prefix);
            extend_chars(&mut acc, msgs[j].content());
            proof {
                assert(prefix@ == spec_role_prefix(msgs@[j as int].spec_role())) by {
                    if !(msgs@[j as int].spec_role() is Human || msgs@[j as int].spec_role()
                        is Ai || msgs@[j as int].spec_role() is System) {
                        reveal_strlit("");
                    }
                }
                assert(lines[j as int] == spec_role_prefix(mv[j as int].0) + mv[j as int].1);
                assert(mv[j as int] == (msgs@[j as int].spec_role(), msgs@[j as int].spec_content()));
                assert(lines.take(j as int).push(lines[j as int]) =~= lines.take(j as int + 1));
                crate::text::lemma_join_snoc(lines.take(j as int), lines[j as int], seq!['\n']);
                assert(acc@ =~= spec_join(lines.take(j as int + 1), seq!['\n']));
            }
            j += 1;
        }
        proof {
            assert(lines.take(msgs@.len() as int) =~= lines);
        }
        Ok(chars_string(&acc))
    }

    /// The variable-to-role schema: each deferred template's first declared
    /// variable, and each concrete message's first extracted variable,
    /// mapped to the entry's role name; later entries overwrite earlier
    /// ones.  An entry declaring several variables records only its first.
    pub fn to_variables_map(&self) -> (r: VarMap)
        ensures
            r.wf(),
            r.spec_pairs() == spec_vars_map(self.messages@),
    {
        let mut r = VarMap::new();
        let n = self.messages.len();
        let mut i: usize = 0;
        proof {
            assert(self.messages@.skip(0) =~= self.messages@);
            assert(r.spec_pairs() =~= Seq::<SpecPair>::empty());
        }
        while i < n
            invariant
                i <= n,
                n == self.messages@.len(),
                r.wf(),
                spec_vars_map(self.messages@) == spec_vars_map_from(
                    self.messages@.skip(i as int),
                    r.spec_pairs(),
                ),
            decreases n - i,
        {
            let ghost rest = self.messages@.skip(i as int);
            proof {
                assert(rest[0] == self.messages@[i as int]);
                assert(rest.skip(1) =~= self.messages@.skip(i as int + 1));
            }
            match &self.messages[i] {
                MessageLike::RolePromptTemplate(role, template) => {
                    match template.first_var() {
                        Some(v) => {
                            let name = role.as_str();
                            r.insert(v.as_str(), name);
                        },
                        None => {},
                    }
                },
                MessageLike::BaseMessage(m) => {
                    let vars = crate::placeholder::extract_variables(m.content());
                    if vars.len() > 0 {
                        proof {
                            assert(crate::placeholder::views_of(vars@)[0] == vars@[0]@);
                        }
                        let role = m.role();
                        let name = role.as_str();
                        r.insert(vars[0].as_str(), name);
                    }
                },
                _ => {},
            }
            i += 1;
        }
        proof {
            assert(self.messages@.skip(n as int).len() == 0);
        }
        r
    }
}

} // verus!
