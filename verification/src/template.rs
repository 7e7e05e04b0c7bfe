//! The template value: a raw string with its detected format, its declared
//! variables and its default bindings, and the substitution method.
use vstd::prelude::*;

use crate::engine::{mustache_compile, mustache_render, spec_mustache_compile, spec_mustache_render};
use crate::placeholder::{extract_variables, spec_extract_vars, views_of};
use crate::subst::{pat_of, replace_all_chars, spec_replace_all};
use crate::template_format::{
    detect_template, spec_classifiable, spec_detected_format, spec_is_valid, validate_template,
    ErrView, TemplateError, TemplateFormat,
};
use crate::text::{chars_string, str_chars};
use crate::vars::{assoc_pairs, lemma_get_from_pairs, merge_vars, spec_merge, SpecPair, VarMap};
use vstd::string::StringExecFns;

verus! {

/// An immutable template: raw text, detected format, declared variables in
/// first-occurrence order, and default ("partial") bindings.
#[derive(Debug, Clone)]
pub struct Template {
    template: String,
    template_format: TemplateFormat,
    input_variables: Vec<String>,
    partials: VarMap,
}

/// A valid template's declared variables are identifiers.
pub proof fn lemma_wf_vars_identifiers(t: &Template)
    requires
        t.wf(),
    ensures
        forall|i: int|
            0 <= i < t.spec_vars().len() ==> crate::placeholder::spec_is_identifier(
                #[trigger] t.spec_vars()[i],
            ),
{
    crate::placeholder::lemma_extract_vars_idents(t.spec_template());
}

/// Sequential whole-string substitution: each variable's pattern replaced
/// by its binding, in declaration order.
pub open spec fn spec_subst(
    cur: Seq<char>,
    vars: Seq<Seq<char>>,
    mp: Map<Seq<char>, Seq<char>>,
) -> Seq<char>
    decreases vars.len(),
{
    if vars.len() == 0 {
        cur
    } else {
        spec_subst(spec_replace_all(cur, pat_of(vars[0]), mp[vars[0]]), vars.skip(1), mp)
    }
}

impl Template {
    pub closed spec fn spec_template(&self) -> Seq<char> {
        self.template@
    }

    pub closed spec fn spec_format(&self) -> TemplateFormat {
        self.template_format
    }

    pub closed spec fn spec_vars(&self) -> Seq<Seq<char>> {
        views_of(self.input_variables@)
    }

    pub closed spec fn spec_partials(&self) -> &VarMap {
        &self.partials
    }

    /// Validity: the text classified cleanly, the format and variables are
    /// the ones detection and extraction give, and a Mustache template
    /// compiled against the engine.
    pub closed spec fn wf(&self) -> bool {
        &&& spec_is_valid(self.template@)
        &&& spec_classifiable(self.template@)
        &&& self.template_format == spec_detected_format(self.template@)
        &&& self.spec_vars() == spec_extract_vars(self.template@)
        &&& self.partials.wf()
        &&& self.template_format is Mustache ==> spec_mustache_compile(self.template@) is None
    }

    /// The binding a format call would use for `k`: the runtime value wins
    /// over the default.
    pub open spec fn spec_lookup(&self, runtime: Seq<SpecPair>, k: Seq<char>) -> Option<
        Seq<char>,
    > {
        if assoc_pairs(runtime, k) is Some {
            assoc_pairs(runtime, k)
        } else {
            assoc_pairs(self.spec_partials().spec_pairs(), k)
        }
    }

    /// The merged bindings as a map.
    pub open spec fn spec_lookup_map(&self, runtime: Seq<SpecPair>) -> Map<Seq<char>, Seq<char>> {
        Map::new(
            |k: Seq<char>| self.spec_lookup(runtime, k) is Some,
            |k: Seq<char>| self.spec_lookup(runtime, k)->Some_0,
        )
    }

    /// The first declared variable, in declaration order, that the merged
    /// bindings do not cover.
    pub open spec fn spec_first_missing_from(
        &self,
        runtime: Seq<SpecPair>,
        vars: Seq<Seq<char>>,
    ) -> Option<Seq<char>>
        decreases vars.len(),
    {
        if vars.len() == 0 {
            None
        } else if self.spec_lookup(runtime, vars[0]) is None {
            Some(vars[0])
        } else {
            self.spec_first_missing_from(runtime, vars.skip(1))
        }
    }

    pub open spec fn spec_first_missing(&self, runtime: Seq<SpecPair>) -> Option<Seq<char>> {
        self.spec_first_missing_from(runtime, self.spec_vars())
    }

    /// What formatting returns, for every input: the first missing declared
    /// variable fails the call; otherwise plain text passes through, the
    /// single-brace format substitutes sequentially, and Mustache defers to
    /// the engine.
    pub open spec fn spec_format_result(&self, runtime: Seq<SpecPair>) -> Result<
        Seq<char>,
        ErrView,
    > {
        match self.spec_first_missing(runtime) {
            Some(v) => Err(ErrView::Missing(v)),
            None => match self.spec_format() {
                TemplateFormat::PlainText => Ok(self.spec_template()),
                TemplateFormat::FmtString => Ok(
                    spec_subst(self.spec_template(), self.spec_vars(), self.spec_lookup_map(runtime)),
                ),
                TemplateFormat::Mustache => match spec_mustache_render(
                    self.spec_template(),
                    spec_merge(self.spec_partials().spec_pairs(), runtime),
                ) {
                    Ok(s) => Ok(s),
                    Err(e) => Err(ErrView::Render(e)),
                },
            },
        }
    }

    /// Validates, classifies and prepares a template; a Mustache template
    /// is compiled eagerly so malformed engine syntax fails fast.
    pub fn new(tmpl: &str) -> (r: Result<Template, TemplateError>)
        ensures
            r is Ok <==> spec_is_valid(tmpl@) && spec_classifiable(tmpl@) && (spec_detected_format(
                tmpl@,
            ) is Mustache ==> spec_mustache_compile(tmpl@) is None),
            r matches Ok(t) ==> {
                &&& t.wf()
                &&& t.spec_template() == tmpl@
                &&& t.spec_format() == spec_detected_format(tmpl@)
                &&& t.spec_vars() == spec_extract_vars(tmpl@)
                &&& t.spec_partials().spec_pairs() == Seq::<(Seq<char>, Seq<char>)>::empty()
            },
            r matches Err(e) ==> e@ == if !spec_is_valid(tmpl@) {
                ErrView::Malformed(tmpl@)
            } else if !spec_classifiable(tmpl@) {
                ErrView::Unsupported(tmpl@)
            } else {
                ErrView::Malformed(
                    "Failed to register template: "@ + spec_mustache_compile(tmpl@)->Some_0,
                )
            },
    {
        if let Err(e) = validate_template(tmpl) {
            return Err(e);
        }
        let template_format = match detect_template(tmpl) {
            Ok(f) => f,
            Err(e) => {
                return Err(e);
            },
        };
        if let TemplateFormat::Mustache = template_format {
            if let Some(msg) = mustache_compile(tmpl) {
                let full = String::from_str("Failed to register template: ").concat(msg.as_str());
                return Err(TemplateError::MalformedTemplate(full));
            }
        }
        let input_variables = extract_variables(tmpl);
        Ok(
            Template {
                template: tmpl.to_owned(),
                template_format,
                input_variables,
                partials: VarMap::new(),
            },
        )
    }

    /// Alias of `new`, kept for API parity.
    pub fn from_template(tmpl: &str) -> (r: Result<Template, TemplateError>)
        ensures
            r is Ok <==> spec_is_valid(tmpl@) && spec_classifiable(tmpl@) && (spec_detected_format(
                tmpl@,
            ) is Mustache ==> spec_mustache_compile(tmpl@) is None),
            r matches Ok(t) ==> {
                &&& t.wf()
                &&& t.spec_template() == tmpl@
                &&& t.spec_format() == spec_detected_format(tmpl@)
                &&& t.spec_vars() == spec_extract_vars(tmpl@)
                &&& t.spec_partials().spec_pairs() == Seq::<(Seq<char>, Seq<char>)>::empty()
            },
            r matches Err(e) ==> e@ == if !spec_is_valid(tmpl@) {
                ErrView::Malformed(tmpl@)
            } else if !spec_classifiable(tmpl@) {
                ErrView::Unsupported(tmpl@)
            } else {
                ErrView::Malformed(
                    "Failed to register template: "@ + spec_mustache_compile(tmpl@)->Some_0,
                )
            },
    {
        Self::new(tmpl)
    }

    /// Construction from an owned string.
    pub fn try_from(value: String) -> (r: Result<Template, TemplateError>)
        ensures
            r is Ok <==> spec_is_valid(value@) && spec_classifiable(value@) && (
            spec_detected_format(value@) is Mustache ==> spec_mustache_compile(value@) is None),
            r matches Ok(t) ==> {
                &&& t.wf()
                &&& t.spec_template() == value@
                &&& t.spec_format() == spec_detected_format(value@)
                &&& t.spec_vars() == spec_extract_vars(value@)
            },
            r matches Err(e) ==> e@ == if !spec_is_valid(value@) {
                ErrView::Malformed(value@)
            } else if !spec_classifiable(value@) {
                ErrView::Unsupported(value@)
            } else {
                ErrView::Malformed(
                    "Failed to register template: "@ + spec_mustache_compile(value@)->Some_0,
                )
            },
    {
        Self::new(value.as_str())
    }

    /// Binds a default value for a variable; later format calls may still
    /// override it.
    pub fn partial(&mut self, var: &str, value: &str)
        requires
            old(self).wf(),
        ensures
            final(self).wf(),
            final(self).spec_template() == old(self).spec_template(),
            final(self).spec_format() == old(self).spec_format(),
            final(self).spec_vars() == old(self).spec_vars(),
            final(self).spec_partials().spec_pairs() =~= crate::vars::spec_insert(
                old(self).spec_partials().spec_pairs(),
                var@,
                value@,
            ),
            final(self).spec_partials().spec_get(var@) == Some(value@),
            forall|k: Seq<char>|
                k != var@ ==> #[trigger] final(self).spec_partials().spec_get(k) == old(
                    self,
                ).spec_partials().spec_get(k),
    {
        self.partials.insert(var, value);
    }

    /// Removes every default binding.
    pub fn clear_partials(&mut self)
        requires
            old(self).wf(),
        ensures
            final(self).wf(),
            final(self).spec_template() == old(self).spec_template(),
            final(self).spec_format() == old(self).spec_format(),
            final(self).spec_vars() == old(self).spec_vars(),
            final(self).spec_partials().spec_pairs() == Seq::<(Seq<char>, Seq<char>)>::empty(),
            forall|k: Seq<char>| final(self).spec_partials().spec_get(k) is None,
    {
        self.partials = VarMap::new();
    }

    /// The default bindings currently held.
    pub fn partial_vars(&self) -> (r: &VarMap)
        ensures
            r == self.spec_partials(),
    {
        &self.partials
    }

    pub fn template(&self) -> (r: &str)
        ensures
            r@ == self.spec_template(),
    {
        self.template.as_str()
    }

    pub fn template_format(&self) -> (r: TemplateFormat)
        ensures
            r == self.spec_format(),
    {
        self.template_format
    }

    /// The first declared variable, if the template declares any.
    pub fn first_var(&self) -> (r: Option<&String>)
        ensures
            match r {
                Some(v) => self.spec_vars().len() > 0 && v@ == self.spec_vars()[0],
                None => self.spec_vars().len() == 0,
            },
    {
        if self.input_variables.len() > 0 {
            proof {
                assert(views_of(self.input_variables@)[0] == self.input_variables@[0]@);
            }
            Some(&self.input_variables[0])
        } else {
            None
        }
    }

    pub fn input_variables(&self) -> (r: Vec<String>)
        ensures
            views_of(r@) == self.spec_vars(),
    {
        let out = self.input_variables.clone();
        proof {
            assert forall|i: int| 0 <= i < out@.len() implies views_of(out@)[i] == views_of(
                self.input_variables@,
            )[i] by {
                assert(vstd::pervasive::cloned::<String>(self.input_variables@[i], out@[i]));
            }
            assert(views_of(out@) =~= views_of(self.input_variables@));
        }
        out
    }

    /// Substitutes the merged bindings into the template.  Fails with the
    /// first declared variable the bindings do not cover, or with the
    /// engine's render error for a Mustache template.
    pub fn format(&self, variables: &VarMap) -> (r: Result<String, TemplateError>)
        requires
            self.wf(),
            variables.wf(),
        ensures
            r matches Ok(s) ==> self.spec_format_result(variables.spec_pairs()) == Ok::<
                Seq<char>,
                ErrView,
            >(s@),
            r matches Err(e) ==> self.spec_format_result(variables.spec_pairs()) == Err::<
                Seq<char>,
                ErrView,
            >(e@),
    {
        let merged = merge_vars(&self.partials, variables);
        let ghost rt = variables.spec_pairs();
        proof {
            assert forall|k: Seq<char>| true implies #[trigger] merged.spec_get(k) == self
                .spec_lookup(rt, k) by {
                lemma_get_from_pairs(variables, k);
                lemma_get_from_pairs(&self.partials, k);
            }
        }
        let n = self.input_variables.len();
        let mut i: usize = 0;
        proof {
            assert(self.spec_vars().skip(0) =~= self.spec_vars());
        }
        while i < n
            invariant
                i <= n,
                n == self.input_variables@.len(),
                self.wf(),
                merged.wf(),
                rt == variables.spec_pairs(),
                forall|k: Seq<char>| #[trigger] merged.spec_get(k) == self.spec_lookup(rt, k),
                self.spec_first_missing_from(rt, self.spec_vars()) == self.spec_first_missing_from(
                    rt,
                    self.spec_vars().skip(i as int),
                ),
            decreases n - i,
        {
            let ghost rest = self.spec_vars().skip(i as int);
            proof {
                assert(rest[0] == self.spec_vars()[i as int]);
                assert(self.spec_vars()[i as int] == self.input_variables@[i as int]@);
                assert(rest.skip(1) =~= self.spec_vars().skip(i as int + 1));
            }
            if !merged.contains_key(self.input_variables[i].as_str()) {
                proof {
                    assert(self.spec_lookup(rt, rest[0]) is None);
                    assert(self.spec_first_missing_from(rt, rest) == Some(rest[0]));
                }
                return Err(TemplateError::MissingVariable(self.input_variables[i].clone()));
            }
            proof {
                assert(self.spec_lookup(rt, rest[0]) is Some);
                assert(self.spec_first_missing_from(rt, rest) == self.spec_first_missing_from(
                    rt,
                    rest.skip(1),
                ));
            }
            i += 1;
        }
        proof {
            assert(self.spec_vars().skip(n as int).len() == 0);
            assert(self.spec_first_missing(rt) is None);
        }
        match self.template_format {
            TemplateFormat::PlainText => Ok(self.template.clone()),
            TemplateFormat::FmtString => Ok(self.format_fmtstring(variables, &merged)),
            TemplateFormat::Mustache => match mustache_render(self.template.as_str(), &merged) {
                Ok(s) => Ok(s),
                Err(m) => Err(TemplateError::RenderError(m)),
            },
        }
    }

    /// Sequential whole-string substitution, in declaration order.  A value
    /// containing another declared placeholder's text is substituted again
    /// on a later round.
    fn format_fmtstring(&self, variables: &VarMap, merged: &VarMap) -> (r: String)
        requires
            self.wf(),
            forall|k: Seq<char>|
                #[trigger] merged.spec_get(k) == self.spec_lookup(variables.spec_pairs(), k),
            self.spec_first_missing(variables.spec_pairs()) is None,
        ensures
            r@ == spec_subst(
                self.spec_template(),
                self.spec_vars(),
                self.spec_lookup_map(variables.spec_pairs()),
            ),
    {
        let ghost rt = variables.spec_pairs();
        let ghost mp = self.spec_lookup_map(rt);
        let mut cur = str_chars(self.template.as_str());
        let n = self.input_variables.len();
        let mut i: usize = 0;
        proof {
            assert(self.spec_vars().skip(0) =~= self.spec_vars());
        }
        while i < n
            invariant
                i <= n,
                n == self.input_variables@.len(),
                self.wf(),
                rt == variables.spec_pairs(),
                mp == self.spec_lookup_map(rt),
                forall|k: Seq<char>| #[trigger] merged.spec_get(k) == self.spec_lookup(rt, k),
                self.spec_first_missing_from(rt, self.spec_vars().skip(i as int)) is None,
                spec_subst(self.spec_template(), self.spec_vars(), mp) == spec_subst(
                    cur@,
                    self.spec_vars().skip(i as int),
                    mp,
                ),
            decreases n - i,
        {
            let ghost rest = self.spec_vars().skip(i as int);
            proof {
                assert(rest[0] == self.spec_vars()[i as int]);
                assert(self.spec_vars()[i as int] == self.input_variables@[i as int]@);
                assert(rest.skip(1) =~= self.spec_vars().skip(i as int + 1));
            }
            let var = &self.input_variables[i];
            let vchars = str_chars(var.as_str());
            let mut pattern: Vec<char> = Vec::new();
            pattern.push('{');
            proof {
                assert(pattern@ =~= seq!['{'] + vchars@.take(0));
            }
            let mut j: usize = 0;
            while j < vchars.len()
                invariant
                    j <= vchars@.len(),
                    pattern@ == seq!['{'] + vchars@.take(j as int),
                decreases vchars.len() - j,
            {
                pattern.push(vchars[j]);
                proof {
                    assert(pattern@ =~= seq!['{'] + vchars@.take(j as int + 1));
                }
                j += 1;
            }
            pattern.push('}');
            proof {
                assert(vchars@.take(vchars@.len() as int) =~= vchars@);
                assert(pattern@ =~= pat_of(var@));
            }
            let value = match merged.get(var.as_str()) {
                Some(v) => v.clone(),
                None => {
                    proof {
                        assert(false);
                    }
                    String::new()
                },
            };
            let rep = str_chars(value.as_str());
            proof {
                assert(mp.dom().contains(var@));
                assert(rep@ == mp[var@]);
                assert(pat_of(var@).len() >= 1);
            }
            let next = replace_all_chars(&cur, &pattern, &rep);
            cur = next;
            i += 1;
        }
        proof {
            assert(self.spec_vars().skip(n as int).len() == 0);
        }
        chars_string(&cur)
    }
}

} // verus!
