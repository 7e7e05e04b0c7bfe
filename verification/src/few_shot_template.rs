//! Few-shot blocks: a separator-joined run of example templates with an
//! optional prefix and suffix.
use vstd::prelude::*;

use crate::template::Template;
use crate::template_format::{ErrView, TemplateError};
use crate::text::{chars_string, extend_chars, lemma_join_snoc, spec_join};
use crate::vars::{SpecPair, VarMap};

verus! {

/// A block of example templates, joined by a separator and optionally
/// framed by a prefix and a suffix template.
#[derive(Debug, Clone)]
pub struct FewShotTemplate {
    examples: Vec<Template>,
    example_separator: String,
    prefix: Option<Template>,
    suffix: Option<Template>,
}

/// The default separator between rendered segments.
pub const DEFAULT_EXAMPLE_SEPARATOR: &'static str = "\n\n";

/// Formatting every example in order; the first failure aborts the block.
pub open spec fn spec_format_each(examples: Seq<Template>, runtime: Seq<SpecPair>) -> Result<
    Seq<Seq<char>>,
    ErrView,
>
    decreases examples.len(),
{
    if examples.len() == 0 {
        Ok(Seq::empty())
    } else {
        match examples[0].spec_format_result(runtime) {
            Err(e) => Err(e),
            Ok(s) => match spec_format_each(examples.skip(1), runtime) {
                Err(e) => Err(e),
                Ok(rest) => Ok(seq![s] + rest),
            },
        }
    }
}

/// The non-empty segments among prefix, examples block and suffix.
pub open spec fn spec_segments(a: Seq<char>, b: Seq<char>, c: Seq<char>) -> Seq<Seq<char>> {
    let s0 = if a.len() > 0 {
        seq![a]
    } else {
        Seq::empty()
    };
    let s1 = if b.len() > 0 {
        seq![b]
    } else {
        Seq::empty()
    };
    let s2 = if c.len() > 0 {
        seq![c]
    } else {
        Seq::empty()
    };
    s0 + s1 + s2
}

impl FewShotTemplate {
    pub closed spec fn spec_examples(&self) -> Seq<Template> {
        self.examples@
    }

    pub closed spec fn spec_separator(&self) -> Seq<char> {
        self.example_separator@
    }

    pub closed spec fn spec_prefix(&self) -> Option<Template> {
        match self.prefix {
            Some(t) => Some(t),
            None => None,
        }
    }

    pub closed spec fn spec_suffix(&self) -> Option<Template> {
        match self.suffix {
            Some(t) => Some(t),
            None => None,
        }
    }

    /// Every held template is valid.
    pub open spec fn wf(&self) -> bool {
        &&& forall|i: int|
            0 <= i < self.spec_examples().len() ==> (#[trigger] self.spec_examples()[i]).wf()
        &&& match self.spec_prefix() {
            Some(t) => t.wf(),
            None => true,
        }
        &&& match self.spec_suffix() {
            Some(t) => t.wf(),
            None => true,
        }
    }

    /// What formatting the block yields: prefix, separator-joined examples
    /// and suffix each formatted with the same bindings, the non-empty
    /// segments joined by the separator; the first failure aborts.
    pub open spec fn spec_format_result(&self, runtime: Seq<SpecPair>) -> Result<
        Seq<char>,
        ErrView,
    > {
        let prefix_r = match self.spec_prefix() {
            Some(t) => t.spec_format_result(runtime),
            None => Ok(Seq::empty()),
        };
        match prefix_r {
            Err(e) => Err(e),
            Ok(prefix_str) => match spec_format_each(self.spec_examples(), runtime) {
                Err(e) => Err(e),
                Ok(parts) => {
                    let examples_str = spec_join(parts, self.spec_separator());
                    let suffix_r = match self.spec_suffix() {
                        Some(t) => t.spec_format_result(runtime),
                        None => Ok(Seq::empty()),
                    };
                    match suffix_r {
                        Err(e) => Err(e),
                        Ok(suffix_str) => Ok(
                            spec_join(
                                spec_segments(prefix_str, examples_str, suffix_str),
                                self.spec_separator(),
                            ),
                        ),
                    }
                },
            },
        }
    }

    /// A block of examples with the default separator and no framing.
    pub fn new(examples: Vec<Template>) -> (r: FewShotTemplate)
        requires
            forall|i: int| 0 <= i < examples@.len() ==> (#[trigger] examples@[i]).wf(),
        ensures
            r.wf(),
            r.spec_examples() == examples@,
            r.spec_separator() == DEFAULT_EXAMPLE_SEPARATOR@,
            r.spec_prefix() is None,
            r.spec_suffix() is None,
    {
        let ghost exs = examples@;
        let r = FewShotTemplate {
            examples,
            example_separator: DEFAULT_EXAMPLE_SEPARATOR.to_owned(),
            prefix: None,
            suffix: None,
        };
        proof {
            assert forall|i: int| 0 <= i < r.spec_examples().len() implies (
            #[trigger] r.spec_examples()[i]).wf() by {
                assert(r.spec_examples()[i] == exs[i]);
            }
        }
        r
    }

    pub fn with_options(
        examples: Vec<Template>,
        prefix: Option<Template>,
        suffix: Option<Template>,
        example_separator: &str,
    ) -> (r: FewShotTemplate)
        requires
            forall|i: int| 0 <= i < examples@.len() ==> (#[trigger] examples@[i]).wf(),
            prefix matches Some(t) ==> t.wf(),
            suffix matches Some(t) ==> t.wf(),
        ensures
            r.wf(),
            r.spec_examples() == examples@,
            r.spec_separator() == example_separator@,
            r.spec_prefix() == prefix,
            r.spec_suffix() == suffix,
    {
        let ghost exs = examples@;
        let r = FewShotTemplate {
            examples,
            example_separator: example_separator.to_owned(),
            prefix,
            suffix,
        };
        proof {
            assert forall|i: int| 0 <= i < r.spec_examples().len() implies (
            #[trigger] r.spec_examples()[i]).wf() by {
                assert(r.spec_examples()[i] == exs[i]);
            }
        }
        r
    }

    pub fn builder() -> (r: FewShotTemplateBuilder)
        ensures
            r.wf(),
            r.spec_examples() == Seq::<Template>::empty(),
            r.spec_separator() == DEFAULT_EXAMPLE_SEPARATOR@,
            r.spec_prefix() is None,
            r.spec_suffix() is None,
    {
        FewShotTemplateBuilder::new()
    }

    pub fn examples(&self) -> (r: &Vec<Template>)
        ensures
            r@ == self.spec_examples(),
    {
        &self.examples
    }

    pub fn example_separator(&self) -> (r: &str)
        ensures
            r@ == self.spec_separator(),
    {
        self.example_separator.as_str()
    }

    pub fn prefix(&self) -> (r: Option<&Template>)
        ensures
            match r {
                Some(t) => self.spec_prefix() == Some(*t),
                None => self.spec_prefix() is None,
            },
    {
        self.prefix.as_ref()
    }

    pub fn suffix(&self) -> (r: Option<&Template>)
        ensures
            match r {
                Some(t) => self.spec_suffix() == Some(*t),
                None => self.spec_suffix() is None,
            },
    {
        self.suffix.as_ref()
    }

    /// Formats prefix, every example and suffix with the same bindings and
    /// joins the non-empty segments with the separator.
    pub fn format(&self, variables: &VarMap) -> (r: Result<String, TemplateError>)
        requires
            self.wf(),
            variables.wf(),
        ensures
            r matches Ok(s) ==> self.spec_format_result(variables.spec_pairs()) == Ok::<
                Seq<char>,
                ErrView,
            >(s@),
            r matches Err(e) ==> self.spec_format_result(variables.spec_pairs()) == Err::<
                Seq<char>,
                ErrView,
            >(e@),
    {
        let ghost rt = variables.spec_pairs();
        let prefix_str = match &self.prefix {
            Some(t) => match t.format(variables) {
                Ok(s) => s,
                Err(e) => {
                    return Err(e);
                },
            },
            None => String::new(),
        };
        let mut formatted: Vec<String> = Vec::new();
        let n = self.examples.len();
        let mut i: usize = 0;
        proof {
            assert(self.spec_examples().skip(0) =~= self.spec_examples());
        }
        while i < n
            invariant
                i <= n,
                n == self.spec_examples().len(),
                self.wf(),
                variables.wf(),
                rt == variables.spec_pairs(),
                match self.spec_prefix() {
                    Some(t) => t.spec_format_result(rt) is Ok,
                    None => true,
                },
                spec_format_each(self.spec_examples(), rt) matches Ok(all) ==> {
                    &&& spec_format_each(self.spec_examples().skip(i as int), rt) is Ok
                    &&& all =~= crate::placeholder::views_of(formatted@) + spec_format_each(
                        self.spec_examples().skip(i as int),
                        rt,
                    )->Ok_0
                },
                spec_format_each(self.spec_examples(), rt) is Err ==> spec_format_each(
                    self.spec_examples().skip(i as int),
                    rt,
                ) == spec_format_each(self.spec_examples(), rt),
            decreases n - i,
        {
            let ghost rest = self.spec_examples().skip(i as int);
            proof {
                assert(rest[0] == self.spec_examples()[i as int]);
                assert(rest.skip(1) =~= self.spec_examples().skip(i as int + 1));
            }
            match self.examples[i].format(variables) {
                Ok(s) => {
                    let ghost oldf = formatted@;
                    formatted.push(s);
                    proof {
                        assert(crate::placeholder::views_of(formatted@) =~= crate::placeholder::views_of(
                            oldf,
                        ).push(s@));
                        if spec_format_each(self.spec_examples(), rt) is Ok {
                            let tail = spec_format_each(rest.skip(1), rt)->Ok_0;
                            assert(spec_format_each(rest, rt)->Ok_0 =~= seq![s@] + tail);
                            assert(crate::placeholder::views_of(formatted@) + tail
                                =~= crate::placeholder::views_of(oldf) + (seq![s@] + tail));
                        }
                    }
                },
                Err(e) => {
                    proof {
                        assert(spec_format_each(rest, rt) == Err::<Seq<Seq<char>>, ErrView>(e@));
                        if spec_format_each(self.spec_examples(), rt) is Ok {
                            assert(spec_format_each(rest, rt) is Ok);
                        }
                        assert(spec_format_each(self.spec_examples(), rt) == Err::<
                            Seq<Seq<char>>,
                            ErrView,
                        >(e@));
                        assert(self.spec_format_result(rt) == Err::<Seq<char>, ErrView>(e@));
                    }
                    return Err(e);
                },
            }
            i += 1;
        }
        proof {
            assert(self.spec_examples().skip(n as int).len() == 0);
            assert(spec_format_each(self.spec_examples().skip(n as int), rt) == Ok::<
                Seq<Seq<char>>,
                ErrView,
            >(Seq::empty()));
            if spec_format_each(self.spec_examples(), rt) is Ok {
                let all = spec_format_each(self.spec_examples(), rt)->Ok_0;
                assert(all =~= crate::placeholder::views_of(formatted@) + Seq::<Seq<char>>::empty());
                assert(all =~= crate::placeholder::views_of(formatted@));
            }
        }
        let examples_str = join_strings(&formatted, self.example_separator.as_str());
        let suffix_str = match &self.suffix {
            Some(t) => match t.format(variables) {
                Ok(s) => s,
                Err(e) => {
                    return Err(e);
                },
            },
            None => String::new(),
        };
        let mut segments: Vec<String> = Vec::new();
        if !prefix_str.as_str().is_empty() {
            segments.push(prefix_str);
        } else {
            proof {
                assert(prefix_str@.len() == 0);
            }
        }
        if !examples_str.as_str().is_empty() {
            segments.push(examples_str);
        } else {
            proof {
                assert(examples_str@.len() == 0);
            }
        }
        if !suffix_str.as_str().is_empty() {
            segments.push(suffix_str);
        } else {
            proof {
                assert(suffix_str@.len() == 0);
            }
        }
        proof {
            assert(crate::placeholder::views_of(segments@) =~= spec_segments(
                prefix_str@,
                examples_str@,
                suffix_str@,
            ));
        }
        Ok(join_strings(&segments, self.example_separator.as_str()))
    }
}

/// The strings joined with the separator between consecutive ones.
fn join_strings(parts: &Vec<String>, sep: &str) -> (r: String)
    ensures
        r@ == spec_join(crate::placeholder::views_of(parts@), sep@),
{
    let ghost views = crate::placeholder::views_of(parts@);
    let mut acc: Vec<char> = Vec::new();
    let mut i: usize = 0;
    proof {
        assert(views.take(0) =~= Seq::<Seq<char>>::empty());
    }
    while i < parts.len()
        invariant
            i <= parts@.len(),
            views == crate::placeholder::views_of(parts@),
            acc@ == spec_join(views.take(i as int), sep@),
        decreases parts.len() - i,
    {
        if i > 0 {
            extend_chars(&mut acc, sep);
        }
        extend_chars(&mut acc, parts[i].as_str());
        proof {
            assert(views.take(i as int).push(views[i as int]) =~= views.take(i as int + 1));
            lemma_join_snoc(views.take(i as int), views[i as int], sep@);
        }
        i += 1;
    }
    proof {
        assert(views.take(parts@.len() as int) =~= views);
    }
    chars_string(&acc)
}

/// Step-by-step assembly of a few-shot block.
#[derive(Debug)]
pub struct FewShotTemplateBuilder {
    examples: Vec<Template>,
    example_separator: String,
    prefix: Option<Template>,
    suffix: Option<Template>,
}

impl FewShotTemplateBuilder {
    pub closed spec fn spec_examples(&self) -> Seq<Template> {
        self.examples@
    }

    pub closed spec fn spec_separator(&self) -> Seq<char> {
        self.example_separator@
    }

    pub closed spec fn spec_prefix(&self) -> Option<Template> {
        match self.prefix {
            Some(t) => Some(t),
            None => None,
        }
    }

    pub closed spec fn spec_suffix(&self) -> Option<Template> {
        match self.suffix {
            Some(t) => Some(t),
            None => None,
        }
    }

    pub open spec fn wf(&self) -> bool {
        &&& forall|i: int|
            0 <= i < self.spec_examples().len() ==> (#[trigger] self.spec_examples()[i]).wf()
        &&& match self.spec_prefix() {
            Some(t) => t.wf(),
            None => true,
        }
        &&& match self.spec_suffix() {
            Some(t) => t.wf(),
            None => true,
        }
    }

    pub fn new() -> (r: FewShotTemplateBuilder)
        ensures
            r.wf(),
            r.spec_examples() == Seq::<Template>::empty(),
            r.spec_separator() == DEFAULT_EXAMPLE_SEPARATOR@,
            r.spec_prefix() is None,
            r.spec_suffix() is None,
    {
        let r = FewShotTemplateBuilder {
            examples: Vec::new(),
            example_separator: DEFAULT_EXAMPLE_SEPARATOR.to_owned(),
            prefix: None,
            suffix: None,
        };
        proof {
            assert(r.spec_examples().len() == 0);
        }
        r
    }

    pub fn prefix(self, prefix: Template) -> (r: FewShotTemplateBuilder)
        requires
            self.wf(),
            prefix.wf(),
        ensures
            r.wf(),
            r.spec_examples() == self.spec_examples(),
            r.spec_separator() == self.spec_separator(),
            r.spec_prefix() == Some(prefix),
            r.spec_suffix() == self.spec_suffix(),
    {
        let ghost orig = self;
        let mut b = self;
        b.prefix = Some(prefix);
        proof {
            assert forall|i: int| 0 <= i < b.spec_examples().len() implies (
            #[trigger] b.spec_examples()[i]).wf() by {
                assert(b.spec_examples()[i] == orig.spec_examples()[i]);
            }
        }
        b
    }

    pub fn suffix(self, suffix: Template) -> (r: FewShotTemplateBuilder)
        requires
            self.wf(),
            suffix.wf(),
        ensures
            r.wf(),
            r.spec_examples() == self.spec_examples(),
            r.spec_separator() == self.spec_separator(),
            r.spec_prefix() == self.spec_prefix(),
            r.spec_suffix() == Some(suffix),
    {
        let ghost orig = self;
        let mut b = self;
        b.suffix = Some(suffix);
        proof {
            assert forall|i: int| 0 <= i < b.spec_examples().len() implies (
            #[trigger] b.spec_examples()[i]).wf() by {
                assert(b.spec_examples()[i] == orig.spec_examples()[i]);
            }
        }
        b
    }

    pub fn example_separator(self, example_separator: &str) -> (r: FewShotTemplateBuilder)
        requires
            self.wf(),
        ensures
            r.wf(),
            r.spec_examples() == self.spec_examples(),
            r.spec_separator() == example_separator@,
            r.spec_prefix() == self.spec_prefix(),
            r.spec_suffix() == self.spec_suffix(),
    {
        let ghost orig = self;
        let mut b = self;
        b.example_separator = example_separator.to_owned();
        proof {
            assert forall|i: int| 0 <= i < b.spec_examples().len() implies (
            #[trigger] b.spec_examples()[i]).wf() by {
                assert(b.spec_examples()[i] == orig.spec_examples()[i]);
            }
        }
        b
    }

    pub fn example(self, example: Template) -> (r: FewShotTemplateBuilder)
        requires
            self.wf(),
            example.wf(),
        ensures
            r.wf(),
            r.spec_examples() =~= self.spec_examples().push(example),
            r.spec_separator() == self.spec_separator(),
            r.spec_prefix() == self.spec_prefix(),
            r.spec_suffix() == self.spec_suffix(),
    {
        let ghost orig = self;
        let mut b = self;
        b.examples.push(example);
        proof {
            assert(b.spec_examples() =~= orig.spec_examples().push(example));
            assert forall|i: int| 0 <= i < b.spec_examples().len() implies (
            #[trigger] b.spec_examples()[i]).wf() by {
                if i < orig.spec_examples().len() {
                    assert(b.spec_examples()[i] == orig.spec_examples()[i]);
                } else {
                    assert(b.spec_examples()[i] == example);
                }
            }
        }
        b
    }

    pub fn examples(self, examples: Vec<Template>) -> (r: FewShotTemplateBuilder)
        requires
            self.wf(),
            forall|i: int| 0 <= i < examples@.len() ==> (#[trigger] examples@[i]).wf(),
        ensures
            r.wf(),
            r.spec_examples() =~= self.spec_examples() + examples@,
            r.spec_separator() == self.spec_separator(),
            r.spec_prefix() == self.spec_prefix(),
            r.spec_suffix() == self.spec_suffix(),
    {
        let ghost orig = self;
        let ghost exs = examples@;
        let mut b = self;
        let mut more = examples;
        b.examples.append(&mut more);
        proof {
            assert(b.spec_examples() =~= orig.spec_examples() + exs);
            assert forall|i: int| 0 <= i < b.spec_examples().len() implies (
            #[trigger] b.spec_examples()[i]).wf() by {
                if i < orig.spec_examples().len() {
                    assert(b.spec_examples()[i] == orig.spec_examples()[i]);
                } else {
                    assert(b.spec_examples()[i] == exs[i - orig.spec_examples().len()]);
                }
            }
        }
        b
    }

    pub fn build(self) -> (r: FewShotTemplate)
        requires
            self.wf(),
        ensures
            r.wf(),
            r.spec_examples() == self.spec_examples(),
            r.spec_separator() == self.spec_separator(),
            r.spec_prefix() == self.spec_prefix(),
            r.spec_suffix() == self.spec_suffix(),
    {
        let ghost orig = self;
        let r = FewShotTemplate {
            examples: self.examples,
            example_separator: self.example_separator,
            prefix: self.prefix,
            suffix: self.suffix,
        };
        proof {
            assert forall|i: int| 0 <= i < r.spec_examples().len() implies (
            #[trigger] r.spec_examples()[i]).wf() by {
                assert(r.spec_examples()[i] == orig.spec_examples()[i]);
            }
        }
        r
    }
}

} // verus!
