//! Template format classification and the crate's error type.
use vstd::prelude::*;

use crate::braces::{
    double_left, first_group_multi_word, has_multiple_words_between_braces, has_no_braces,
    has_only_double_braces, has_only_single_braces, no_braces, only_double_braces,
    only_single_braces,
};
use crate::braces::{count_left_braces, count_right_braces};
use crate::text::count_char;

verus! {

/// The error view: what each error variant carries, at the level of
/// character sequences.
pub enum ErrView {
    Malformed(Seq<char>),
    Unsupported(Seq<char>),
    Missing(Seq<char>),
    Render(Seq<char>),
    InvalidRole,
}

/// Everything that can go wrong while building or formatting a template.
#[derive(Debug)]
pub enum TemplateError {
    /// Unbalanced or mixed braces, wrong placeholder cardinality, or an
    /// input that does not parse.
    MalformedTemplate(String),
    /// Classification was inconclusive.
    UnsupportedFormat(String),
    /// A declared variable was absent at format time.
    MissingVariable(String),
    /// The external rendering engine failed; carries its message.
    RenderError(String),
    /// A role cannot produce or accept a concrete message.
    InvalidRoleError,
}

impl View for TemplateError {
    type V = ErrView;

    open spec fn view(&self) -> ErrView {
        match self {
            TemplateError::MalformedTemplate(s) => ErrView::Malformed(s@),
            TemplateError::UnsupportedFormat(s) => ErrView::Unsupported(s@),
            TemplateError::MissingVariable(s) => ErrView::Missing(s@),
            TemplateError::RenderError(s) => ErrView::Render(s@),
            TemplateError::InvalidRoleError => ErrView::InvalidRole,
        }
    }
}

/// Two errors match when they are the same variant and, for all but render
/// errors, carry the same text.
pub open spec fn spec_matches(a: ErrView, b: ErrView) -> bool {
    match (a, b) {
        (ErrView::Missing(x), ErrView::Missing(y)) => x == y,
        (ErrView::Malformed(x), ErrView::Malformed(y)) => x == y,
        (ErrView::Unsupported(x), ErrView::Unsupported(y)) => x == y,
        (ErrView::Render(_), ErrView::Render(_)) => true,
        (ErrView::InvalidRole, ErrView::InvalidRole) => true,
        _ => false,
    }
}

impl TemplateError {
    pub fn matches(&self, other: &TemplateError) -> (r: bool)
        ensures
            r == spec_matches(self@, other@),
    {
        match (self, other) {
            (TemplateError::MissingVariable(a), TemplateError::MissingVariable(b)) => crate::text::str_eq(
                a.as_str(),
                b.as_str(),
            ),
            (TemplateError::MalformedTemplate(a), TemplateError::MalformedTemplate(b)) => crate::text::str_eq(
                a.as_str(),
                b.as_str(),
            ),
            (TemplateError::UnsupportedFormat(a), TemplateError::UnsupportedFormat(b)) => crate::text::str_eq(
                a.as_str(),
                b.as_str(),
            ),
            (TemplateError::RenderError(_), TemplateError::RenderError(_)) => true,
            (TemplateError::InvalidRoleError, TemplateError::InvalidRoleError) => true,
            _ => false,
        }
    }
}

/// A template's placeholder syntax.
#[derive(Debug, Clone, Copy, PartialEq, Eq, Structural)]
pub enum TemplateFormat {
    PlainText,
    FmtString,
    Mustache,
}

pub open spec fn spec_is_plain_text(s: Seq<char>) -> bool {
    no_braces(s)
}

pub open spec fn spec_is_mustache(s: Seq<char>) -> bool {
    only_double_braces(s) && !first_group_multi_word(s)
}

pub open spec fn spec_is_fmtstring(s: Seq<char>) -> bool {
    only_single_braces(s) && !first_group_multi_word(s)
}

/// Well-formed braces: none at all, or equally many of each side, all
/// single or all doubled.
pub open spec fn spec_is_valid(s: Seq<char>) -> bool {
    no_braces(s) || (count_char(s, '{') == count_char(s, '}') && (only_double_braces(s)
        || only_single_braces(s)))
}

pub fn is_plain_text(s: &str) -> (r: bool)
    ensures
        r == spec_is_plain_text(s@),
{
    has_no_braces(s)
}

pub fn is_mustache(s: &str) -> (r: bool)
    ensures
        r == spec_is_mustache(s@),
{
    has_only_double_braces(s) && !has_multiple_words_between_braces(s)
}

pub fn is_fmtstring(s: &str) -> (r: bool)
    ensures
        r == spec_is_fmtstring(s@),
{
    has_only_single_braces(s) && !has_multiple_words_between_braces(s)
}

pub fn is_valid_template(s: &str) -> (r: bool)
    ensures
        r == spec_is_valid(s@),
{
    if has_no_braces(s) {
        return true;
    }
    count_left_braces(s) == count_right_braces(s) && (has_only_double_braces(s)
        || has_only_single_braces(s))
}

pub fn validate_template(s: &str) -> (r: Result<(), TemplateError>)
    ensures
        r is Ok <==> spec_is_valid(s@),
        r matches Err(e) ==> e@ == ErrView::Malformed(s@),
{
    if !is_valid_template(s) {
        return Err(TemplateError::MalformedTemplate(s.to_owned()));
    }
    Ok(())
}

/// The format that classification assigns to a classifiable string.
pub open spec fn spec_detected_format(s: Seq<char>) -> TemplateFormat {
    if spec_is_plain_text(s) {
        TemplateFormat::PlainText
    } else if spec_is_mustache(s) {
        TemplateFormat::Mustache
    } else {
        TemplateFormat::FmtString
    }
}

/// A string is classifiable when one of the three formats fits it.
pub open spec fn spec_classifiable(s: Seq<char>) -> bool {
    spec_is_plain_text(s) || spec_is_mustache(s) || spec_is_fmtstring(s)
}

pub fn detect_template(s: &str) -> (r: Result<TemplateFormat, TemplateError>)
    ensures
        r is Ok <==> spec_classifiable(s@),
        r matches Ok(f) ==> f == spec_detected_format(s@),
        r matches Err(e) ==> e@ == ErrView::Unsupported(s@),
{
    if is_plain_text(s) {
        Ok(TemplateFormat::PlainText)
    } else if is_mustache(s) {
        Ok(TemplateFormat::Mustache)
    } else if is_fmtstring(s) {
        Ok(TemplateFormat::FmtString)
    } else {
        Err(TemplateError::UnsupportedFormat(s.to_owned()))
    }
}

impl TemplateFormat {
    /// Classification with eager validation, reporting fixed messages.
    pub fn try_from(s: &str) -> (r: Result<TemplateFormat, TemplateError>)
        ensures
            r is Ok <==> spec_is_valid(s@) && spec_classifiable(s@),
            r matches Ok(f) ==> f == spec_detected_format(s@),
            r matches Err(e) ==> e@ == if !spec_is_valid(s@) {
                ErrView::Malformed("Malformed template"@)
            } else {
                ErrView::Unsupported("Unsupported template format"@)
            },
    {
        proof {
            lemma_formats_exclusive(s@);
        }
        if !is_valid_template(s) {
            return Err(TemplateError::MalformedTemplate(str_to_string("Malformed template")));
        }
        if is_fmtstring(s) {
            Ok(TemplateFormat::FmtString)
        } else if is_mustache(s) {
            Ok(TemplateFormat::Mustache)
        } else if is_plain_text(s) {
            Ok(TemplateFormat::PlainText)
        } else {
            Err(
                TemplateError::UnsupportedFormat(
                    str_to_string("Unsupported template format"),
                ),
            )
        }
    }

    /// The format under its serialized name; anything else is unsupported.
    pub fn parse_name(s: &str) -> (r: Result<TemplateFormat, TemplateError>)
        ensures
            r matches Ok(f) ==> (s@ == "PlainText"@ && f == TemplateFormat::PlainText) || (s@
                == "FmtString"@ && f == TemplateFormat::FmtString) || (s@ == "Mustache"@ && f
                == TemplateFormat::Mustache),
            r is Err <==> s@ != "PlainText"@ && s@ != "FmtString"@ && s@ != "Mustache"@,
            r matches Err(e) ==> e@ == ErrView::Unsupported("Unsupported template format"@),
    {
        if crate::text::str_eq(s, "PlainText") {
            Ok(TemplateFormat::PlainText)
        } else if crate::text::str_eq(s, "FmtString") {
            Ok(TemplateFormat::FmtString)
        } else if crate::text::str_eq(s, "Mustache") {
            Ok(TemplateFormat::Mustache)
        } else {
            Err(
                TemplateError::UnsupportedFormat(
                    str_to_string("Unsupported template format"),
                ),
            )
        }
    }
}

/// An owned copy of a string slice.
fn str_to_string(s: &str) -> (r: String)
    ensures
        r@ == s@,
{
    s.to_owned()
}

/// The three formats exclude one another: plain text has no braces at all,
/// a format string has undoubled braces only, and mustache has doubled ones.
pub proof fn lemma_formats_exclusive(s: Seq<char>)
    ensures
        !(spec_is_plain_text(s) && spec_is_mustache(s)),
        !(spec_is_plain_text(s) && spec_is_fmtstring(s)),
        !(spec_is_mustache(s) && spec_is_fmtstring(s)),
{
    if spec_is_plain_text(s) && spec_is_mustache(s) {
        let i = choose|i: int| crate::text::occurs_at(s, double_left(), i);
        lemma_occurrence_counts(s, i);
    }
}

/// A doubled brace inside a string contributes to the brace count.
proof fn lemma_occurrence_counts(s: Seq<char>, i: int)
    requires
        crate::text::occurs_at(s, double_left(), i),
    ensures
        count_char(s, '{') > 0,
{
    assert(s.subrange(i, i + 2) == double_left());
    assert(s[i] == double_left()[0]);
    lemma_count_char_positive(s, '{', i);
}

/// A character present at some index makes the count positive.
proof fn lemma_count_char_positive(s: Seq<char>, c: char, i: int)
    requires
        0 <= i < s.len(),
        s[i] == c,
    ensures
        count_char(s, c) > 0,
    decreases s.len(),
{
    if i == s.len() - 1 {
    } else {
        lemma_count_char_positive(s.drop_last(), c, i);
    }
}


} // verus!
