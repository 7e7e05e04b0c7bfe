//! Trusted bindings to the external Mustache rendering engine.
//!
//! The engine is consumed as a black box: its results are given names so
//! that contracts downstream stay exact, and nothing else is assumed of it.
use vstd::prelude::*;

use crate::vars::VarMap;

verus! {

/// What compiling a template string yields: no message when it compiles,
/// the engine's error text when it does not.  A pure function of the text.
pub uninterp spec fn spec_mustache_compile(t: Seq<char>) -> Option<Seq<char>>;

/// Relies on handlebars' `Handlebars::register_template_string`: whether a
/// template string compiles, and the error text when it does not, depend on
/// the template text alone.
#[verifier::external_body]
pub(crate) fn mustache_compile(t: &str) -> (r: Option<String>)
    ensures
        match r {
            None => spec_mustache_compile(t@) is None,
            Some(m) => spec_mustache_compile(t@) == Some(m@),
        },
{
    let mut engine = handlebars::Handlebars::new();
    match engine.register_template_string("template", t) {
        Ok(()) => None,
        Err(e) => Some(e.to_string()),
    }
}

/// What rendering a template against a sequence of bindings yields: the
/// rendered text, or the engine's error text.  A pure function of the
/// template text and the bindings.
pub uninterp spec fn spec_mustache_render(t: Seq<char>, vars: Seq<(Seq<char>, Seq<char>)>) -> Result<
    Seq<char>,
    Seq<char>,
>;

/// Relies on handlebars' `Handlebars::render`: rendering a registered
/// template against a map of string values; unknown tags render empty under
/// the engine's own semantics.
#[verifier::external_body]
pub(crate) fn mustache_render(t: &str, vars: &VarMap) -> (r: Result<String, String>)
    ensures
        match r {
            Ok(s) => spec_mustache_render(t@, vars.spec_pairs()) == Ok::<Seq<char>, Seq<char>>(
                s@,
            ),
            Err(m) => spec_mustache_render(t@, vars.spec_pairs()) == Err::<Seq<char>, Seq<char>>(
                m@,
            ),
        },
{
    let mut engine = handlebars::Handlebars::new();
    if let Err(e) = engine.register_template_string("template", t) {
        return Err(e.to_string());
    }
    let data: std::collections::BTreeMap<String, String> = vars.pairs().iter().cloned().collect();
    match engine.render("template", &data) {
        Ok(s) => Ok(s),
        Err(e) => Err(e.to_string()),
    }
}

} // verus!
