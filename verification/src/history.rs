//! Trusted decoding of serialized message history and of example lines.
//!
//! Both decoders are consumed as black boxes; their results are given names
//! so that the resolution pipeline's contracts stay exact.
use messageforge::BaseMessage;
use vstd::prelude::*;

verus! {

/// The role names that a decoded message can carry.
pub open spec fn is_wire_role(x: Seq<char>) -> bool {
    x == "system"@ || x == "human"@ || x == "ai"@ || x == "tool"@
}

/// What decoding a JSON history string yields: the (role, content) pairs in
/// order, or the decoder's error text.  A pure function of the string.
pub uninterp spec fn spec_decode_history(s: Seq<char>) -> Result<
    Seq<(Seq<char>, Seq<char>)>,
    Seq<char>,
>;

/// Relies on `serde_json::from_str` deserializing a JSON array of
/// messageforge's `MessageEnum`: each decoded message carries one of the
/// four role names messageforge defines, and its content text.
#[verifier::external_body]
pub(crate) fn decode_history(s: &str) -> (r: Result<Vec<(String, String)>, String>)
    ensures
        match r {
            Ok(items) => spec_decode_history(s@) == Ok::<Seq<(Seq<char>, Seq<char>)>, Seq<char>>(
                items@.map_values(|p: (String, String)| (p.0@, p.1@)),
            ) && forall|i: int|
                0 <= i < items@.len() ==> is_wire_role(#[trigger] items@[i].0@),
            Err(m) => spec_decode_history(s@) == Err::<Seq<(Seq<char>, Seq<char>)>, Seq<char>>(
                m@,
            ),
        },
{
    let msgs: Vec<messageforge::MessageEnum> = match serde_json::from_str(s) {
        Ok(v) => v,
        Err(e) => return Err(e.to_string()),
    };
    Ok(msgs.iter().map(|m| (m.role().to_string(), m.content().to_string())).collect())
}

/// What parsing a `Role: content` line block yields: the (role, content)
/// pairs in order, or the parser's error text.  A pure function of the text.
pub uninterp spec fn spec_parse_role_lines(s: Seq<char>) -> Result<
    Seq<(Seq<char>, Seq<char>)>,
    Seq<char>,
>;

/// Relies on messageforge's `MessageEnum::parse_messages`: each non-empty
/// line is split at the first `": "` into a case-insensitive role keyword
/// and the content; each parsed message carries one of the four role names.
#[verifier::external_body]
pub(crate) fn parse_role_lines(s: &str) -> (r: Result<Vec<(String, String)>, String>)
    ensures
        match r {
            Ok(items) => spec_parse_role_lines(s@) == Ok::<
                Seq<(Seq<char>, Seq<char>)>,
                Seq<char>,
            >(items@.map_values(|p: (String, String)| (p.0@, p.1@))) && forall|i: int|
                0 <= i < items@.len() ==> is_wire_role(#[trigger] items@[i].0@),
            Err(m) => spec_parse_role_lines(s@) == Err::<Seq<(Seq<char>, Seq<char>)>, Seq<char>>(
                m@,
            ),
        },
{
    match messageforge::MessageEnum::parse_messages(s) {
        Ok(v) => Ok(v.iter().map(|m| (m.role().to_string(), m.content().to_string())).collect()),
        Err(e) => Err(e.to_string()),
    }
}

} // verus!
