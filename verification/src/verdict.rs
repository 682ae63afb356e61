use vstd::prelude::*;

verus! {

/// A verdict recorded by the operator for one pending wager: the outcome
/// flag, an optional free-text payload carrying the arbiter's decision, and
/// an optional signature over it. It is stored until settlement consumes it.
pub struct Response {
    pub ok: bool,
    pub data: Option<String>,
    pub signature: Option<String>,
}

/// The decision carried by a response's payload once parsed: a free-text
/// message and the account named as winner of the wager.
pub struct ResponseMsg {
    pub message: String,
    pub winner: String,
}

/// What parsing a verdict payload yields: the `message` and `winner` members
/// of the object the text encodes, or nothing when the text does not encode
/// such an object. The result is a function of the text alone.
pub uninterp spec fn verdict_of(text: Seq<char>) -> Option<(Seq<char>, Seq<char>)>;

/// The payload text a response carries: its data, or empty when it has none.
pub open spec fn spec_response_text(r: Response) -> Seq<char> {
    match r.data {
        Some(s) => s@,
        None => Seq::<char>::empty(),
    }
}

/// Relies on serde_json::from_str and serde_json::Value::get / Value::as_str:
/// deserializing the text and reading the two string members named in the
/// verdict format is deterministic, a function of the text alone.
#[verifier::external_body]
pub(crate) fn parse_verdict(text: &str) -> (r: Option<ResponseMsg>)
    ensures
        r is Some <==> verdict_of(text@) is Some,
        r matches Some(m) ==> verdict_of(text@) == Some((m.message@, m.winner@)),
{
    let value: serde_json::Value = serde_json::from_str(text).ok()?;
    let message = value.get("message")?.as_str()?.to_string();
    let winner = value.get("winner")?.as_str()?.to_string();
    Some(ResponseMsg { message, winner })
}

} // verus!
