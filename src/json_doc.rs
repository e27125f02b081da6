//! The tool's secret document: a flat JSON object whose one key this library
//! owns, `OPENAI_API_KEY`. Every other entry is carried through unchanged.

use vstd::prelude::*;
use crate::assoc::{map_of, find_last, without_keys, lemma_map_of_push, lemma_map_of_without};
use crate::model::CodexError;
use crate::toml_doc::{is_blank, blank};

verus! {

#[verifier::external_type_specification]
#[verifier::external_body]
pub struct ExJsonValue(serde_json::Value);

/// A JSON value as far as the library reads it: a string, or anything else
/// carried through as it was parsed.
pub enum JsonItem {
    Str(String),
    Other(serde_json::Value),
}

/// Whether `serde_json::from_str` accepts a text as a JSON value.
pub uninterp spec fn json_parses(text: Seq<char>) -> bool;

/// Whether the JSON value that `serde_json::from_str` reads from a text is
/// an object.
pub uninterp spec fn json_is_object(text: Seq<char>) -> bool;

/// The entries of the object that `serde_json::from_str` reads from a text.
pub uninterp spec fn json_entries(text: Seq<char>) -> Seq<(String, serde_json::Value)>;

/// What `json_shape` makes of a value.
pub uninterp spec fn json_shape_of(v: serde_json::Value) -> JsonItem;

/// The value `serde_json::Value::String` makes of a string.
pub uninterp spec fn json_string_of(s: Seq<char>) -> serde_json::Value;

/// The text that `serde_json::to_string_pretty` renders of an object with
/// these entries.
pub uninterp spec fn json_text(entries: Seq<(String, serde_json::Value)>) -> Seq<char>;

/// Relies on `serde_json::from_str` into a `serde_json::Value`: the entries
/// of the object in the map's order, `None` for JSON that is not an object,
/// the parser's message on failure.
#[verifier::external_body]
fn json_parse_object(text: &str) -> (r: Result<Option<Vec<(String, serde_json::Value)>>, String>)
    ensures
        r is Ok <==> json_parses(text@),
        r is Ok ==> (r->Ok_0 is Some <==> json_is_object(text@)),
        r is Ok && r->Ok_0 is Some ==> r->Ok_0->0@ == json_entries(text@),
{
    match serde_json::from_str::<serde_json::Value>(text) {
        Ok(serde_json::Value::Object(m)) => Ok(Some(m.into_iter().collect())),
        Ok(_) => Ok(None),
        Err(e) => Err(e.to_string()),
    }
}

/// Relies on the `serde_json::Value::String` variant: tells a string apart
/// from any other value.
#[verifier::external_body]
fn json_shape(v: serde_json::Value) -> (r: JsonItem)
    ensures
        r == json_shape_of(v),
{
    match v {
        serde_json::Value::String(s) => JsonItem::Str(s),
        other => JsonItem::Other(other),
    }
}

/// Relies on `serde_json::Value::String`.
#[verifier::external_body]
fn json_from_string(s: String) -> (r: serde_json::Value)
    ensures
        r == json_string_of(s@),
{
    serde_json::Value::String(s)
}

/// Relies on `serde_json::to_string_pretty` of an object built by
/// `serde_json::Map`'s `FromIterator`. Its documentation names the only
/// failures, a failing `Serialize` impl or a map with non-string keys, and a
/// `serde_json::Value` has neither.
#[verifier::external_body]
fn json_render_object(entries: Vec<(String, serde_json::Value)>) -> (r: Result<String, String>)
    ensures
        r is Ok && r->Ok_0@ == json_text(entries@),
{
    let v = serde_json::Value::Object(entries.into_iter().collect());
    serde_json::to_string_pretty(&v).map_err(|e| e.to_string())
}

/// Text that reads as a secret document: blank, or a JSON object.
pub open spec fn auth_text_ok(text: Seq<char>) -> bool {
    blank(text) || (json_parses(text) && json_is_object(text))
}

/// `d` is the secret document that a text reads as: empty when blank, else
/// the object's entries, each told apart as string or not.
pub open spec fn auth_doc_of(text: Seq<char>, d: Seq<(String, JsonItem)>) -> bool {
    if blank(text) {
        d.len() == 0
    } else {
        &&& d.len() == json_entries(text).len()
        &&& forall|j: int| 0 <= j < d.len() ==> (#[trigger] d[j]).0 == json_entries(text)[j].0
            && d[j].1 == json_shape_of(json_entries(text)[j].1)
    }
}

/// The value that a secret document's entry turns back into.
pub open spec fn json_lowered(i: JsonItem) -> serde_json::Value {
    match i {
        JsonItem::Str(s) => json_string_of(s@),
        JsonItem::Other(v) => v,
    }
}

/// The entries that a secret document turns back into.
pub open spec fn auth_lowered(d: Seq<(String, JsonItem)>) -> Seq<(String, serde_json::Value)> {
    d.map_values(|e: (String, JsonItem)| (e.0, json_lowered(e.1)))
}

/// Parses the secret document. Blank text is an empty document; JSON that is
/// not an object is refused as an invalid argument, malformed JSON as a
/// parse error.
pub fn parse_auth_document(text: &str) -> (r: Result<Vec<(String, JsonItem)>, CodexError>)
    ensures
        r is Ok <==> auth_text_ok(text@),
        r is Ok ==> auth_doc_of(text@, r->Ok_0@),
        !blank(text@) && !json_parses(text@) ==> r is Err && r->Err_0 is ParseError,
        !blank(text@) && json_parses(text@) && !json_is_object(text@) ==> r is Err
            && r->Err_0 == CodexError::InvalidArgument(r->Err_0->InvalidArgument_0)
            && r->Err_0->InvalidArgument_0@ == "Invalid JSON: expected object"@,
{
    if is_blank(text) {
        return Ok(Vec::new());
    }
    match json_parse_object(text) {
        Err(m) => Err(CodexError::ParseError(String::from_str("Invalid JSON: ").concat(m.as_str()))),
        Ok(None) => Err(CodexError::InvalidArgument(String::from_str("Invalid JSON: expected object"))),
        Ok(Some(entries)) => {
            let ghost all = entries@;
            let mut rest = entries;
            let mut out: Vec<(String, JsonItem)> = Vec::new();
            while rest.len() > 0
                invariant
                    all.len() == out@.len() + rest@.len(),
                    rest@ == all.subrange(out@.len() as int, all.len() as int),
                    forall|j: int| 0 <= j < out@.len() ==> (#[trigger] out@[j]).0 == all[j].0
                        && out@[j].1 == json_shape_of(all[j].1),
                decreases rest.len(),
            {
                proof {
                    assert(rest@[0] == all[out@.len() as int]);
                }
                let (k, v) = rest.remove(0);
                let item = json_shape(v);
                out.push((k, item));
            }
            Ok(out)
        },
    }
}

/// Renders the secret document as pretty-printed JSON.
pub fn render_auth_document(doc: Vec<(String, JsonItem)>) -> (r: Result<String, CodexError>)
    ensures
        r is Ok && r->Ok_0@ == json_text(auth_lowered(doc@)),
{
    let ghost all = doc@;
    let mut rest = doc;
    let mut out: Vec<(String, serde_json::Value)> = Vec::new();
    while rest.len() > 0
        invariant
            all.len() == out@.len() + rest@.len(),
            rest@ == all.subrange(out@.len() as int, all.len() as int),
            out@ == auth_lowered(all.take(out@.len() as int)),
        decreases rest.len(),
    {
        let ghost n = out@.len() as int;
        proof {
            assert(rest@[0] == all[n]);
        }
        let (k, v) = rest.remove(0);
        let lv = match v {
            JsonItem::Str(s) => json_from_string(s),
            JsonItem::Other(o) => o,
        };
        out.push((k, lv));
        proof {
            assert(out@ =~= auth_lowered(all.take(n + 1)));
        }
    }
    proof {
        assert(all.take(all.len() as int) =~= all);
    }
    match json_render_object(out) {
        Ok(s) => Ok(s),
        Err(m) => Err(CodexError::ParseError(String::from_str("Failed to serialize JSON: ").concat(m.as_str()))),
    }
}

/// The key of the secret document that holds the API key.
pub open spec fn api_key_key() -> Seq<char> {
    "OPENAI_API_KEY"@
}

/// The API key that the secret document holds, if it holds a string there.
pub open spec fn auth_api_key(m: Map<Seq<char>, JsonItem>) -> Option<Seq<char>> {
    if m.contains_key(api_key_key()) && m[api_key_key()] is Str {
        Some(m[api_key_key()]->Str_0@)
    } else {
        None
    }
}

/// Reads the API key from the secret document.
pub fn auth_document_api_key(doc: &Vec<(String, JsonItem)>) -> (r: Option<String>)
    ensures
        crate::model::opt_str(r) == auth_api_key(map_of(doc@)),
{
    match find_last(doc, &String::from_str("OPENAI_API_KEY")) {
        Some(i) => match &doc[i].1 {
            JsonItem::Str(s) => Some(s.clone()),
            _ => None,
        },
        None => None,
    }
}

/// Puts an API key into the secret document: a non-empty key is stored under
/// `OPENAI_API_KEY`; an absent or empty one removes that entry. Every other
/// entry keeps its value.
pub fn merge_auth_document(doc: Vec<(String, JsonItem)>, api_key: &Option<String>) -> (r: Vec<(String, JsonItem)>)
    ensures
        map_of(r@).remove(api_key_key()) == map_of(doc@).remove(api_key_key()),
        match api_key {
            Some(k) => if k@.len() > 0 {
                auth_api_key(map_of(r@)) == Some(k@)
            } else {
                !map_of(r@).contains_key(api_key_key())
            },
            None => !map_of(r@).contains_key(api_key_key()),
        },
{
    let ghost all = doc@;
    let ghost keys = set![api_key_key()];
    let key = String::from_str("OPENAI_API_KEY");
    let mut rest = doc;
    let mut out: Vec<(String, JsonItem)> = Vec::new();
    while rest.len() > 0
        invariant
            all.len() >= rest@.len(),
            rest@ == all.subrange(all.len() - rest@.len(), all.len() as int),
            out@ == without_keys(all.take(all.len() - rest@.len()), keys),
            keys == set![api_key_key()],
            key@ == api_key_key(),
            all == doc@,
        decreases rest.len(),
    {
        let ghost j = all.len() - rest@.len();
        proof {
            assert(rest@[0] == all[j]);
            assert(all.take(j + 1).drop_last() == all.take(j));
            assert(all.take(j + 1).last() == all[j]);
        }
        let (k, v) = rest.remove(0);
        proof {
            assert((k, v) == all[j]);
            assert(all.take(j + 1).len() > 0);
            assert(without_keys(all.take(j + 1), keys) == if keys.contains(all[j].0@) {
                without_keys(all.take(j), keys)
            } else {
                without_keys(all.take(j), keys).push(all[j])
            });
        }
        if k != key {
            out.push((k, v));
        }
        proof {
            assert(all.len() - rest@.len() == j + 1);
        }
    }
    proof {
        assert(all.take(all.len() as int) == all);
        lemma_map_of_without(all, keys);
        assert(map_of(all).remove_keys(keys) =~= map_of(all).remove(api_key_key()));
    }
    let ghost base = out@;
    match api_key {
        Some(k) => {
            if k.unicode_len() > 0 {
                let e = (key, JsonItem::Str(k.clone()));
                proof {
                    lemma_map_of_push(base, e);
                }
                out.push(e);
                proof {
                    assert(map_of(out@).remove(api_key_key()) =~= map_of(base).remove(api_key_key()));
                }
            }
        },
        None => {},
    }
    proof {
        assert(map_of(base).remove(api_key_key()) =~= map_of(base));
    }
    out
}

} // verus!
