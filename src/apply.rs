//! Applying a profile to the tool's live files, and reading them back, on
//! the files' text; the caller reads and writes the files.

use vstd::prelude::*;
use crate::assoc::map_of;
use crate::model::{CodexError, CodexProfile, CodexCurrentConfig, providers_view, opt_str};
use crate::toml_doc::{TomlItem, blank, toml_parses, toml_doc_of, lowered_doc, toml_renders, toml_text, parse_toml_document, render_toml_document};
use crate::json_doc::{JsonItem, auth_text_ok, auth_doc_of, auth_lowered, json_text, api_key_key, auth_api_key, merge_auth_document, parse_auth_document, render_auth_document};
use crate::codec::str_field;
use crate::sync::{managed_keys, section_exact, resolve_profile, merge_config_document, resolved_provider_id, resolved_model, resolved_effort, resolved_api_key};
use crate::live::{current_config_from_documents, live_model_provider, live_model, live_providers};
use crate::paths::valid_profile_id;
use crate::store::{ProfileStore, load_profile_by_id, set_active_profile_id};

verus! {

/// `after` is the structured configuration `before` with profile `p`
/// applied: the keys `p` owns set from its resolution, the others untouched.
pub open spec fn config_merged(before: Map<Seq<char>, TomlItem>, after: Map<Seq<char>, TomlItem>, p: CodexProfile) -> bool {
    &&& after.remove_keys(managed_keys()) == before.remove_keys(managed_keys())
    &&& str_field(after, "model_provider"@) == Some(resolved_provider_id(p))
    &&& str_field(after, "model"@) == Some(resolved_model(p))
    &&& match resolved_effort(p) {
        Some(e) => str_field(after, "model_reasoning_effort"@) == Some(e),
        None => !after.contains_key("model_reasoning_effort"@),
    }
    &&& p.providers@.len() == 0 ==> !after.contains_key("model_providers"@)
    &&& p.providers@.len() > 0 ==> {
        &&& after.contains_key("model_providers"@)
        &&& after["model_providers"@] is Table
        &&& section_exact(map_of(after["model_providers"@]->Table_0@), providers_view(p.providers@))
        &&& forall|j: int| 0 <= j < after["model_providers"@]->Table_0@.len()
            ==> (#[trigger] after["model_providers"@]->Table_0@[j]).1 is Table
    }
}

/// `after` is the secret document `before` with profile `p`'s key applied:
/// a non-empty resolved key stored, else the key's entry absent; every other
/// entry untouched.
pub open spec fn auth_merged(before: Map<Seq<char>, JsonItem>, after: Map<Seq<char>, JsonItem>, p: CodexProfile) -> bool {
    &&& after.remove(api_key_key()) == before.remove(api_key_key())
    &&& match resolved_api_key(p) {
        Some(k) => if k.len() > 0 {
            auth_api_key(after) == Some(k)
        } else {
            !after.contains_key(api_key_key())
        },
        None => !after.contains_key(api_key_key()),
    }
}

/// Applies a profile to the parsed structured configuration and secret
/// document.
pub fn apply_profile_to_documents(
    p: &CodexProfile,
    doc: Vec<(String, TomlItem)>,
    auth: Vec<(String, JsonItem)>,
) -> (r: (Vec<(String, TomlItem)>, Vec<(String, JsonItem)>))
    ensures
        config_merged(map_of(doc@), map_of(r.0@), *p),
        auth_merged(map_of(auth@), map_of(r.1@), *p),
{
    let res = resolve_profile(p);
    let new_doc = merge_config_document(doc, &res, &p.providers);
    let new_auth = merge_auth_document(auth, &res.api_key);
    (new_doc, new_auth)
}

/// The structured configuration's text, if the file exists, reads as a
/// document: it is blank or parses.
pub open spec fn config_file_ok(t: Option<String>) -> bool {
    match t {
        Some(s) => blank(s@) || toml_parses(s@),
        None => true,
    }
}

/// The secret document's text, if the file exists, reads as a document.
pub open spec fn auth_file_ok(t: Option<String>) -> bool {
    match t {
        Some(s) => auth_text_ok(s@),
        None => true,
    }
}

/// The new text of the tool's two files after an apply.
pub struct AppliedConfig {
    pub config_text: String,
    pub auth_text: String,
}

/// `d` is the structured configuration that a file's text gives: empty
/// for a missing file.
pub open spec fn config_doc_of(t: Option<String>, d: Seq<(String, TomlItem)>) -> bool {
    match t {
        Some(s) => toml_doc_of(s@, d),
        None => d.len() == 0,
    }
}

/// `d` is the secret document that a file's text gives: empty for a missing
/// file.
pub open spec fn auth_file_doc_of(t: Option<String>, d: Seq<(String, JsonItem)>) -> bool {
    match t {
        Some(s) => auth_doc_of(s@, d),
        None => d.len() == 0,
    }
}

/// A missing file, or one whose text is blank.
pub open spec fn file_empty(t: Option<String>) -> bool {
    match t {
        Some(s) => blank(s@),
        None => true,
    }
}

/// `r` is the outcome of applying `p` to files with the given text: the
/// documents they read as, merged with `p`, turned back into values and
/// rendered. Only the rendering of the structured configuration can fail.
pub open spec fn applied_as(
    p: CodexProfile,
    config_text: Option<String>,
    auth_text: Option<String>,
    r: Result<AppliedConfig, CodexError>,
) -> bool {
    exists|d0: Seq<(String, TomlItem)>, d1: Seq<(String, TomlItem)>, w: Seq<(String, toml::Value)>,
        a0: Seq<(String, JsonItem)>, a1: Seq<(String, JsonItem)>|
        #![trigger config_doc_of(config_text, d0), auth_file_doc_of(auth_text, a0), lowered_doc(d1, w), auth_merged(map_of(a0), map_of(a1), p)]
        {
            &&& config_doc_of(config_text, d0)
            &&& auth_file_doc_of(auth_text, a0)
            &&& config_merged(map_of(d0), map_of(d1), p)
            &&& auth_merged(map_of(a0), map_of(a1), p)
            &&& lowered_doc(d1, w)
            &&& (r is Ok <==> toml_renders(w))
            &&& (r is Ok ==> r->Ok_0.config_text@ == toml_text(w)
                && r->Ok_0.auth_text@ == json_text(auth_lowered(a1)))
        }
}

/// Applies stored profile `id` to the tool's files, given their current text
/// (`None` for a missing file), and marks it active. Returns the files' new
/// text. Nothing changes when it fails: an invalid id, an unknown profile, a
/// file that does not parse, or a configuration that does not render.
pub fn apply_codex_profile(
    store: &mut ProfileStore,
    id: &str,
    config_text: Option<String>,
    auth_text: Option<String>,
) -> (r: Result<AppliedConfig, CodexError>)
    ensures
        final(store).profiles == old(store).profiles,
        !valid_profile_id(id@) ==> r is Err && r->Err_0 is InvalidArgument,
        valid_profile_id(id@) && !old(store).records().contains_key(id@) ==> r is Err && r->Err_0 is NotFound,
        r is Err ==> final(store).active == old(store).active,
        r is Ok ==> final(store).active is Some && final(store).active->0@ == id@,
        r is Ok ==> valid_profile_id(id@) && old(store).records().contains_key(id@)
            && config_file_ok(config_text) && auth_file_ok(auth_text),
        valid_profile_id(id@) && old(store).records().contains_key(id@)
            && !(config_file_ok(config_text) && auth_file_ok(auth_text))
            ==> r is Err && (r->Err_0 is ParseError || r->Err_0 is InvalidArgument),
        valid_profile_id(id@) && old(store).records().contains_key(id@)
            && config_file_ok(config_text) && auth_file_ok(auth_text)
            ==> applied_as(old(store).records()[id@], config_text, auth_text, r),
        r is Err && valid_profile_id(id@) && old(store).records().contains_key(id@)
            ==> r->Err_0 is ParseError || r->Err_0 is InvalidArgument,
{
    let p = match load_profile_by_id(store, id) {
        Err(e) => {
            return Err(e);
        },
        Ok(p) => p,
    };
    let doc = match &config_text {
        Some(t) => parse_toml_document(t.as_str())?,
        None => Vec::new(),
    };
    let auth = match &auth_text {
        Some(t) => parse_auth_document(t.as_str())?,
        None => Vec::new(),
    };
    let ghost d0 = doc@;
    let ghost a0 = auth@;
    let (new_doc, new_auth) = apply_profile_to_documents(p, doc, auth);
    let ghost d1 = new_doc@;
    let ghost a1 = new_auth@;
    let config_out = render_toml_document(new_doc);
    let ghost w = choose|w: Seq<(String, toml::Value)>| #[trigger] lowered_doc(d1, w)
        && (config_out is Ok <==> toml_renders(w))
        && (config_out is Ok ==> config_out->Ok_0@ == toml_text(w));
    let auth_out = render_auth_document(new_auth);
    let r = match (config_out, auth_out) {
        (Ok(c), Ok(a)) => Ok(AppliedConfig { config_text: c, auth_text: a }),
        (Err(e), _) => Err(e),
        (_, Err(e)) => Err(e),
    };
    proof {
        assert(config_doc_of(config_text, d0));
        assert(auth_file_doc_of(auth_text, a0));
        assert(lowered_doc(d1, w));
        assert(auth_merged(map_of(a0), map_of(a1), *p));
        assert(applied_as(*p, config_text, auth_text, r));
    }
    if r.is_ok() {
        set_active_profile_id(store, id);
    }
    r
}

/// `c` shows the live configuration that the documents give.
pub open spec fn reads_as(c: CodexCurrentConfig, m: Map<Seq<char>, TomlItem>, a: Map<Seq<char>, JsonItem>) -> bool {
    &&& c.model_provider@ == live_model_provider(m)
    &&& c.model@ == live_model(m)
    &&& opt_str(c.model_reasoning_effort) == str_field(m, "model_reasoning_effort"@)
    &&& opt_str(c.api_key) == auth_api_key(a)
    &&& providers_view(c.providers@) == live_providers(m, a)
}

/// Reads the tool's live configuration from its two files' text (`None` for
/// a missing file). Missing or blank files read as an empty configuration:
/// provider `openai`, empty model, no providers, effort or key.
pub fn read_codex_current_config(config_text: Option<String>, auth_text: Option<String>) -> (r: Result<CodexCurrentConfig, CodexError>)
    ensures
        r is Ok <==> config_file_ok(config_text) && auth_file_ok(auth_text),
        r is Ok ==> exists|d: Seq<(String, TomlItem)>, a: Seq<(String, JsonItem)>|
            #![trigger config_doc_of(config_text, d), auth_file_doc_of(auth_text, a)]
            config_doc_of(config_text, d) && auth_file_doc_of(auth_text, a)
                && reads_as(r->Ok_0, map_of(d), map_of(a)),
        file_empty(config_text) && file_empty(auth_text) ==> r is Ok && {
            let c = r->Ok_0;
            &&& c.providers@.len() == 0
            &&& c.model_provider@ == "openai"@
            &&& c.model@.len() == 0
            &&& c.model_reasoning_effort is None
            &&& c.api_key is None
        },
        r is Err ==> r->Err_0 is ParseError || r->Err_0 is InvalidArgument,
{
    let doc = match &config_text {
        Some(t) => parse_toml_document(t.as_str())?,
        None => Vec::new(),
    };
    let auth = match &auth_text {
        Some(t) => parse_auth_document(t.as_str())?,
        None => Vec::new(),
    };
    let r = current_config_from_documents(&doc, &auth);
    proof {
        assert(config_doc_of(config_text, doc@));
        assert(auth_file_doc_of(auth_text, auth@));
        if file_empty(config_text) && file_empty(auth_text) {
            assert(doc@.len() == 0);
            assert(auth@.len() == 0);
            assert(map_of(doc@) =~= Map::empty());
            assert(map_of(auth@) =~= Map::empty());
            assert(crate::live::live_providers(map_of(doc@), map_of(auth@)) =~= Map::empty());
            if r.providers@.len() > 0 {
                let k = r.providers@.last().0@;
                assert(providers_view(r.providers@).contains_key(k));
            }
        }
    }
    Ok(r)
}

} // verus!
