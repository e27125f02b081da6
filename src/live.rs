//! The read path: the tool's live configuration, read back in the shape of a
//! profile, with the provider in force showing the model, effort and key
//! that the live files give it.

use vstd::prelude::*;
use crate::assoc::{map_of, find_last};
use crate::model::{CodexCurrentConfig, CodexProviderConfig, ProviderView, opt_str, providers_view};
use crate::toml_doc::TomlItem;
use crate::json_doc::{JsonItem, auth_api_key, auth_document_api_key};
use crate::codec::{str_field, provider_of_item, toml_to_provider_config, get_str};

verus! {

/// The `model_provider` of the document, `openai` when it has none.
pub open spec fn live_model_provider(m: Map<Seq<char>, TomlItem>) -> Seq<char> {
    match str_field(m, "model_provider"@) {
        Some(s) => s,
        None => "openai"@,
    }
}

/// The `model` of the document, empty when it has none.
pub open spec fn live_model(m: Map<Seq<char>, TomlItem>) -> Seq<char> {
    match str_field(m, "model"@) {
        Some(s) => s,
        None => Seq::empty(),
    }
}

/// The table entries of a `model_providers` section, each read as a provider.
pub open spec fn provider_entries(t: Seq<(String, TomlItem)>) -> Seq<(String, ProviderView)>
    decreases t.len(),
{
    if t.len() == 0 {
        Seq::empty()
    } else if t.last().1 is Table {
        provider_entries(t.drop_last()).push((t.last().0, provider_of_item(t.last().1)->0))
    } else {
        provider_entries(t.drop_last())
    }
}

/// The providers that the document's `model_providers` section describes.
pub open spec fn section_providers(m: Map<Seq<char>, TomlItem>) -> Map<Seq<char>, ProviderView> {
    if m.contains_key("model_providers"@) && m["model_providers"@] is Table {
        map_of(provider_entries(m["model_providers"@]->Table_0@))
    } else {
        Map::empty()
    }
}

/// A provider with the live model, effort and key filled in where it has
/// none of its own.
pub open spec fn backfilled(p: ProviderView, model: Seq<char>, effort: Option<Seq<char>>, key: Option<Seq<char>>) -> ProviderView {
    ProviderView {
        model: if p.model is Some { p.model } else { Some(model) },
        model_reasoning_effort: if p.model_reasoning_effort is Some { p.model_reasoning_effort } else { effort },
        api_key: if p.api_key is Some { p.api_key } else { key },
        ..p
    }
}

/// The providers of the live configuration, the one in force backfilled.
pub open spec fn live_providers(m: Map<Seq<char>, TomlItem>, a: Map<Seq<char>, JsonItem>) -> Map<Seq<char>, ProviderView> {
    let ps = section_providers(m);
    let k = live_model_provider(m);
    if ps.contains_key(k) {
        ps.insert(k, backfilled(ps[k], live_model(m), str_field(m, "model_reasoning_effort"@), auth_api_key(a)))
    } else {
        ps
    }
}

pub proof fn lemma_provider_entries_push(t: Seq<(String, TomlItem)>, e: (String, TomlItem))
    ensures
        provider_entries(t.push(e)) == if e.1 is Table {
            provider_entries(t).push((e.0, provider_of_item(e.1)->0))
        } else {
            provider_entries(t)
        },
{
    assert(t.push(e).drop_last() == t);
}

proof fn lemma_views_match(out: Seq<(String, CodexProviderConfig)>, spec_entries: Seq<(String, ProviderView)>)
    requires
        out.len() == spec_entries.len(),
        forall|j: int| 0 <= j < out.len() ==> (#[trigger] out[j]).0 == spec_entries[j].0
            && out[j].1@ == spec_entries[j].1,
    ensures
        providers_view(out) == map_of(spec_entries),
    decreases out.len(),
{
    if out.len() > 0 {
        let (out_init, spec_init) = (out.drop_last(), spec_entries.drop_last());
        assert forall|j: int| 0 <= j < out_init.len() implies (#[trigger] out_init[j]).0 == spec_init[j].0
            && out_init[j].1@ == spec_init[j].1 by {
            assert(out_init[j] == out[j]);
        }
        lemma_views_match(out_init, spec_init);
        assert(providers_view(out) =~= providers_view(out_init).insert(out.last().0@, out.last().1@));
    } else {
        assert(providers_view(out) =~= Map::empty());
    }
}

proof fn lemma_map_of_update<V>(s: Seq<(String, V)>, i: int, v: V)
    requires
        0 <= i < s.len(),
        forall|l: int| i < l < s.len() ==> s[l].0@ != s[i].0@,
    ensures
        map_of(s.update(i, (s[i].0, v))) == map_of(s).insert(s[i].0@, v),
    decreases s.len(),
{
    let spec_init = s.update(i, (s[i].0, v));
    if i == s.len() - 1 {
        assert(spec_init.drop_last() == s.drop_last());
        assert(map_of(spec_init) =~= map_of(s).insert(s[i].0@, v));
    } else {
        lemma_map_of_update(s.drop_last(), i, v);
        assert(spec_init.drop_last() == s.drop_last().update(i, (s[i].0, v)));
        assert(map_of(spec_init) =~= map_of(s).insert(s[i].0@, v));
    }
}

/// The providers of a `model_providers` section, in order.
fn section_provider_list(t: &Vec<(String, TomlItem)>) -> (r: Vec<(String, CodexProviderConfig)>)
    ensures
        providers_view(r@) == map_of(provider_entries(t@)),
{
    let mut out: Vec<(String, CodexProviderConfig)> = Vec::new();
    let mut i: usize = 0;
    while i < t.len()
        invariant
            i <= t@.len(),
            out@.len() == provider_entries(t@.take(i as int)).len(),
            forall|j: int| 0 <= j < out@.len() ==> (#[trigger] out@[j]).0 == provider_entries(t@.take(i as int))[j].0
                && out@[j].1@ == provider_entries(t@.take(i as int))[j].1,
        decreases t@.len() - i,
    {
        proof {
            lemma_provider_entries_push(t@.take(i as int), t@[i as int]);
            assert(t@.take(i + 1) == t@.take(i as int).push(t@[i as int]));
        }
        match toml_to_provider_config(&t[i].1) {
            Ok(c) => {
                out.push((t[i].0.clone(), c));
            },
            Err(_) => {},
        }
        i = i + 1;
    }
    proof {
        assert(t@.take(t@.len() as int) == t@);
        lemma_views_match(out@, provider_entries(t@));
    }
    out
}

/// Reads the live configuration from the parsed structured document and
/// secret document.
pub fn current_config_from_documents(doc: &Vec<(String, TomlItem)>, auth: &Vec<(String, JsonItem)>) -> (r: CodexCurrentConfig)
    ensures
        r.model_provider@ == live_model_provider(map_of(doc@)),
        r.model@ == live_model(map_of(doc@)),
        opt_str(r.model_reasoning_effort) == str_field(map_of(doc@), "model_reasoning_effort"@),
        opt_str(r.api_key) == auth_api_key(map_of(auth@)),
        providers_view(r.providers@) == live_providers(map_of(doc@), map_of(auth@)),
{
    let model_provider = match get_str(doc, &String::from_str("model_provider")) {
        Some(s) => s,
        None => String::from_str("openai"),
    };
    let model = match get_str(doc, &String::from_str("model")) {
        Some(s) => s,
        None => String::new(),
    };
    let model_reasoning_effort = get_str(doc, &String::from_str("model_reasoning_effort"));
    let api_key = auth_document_api_key(auth);
    let mut providers: Vec<(String, CodexProviderConfig)> = match find_last(doc, &String::from_str("model_providers")) {
        Some(i) => match &doc[i].1 {
            TomlItem::Table(t) => section_provider_list(t),
            _ => Vec::new(),
        },
        None => Vec::new(),
    };
    proof {
        assert(providers_view(providers@) =~= section_providers(map_of(doc@)));
    }
    match find_last(&providers, &model_provider) {
        Some(i) => {
            let ghost orig = providers@;
            let (k, mut c) = providers.remove(i);
            if c.model.is_none() {
                c.model = Some(model.clone());
            }
            if c.model_reasoning_effort.is_none() {
                c.model_reasoning_effort = model_reasoning_effort.clone();
            }
            if c.api_key.is_none() {
                c.api_key = api_key.clone();
            }
            let ghost kc = (k, c);
            providers.insert(i, (k, c));
            proof {
                assert(providers@ =~= orig.update(i as int, (orig[i as int].0, kc.1)));
                lemma_map_of_update(orig, i as int, kc.1);
                assert(providers_view(providers@) =~= providers_view(orig).insert(k@, kc.1@));
            }
        },
        None => {},
    }
    CodexCurrentConfig { providers, model_provider, model, model_reasoning_effort, api_key }
}

} // verus!
