//! The apply operation's logic: which provider of a profile is in force,
//! and how the profile is merged into the tool's structured configuration
//! without disturbing anything it does not own.

use vstd::prelude::*;
use crate::assoc::{map_of, find_last, without_keys, lemma_map_of_push, lemma_map_of_without};
use crate::model::{CodexProfile, CodexProviderConfig, ProviderView, opt_str, providers_view};
use crate::toml_doc::TomlItem;
use crate::codec::{provider_of_item, provider_keys, provider_config_to_toml, str_field};

verus! {

/// What a profile puts into the live configuration once its provider is
/// resolved.
pub struct Resolution {
    pub provider_id: String,
    pub model: String,
    pub model_reasoning_effort: Option<String>,
    pub api_key: Option<String>,
}

/// The id of the provider in force: the profile's default provider when the
/// mapping holds it; else the first provider of the mapping; else the
/// default provider id as it stands, which then names no provider.
pub open spec fn resolved_provider_id(p: CodexProfile) -> Seq<char> {
    if map_of(p.providers@).contains_key(p.model_provider@) {
        p.model_provider@
    } else if p.providers@.len() > 0 {
        p.providers@[0].0@
    } else {
        p.model_provider@
    }
}

/// The provider in force, if the resolved id names one.
pub open spec fn resolved_provider(p: CodexProfile) -> Option<ProviderView> {
    let m = providers_view(p.providers@);
    let k = resolved_provider_id(p);
    if m.contains_key(k) {
        Some(m[k])
    } else {
        None
    }
}

/// The provider's model when it has a non-empty one, else the profile's.
pub open spec fn resolved_model(p: CodexProfile) -> Seq<char> {
    match resolved_provider(p) {
        Some(c) => if c.model is Some && c.model->0.len() > 0 {
            c.model->0
        } else {
            p.model@
        },
        None => p.model@,
    }
}

/// The provider's reasoning effort when it has one, else the profile's.
pub open spec fn resolved_effort(p: CodexProfile) -> Option<Seq<char>> {
    match resolved_provider(p) {
        Some(c) => if c.model_reasoning_effort is Some {
            c.model_reasoning_effort
        } else {
            opt_str(p.model_reasoning_effort)
        },
        None => opt_str(p.model_reasoning_effort),
    }
}

/// The provider's API key when it has one, else the profile's.
pub open spec fn resolved_api_key(p: CodexProfile) -> Option<Seq<char>> {
    match resolved_provider(p) {
        Some(c) => if c.api_key is Some {
            c.api_key
        } else {
            opt_str(p.api_key)
        },
        None => opt_str(p.api_key),
    }
}

/// Resolves the provider in force and the model, effort and key it brings.
pub fn resolve_profile(p: &CodexProfile) -> (r: Resolution)
    ensures
        r.provider_id@ == resolved_provider_id(*p),
        r.model@ == resolved_model(*p),
        opt_str(r.model_reasoning_effort) == resolved_effort(*p),
        opt_str(r.api_key) == resolved_api_key(*p),
{
    let found = find_last(&p.providers, &p.model_provider);
    let chosen: Option<usize> = match found {
        Some(i) => Some(i),
        None => if p.providers.len() > 0 {
            find_last(&p.providers, &p.providers[0].0)
        } else {
            None
        },
    };
    let provider_id = match found {
        Some(_) => p.model_provider.clone(),
        None => if p.providers.len() > 0 {
            p.providers[0].0.clone()
        } else {
            p.model_provider.clone()
        },
    };
    match chosen {
        None => Resolution {
            provider_id,
            model: p.model.clone(),
            model_reasoning_effort: p.model_reasoning_effort.clone(),
            api_key: p.api_key.clone(),
        },
        Some(i) => {
            let c = &p.providers[i].1;
            let model = match &c.model {
                Some(m) => if m.unicode_len() > 0 {
                    m.clone()
                } else {
                    p.model.clone()
                },
                None => p.model.clone(),
            };
            let model_reasoning_effort = match &c.model_reasoning_effort {
                Some(e) => Some(e.clone()),
                None => p.model_reasoning_effort.clone(),
            };
            let api_key = match &c.api_key {
                Some(k) => Some(k.clone()),
                None => p.api_key.clone(),
            };
            Resolution { provider_id, model, model_reasoning_effort, api_key }
        },
    }
}

/// The four top-level keys that a profile owns are distinct.
pub proof fn lemma_managed_keys_distinct()
    ensures
        "model_provider"@ != "model"@,
        "model_provider"@ != "model_reasoning_effort"@,
        "model_provider"@ != "model_providers"@,
        "model"@ != "model_reasoning_effort"@,
        "model"@ != "model_providers"@,
        "model_reasoning_effort"@ != "model_providers"@,
{
    reveal_strlit("model_provider");
    reveal_strlit("model");
    reveal_strlit("model_reasoning_effort");
    reveal_strlit("model_providers");
    assert("model_provider"@.len() != "model"@.len());
    assert("model_provider"@.len() != "model_reasoning_effort"@.len());
    assert("model_provider"@.len() != "model_providers"@.len());
    assert("model"@.len() != "model_reasoning_effort"@.len());
    assert("model"@.len() != "model_providers"@.len());
    assert("model_reasoning_effort"@.len() != "model_providers"@.len());
}

/// The top-level keys that applying a profile rewrites.
pub open spec fn managed_keys() -> Set<Seq<char>> {
    set!["model_provider"@, "model"@, "model_reasoning_effort"@, "model_providers"@]
}

/// Whether a key is one that applying a profile rewrites.
pub fn is_managed_key(k: &String) -> (r: bool)
    ensures
        r == managed_keys().contains(k@),
{
    *k == String::from_str("model_provider") || *k == String::from_str("model")
        || *k == String::from_str("model_reasoning_effort")
        || *k == String::from_str("model_providers")
}

/// A value is exactly the table of a provider: it reads back as the
/// provider's known fields and holds a key for each field that is set.
pub open spec fn provider_item_exact(i: TomlItem, c: ProviderView) -> bool {
    &&& provider_of_item(i) == Some(c.external())
    &&& i is Table
    &&& map_of(i->Table_0@).dom() == provider_keys(c)
}

/// A `model_providers` section holds exactly the tables of a provider map.
pub open spec fn section_exact(t: Map<Seq<char>, TomlItem>, ps: Map<Seq<char>, ProviderView>) -> bool {
    &&& t.dom() == ps.dom()
    &&& forall|k: Seq<char>| #[trigger] t.contains_key(k) ==> provider_item_exact(t[k], ps[k])
}

proof fn lemma_section(out: Seq<(String, TomlItem)>, ps: Seq<(String, CodexProviderConfig)>)
    requires
        out.len() == ps.len(),
        forall|j: int| 0 <= j < out.len() ==> (#[trigger] out[j]).0@ == ps[j].0@
            && provider_item_exact(out[j].1, ps[j].1@),
    ensures
        section_exact(map_of(out), providers_view(ps)),
    decreases out.len(),
{
    if out.len() == 0 {
        assert(providers_view(ps).dom() =~= Set::empty());
    } else {
        let (out_init, ps_init) = (out.drop_last(), ps.drop_last());
        assert forall|j: int| 0 <= j < out_init.len() implies (#[trigger] out_init[j]).0@ == ps_init[j].0@
            && provider_item_exact(out_init[j].1, ps_init[j].1@) by {
            assert(out_init[j] == out[j]);
        }
        lemma_section(out_init, ps_init);
        assert(providers_view(ps) =~= providers_view(ps_init).insert(ps.last().0@, ps.last().1@));
    }
}

/// The `model_providers` section for a provider mapping.
pub fn providers_section(ps: &Vec<(String, CodexProviderConfig)>) -> (r: Vec<(String, TomlItem)>)
    ensures
        section_exact(map_of(r@), providers_view(ps@)),
        forall|j: int| 0 <= j < r@.len() ==> (#[trigger] r@[j]).1 is Table,
{
    let mut out: Vec<(String, TomlItem)> = Vec::new();
    let mut i: usize = 0;
    while i < ps.len()
        invariant
            i <= ps@.len(),
            out@.len() == i,
            forall|j: int| 0 <= j < i ==> (#[trigger] out@[j]).0@ == ps@[j].0@
                && provider_item_exact(out@[j].1, ps@[j].1@),
        decreases ps@.len() - i,
    {
        let item = provider_config_to_toml(&ps[i].1);
        out.push((ps[i].0.clone(), item));
        i = i + 1;
    }
    proof {
        lemma_section(out@, ps@);
    }
    out
}

/// Merges a resolved profile into the top-level entries of the tool's
/// structured configuration. `model_provider` and `model` are set;
/// `model_reasoning_effort` is set, or removed when there is none; the
/// `model_providers` section is replaced by the profile's providers, or
/// removed when the profile has none. Every other key keeps its value.
pub fn merge_config_document(
    doc: Vec<(String, TomlItem)>,
    res: &Resolution,
    providers: &Vec<(String, CodexProviderConfig)>,
) -> (r: Vec<(String, TomlItem)>)
    ensures
        map_of(r@).remove_keys(managed_keys()) == map_of(doc@).remove_keys(managed_keys()),
        str_field(map_of(r@), "model_provider"@) == Some(res.provider_id@),
        str_field(map_of(r@), "model"@) == Some(res.model@),
        match res.model_reasoning_effort {
            Some(e) => str_field(map_of(r@), "model_reasoning_effort"@) == Some(e@),
            None => !map_of(r@).contains_key("model_reasoning_effort"@),
        },
        providers@.len() == 0 ==> !map_of(r@).contains_key("model_providers"@),
        providers@.len() > 0 ==> map_of(r@).contains_key("model_providers"@)
            && map_of(r@)["model_providers"@] is Table
            && section_exact(map_of(map_of(r@)["model_providers"@]->Table_0@), providers_view(providers@))
            && forall|j: int| 0 <= j < map_of(r@)["model_providers"@]->Table_0@.len()
                ==> (#[trigger] map_of(r@)["model_providers"@]->Table_0@[j]).1 is Table,
{
    let ghost all = doc@;
    let ghost keys = managed_keys();
    let mut rest = doc;
    let mut out: Vec<(String, TomlItem)> = Vec::new();
    while rest.len() > 0
        invariant
            all.len() >= rest@.len(),
            rest@ == all.subrange(all.len() - rest@.len(), all.len() as int),
            out@ == without_keys(all.take(all.len() - rest@.len()), keys),
            keys == managed_keys(),
            all == doc@,
        decreases rest.len(),
    {
        let ghost j = all.len() - rest@.len();
        proof {
            assert(rest@[0] == all[j]);
            assert(all.take(j + 1).drop_last() == all.take(j));
            assert(all.take(j + 1).last() == all[j]);
        }
        let (k, v) = rest.remove(0);
        proof {
            assert((k, v) == all[j]);
            assert(all.take(j + 1).len() > 0);
            assert(without_keys(all.take(j + 1), keys) == if keys.contains(all[j].0@) {
                without_keys(all.take(j), keys)
            } else {
                without_keys(all.take(j), keys).push(all[j])
            });
        }
        if !is_managed_key(&k) {
            out.push((k, v));
        }
        proof {
            assert(all.len() - rest@.len() == j + 1);
            assert(rest@ == all.subrange(all.len() - rest@.len(), all.len() as int));
            assert(out@ == without_keys(all.take(j + 1), keys));
        }
    }
    proof {
        assert(all.take(all.len() as int) == all);
        lemma_map_of_without(all, keys);
        lemma_managed_keys_distinct();
    }
    let ghost base = out@;
    let e1 = (String::from_str("model_provider"), TomlItem::Str(res.provider_id.clone()));
    let e2 = (String::from_str("model"), TomlItem::Str(res.model.clone()));
    proof {
        lemma_map_of_push(base, e1);
        lemma_map_of_push(base.push(e1), e2);
    }
    out.push(e1);
    out.push(e2);
    let ghost with_model = out@;
    match &res.model_reasoning_effort {
        Some(e) => {
            let e3 = (String::from_str("model_reasoning_effort"), TomlItem::Str(e.clone()));
            proof {
                lemma_map_of_push(with_model, e3);
            }
            out.push(e3);
        },
        None => {},
    }
    let ghost with_effort = out@;
    if providers.len() > 0 {
        let e4 = (String::from_str("model_providers"), TomlItem::Table(providers_section(providers)));
        proof {
            lemma_map_of_push(with_effort, e4);
        }
        out.push(e4);
    }
    proof {
        let m = map_of(all).remove_keys(keys);
        assert(map_of(base) == m);
        assert(map_of(out@).remove_keys(keys) =~= m.remove_keys(keys));
        assert(m.remove_keys(keys) =~= m);
    }
    out
}

} // verus!
