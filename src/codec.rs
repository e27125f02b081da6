//! Provider configurations to and from `[model_providers.<id>]` tables.
//! Only the fields that the tool knows are written; the three profile-only
//! fields never reach the table.

use vstd::prelude::*;
use crate::assoc::{map_of, find_last};
use crate::model::{CodexError, CodexProviderConfig, ProviderView, opt_str, opt_str_map, str_map};
use crate::toml_doc::TomlItem;

verus! {

/// The string stored under `k`, if the value there is a string.
pub open spec fn str_field(m: Map<Seq<char>, TomlItem>, k: Seq<char>) -> Option<Seq<char>> {
    if m.contains_key(k) && m[k] is Str {
        Some(m[k]->Str_0@)
    } else {
        None
    }
}

/// The boolean stored under `k`, if the value there is a boolean.
pub open spec fn bool_field(m: Map<Seq<char>, TomlItem>, k: Seq<char>) -> Option<bool> {
    if m.contains_key(k) && m[k] is Bool {
        Some(m[k]->Bool_0)
    } else {
        None
    }
}

/// The string-valued entries of a table, in order; others are skipped.
pub open spec fn str_entries(t: Seq<(String, TomlItem)>) -> Seq<(String, String)>
    decreases t.len(),
{
    if t.len() == 0 {
        Seq::empty()
    } else if t.last().1 is Str {
        str_entries(t.drop_last()).push((t.last().0, t.last().1->Str_0))
    } else {
        str_entries(t.drop_last())
    }
}

/// The string entries of the table stored under `k`, if the value there is a
/// table.
pub open spec fn map_field(m: Map<Seq<char>, TomlItem>, k: Seq<char>) -> Option<Map<Seq<char>, Seq<char>>> {
    if m.contains_key(k) && m[k] is Table {
        Some(str_map(str_entries(m[k]->Table_0@)))
    } else {
        None
    }
}

/// The provider that a table's entries describe.
pub open spec fn provider_of_entries(t: Seq<(String, TomlItem)>) -> ProviderView {
    let m = map_of(t);
    ProviderView {
        name: str_field(m, "name"@),
        base_url: str_field(m, "base_url"@),
        wire_api: str_field(m, "wire_api"@),
        requires_openai_auth: bool_field(m, "requires_openai_auth"@),
        env_key: str_field(m, "env_key"@),
        env_key_instructions: str_field(m, "env_key_instructions"@),
        http_headers: map_field(m, "http_headers"@),
        query_params: map_field(m, "query_params"@),
        model: None,
        model_reasoning_effort: None,
        api_key: None,
    }
}

/// The provider that a value describes; only a table describes one.
pub open spec fn provider_of_item(i: TomlItem) -> Option<ProviderView> {
    match i {
        TomlItem::Table(t) => Some(provider_of_entries(t@)),
        _ => None,
    }
}

/// The keys that the table of a provider holds: one per field that is set.
pub open spec fn provider_keys(c: ProviderView) -> Set<Seq<char>> {
    Set::empty()
        .union(if c.name is Some { set!["name"@] } else { Set::empty() })
        .union(if c.base_url is Some { set!["base_url"@] } else { Set::empty() })
        .union(if c.wire_api is Some { set!["wire_api"@] } else { Set::empty() })
        .union(if c.requires_openai_auth is Some { set!["requires_openai_auth"@] } else { Set::empty() })
        .union(if c.env_key is Some { set!["env_key"@] } else { Set::empty() })
        .union(if c.env_key_instructions is Some { set!["env_key_instructions"@] } else { Set::empty() })
        .union(if c.http_headers is Some { set!["http_headers"@] } else { Set::empty() })
        .union(if c.query_params is Some { set!["query_params"@] } else { Set::empty() })
}

proof fn lemma_str_entries_push(t: Seq<(String, TomlItem)>, e: (String, TomlItem))
    ensures
        str_entries(t.push(e)) == if e.1 is Str {
            str_entries(t).push((e.0, e.1->Str_0))
        } else {
            str_entries(t)
        },
{
    assert(t.push(e).drop_last() == t);
}

/// The eight keys of a provider table are distinct.
proof fn lemma_provider_keys_distinct()
    ensures
        "name"@ != "base_url"@,
        "name"@ != "wire_api"@,
        "name"@ != "requires_openai_auth"@,
        "name"@ != "env_key"@,
        "name"@ != "env_key_instructions"@,
        "name"@ != "http_headers"@,
        "name"@ != "query_params"@,
        "base_url"@ != "wire_api"@,
        "base_url"@ != "requires_openai_auth"@,
        "base_url"@ != "env_key"@,
        "base_url"@ != "env_key_instructions"@,
        "base_url"@ != "http_headers"@,
        "base_url"@ != "query_params"@,
        "wire_api"@ != "requires_openai_auth"@,
        "wire_api"@ != "env_key"@,
        "wire_api"@ != "env_key_instructions"@,
        "wire_api"@ != "http_headers"@,
        "wire_api"@ != "query_params"@,
        "requires_openai_auth"@ != "env_key"@,
        "requires_openai_auth"@ != "env_key_instructions"@,
        "requires_openai_auth"@ != "http_headers"@,
        "requires_openai_auth"@ != "query_params"@,
        "env_key"@ != "env_key_instructions"@,
        "env_key"@ != "http_headers"@,
        "env_key"@ != "query_params"@,
        "env_key_instructions"@ != "http_headers"@,
        "env_key_instructions"@ != "query_params"@,
        "http_headers"@ != "query_params"@,
{
    reveal_strlit("name");
    reveal_strlit("base_url");
    reveal_strlit("wire_api");
    reveal_strlit("requires_openai_auth");
    reveal_strlit("env_key");
    reveal_strlit("env_key_instructions");
    reveal_strlit("http_headers");
    reveal_strlit("query_params");
    assert("name"@.len() != "base_url"@.len());
    assert("name"@.len() != "wire_api"@.len());
    assert("name"@.len() != "requires_openai_auth"@.len());
    assert("name"@.len() != "env_key"@.len());
    assert("name"@.len() != "env_key_instructions"@.len());
    assert("name"@.len() != "http_headers"@.len());
    assert("name"@.len() != "query_params"@.len());
    assert("base_url"@[0] != "wire_api"@[0]);
    assert("base_url"@.len() != "requires_openai_auth"@.len());
    assert("base_url"@.len() != "env_key"@.len());
    assert("base_url"@.len() != "env_key_instructions"@.len());
    assert("base_url"@.len() != "http_headers"@.len());
    assert("base_url"@.len() != "query_params"@.len());
    assert("wire_api"@.len() != "requires_openai_auth"@.len());
    assert("wire_api"@.len() != "env_key"@.len());
    assert("wire_api"@.len() != "env_key_instructions"@.len());
    assert("wire_api"@.len() != "http_headers"@.len());
    assert("wire_api"@.len() != "query_params"@.len());
    assert("requires_openai_auth"@.len() != "env_key"@.len());
    assert("requires_openai_auth"@[0] != "env_key_instructions"@[0]);
    assert("requires_openai_auth"@.len() != "http_headers"@.len());
    assert("requires_openai_auth"@.len() != "query_params"@.len());
    assert("env_key"@.len() != "env_key_instructions"@.len());
    assert("env_key"@.len() != "http_headers"@.len());
    assert("env_key"@.len() != "query_params"@.len());
    assert("env_key_instructions"@.len() != "http_headers"@.len());
    assert("env_key_instructions"@.len() != "query_params"@.len());
    assert("http_headers"@[0] != "query_params"@[0]);
}

/// A string map as a table of string values.
fn str_pairs_to_table(pairs: &Vec<(String, String)>) -> (r: Vec<(String, TomlItem)>)
    ensures
        str_entries(r@) == pairs@,
{
    let mut out: Vec<(String, TomlItem)> = Vec::new();
    let mut i: usize = 0;
    while i < pairs.len()
        invariant
            i <= pairs@.len(),
            str_entries(out@) == pairs@.take(i as int),
        decreases pairs@.len() - i,
    {
        let e = (pairs[i].0.clone(), TomlItem::Str(pairs[i].1.clone()));
        proof {
            lemma_str_entries_push(out@, e);
            assert(pairs@.take(i + 1) == pairs@.take(i as int).push(pairs@[i as int]));
        }
        out.push(e);
        i = i + 1;
    }
    assert(pairs@.take(pairs@.len() as int) == pairs@);
    out
}

/// Appends an entry to a table.
fn push_entry(t: &mut Vec<(String, TomlItem)>, k: String, v: TomlItem)
    ensures
        map_of(final(t)@) == map_of(old(t)@).insert(k@, v),
{
    let ghost e = (k, v);
    proof {
        crate::assoc::lemma_map_of_push(t@, e);
    }
    t.push((k, v));
}

/// The `[model_providers.<id>]` table of a provider: the fields the tool
/// knows, each only when set.
pub fn provider_config_to_toml(config: &CodexProviderConfig) -> (r: TomlItem)
    ensures
        provider_of_item(r) == Some(config@.external()),
        r is Table && map_of(r->Table_0@).dom() == provider_keys(config@),
{
    proof {
        lemma_provider_keys_distinct();
    }
    let mut t: Vec<(String, TomlItem)> = Vec::new();
    if let Some(v) = &config.name {
        push_entry(&mut t, String::from_str("name"), TomlItem::Str(v.clone()));
    }
    if let Some(v) = &config.base_url {
        push_entry(&mut t, String::from_str("base_url"), TomlItem::Str(v.clone()));
    }
    if let Some(v) = &config.wire_api {
        push_entry(&mut t, String::from_str("wire_api"), TomlItem::Str(v.clone()));
    }
    if let Some(v) = config.requires_openai_auth {
        push_entry(&mut t, String::from_str("requires_openai_auth"), TomlItem::Bool(v));
    }
    if let Some(v) = &config.env_key {
        push_entry(&mut t, String::from_str("env_key"), TomlItem::Str(v.clone()));
    }
    if let Some(v) = &config.env_key_instructions {
        push_entry(&mut t, String::from_str("env_key_instructions"), TomlItem::Str(v.clone()));
    }
    if let Some(h) = &config.http_headers {
        push_entry(&mut t, String::from_str("http_headers"), TomlItem::Table(str_pairs_to_table(h)));
    }
    if let Some(q) = &config.query_params {
        push_entry(&mut t, String::from_str("query_params"), TomlItem::Table(str_pairs_to_table(q)));
    }
    proof {
        assert(map_of(t@).dom() =~= provider_keys(config@));
        assert(provider_of_entries(t@) == config@.external());
    }
    TomlItem::Table(t)
}

/// The string stored under `key` in a table, if the value there is a string.
pub fn get_str(t: &Vec<(String, TomlItem)>, key: &String) -> (r: Option<String>)
    ensures
        opt_str(r) == str_field(map_of(t@), key@),
{
    match find_last(t, key) {
        Some(i) => match &t[i].1 {
            TomlItem::Str(s) => Some(s.clone()),
            _ => None,
        },
        None => None,
    }
}

/// The boolean stored under `key` in a table, if the value there is one.
pub fn get_bool(t: &Vec<(String, TomlItem)>, key: &String) -> (r: Option<bool>)
    ensures
        r == bool_field(map_of(t@), key@),
{
    match find_last(t, key) {
        Some(i) => match &t[i].1 {
            TomlItem::Bool(b) => Some(*b),
            _ => None,
        },
        None => None,
    }
}

/// The string-valued entries of a table, in order.
pub fn string_entries(t: &Vec<(String, TomlItem)>) -> (r: Vec<(String, String)>)
    ensures
        r@ == str_entries(t@),
{
    let mut out: Vec<(String, String)> = Vec::new();
    let mut i: usize = 0;
    while i < t.len()
        invariant
            i <= t@.len(),
            out@ == str_entries(t@.take(i as int)),
        decreases t@.len() - i,
    {
        proof {
            lemma_str_entries_push(t@.take(i as int), t@[i as int]);
            assert(t@.take(i + 1) == t@.take(i as int).push(t@[i as int]));
        }
        match &t[i].1 {
            TomlItem::Str(s) => {
                out.push((t[i].0.clone(), s.clone()));
            },
            _ => {},
        }
        i = i + 1;
    }
    assert(t@.take(t@.len() as int) == t@);
    out
}

/// The string entries of the table stored under `key`, if the value there is
/// a table.
pub fn get_str_map(t: &Vec<(String, TomlItem)>, key: &String) -> (r: Option<Vec<(String, String)>>)
    ensures
        opt_str_map(r) == map_field(map_of(t@), key@),
{
    match find_last(t, key) {
        Some(i) => match &t[i].1 {
            TomlItem::Table(sub) => Some(string_entries(sub)),
            _ => None,
        },
        None => None,
    }
}

/// Reads a provider from its `[model_providers.<id>]` table. Missing or
/// mistyped fields are unset; the three profile-only fields are always
/// unset. A value that is not a table is refused.
pub fn toml_to_provider_config(value: &TomlItem) -> (r: Result<CodexProviderConfig, CodexError>)
    ensures
        match provider_of_item(*value) {
            Some(p) => r is Ok && r->Ok_0@ == p,
            None => r is Err && r->Err_0 is ParseError
                && r->Err_0->ParseError_0@ == "Provider config must be a table"@,
        },
{
    match value {
        TomlItem::Table(t) => Ok(CodexProviderConfig {
            name: get_str(t, &String::from_str("name")),
            base_url: get_str(t, &String::from_str("base_url")),
            wire_api: get_str(t, &String::from_str("wire_api")),
            requires_openai_auth: get_bool(t, &String::from_str("requires_openai_auth")),
            env_key: get_str(t, &String::from_str("env_key")),
            env_key_instructions: get_str(t, &String::from_str("env_key_instructions")),
            http_headers: get_str_map(t, &String::from_str("http_headers")),
            query_params: get_str_map(t, &String::from_str("query_params")),
            model: None,
            model_reasoning_effort: None,
            api_key: None,
        }),
        _ => Err(CodexError::ParseError(String::from_str("Provider config must be a table"))),
    }
}

} // verus!
