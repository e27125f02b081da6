use codex_profiles::apply::{apply_codex_profile, read_codex_current_config};
use codex_profiles::listing::list_codex_profiles;
use codex_profiles::codec::{provider_config_to_toml, toml_to_provider_config};
use codex_profiles::model::{CodexError, CodexProfile, CodexProviderConfig};
use codex_profiles::paths::{get_codex_auth_path, get_codex_config_path, get_profile_path, validate_profile_id};
use codex_profiles::store::{
    new_profile_id, timestamp_rfc3339, create_default_codex_profile, delete_codex_profile, duplicate_codex_profile, get_active_codex_profile_id,
    get_codex_profile, parse_active_marker, save_codex_profile, set_active_profile_id, ProfileStore,
};
use codex_profiles::toml_doc::TomlItem;

fn provider(model: Option<&str>, key: Option<&str>) -> CodexProviderConfig {
    CodexProviderConfig {
        name: None,
        base_url: None,
        wire_api: None,
        requires_openai_auth: None,
        env_key: None,
        env_key_instructions: None,
        http_headers: None,
        query_params: None,
        model: model.map(|s| s.to_string()),
        model_reasoning_effort: None,
        api_key: key.map(|s| s.to_string()),
    }
}

fn profile(id: &str, name: &str, providers: Vec<(String, CodexProviderConfig)>, mp: &str, model: &str) -> CodexProfile {
    CodexProfile {
        id: id.to_string(),
        name: name.to_string(),
        description: None,
        created_at: String::new(),
        updated_at: String::new(),
        providers,
        model_provider: mp.to_string(),
        model: model.to_string(),
        model_reasoning_effort: None,
        api_key: None,
    }
}

fn fresh(n: u8) -> String {
    new_profile_id([n; 16])
}

fn at(secs: i64) -> String {
    timestamp_rfc3339(secs, 0).unwrap()
}

fn empty_store() -> ProfileStore {
    ProfileStore::new(Vec::new(), None)
}

fn config_table(text: &str) -> toml::Table {
    toml::from_str::<toml::Table>(text).unwrap()
}

#[test]
fn save_then_apply_provider_model_wins() {
    let mut store = empty_store();
    let p = profile("", "t1", vec![("p1".to_string(), provider(Some("m-1"), Some("sk-x")))], "p1", "fallback");
    let id = save_codex_profile(&mut store, p, fresh(1), at(1_700_000_000)).unwrap();
    let out = apply_codex_profile(&mut store, &id, None, None).unwrap();
    let t = config_table(&out.config_text);
    assert_eq!(t.get("model_provider").and_then(|v| v.as_str()), Some("p1"));
    assert_eq!(t.get("model").and_then(|v| v.as_str()), Some("m-1"));
    let auth: serde_json::Value = serde_json::from_str(&out.auth_text).unwrap();
    assert_eq!(auth.get("OPENAI_API_KEY").and_then(|v| v.as_str()), Some("sk-x"));
    assert_eq!(get_active_codex_profile_id(&store), Some(id));
}

#[test]
fn apply_without_providers_drops_section() {
    let mut store = empty_store();
    let p = profile("bare", "bare", Vec::new(), "openai", "gpt-x");
    save_codex_profile(&mut store, p, fresh(1), at(1_700_000_000)).unwrap();
    let old = "model = \"old\"\n\n[model_providers.x]\nname = \"X\"\n";
    let out = apply_codex_profile(&mut store, "bare", Some(old.to_string()), None).unwrap();
    let t = config_table(&out.config_text);
    assert!(t.get("model_providers").is_none());
    assert_eq!(t.get("model").and_then(|v| v.as_str()), Some("gpt-x"));
    assert!(t.get("model_reasoning_effort").is_none());
}

#[test]
fn apply_keeps_unrelated_settings() {
    let mut store = empty_store();
    let p = profile("keep", "keep", vec![("p1".to_string(), provider(Some("m"), None))], "p1", "m");
    save_codex_profile(&mut store, p, fresh(1), at(1_700_000_000)).unwrap();
    let old = "approval_policy = \"never\"\nmodel_reasoning_effort = \"low\"\n\n[projects.\"/work\"]\ntrust_level = \"trusted\"\n";
    let out = apply_codex_profile(&mut store, "keep", Some(old.to_string()), None).unwrap();
    let t = config_table(&out.config_text);
    assert_eq!(t.get("approval_policy").and_then(|v| v.as_str()), Some("never"));
    let trust = t["projects"]["/work"]["trust_level"].as_str();
    assert_eq!(trust, Some("trusted"));
    assert!(t.get("model_reasoning_effort").is_none());
}

#[test]
fn apply_keeps_other_secret_keys() {
    let mut store = empty_store();
    let p = profile("sec", "sec", vec![("p1".to_string(), provider(None, Some("sk-new")))], "p1", "m");
    save_codex_profile(&mut store, p, fresh(1), at(1_700_000_000)).unwrap();
    let old = "{\"OPENAI_API_KEY\": \"sk-old\", \"tokens\": {\"a\": 1}}";
    let out = apply_codex_profile(&mut store, "sec", None, Some(old.to_string())).unwrap();
    let auth: serde_json::Value = serde_json::from_str(&out.auth_text).unwrap();
    assert_eq!(auth["OPENAI_API_KEY"].as_str(), Some("sk-new"));
    assert_eq!(auth["tokens"]["a"].as_i64(), Some(1));
}

#[test]
fn apply_with_empty_key_removes_secret() {
    let mut store = empty_store();
    let p = profile("nokey", "n", vec![("p1".to_string(), provider(None, Some("")))], "p1", "m");
    save_codex_profile(&mut store, p, fresh(1), at(1_700_000_000)).unwrap();
    let old = "{\"OPENAI_API_KEY\": \"sk-old\", \"other\": \"x\"}";
    let out = apply_codex_profile(&mut store, "nokey", None, Some(old.to_string())).unwrap();
    let auth: serde_json::Value = serde_json::from_str(&out.auth_text).unwrap();
    assert!(auth.get("OPENAI_API_KEY").is_none());
    assert_eq!(auth["other"].as_str(), Some("x"));
}

#[test]
fn apply_falls_back_to_a_member() {
    let mut store = empty_store();
    let providers = vec![
        ("alpha".to_string(), provider(Some("m-a"), None)),
        ("beta".to_string(), provider(Some("m-b"), None)),
    ];
    let p = profile("fb", "fb", providers, "missing", "fallback");
    save_codex_profile(&mut store, p, fresh(1), at(1_700_000_000)).unwrap();
    let out = apply_codex_profile(&mut store, "fb", None, None).unwrap();
    let t = config_table(&out.config_text);
    assert_eq!(t.get("model_provider").and_then(|v| v.as_str()), Some("alpha"));
    assert_eq!(t.get("model").and_then(|v| v.as_str()), Some("m-a"));
}

#[test]
fn apply_without_providers_keeps_raw_default_id() {
    let mut store = empty_store();
    let mut p = profile("raw", "raw", Vec::new(), "ghost", "gpt-y");
    p.api_key = Some("sk-profile".to_string());
    p.model_reasoning_effort = Some("medium".to_string());
    save_codex_profile(&mut store, p, fresh(1), at(1_700_000_000)).unwrap();
    let out = apply_codex_profile(&mut store, "raw", None, None).unwrap();
    let t = config_table(&out.config_text);
    assert_eq!(t.get("model_provider").and_then(|v| v.as_str()), Some("ghost"));
    assert_eq!(t.get("model_reasoning_effort").and_then(|v| v.as_str()), Some("medium"));
    let auth: serde_json::Value = serde_json::from_str(&out.auth_text).unwrap();
    assert_eq!(auth["OPENAI_API_KEY"].as_str(), Some("sk-profile"));
}

#[test]
fn apply_then_read_round_trip() {
    let mut store = empty_store();
    let mut c = provider(Some("m-1"), Some("sk-1"));
    c.name = Some("Proxy".to_string());
    c.base_url = Some("https://example.test/v1".to_string());
    c.wire_api = Some("responses".to_string());
    c.requires_openai_auth = Some(false);
    c.env_key = Some("PROXY_KEY".to_string());
    c.env_key_instructions = Some("ask the admin".to_string());
    c.http_headers = Some(vec![("X-Team".to_string(), "core".to_string())]);
    c.query_params = Some(vec![("api-version".to_string(), "2025".to_string())]);
    c.model_reasoning_effort = Some("high".to_string());
    let other = provider(None, None);
    let p = profile("rt", "rt", vec![("main".to_string(), c.clone()), ("other".to_string(), other.clone())], "main", "x");
    save_codex_profile(&mut store, p, fresh(1), at(1_700_000_000)).unwrap();
    let out = apply_codex_profile(&mut store, "rt", None, None).unwrap();
    let cur = read_codex_current_config(Some(out.config_text), Some(out.auth_text)).unwrap();
    assert_eq!(cur.model_provider, "main");
    assert_eq!(cur.model, "m-1");
    assert_eq!(cur.model_reasoning_effort.as_deref(), Some("high"));
    assert_eq!(cur.api_key.as_deref(), Some("sk-1"));
    assert_eq!(cur.providers.len(), 2);
    let main = &cur.providers.iter().find(|(k, _)| k == "main").unwrap().1;
    assert_eq!(main, &c);
    let o = &cur.providers.iter().find(|(k, _)| k == "other").unwrap().1;
    assert_eq!(o, &other);
}

#[test]
fn read_missing_files_gives_defaults() {
    let cur = read_codex_current_config(None, None).unwrap();
    assert!(cur.providers.is_empty());
    assert_eq!(cur.model_provider, "openai");
    assert_eq!(cur.model, "");
    assert!(cur.model_reasoning_effort.is_none());
    assert!(cur.api_key.is_none());
    let blank = read_codex_current_config(Some("  \n".to_string()), Some("".to_string())).unwrap();
    assert_eq!(blank.model_provider, "openai");
}

#[test]
fn read_reports_malformed_files() {
    let bad_toml = read_codex_current_config(Some("model = ".to_string()), None);
    assert!(matches!(bad_toml, Err(CodexError::ParseError(_))));
    let bad_json = read_codex_current_config(None, Some("{not json".to_string()));
    assert!(matches!(bad_json, Err(CodexError::ParseError(_))));
    let not_object = read_codex_current_config(None, Some("[1, 2]".to_string()));
    assert!(matches!(not_object, Err(CodexError::InvalidArgument(_))));
}

#[test]
fn apply_refuses_malformed_config_and_keeps_marker() {
    let mut store = empty_store();
    save_codex_profile(&mut store, profile("a", "a", Vec::new(), "x", "m"), fresh(1), at(1_700_000_000)).unwrap();
    let r = apply_codex_profile(&mut store, "a", Some("[broken".to_string()), None);
    assert!(matches!(r, Err(CodexError::ParseError(_))));
    assert_eq!(get_active_codex_profile_id(&store), None);
}

#[test]
fn apply_unknown_or_invalid_id() {
    let mut store = empty_store();
    assert!(matches!(apply_codex_profile(&mut store, "nope", None, None), Err(CodexError::NotFound(_))));
    assert!(matches!(apply_codex_profile(&mut store, "../x", None, None), Err(CodexError::InvalidArgument(_))));
}

#[test]
fn delete_then_get_is_not_found() {
    let mut store = empty_store();
    save_codex_profile(&mut store, profile("gone", "g", Vec::new(), "x", "m"), fresh(1), at(1_700_000_000)).unwrap();
    assert!(get_codex_profile(&store, "gone").is_ok());
    delete_codex_profile(&mut store, "gone").unwrap();
    assert!(matches!(get_codex_profile(&store, "gone"), Err(CodexError::NotFound(_))));
    delete_codex_profile(&mut store, "gone").unwrap();
}

#[test]
fn delete_clears_only_matching_marker() {
    let mut store = empty_store();
    save_codex_profile(&mut store, profile("one", "1", Vec::new(), "x", "m"), fresh(1), at(1_700_000_000)).unwrap();
    save_codex_profile(&mut store, profile("two", "2", Vec::new(), "x", "m"), fresh(1), at(1_700_000_000)).unwrap();
    set_active_profile_id(&mut store, "one");
    delete_codex_profile(&mut store, "two").unwrap();
    assert_eq!(get_active_codex_profile_id(&store).as_deref(), Some("one"));
    delete_codex_profile(&mut store, "one").unwrap();
    assert_eq!(get_active_codex_profile_id(&store), None);
}

#[test]
fn resave_keeps_creation_time() {
    let mut store = empty_store();
    let id = save_codex_profile(&mut store, profile("", "n", Vec::new(), "x", "m"), fresh(1), at(1_700_000_000)).unwrap();
    let first = get_codex_profile(&store, &id).unwrap().clone();
    assert_eq!(first.created_at, first.updated_at);
    let mut again = first.clone();
    again.created_at = "1999-01-01T00:00:00+00:00".to_string();
    again.name = "renamed".to_string();
    save_codex_profile(&mut store, again, fresh(9), at(1_700_000_500)).unwrap();
    let second = get_codex_profile(&store, &id).unwrap();
    assert_eq!(second.created_at, first.created_at);
    assert_eq!(second.name, "renamed");
    assert_eq!(second.updated_at, at(1_700_000_500));
    assert!(second.updated_at > first.updated_at);
    assert_eq!(first.created_at, at(1_700_000_000));
}

#[test]
fn save_new_id_keeps_given_creation_time() {
    let mut store = empty_store();
    let mut p = profile("given", "g", Vec::new(), "x", "m");
    p.created_at = "2020-02-02T00:00:00+00:00".to_string();
    save_codex_profile(&mut store, p, fresh(1), at(1_700_000_000)).unwrap();
    assert_eq!(get_codex_profile(&store, "given").unwrap().created_at, "2020-02-02T00:00:00+00:00");
    let blank = profile("blank", "b", Vec::new(), "x", "m");
    save_codex_profile(&mut store, blank, fresh(1), at(1_700_000_000)).unwrap();
    assert!(!get_codex_profile(&store, "blank").unwrap().created_at.is_empty());
}

#[test]
fn save_refuses_invalid_id() {
    let mut store = empty_store();
    let r = save_codex_profile(&mut store, profile("a b", "n", Vec::new(), "x", "m"), fresh(1), at(1_700_000_000));
    assert!(matches!(r, Err(CodexError::InvalidArgument(_))));
    assert!(store.profiles.is_empty());
}

#[test]
fn duplicate_gets_new_id_and_name() {
    let mut store = empty_store();
    let mut p = profile("src", "Source", vec![("p1".to_string(), provider(Some("m"), Some("k")))], "p1", "m");
    p.created_at = "2001-01-01T00:00:00+00:00".to_string();
    save_codex_profile(&mut store, p, fresh(1), at(1_700_000_000)).unwrap();
    let nid = duplicate_codex_profile(&mut store, "src", "Copy".to_string(), fresh(2), at(1_700_000_100)).unwrap();
    assert_ne!(nid, "src");
    let src = get_codex_profile(&store, "src").unwrap().clone();
    let copy = get_codex_profile(&store, &nid).unwrap();
    assert_eq!(copy.name, "Copy");
    assert_eq!(copy.created_at, copy.updated_at);
    assert!(copy.created_at > src.created_at);
    assert_eq!(copy.providers, src.providers);
    assert!(matches!(duplicate_codex_profile(&mut store, "none", "x".to_string(), fresh(3), at(1_700_000_100)), Err(CodexError::NotFound(_))));
}

#[test]
fn default_profile_is_complete() {
    let mut store = empty_store();
    let id = create_default_codex_profile(&mut store, fresh(4), at(1_700_000_000)).unwrap();
    let p = get_codex_profile(&store, &id).unwrap();
    assert_eq!(p.name, "默认");
    assert_eq!(p.model_provider, "custom");
    assert_eq!(p.model, "gpt-5.2");
    assert_eq!(p.providers.len(), 1);
    assert_eq!(p.providers[0].1.wire_api.as_deref(), Some("responses"));
    assert_eq!(p.api_key.as_deref(), Some(""));
    assert_eq!(id.len(), 36);
}

#[test]
fn profile_ids_are_checked() {
    assert!(validate_profile_id("abc-DEF_09").is_ok());
    assert!(matches!(validate_profile_id(""), Err(CodexError::InvalidArgument(_))));
    assert!(validate_profile_id("a.b").is_err());
    assert!(validate_profile_id("é").is_err());
    assert!(get_profile_path("/tmp/profiles", "x/y").is_err());
    let p = get_profile_path("/tmp/profiles", "abc").unwrap();
    assert_eq!(std::path::Path::new(&p), std::path::Path::new("/tmp/profiles/abc.json"));
}

#[test]
fn tool_file_paths() {
    assert_eq!(std::path::Path::new(&get_codex_auth_path("/h/.codex")), std::path::Path::new("/h/.codex/auth.json"));
    assert_eq!(std::path::Path::new(&get_codex_config_path("/h/.codex")), std::path::Path::new("/h/.codex/config.toml"));
}

#[test]
fn active_marker_is_trimmed() {
    assert_eq!(parse_active_marker("  abc\n").as_deref(), Some("abc"));
    assert_eq!(parse_active_marker(" \n"), None);
}

#[test]
fn provider_table_round_trip() {
    let mut c = provider(Some("private"), Some("secret"));
    c.name = Some("N".to_string());
    c.requires_openai_auth = Some(true);
    c.http_headers = Some(vec![("a".to_string(), "1".to_string())]);
    let item = provider_config_to_toml(&c);
    match &item {
        TomlItem::Table(t) => {
            let keys: Vec<&str> = t.iter().map(|(k, _)| k.as_str()).collect();
            assert_eq!(keys, vec!["name", "requires_openai_auth", "http_headers"]);
        },
        _ => panic!("not a table"),
    }
    let back = toml_to_provider_config(&item).unwrap();
    assert_eq!(back.name.as_deref(), Some("N"));
    assert_eq!(back.requires_openai_auth, Some(true));
    assert_eq!(back.http_headers, Some(vec![("a".to_string(), "1".to_string())]));
    assert!(back.model.is_none() && back.api_key.is_none());
    assert!(matches!(toml_to_provider_config(&TomlItem::Str("x".to_string())), Err(CodexError::ParseError(_))));
}

#[test]
fn list_sorts_by_name_ignoring_case() {
    let ps = vec![
        profile("a", "beta", Vec::new(), "x", "m"),
        profile("b", "Alpha", Vec::new(), "x", "m"),
        profile("c", "alpha2", Vec::new(), "x", "m"),
        profile("d", "Gamma", Vec::new(), "x", "m"),
    ];
    let sorted = list_codex_profiles(ps);
    let names: Vec<&str> = sorted.iter().map(|p| p.name.as_str()).collect();
    assert_eq!(names, vec!["Alpha", "alpha2", "beta", "Gamma"]);
    assert!(list_codex_profiles(Vec::new()).is_empty());
}

#[test]
fn config_status_reports_paths() {
    let s = codex_profiles::paths::get_codex_config_status("/h/.codex", true, false);
    assert!(s.auth_exists);
    assert!(!s.config_exists);
    assert_eq!(std::path::Path::new(&s.auth_path), std::path::Path::new("/h/.codex/auth.json"));
    assert_eq!(std::path::Path::new(&s.config_path), std::path::Path::new("/h/.codex/config.toml"));
    let e = CodexError::NotFound("Profile not found".to_string());
    assert_eq!(e.message(), "Profile not found");
}

#[test]
fn drawn_ids_must_be_free_and_valid() {
    let mut store = empty_store();
    let id = save_codex_profile(&mut store, profile("", "a", Vec::new(), "x", "m"), fresh(5), at(10)).unwrap();
    assert_eq!(id, fresh(5));
    let again = save_codex_profile(&mut store, profile("", "b", Vec::new(), "x", "m"), fresh(5), at(11));
    assert!(matches!(again, Err(CodexError::AlreadyExists(_))));
    let bad = save_codex_profile(&mut store, profile("", "b", Vec::new(), "x", "m"), "no good".to_string(), at(11));
    assert!(matches!(bad, Err(CodexError::InvalidArgument(_))));
    let dup = duplicate_codex_profile(&mut store, &id, "c".to_string(), fresh(5), at(12));
    assert!(matches!(dup, Err(CodexError::AlreadyExists(_))));
    assert!(matches!(create_default_codex_profile(&mut store, fresh(5), at(12)), Err(CodexError::AlreadyExists(_))));
    assert_eq!(store.profiles.len(), 1);
}

#[test]
fn fresh_ids_and_timestamps_are_formatted() {
    let id = new_profile_id([0xab; 16]);
    assert_eq!(id.len(), 36);
    assert!(validate_profile_id(&id).is_ok());
    assert_eq!(&id[14..15], "4");
    assert_eq!(at(0), "1970-01-01T00:00:00+00:00");
    assert!(timestamp_rfc3339(i64::MAX, 0).is_none());
}

#[test]
fn error_messages_are_fixed() {
    assert_eq!(validate_profile_id("").unwrap_err().message(), "Invalid profile id");
    let r = read_codex_current_config(None, Some("7".to_string()));
    assert_eq!(r.unwrap_err().message(), "Invalid JSON: expected object");
    let e = toml_to_provider_config(&TomlItem::Bool(true)).unwrap_err();
    assert_eq!(e.message(), "Provider config must be a table");
    let store = empty_store();
    assert_eq!(get_codex_profile(&store, "x").unwrap_err().message(), "Profile not found");
}

#[test]
fn blank_config_without_secret_reads_as_default() {
    let cur = read_codex_current_config(Some("\t\n".to_string()), None).unwrap();
    assert!(cur.providers.is_empty());
    assert_eq!(cur.model_provider, "openai");
    assert_eq!(cur.model, "");
    assert!(cur.api_key.is_none());
}
