//! The profile store: the records that are known, keyed by id, and the
//! active profile marker. Reading and writing their files is the caller's
//! part; the rules of each operation are here.

use vstd::prelude::*;
use crate::assoc::{map_of, find_last, remove_key, lemma_map_of_push, lemma_without_from};
use crate::model::{CodexError, CodexProfile, CodexProviderConfig, ProviderView, opt_str, providers_view};
use crate::paths::{valid_profile_id, validate_profile_id, is_id_char};
use crate::toml_doc::{is_blank, blank, is_space, is_space_char};

verus! {

/// Relies on `uuid::Builder::from_random_bytes` and `Uuid`'s `Display`,
/// which writes the hyphenated lower-case form: 36 characters of hex digits
/// and hyphens.
#[verifier::external_body]
fn uuid_text(random: [u8; 16]) -> (r: String)
    ensures
        r@.len() == 36,
        forall|i: int| 0 <= i < r@.len() ==> ('0' <= #[trigger] r@[i] <= '9') || ('a' <= r@[i] <= 'f') || r@[i] == '-',
{
    uuid::Builder::from_random_bytes(random).into_uuid().to_string()
}

/// Relies on `chrono::DateTime::from_timestamp`, which gives `None` for a
/// time it cannot represent, and `DateTime::to_rfc3339`.
#[verifier::external_body]
fn rfc3339_at(secs: i64, nanos: u32) -> (r: Option<String>) {
    match chrono::DateTime::from_timestamp(secs, nanos) {
        Some(t) => Some(t.to_rfc3339()),
        None => None,
    }
}

/// A fresh profile id: the version-4 UUID made of 16 random bytes, which is
/// a valid id.
pub fn new_profile_id(random: [u8; 16]) -> (r: String)
    ensures
        r@.len() == 36,
        valid_profile_id(r@),
{
    let id = uuid_text(random);
    proof {
        assert forall|i: int| 0 <= i < id@.len() implies is_id_char(#[trigger] id@[i]) by {}
    }
    id
}

/// The RFC 3339 text of a time given as seconds and nanoseconds since the
/// Unix epoch; none for a time out of range.
pub fn timestamp_rfc3339(secs: i64, nanos: u32) -> (r: Option<String>) {
    rfc3339_at(secs, nanos)
}

/// The text without its leading white space.
pub open spec fn trim_start(s: Seq<char>) -> Seq<char>
    decreases s.len(),
{
    if s.len() > 0 && is_space(s[0]) {
        trim_start(s.drop_first())
    } else {
        s
    }
}

/// The text without its trailing white space.
pub open spec fn trim_end(s: Seq<char>) -> Seq<char>
    decreases s.len(),
{
    if s.len() > 0 && is_space(s.last()) {
        trim_end(s.drop_last())
    } else {
        s
    }
}

/// The text without leading and trailing white space, as `str::trim` leaves
/// it.
pub open spec fn trimmed(s: Seq<char>) -> Seq<char> {
    trim_end(trim_start(s))
}

/// The text without leading and trailing white space.
pub fn trim_str(s: &str) -> (r: String)
    ensures
        r@ == trimmed(s@),
{
    let n = s.unicode_len();
    let mut i: usize = 0;
    assert(s@.subrange(0, n as int) =~= s@);
    while i < n && is_space_char(s.get_char(i))
        invariant
            n == s@.len(),
            i <= n,
            trim_start(s@) == trim_start(s@.subrange(i as int, n as int)),
        decreases n - i,
    {
        proof {
            assert(s@.subrange(i as int, n as int).drop_first() =~= s@.subrange(i + 1, n as int));
        }
        i = i + 1;
    }
    let mut j: usize = n;
    proof {
        if i < n {
            assert(!is_space(s@.subrange(i as int, n as int)[0]));
        }
    }
    while j > i && is_space_char(s.get_char(j - 1))
        invariant
            n == s@.len(),
            i <= j <= n,
            trim_start(s@) == s@.subrange(i as int, n as int),
            trimmed(s@) == trim_end(s@.subrange(i as int, j as int)),
        decreases j - i,
    {
        proof {
            assert(s@.subrange(i as int, j as int).drop_last() =~= s@.subrange(i as int, j - 1));
        }
        j = j - 1;
    }
    let t = s.substring_char(i, j);
    String::from_str(t)
}

/// The profiles that are known and the active profile marker.
pub struct ProfileStore {
    pub profiles: Vec<(String, CodexProfile)>,
    pub active: Option<String>,
}

/// `q` is what saving `p` at time `now` stores, given the records before:
/// every field of `p` but id and timestamps kept; a fresh valid id that no
/// record had, created now, when `p`'s id is empty; else `p`'s id, with the
/// stored record's creation time when there is one, else `p`'s own when it
/// is not blank, else now. The update time is now.
pub open spec fn saved_as(records: Map<Seq<char>, CodexProfile>, p: CodexProfile, q: CodexProfile, now: Seq<char>) -> bool {
    &&& q == CodexProfile { id: q.id, created_at: q.created_at, updated_at: q.updated_at, ..p }
    &&& valid_profile_id(q.id@)
    &&& q.updated_at@ == now
    &&& if p.id@.len() == 0 {
        &&& q.created_at@ == now
        &&& !records.contains_key(q.id@)
    } else {
        &&& q.id@ == p.id@
        &&& q.created_at@ == if records.contains_key(p.id@) {
            records[p.id@].created_at@
        } else if blank(p.created_at@) {
            now
        } else {
            p.created_at@
        }
    }
}

/// The active marker after deleting profile `id`: cleared if it named `id`.
pub open spec fn active_after_delete(active: Option<String>, id: Seq<char>) -> Option<String> {
    match active {
        Some(a) => if a@ == id { None } else { active },
        None => None,
    }
}

/// Two profiles that agree on everything but id, name and timestamps.
pub open spec fn same_settings(a: CodexProfile, b: CodexProfile) -> bool {
    &&& opt_str(a.description) == opt_str(b.description)
    &&& providers_view(a.providers@) == providers_view(b.providers@)
    &&& a.model_provider@ == b.model_provider@
    &&& a.model@ == b.model@
    &&& opt_str(a.model_reasoning_effort) == opt_str(b.model_reasoning_effort)
    &&& opt_str(a.api_key) == opt_str(b.api_key)
}

impl ProfileStore {
    /// The known profiles by id.
    pub open spec fn records(&self) -> Map<Seq<char>, CodexProfile> {
        map_of(self.profiles@)
    }

    /// Each entry is keyed by its profile's id.
    pub open spec fn wf(&self) -> bool {
        forall|i: int| 0 <= i < self.profiles@.len() ==> (#[trigger] self.profiles@[i]).0@ == self.profiles@[i].1.id@
    }

    /// A store of the given records (a later record with the same id wins)
    /// and marker.
    pub fn new(records: Vec<CodexProfile>, active: Option<String>) -> (r: ProfileStore)
        ensures
            r.wf(),
            r.active == active,
            r.profiles@.len() == records@.len(),
            forall|i: int| 0 <= i < records@.len() ==> (#[trigger] r.profiles@[i]).1 == records@[i],
    {
        let ghost all = records@;
        let mut rest = records;
        let mut out: Vec<(String, CodexProfile)> = Vec::new();
        while rest.len() > 0
            invariant
                all.len() == out@.len() + rest@.len(),
                rest@ == all.subrange(out@.len() as int, all.len() as int),
                forall|i: int| 0 <= i < out@.len() ==> (#[trigger] out@[i]).1 == all[i] && out@[i].0@ == all[i].id@,
            decreases rest.len(),
        {
            proof {
                assert(rest@[0] == all[out@.len() as int]);
            }
            let p = rest.remove(0);
            out.push((p.id.clone(), p));
        }
        ProfileStore { profiles: out, active }
    }
}

/// The stored profile with id `id`: refused as an invalid argument for an
/// invalid id, not found when no record has it.
pub fn load_profile_by_id<'a>(store: &'a ProfileStore, id: &str) -> (r: Result<&'a CodexProfile, CodexError>)
    ensures
        !valid_profile_id(id@) ==> r is Err && r->Err_0 is InvalidArgument,
        valid_profile_id(id@) && !store.records().contains_key(id@) ==> r is Err && r->Err_0 is NotFound
            && r->Err_0->NotFound_0@ == "Profile not found"@,
        valid_profile_id(id@) && store.records().contains_key(id@) ==> r is Ok && *r->Ok_0 == store.records()[id@],
{
    match validate_profile_id(id) {
        Err(e) => Err(e),
        Ok(()) => match find_last(&store.profiles, &String::from_str(id)) {
            Some(i) => Ok(&store.profiles[i].1),
            None => Err(CodexError::NotFound(String::from_str("Profile not found"))),
        },
    }
}

/// The stored profile with id `id`, as `load_profile_by_id` gives it.
pub fn get_codex_profile<'a>(store: &'a ProfileStore, id: &str) -> (r: Result<&'a CodexProfile, CodexError>)
    ensures
        !valid_profile_id(id@) ==> r is Err && r->Err_0 is InvalidArgument,
        valid_profile_id(id@) && !store.records().contains_key(id@) ==> r is Err && r->Err_0 is NotFound,
        valid_profile_id(id@) && store.records().contains_key(id@) ==> r is Ok && *r->Ok_0 == store.records()[id@],
{
    load_profile_by_id(store, id)
}

/// Stores `q` under its id, replacing any record with that id.
fn put_record(store: &mut ProfileStore, q: CodexProfile)
    requires
        old(store).wf(),
    ensures
        final(store).wf(),
        final(store).active == old(store).active,
        final(store).records() == old(store).records().insert(q.id@, q),
{
    let ghost before = store.profiles@;
    let mut entries: Vec<(String, CodexProfile)> = Vec::new();
    std::mem::swap(&mut entries, &mut store.profiles);
    let mut kept = remove_key(entries, &q.id);
    proof {
        assert forall|i: int| 0 <= i < kept@.len() implies (#[trigger] kept@[i]).0@ == kept@[i].1.id@ by {
            lemma_without_from(before, set![q.id@], i);
        }
        lemma_map_of_push(kept@, (q.id, q));
    }
    let key = q.id.clone();
    kept.push((key, q));
    store.profiles = kept;
}

/// Checks that a drawn id is a valid id that no record has.
fn check_fresh_id(store: &ProfileStore, fresh_id: &String) -> (r: Result<(), CodexError>)
    ensures
        r is Ok <==> valid_profile_id(fresh_id@) && !store.records().contains_key(fresh_id@),
        !valid_profile_id(fresh_id@) ==> r is Err && r->Err_0 is InvalidArgument,
        valid_profile_id(fresh_id@) && store.records().contains_key(fresh_id@) ==> r is Err
            && r->Err_0 is AlreadyExists,
{
    validate_profile_id(fresh_id.as_str())?;
    if find_last(&store.profiles, fresh_id).is_some() {
        return Err(CodexError::AlreadyExists(String::from_str("Profile id already in use")));
    }
    Ok(())
}

/// Saves a profile at time `now`. An empty id gets `fresh_id`, which must
/// be a valid id that no record has, and the creation time now; a stored
/// profile keeps its creation time whatever the caller sent; a new id keeps
/// the caller's creation time unless it is blank. The update time is now.
/// Returns the id under which the profile is stored.
pub fn save_codex_profile(store: &mut ProfileStore, profile: CodexProfile, fresh_id: String, now: String) -> (r: Result<String, CodexError>)
    requires
        old(store).wf(),
    ensures
        final(store).wf(),
        final(store).active == old(store).active,
        r is Err ==> final(store).records() == old(store).records(),
        profile.id@.len() > 0 && !valid_profile_id(profile.id@) ==> r is Err && r->Err_0 is InvalidArgument,
        profile.id@.len() > 0 && valid_profile_id(profile.id@) ==> r is Ok && r->Ok_0@ == profile.id@,
        profile.id@.len() == 0 ==> (r is Ok <==> valid_profile_id(fresh_id@) && !old(store).records().contains_key(fresh_id@)),
        profile.id@.len() == 0 && !valid_profile_id(fresh_id@) ==> r is Err && r->Err_0 is InvalidArgument,
        profile.id@.len() == 0 && valid_profile_id(fresh_id@) && old(store).records().contains_key(fresh_id@)
            ==> r is Err && r->Err_0 is AlreadyExists,
        profile.id@.len() == 0 && r is Ok ==> r->Ok_0@ == fresh_id@,
        r is Ok ==> final(store).records().contains_key(r->Ok_0@)
            && final(store).records()[r->Ok_0@].id@ == r->Ok_0@
            && final(store).records() == old(store).records().insert(r->Ok_0@, final(store).records()[r->Ok_0@])
            && saved_as(old(store).records(), profile, final(store).records()[r->Ok_0@], now@),
{
    let mut p = profile;
    if p.id.unicode_len() == 0 {
        check_fresh_id(store, &fresh_id)?;
        p.id = fresh_id;
        p.created_at = now.clone();
    } else {
        validate_profile_id(p.id.as_str())?;
        match find_last(&store.profiles, &p.id) {
            Some(i) => {
                p.created_at = store.profiles[i].1.created_at.clone();
            },
            None => {
                if is_blank(p.created_at.as_str()) {
                    p.created_at = now.clone();
                }
            },
        }
    }
    p.updated_at = now;
    let id = p.id.clone();
    put_record(store, p);
    Ok(id)
}

/// Deletes profile `id`; a missing record is no error. The active marker is
/// cleared when it named `id`.
pub fn delete_codex_profile(store: &mut ProfileStore, id: &str) -> (r: Result<(), CodexError>)
    requires
        old(store).wf(),
    ensures
        final(store).wf(),
        !valid_profile_id(id@) ==> r is Err && r->Err_0 is InvalidArgument
            && final(store).records() == old(store).records() && final(store).active == old(store).active,
        valid_profile_id(id@) ==> r is Ok && final(store).records() == old(store).records().remove(id@)
            && final(store).active == active_after_delete(old(store).active, id@),
{
    match validate_profile_id(id) {
        Err(e) => {
            return Err(e);
        },
        Ok(()) => {},
    }
    let key = String::from_str(id);
    let ghost before = store.profiles@;
    let mut entries: Vec<(String, CodexProfile)> = Vec::new();
    std::mem::swap(&mut entries, &mut store.profiles);
    let kept = remove_key(entries, &key);
    proof {
        assert forall|i: int| 0 <= i < kept@.len() implies (#[trigger] kept@[i]).0@ == kept@[i].1.id@ by {
            lemma_without_from(before, set![key@], i);
        }
    }
    store.profiles = kept;
    let clear = match &store.active {
        Some(a) => *a == key,
        None => false,
    };
    if clear {
        store.active = None;
    }
    Ok(())
}

fn copy_pairs(v: &Vec<(String, String)>) -> (r: Vec<(String, String)>)
    ensures
        r@ == v@,
{
    let mut out: Vec<(String, String)> = Vec::new();
    let mut i: usize = 0;
    while i < v.len()
        invariant
            i <= v@.len(),
            out@ == v@.take(i as int),
        decreases v@.len() - i,
    {
        out.push((v[i].0.clone(), v[i].1.clone()));
        proof {
            assert(v@.take(i + 1) == v@.take(i as int).push(v@[i as int]));
        }
        i = i + 1;
    }
    assert(v@.take(v@.len() as int) == v@);
    out
}

fn copy_opt_pairs(o: &Option<Vec<(String, String)>>) -> (r: Option<Vec<(String, String)>>)
    ensures
        crate::model::opt_str_map(r) == crate::model::opt_str_map(*o),
{
    match o {
        Some(v) => Some(copy_pairs(v)),
        None => None,
    }
}

/// A copy of a provider configuration.
pub fn copy_provider(c: &CodexProviderConfig) -> (r: CodexProviderConfig)
    ensures
        r@ == c@,
{
    CodexProviderConfig {
        name: c.name.clone(),
        base_url: c.base_url.clone(),
        wire_api: c.wire_api.clone(),
        requires_openai_auth: c.requires_openai_auth,
        env_key: c.env_key.clone(),
        env_key_instructions: c.env_key_instructions.clone(),
        http_headers: copy_opt_pairs(&c.http_headers),
        query_params: copy_opt_pairs(&c.query_params),
        model: c.model.clone(),
        model_reasoning_effort: c.model_reasoning_effort.clone(),
        api_key: c.api_key.clone(),
    }
}

proof fn lemma_providers_view_match(a: Seq<(String, CodexProviderConfig)>, b: Seq<(String, CodexProviderConfig)>)
    requires
        a.len() == b.len(),
        forall|j: int| 0 <= j < a.len() ==> (#[trigger] a[j]).0 == b[j].0 && a[j].1@ == b[j].1@,
    ensures
        providers_view(a) == providers_view(b),
    decreases a.len(),
{
    if a.len() > 0 {
        let (a_init, b_init) = (a.drop_last(), b.drop_last());
        assert forall|j: int| 0 <= j < a_init.len() implies (#[trigger] a_init[j]).0 == b_init[j].0 && a_init[j].1@ == b_init[j].1@ by {
            assert(a_init[j] == a[j]);
        }
        lemma_providers_view_match(a_init, b_init);
        assert(providers_view(a) =~= providers_view(a_init).insert(a.last().0@, a.last().1@));
        assert(providers_view(b) =~= providers_view(b_init).insert(b.last().0@, b.last().1@));
    } else {
        assert(providers_view(a) =~= providers_view(b));
    }
}

/// A copy of a provider mapping.
pub fn copy_providers(v: &Vec<(String, CodexProviderConfig)>) -> (r: Vec<(String, CodexProviderConfig)>)
    ensures
        providers_view(r@) == providers_view(v@),
{
    let mut out: Vec<(String, CodexProviderConfig)> = Vec::new();
    let mut i: usize = 0;
    while i < v.len()
        invariant
            i <= v@.len(),
            out@.len() == i,
            forall|j: int| 0 <= j < i ==> (#[trigger] out@[j]).0 == v@[j].0 && out@[j].1@ == v@[j].1@,
        decreases v@.len() - i,
    {
        out.push((v[i].0.clone(), copy_provider(&v[i].1)));
        i = i + 1;
    }
    proof {
        lemma_providers_view_match(out@, v@);
    }
    out
}

/// Duplicates profile `id` at time `now` under the drawn id `fresh_id`,
/// which must be a valid id that no record has, and the name `new_name`:
/// both timestamps now, everything else copied. Returns the new id.
pub fn duplicate_codex_profile(
    store: &mut ProfileStore,
    id: &str,
    new_name: String,
    fresh_id: String,
    now: String,
) -> (r: Result<String, CodexError>)
    requires
        old(store).wf(),
    ensures
        final(store).wf(),
        final(store).active == old(store).active,
        r is Ok <==> valid_profile_id(id@) && old(store).records().contains_key(id@)
            && valid_profile_id(fresh_id@) && !old(store).records().contains_key(fresh_id@),
        !valid_profile_id(id@) ==> r is Err && r->Err_0 is InvalidArgument,
        valid_profile_id(id@) && !old(store).records().contains_key(id@) ==> r is Err && r->Err_0 is NotFound,
        valid_profile_id(id@) && old(store).records().contains_key(id@) && !valid_profile_id(fresh_id@)
            ==> r is Err && r->Err_0 is InvalidArgument,
        valid_profile_id(id@) && old(store).records().contains_key(id@) && valid_profile_id(fresh_id@)
            && old(store).records().contains_key(fresh_id@) ==> r is Err && r->Err_0 is AlreadyExists,
        r is Err ==> final(store).records() == old(store).records(),
        r is Ok ==> {
            let q = final(store).records()[fresh_id@];
            &&& r->Ok_0@ == fresh_id@
            &&& fresh_id@ != id@
            &&& final(store).records() == old(store).records().insert(fresh_id@, q)
            &&& q.id@ == fresh_id@
            &&& q.name@ == new_name@
            &&& q.created_at@ == now@
            &&& q.updated_at@ == now@
            &&& same_settings(q, old(store).records()[id@])
        },
{
    let src = match load_profile_by_id(store, id) {
        Err(e) => {
            return Err(e);
        },
        Ok(p) => p,
    };
    check_fresh_id(store, &fresh_id)?;
    let q = CodexProfile {
        id: fresh_id.clone(),
        name: new_name,
        description: src.description.clone(),
        created_at: now.clone(),
        updated_at: now,
        providers: copy_providers(&src.providers),
        model_provider: src.model_provider.clone(),
        model: src.model.clone(),
        model_reasoning_effort: src.model_reasoning_effort.clone(),
        api_key: src.api_key.clone(),
    };
    put_record(store, q);
    Ok(fresh_id)
}

/// The provider of the starter profile.
pub open spec fn default_provider_view() -> ProviderView {
    ProviderView {
        name: Some("Custom Provider"@),
        base_url: None,
        wire_api: Some("responses"@),
        requires_openai_auth: Some(true),
        env_key: None,
        env_key_instructions: None,
        http_headers: None,
        query_params: None,
        model: Some("gpt-5.2"@),
        model_reasoning_effort: Some("high"@),
        api_key: Some(Seq::empty()),
    }
}

/// `q` is the starter profile: one provider `custom` with a placeholder
/// (empty) key, selected by default, model `gpt-5.2` at `high` effort.
pub open spec fn is_default_profile(q: CodexProfile, now: Seq<char>) -> bool {
    &&& valid_profile_id(q.id@)
    &&& q.name@ == "默认"@
    &&& q.description is None
    &&& q.created_at@ == now
    &&& q.updated_at@ == now
    &&& providers_view(q.providers@) == map![("custom"@) => default_provider_view()]
    &&& q.model_provider@ == "custom"@
    &&& q.model@ == "gpt-5.2"@
    &&& opt_str(q.model_reasoning_effort) == Some("high"@)
    &&& opt_str(q.api_key) == Some(Seq::<char>::empty())
}

/// Creates and stores the starter profile at time `now` under the drawn id
/// `fresh_id`, which must be a valid id that no record has; returns it.
pub fn create_default_codex_profile(store: &mut ProfileStore, fresh_id: String, now: String) -> (r: Result<String, CodexError>)
    requires
        old(store).wf(),
    ensures
        final(store).wf(),
        final(store).active == old(store).active,
        r is Ok <==> valid_profile_id(fresh_id@) && !old(store).records().contains_key(fresh_id@),
        !valid_profile_id(fresh_id@) ==> r is Err && r->Err_0 is InvalidArgument,
        valid_profile_id(fresh_id@) && old(store).records().contains_key(fresh_id@) ==> r is Err
            && r->Err_0 is AlreadyExists,
        r is Err ==> final(store).records() == old(store).records(),
        r is Ok ==> r->Ok_0@ == fresh_id@
            && final(store).records() == old(store).records().insert(fresh_id@, final(store).records()[fresh_id@])
            && final(store).records()[fresh_id@].id@ == fresh_id@
            && is_default_profile(final(store).records()[fresh_id@], now@),
{
    check_fresh_id(store, &fresh_id)?;
    let id = fresh_id;
    let provider = CodexProviderConfig {
        name: Some(String::from_str("Custom Provider")),
        base_url: None,
        wire_api: Some(String::from_str("responses")),
        requires_openai_auth: Some(true),
        env_key: None,
        env_key_instructions: None,
        http_headers: None,
        query_params: None,
        model: Some(String::from_str("gpt-5.2")),
        model_reasoning_effort: Some(String::from_str("high")),
        api_key: Some(String::new()),
    };
    let ghost pv = provider@;
    assert(pv == default_provider_view());
    let mut providers: Vec<(String, CodexProviderConfig)> = Vec::new();
    let ghost empty = providers@;
    let entry = (String::from_str("custom"), provider);
    proof {
        lemma_map_of_push(empty, entry);
        assert(map_of(empty) =~= Map::<Seq<char>, CodexProviderConfig>::empty());
    }
    providers.push(entry);
    proof {
        assert(providers_view(providers@) =~= map![("custom"@) => default_provider_view()]);
    }
    let q = CodexProfile {
        id: id.clone(),
        name: String::from_str("默认"),
        description: None,
        created_at: now.clone(),
        updated_at: now,
        providers,
        model_provider: String::from_str("custom"),
        model: String::from_str("gpt-5.2"),
        model_reasoning_effort: Some(String::from_str("high")),
        api_key: Some(String::new()),
    };
    put_record(store, q);
    Ok(id)
}

/// The active profile id that a marker file's text gives: the text trimmed,
/// none when that leaves nothing.
pub fn parse_active_marker(content: &str) -> (r: Option<String>)
    ensures
        trimmed(content@).len() == 0 ==> r is None,
        trimmed(content@).len() > 0 ==> r is Some && r->0@ == trimmed(content@),
{
    let t = trim_str(content);
    if t.unicode_len() == 0 {
        None
    } else {
        Some(t)
    }
}

/// The active profile id, if any.
pub fn get_active_codex_profile_id(store: &ProfileStore) -> (r: Option<String>)
    ensures
        opt_str(r) == opt_str(store.active),
{
    store.active.clone()
}

/// Marks profile `id` as active; the id is taken as it is.
pub fn set_active_profile_id(store: &mut ProfileStore, id: &str)
    ensures
        final(store).profiles == old(store).profiles,
        final(store).active is Some && final(store).active->0@ == id@,
{
    store.active = Some(String::from_str(id));
}

} // verus!
