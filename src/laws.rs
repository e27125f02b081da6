//! Properties that relate several operations, proved over the same spec
//! functions that the operations' contracts use.

use vstd::prelude::*;
use crate::assoc::map_of;
use crate::model::{CodexProfile, providers_view};
use crate::toml_doc::TomlItem;
use crate::json_doc::JsonItem;
use crate::codec::provider_of_item;
use crate::sync::{managed_keys, resolved_provider_id, resolved_provider};
use crate::live::{provider_entries, live_providers, section_providers, lemma_provider_entries_push};
use crate::apply::config_merged;
use crate::store::{saved_as, active_after_delete};
use crate::paths::valid_profile_id;

verus! {

/// Saving the stored result of a save again keeps its id and creation time,
/// whatever creation time the second caller sent, and sets the update time
/// to the time of the second save; when nothing else was changed, only the
/// update time differs. A profile that was stored before
/// the first save keeps that record's creation time throughout.
pub proof fn lemma_resave_keeps_created(
    records: Map<Seq<char>, CodexProfile>,
    p: CodexProfile,
    q: CodexProfile,
    again: CodexProfile,
    stored_again: CodexProfile,
    now: Seq<char>,
    later: Seq<char>,
)
    requires
        saved_as(records, p, q, now),
        again.id@ == q.id@,
        saved_as(records.insert(q.id@, q), again, stored_again, later),
    ensures
        stored_again.id@ == q.id@,
        stored_again.created_at@ == q.created_at@,
        stored_again.updated_at@ == later,
        p.id@.len() > 0 && records.contains_key(p.id@) ==> stored_again.created_at@ == records[p.id@].created_at@,
        again == q ==> stored_again == (CodexProfile { id: stored_again.id, created_at: stored_again.created_at, updated_at: stored_again.updated_at, ..q }),
{
}

/// After a profile is deleted, no record has its id: looking it up is
/// "not found".
pub proof fn lemma_get_after_delete(records: Map<Seq<char>, CodexProfile>, id: Seq<char>)
    requires
        valid_profile_id(id),
    ensures
        !records.remove(id).contains_key(id),
{
}

/// Deleting the active profile clears the marker; deleting another profile
/// leaves it as it was.
pub proof fn lemma_delete_and_active(active: Option<String>, id: Seq<char>)
    ensures
        active is Some && active->0@ == id ==> active_after_delete(active, id) is None,
        !(active is Some && active->0@ == id) ==> active_after_delete(active, id) == active,
{
}

/// When the default provider id names no provider but the mapping is not
/// empty, the provider in force is still a member of the mapping.
pub proof fn lemma_fallback_picks_member(p: CodexProfile)
    requires
        !providers_view(p.providers@).contains_key(p.model_provider@),
        p.providers@.len() > 0,
    ensures
        providers_view(p.providers@).contains_key(resolved_provider_id(p)),
        resolved_provider(p) is Some,
{
    let k = p.providers@[0].0@;
    crate::assoc::lemma_map_of_dom_from_entry(p.providers@, 0);
}

/// Applying a profile leaves every top-level key that it does not own as
/// it was.
pub proof fn lemma_apply_keeps_foreign_key(
    before: Map<Seq<char>, TomlItem>,
    after: Map<Seq<char>, TomlItem>,
    p: CodexProfile,
    k: Seq<char>,
)
    requires
        config_merged(before, after, p),
        !managed_keys().contains(k),
        before.contains_key(k),
    ensures
        after.contains_key(k),
        after[k] == before[k],
{
    assert(before.remove_keys(managed_keys()).contains_key(k));
    assert(after.remove_keys(managed_keys())[k] == before.remove_keys(managed_keys())[k]);
}

proof fn lemma_all_tables(t: Seq<(String, TomlItem)>)
    requires
        forall|j: int| 0 <= j < t.len() ==> (#[trigger] t[j]).1 is Table,
    ensures
        map_of(provider_entries(t)) == map_of(t).map_values(|i: TomlItem| provider_of_item(i)->0),
    decreases t.len(),
{
    if t.len() == 0 {
        assert(map_of(t).map_values(|i: TomlItem| provider_of_item(i)->0) =~= Map::empty());
    } else {
        let p = t.drop_last();
        assert forall|j: int| 0 <= j < p.len() implies (#[trigger] p[j]).1 is Table by {
            assert(p[j] == t[j]);
        }
        lemma_all_tables(p);
        assert(t == p.push(t.last()));
        assert(t.last() == t[t.len() - 1]);
        lemma_provider_entries_push(p, t.last());
        crate::assoc::lemma_map_of_push(provider_entries(p), (t.last().0, provider_of_item(t.last().1)->0));
        assert(map_of(t).map_values(|i: TomlItem| provider_of_item(i)->0) =~= map_of(p).map_values(
            |i: TomlItem| provider_of_item(i)->0,
        ).insert(t.last().0@, provider_of_item(t.last().1)->0));
    }
}

/// Reading back a structured configuration that an apply wrote gives the
/// profile's providers, each with the fields the tool knows as written.
pub proof fn lemma_apply_then_read(
    before: Map<Seq<char>, TomlItem>,
    after: Map<Seq<char>, TomlItem>,
    auth: Map<Seq<char>, JsonItem>,
    p: CodexProfile,
)
    requires
        config_merged(before, after, p),
    ensures
        live_providers(after, auth).dom() == providers_view(p.providers@).dom(),
        forall|k: Seq<char>| #[trigger] live_providers(after, auth).contains_key(k)
            ==> live_providers(after, auth)[k].external() == providers_view(p.providers@)[k].external(),
{
    let pv = providers_view(p.providers@);
    if p.providers@.len() > 0 {
        let t = after["model_providers"@]->Table_0@;
        lemma_all_tables(t);
        let sp = section_providers(after);
        assert(sp == map_of(t).map_values(|i: TomlItem| provider_of_item(i)->0));
        assert(sp.dom() =~= pv.dom());
        assert forall|k: Seq<char>| #[trigger] sp.contains_key(k) implies sp[k].external() == pv[k].external() by {
            assert(map_of(t).contains_key(k));
            assert(provider_of_item(map_of(t)[k]) == Some(pv[k].external()));
        }
        assert(live_providers(after, auth).dom() =~= pv.dom());
    } else {
        crate::assoc::lemma_map_of_empty(p.providers@);
        assert(pv.dom() =~= Set::empty());
        assert(section_providers(after) =~= Map::empty());
        assert(live_providers(after, auth).dom() =~= pv.dom());
    }
}

} // verus!
