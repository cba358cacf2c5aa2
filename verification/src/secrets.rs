//! The keys of the services.

use vstd::prelude::*;
use crate::text::same;

verus! {

/// What came of saving a key.
pub struct ApiKeyResult {
    pub ok: bool,
    pub error: String,
    pub has_key: bool,
}

/// The keys of the services, one for each service at most.
pub struct KeyStore {
    pub version: i32,
    pub api_keys: Vec<(String, String)>,
}

/// The names and texts of a list of entries.
pub open spec fn entry_views(entries: Seq<(String, String)>) -> Seq<(Seq<char>, Seq<char>)> {
    entries.map_values(|e: (String, String)| (e.0@, e.1@))
}

/// No two entries have the same name.
pub open spec fn distinct_names(entries: Seq<(Seq<char>, Seq<char>)>) -> bool {
    forall|i: int, j: int| 0 <= i < j < entries.len() ==> (#[trigger] entries[i]).0 != (
    #[trigger] entries[j]).0
}

/// The text under a name, or nothing where there is none.
pub open spec fn entry_text(entries: Seq<(Seq<char>, Seq<char>)>, name: Seq<char>) -> Seq<char>
    decreases entries.len(),
{
    if entries.len() == 0 {
        seq![]
    } else if entries[0].0 == name {
        entries[0].1
    } else {
        entry_text(entries.drop_first(), name)
    }
}

impl KeyStore {
    /// One key for each service at most.
    pub open spec fn wf(self) -> bool {
        distinct_names(entry_views(self.api_keys@))
    }

    /// The key of a service, or nothing where there is none.
    pub open spec fn key(self, provider: Seq<char>) -> Seq<char> {
        entry_text(entry_views(self.api_keys@), provider)
    }

    /// A store without keys.
    pub fn empty() -> (r: KeyStore)
        ensures
            r.wf(),
            r.version == 1,
            r.api_keys@.len() == 0,
    {
        KeyStore { version: 1, api_keys: Vec::new() }
    }
}

fn find_text(entries: &Vec<(String, String)>, name: &str) -> (r: String)
    ensures
        r@ == entry_text(entry_views(entries@), name@),
{
    let ghost all = entry_views(entries@);
    let mut i: usize = 0;
    assert(all.skip(0) =~= all);
    while i < entries.len()
        invariant
            i <= entries@.len(),
            all == entry_views(entries@),
            entry_text(all, name@) == entry_text(all.skip(i as int), name@),
        decreases entries@.len() - i,
    {
        let ghost rest = all.skip(i as int);
        assert(rest[0] == all[i as int]);
        assert(rest.drop_first() =~= all.skip(i + 1));
        if same(entries[i].0.as_str(), name) {
            return entries[i].1.clone();
        }
        i = i + 1;
    }
    String::new()
}

/// The key of a service, by the keys that are stored: none where there is no store.
pub fn get_api_key(keys: Option<&Vec<(String, String)>>, provider: &str) -> (r: String)
    ensures
        r@ == match keys {
            Some(entries) => entry_text(entry_views(entries@), provider@),
            None => seq![],
        },
{
    match keys {
        Some(entries) => find_text(entries, provider),
        None => String::new(),
    }
}

proof fn lemma_entry_push(
    entries: Seq<(Seq<char>, Seq<char>)>,
    e: (Seq<char>, Seq<char>),
    name: Seq<char>,
)
    ensures
        entry_text(entries.push(e), name) == (if exists|i: int|
            0 <= i < entries.len() && (#[trigger] entries[i]).0 == name {
            entry_text(entries, name)
        } else if e.0 == name {
            e.1
        } else {
            seq![]
        }),
    decreases entries.len(),
{
    let more = entries.push(e);
    if entries.len() == 0 {
        assert(more.drop_first() =~= seq![]);
        assert(entry_text(more.drop_first(), name) =~= seq![]);
    } else {
        let rest = entries.drop_first();
        assert(more.drop_first() =~= rest.push(e));
        lemma_entry_push(rest, e, name);
        if entries[0].0 == name {
            assert(more[0].0 == name);
        } else {
            if exists|i: int| 0 <= i < entries.len() && (#[trigger] entries[i]).0 == name {
                let i = choose|i: int| 0 <= i < entries.len() && (#[trigger] entries[i]).0 == name;
                assert(rest[i - 1].0 == name);
            }
            if exists|i: int| 0 <= i < rest.len() && (#[trigger] rest[i]).0 == name {
                let i = choose|i: int| 0 <= i < rest.len() && (#[trigger] rest[i]).0 == name;
                assert(entries[i + 1].0 == name);
            }
        }
    }
}

proof fn lemma_entry_update(
    entries: Seq<(Seq<char>, Seq<char>)>,
    i: int,
    text: Seq<char>,
    name: Seq<char>,
)
    requires
        0 <= i < entries.len(),
        distinct_names(entries),
    ensures
        entry_text(entries.update(i, (entries[i].0, text)), name) == (if entries[i].0 == name {
            text
        } else {
            entry_text(entries, name)
        }),
    decreases entries.len(),
{
    let more = entries.update(i, (entries[i].0, text));
    let rest = entries.drop_first();
    if i == 0 {
        assert(more.drop_first() =~= rest);
    } else {
        assert(entries[0].0 != entries[i].0);
        assert(rest[i - 1] == entries[i]);
        assert(more.drop_first() =~= rest.update(i - 1, (rest[i - 1].0, text)));
        assert forall|a: int, b: int| 0 <= a < b < rest.len() implies (#[trigger] rest[a]).0 != (
        #[trigger] rest[b]).0 by {
            assert(rest[a] == entries[a + 1]);
            assert(rest[b] == entries[b + 1]);
        }
        lemma_entry_update(rest, i - 1, text, name);
    }
}

/// Puts a key into the store, in place of the one that was there; an empty key changes
/// nothing.
pub fn save_api_key(store: &mut KeyStore, provider: &str, api_key: &str) -> (r: ApiKeyResult)
    requires
        old(store).wf(),
    ensures
        r.ok,
        r.error@.len() == 0,
        r.has_key == (api_key@.len() > 0),
        final(store).wf(),
        final(store).version == old(store).version,
        api_key@.len() == 0 ==> *final(store) == *old(store),
        api_key@.len() > 0 ==> final(store).key(provider@) == api_key@,
        forall|other: Seq<char>|
            other != provider@ ==> #[trigger] final(store).key(other) == old(store).key(other),
{
    if api_key.is_empty() {
        return ApiKeyResult { ok: true, error: String::new(), has_key: false };
    }
    let ghost before = entry_views(store.api_keys@);
    let n: usize = store.api_keys.len();
    let mut i: usize = 0;
    while i < n && !same(store.api_keys[i].0.as_str(), provider)
        invariant
            i <= n,
            n == store.api_keys@.len(),
            *store == *old(store),
            before == entry_views(store.api_keys@),
            forall|k: int| 0 <= k < i ==> (#[trigger] before[k]).0 != provider@,
        decreases n - i,
    {
        i = i + 1;
    }
    if i < n {
        assert(before[i as int].0 == provider@);
        store.api_keys.set(i, (provider.to_string(), api_key.to_string()));
        proof {
            let after = entry_views(store.api_keys@);
            assert(after =~= before.update(i as int, (before[i as int].0, api_key@)));
            assert forall|a: int, b: int| 0 <= a < b < after.len() implies (#[trigger] after[a]).0
                != (#[trigger] after[b]).0 by {
                assert(before[a].0 != before[b].0);
            }
            assert forall|name: Seq<char>| #[trigger] entry_text(after, name) == (if name
                == provider@ {
                api_key@
            } else {
                entry_text(before, name)
            }) by {
                lemma_entry_update(before, i as int, api_key@, name);
            }
        }
    } else {
        store.api_keys.push((provider.to_string(), api_key.to_string()));
        proof {
            let after = entry_views(store.api_keys@);
            assert(after =~= before.push((provider@, api_key@)));
            assert forall|a: int, b: int| 0 <= a < b < after.len() implies (#[trigger] after[a]).0
                != (#[trigger] after[b]).0 by {
                assert(before[a].0 == after[a].0);
                if b < before.len() {
                    assert(before[a].0 != before[b].0);
                }
            }
            assert forall|name: Seq<char>| #[trigger] entry_text(after, name) == (if name
                == provider@ {
                api_key@
            } else {
                entry_text(before, name)
            }) by {
                lemma_entry_push(before, (provider@, api_key@), name);
                lemma_absent(before, name);
            }
        }
    }
    ApiKeyResult { ok: true, error: String::new(), has_key: true }
}

proof fn lemma_absent(entries: Seq<(Seq<char>, Seq<char>)>, name: Seq<char>)
    ensures
        (forall|i: int| 0 <= i < entries.len() ==> (#[trigger] entries[i]).0 != name)
            ==> entry_text(entries, name) == Seq::<char>::empty(),
    decreases entries.len(),
{
    if entries.len() > 0 {
        let rest = entries.drop_first();
        lemma_absent(rest, name);
        if forall|i: int| 0 <= i < entries.len() ==> (#[trigger] entries[i]).0 != name {
            assert forall|i: int| 0 <= i < rest.len() implies (#[trigger] rest[i]).0 != name by {
                assert(rest[i] == entries[i + 1]);
            }
        }
    }
}

/// The text of an entry is that of the first one with its name; there is none where no
/// entry has the name.
pub proof fn law_entries_are_found_by_name(
    entries: Seq<(Seq<char>, Seq<char>)>,
    name: Seq<char>,
    k: int,
)
    ensures
        0 <= k < entries.len() && entries[k].0 == name && (forall|j: int|
            0 <= j < k ==> (#[trigger] entries[j]).0 != name) ==> entry_text(entries, name)
            == entries[k].1,
        (forall|j: int| 0 <= j < entries.len() ==> (#[trigger] entries[j]).0 != name)
            ==> entry_text(entries, name).len() == 0,
    decreases entries.len(),
{
    if entries.len() > 0 {
        let rest = entries.drop_first();
        law_entries_are_found_by_name(rest, name, k - 1);
        assert(forall|j: int| 0 <= j < rest.len() ==> #[trigger] rest[j] == entries[j + 1]);
    }
}

} // verus!
