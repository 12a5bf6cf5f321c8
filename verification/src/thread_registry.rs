//! Which OrbitDock session owns each provider thread: Codex thread ids and SDK
//! session ids mapped to OrbitDock session ids, and the search for a direct session
//! that has not claimed its thread yet.
use vstd::prelude::*;

use dashmap::DashMap;

use crate::dashboard::IntegrationMode;
use crate::pending_hooks::Provider;
use crate::text::{chars_starts_with, has_prefix, str_eq, to_chars};

verus! {

/// A concurrent map from provider thread id to OrbitDock session id.
pub type ThreadMap = DashMap<String, String>;

/// The entries of a thread map: thread id to session id.
pub uninterp spec fn thread_entries(map: ThreadMap) -> Map<Seq<char>, Seq<char>>;

/// `DashMap::new`: an empty map.
#[verifier::external_body]
fn thread_map_new() -> (r: ThreadMap)
    ensures
        thread_entries(r).dom() == Set::<Seq<char>>::empty(),
{
    DashMap::new()
}

/// `DashMap::insert`: the thread now maps to the session.
#[verifier::external_body]
fn thread_map_insert(map: &mut ThreadMap, thread_id: String, session_id: String)
    ensures
        thread_entries(*final(map)) == thread_entries(*old(map)).insert(thread_id@, session_id@),
{
    map.insert(thread_id, session_id);
}

/// `DashMap::get`, copying out the session a thread maps to.
#[verifier::external_body]
fn thread_map_get(map: &ThreadMap, thread_id: &str) -> (r: Option<String>)
    ensures
        match r {
            Some(s) => thread_entries(*map).contains_key(thread_id@) && thread_entries(*map)[thread_id@]
                == s@,
            None => !thread_entries(*map).contains_key(thread_id@),
        },
{
    map.get(thread_id).map(|entry| entry.value().clone())
}

/// Whether a mapped session id differs from `session_id`.
pub fn maps_elsewhere(mapped_session_id: &str, session_id: &str) -> (r: bool)
    ensures
        r == (mapped_session_id@ != session_id@),
{
    !str_eq(mapped_session_id, session_id)
}

/// `DashMap::retain`, dropping every thread that maps to `session_id`.
#[verifier::external_body]
fn thread_map_drop_session(map: &mut ThreadMap, session_id: &str)
    ensures
        thread_entries(*final(map)) == thread_entries(*old(map)).restrict(
            thread_entries(*old(map)).dom().filter(
                |k: Seq<char>| thread_entries(*old(map))[k] != session_id@,
            ),
        ),
{
    map.retain(|_, mapped_session_id| maps_elsewhere(mapped_session_id.as_str(), session_id))
}

/// `DashMap::iter`, copying out every entry as a (thread id, session id) pair. Each
/// entry of the map comes out exactly once; the order is the map's own, which is not
/// fixed.
#[verifier::external_body]
fn thread_map_entries(map: &ThreadMap) -> (r: Vec<(String, String)>)
    ensures
        forall|i: int|
            0 <= i < r@.len() ==> thread_entries(*map).contains_key((#[trigger] r@[i]).0@)
                && thread_entries(*map)[r@[i].0@] == r@[i].1@,
        forall|k: Seq<char>|
            #[trigger] thread_entries(*map).contains_key(k) ==> exists|i: int|
                0 <= i < r@.len() && (#[trigger] r@[i]).0@ == k,
        forall|i: int, j: int| 0 <= i < j < r@.len() ==> (#[trigger] r@[i]).0@ != (#[trigger] r@[j]).0@,
{
    map.iter().map(|entry| (entry.key().clone(), entry.value().clone())).collect()
}

/// The first thread, in the order given, that maps to `session_id`; `None` when none
/// does.
pub fn first_thread_of(entries: &Vec<(String, String)>, session_id: &str) -> (r: Option<String>)
    ensures
        match r {
            Some(t) => exists|i: int|
                0 <= i < entries@.len() && (#[trigger] entries@[i]).0@ == t@ && entries@[i].1@
                    == session_id@ && forall|j: int| 0 <= j < i ==> (#[trigger] entries@[j]).1@ != session_id@,
            None => forall|i: int| 0 <= i < entries@.len() ==> (#[trigger] entries@[i]).1@ != session_id@,
        },
{
    let mut i: usize = 0;
    while i < entries.len()
        invariant
            i <= entries@.len(),
            forall|j: int| 0 <= j < i ==> (#[trigger] entries@[j]).1@ != session_id@,
        decreases entries.len() - i,
    {
        if str_eq(entries[i].1.as_str(), session_id) {
            return Some(entries[i].0.clone());
        }
        i = i + 1;
    }
    None
}

/// A thread of the map that maps to `session_id`. The map's order is not fixed, so when
/// several threads map to the session any of them may come back.
fn thread_map_thread_of(map: &ThreadMap, session_id: &str) -> (r: Option<String>)
    ensures
        match r {
            Some(t) => thread_entries(*map).contains_key(t@) && thread_entries(*map)[t@]
                == session_id@,
            None => forall|k: Seq<char>|
                #[trigger] thread_entries(*map).contains_key(k) ==> thread_entries(*map)[k]
                    != session_id@,
        },
{
    let entries = thread_map_entries(map);
    let r = first_thread_of(&entries, session_id);
    proof {
        if r is None {
            assert forall|k: Seq<char>|
                #[trigger] thread_entries(*map).contains_key(k) implies thread_entries(*map)[k]
                    != session_id@ by {
                let i = choose|i: int| 0 <= i < entries@.len() && (#[trigger] entries@[i]).0@ == k;
                assert(entries@[i].1@ != session_id@);
            }
        }
    }
    r
}

/// An OrbitDock session id: it starts with `od-`.
pub open spec fn is_orbitdock_id_text(id: Seq<char>) -> bool {
    has_prefix(id, "od-"@)
}

/// Whether an id is one of OrbitDock's own session ids.
pub fn is_orbitdock_id(id: &str) -> (r: bool)
    ensures
        r == is_orbitdock_id_text(id@),
{
    let chars = to_chars(id);
    let prefix = to_chars("od-");
    chars_starts_with(&chars, &prefix)
}

/// Thread ownership for both providers.
pub struct ThreadRegistry {
    codex_threads: ThreadMap,
    claude_threads: ThreadMap,
}

impl ThreadRegistry {
    /// Thread id to session id for one provider.
    pub closed spec fn threads(self, provider: Provider) -> Map<Seq<char>, Seq<char>> {
        match provider {
            Provider::Codex => thread_entries(self.codex_threads),
            Provider::Claude => thread_entries(self.claude_threads),
        }
    }

    /// A registry that knows no threads.
    pub fn new() -> (r: Self)
        ensures
            r.threads(Provider::Codex).dom() == Set::<Seq<char>>::empty(),
            r.threads(Provider::Claude).dom() == Set::<Seq<char>>::empty(),
    {
        ThreadRegistry { codex_threads: thread_map_new(), claude_threads: thread_map_new() }
    }

    /// Records that `session_id` owns a provider thread. An OrbitDock id offered as a
    /// thread id is refused and changes nothing.
    pub fn register_thread(&mut self, provider: Provider, session_id: &str, thread_id: &str)
        ensures
            final(self).threads(provider) == if is_orbitdock_id_text(thread_id@) {
                old(self).threads(provider)
            } else {
                old(self).threads(provider).insert(thread_id@, session_id@)
            },
            forall|p: Provider| p != provider ==> #[trigger] final(self).threads(p) == old(self).threads(p),
    {
        if is_orbitdock_id(thread_id) {
            return;
        }
        let key = crate::text::copy_str(thread_id);
        let value = crate::text::copy_str(session_id);
        match provider {
            Provider::Codex => thread_map_insert(&mut self.codex_threads, key, value),
            Provider::Claude => thread_map_insert(&mut self.claude_threads, key, value),
        }
    }

    /// Records that `session_id` owns a Codex thread.
    pub fn register_codex_thread(&mut self, session_id: &str, thread_id: &str)
        ensures
            final(self).threads(Provider::Codex) == if is_orbitdock_id_text(thread_id@) {
                old(self).threads(Provider::Codex)
            } else {
                old(self).threads(Provider::Codex).insert(thread_id@, session_id@)
            },
            final(self).threads(Provider::Claude) == old(self).threads(Provider::Claude),
    {
        self.register_thread(Provider::Codex, session_id, thread_id)
    }

    /// Records that `session_id` owns an SDK session of the first provider.
    pub fn register_claude_thread(&mut self, session_id: &str, sdk_session_id: &str)
        ensures
            final(self).threads(Provider::Claude) == if is_orbitdock_id_text(sdk_session_id@) {
                old(self).threads(Provider::Claude)
            } else {
                old(self).threads(Provider::Claude).insert(sdk_session_id@, session_id@)
            },
            final(self).threads(Provider::Codex) == old(self).threads(Provider::Codex),
    {
        self.register_thread(Provider::Claude, session_id, sdk_session_id)
    }

    /// The session that owns a provider thread.
    pub fn resolve_thread(&self, provider: Provider, thread_id: &str) -> (r: Option<String>)
        ensures
            match r {
                Some(s) => self.threads(provider).contains_key(thread_id@) && self.threads(
                    provider,
                )[thread_id@] == s@,
                None => !self.threads(provider).contains_key(thread_id@),
            },
    {
        match provider {
            Provider::Codex => thread_map_get(&self.codex_threads, thread_id),
            Provider::Claude => thread_map_get(&self.claude_threads, thread_id),
        }
    }

    /// Forgets every thread owned by a session, for both providers.
    pub fn remove_session_threads(&mut self, session_id: &str)
        ensures
            forall|p: Provider|
                #[trigger] final(self).threads(p) == old(self).threads(p).restrict(
                    old(self).threads(p).dom().filter(
                        |k: Seq<char>| old(self).threads(p)[k] != session_id@,
                    ),
                ),
    {
        thread_map_drop_session(&mut self.codex_threads, session_id);
        thread_map_drop_session(&mut self.claude_threads, session_id);
    }

    /// A provider thread owned by a session, if it owns one.
    pub fn thread_for_session(&self, provider: Provider, session_id: &str) -> (r: Option<String>)
        ensures
            match r {
                Some(t) => self.threads(provider).contains_key(t@) && self.threads(provider)[t@]
                    == session_id@,
                None => forall|k: Seq<char>|
                    #[trigger] self.threads(provider).contains_key(k) ==> self.threads(provider)[k]
                        != session_id@,
            },
    {
        match provider {
            Provider::Codex => thread_map_thread_of(&self.codex_threads, session_id),
            Provider::Claude => thread_map_thread_of(&self.claude_threads, session_id),
        }
    }
}

/// What the search for an unclaimed direct session reads of a session.
#[derive(Debug, Clone)]
pub struct SessionCandidate {
    pub id: String,
    pub provider: Provider,
    pub integration_mode: Option<IntegrationMode>,
    pub is_active: bool,
    pub project_path: String,
}

/// An active direct session of `provider` in the project.
pub open spec fn is_direct_candidate(c: SessionCandidate, provider: Provider, project: Seq<char>) -> bool {
    &&& c.provider == provider
    &&& c.integration_mode == Some(IntegrationMode::Direct)
    &&& c.is_active
    &&& c.project_path@ == project
}

/// The session owns no thread of the provider.
pub open spec fn is_unclaimed(threads: Map<Seq<char>, Seq<char>>, session: Seq<char>) -> bool {
    forall|k: Seq<char>| #[trigger] threads.contains_key(k) ==> threads[k] != session
}

/// The first active direct session of `provider` in `project_path`, in the order given,
/// that owns no thread yet: the session a new hook for that project belongs to.
pub fn find_unregistered_direct_session(
    sessions: &Vec<SessionCandidate>,
    registry: &ThreadRegistry,
    provider: Provider,
    project_path: &str,
) -> (r: Option<String>)
    ensures
        match r {
            Some(id) => exists|i: int|
                0 <= i < sessions@.len() && #[trigger] sessions@[i].id@ == id@ && is_direct_candidate(
                    sessions@[i],
                    provider,
                    project_path@,
                ) && is_unclaimed(registry.threads(provider), id@) && forall|j: int|
                    0 <= j < i ==> !(is_direct_candidate(#[trigger] sessions@[j], provider, project_path@)
                        && is_unclaimed(registry.threads(provider), sessions@[j].id@)),
            None => forall|i: int|
                0 <= i < sessions@.len() ==> !(is_direct_candidate(#[trigger] sessions@[i], provider, project_path@)
                    && is_unclaimed(registry.threads(provider), sessions@[i].id@)),
        },
{
    let mut i: usize = 0;
    while i < sessions.len()
        invariant
            i <= sessions@.len(),
            forall|j: int|
                0 <= j < i ==> !(is_direct_candidate(#[trigger] sessions@[j], provider, project_path@)
                    && is_unclaimed(registry.threads(provider), sessions@[j].id@)),
        decreases sessions.len() - i,
    {
        let c = &sessions[i];
        if c.provider == provider && c.integration_mode == Some(IntegrationMode::Direct) && c.is_active
            && str_eq(c.project_path.as_str(), project_path) {
            let owned = registry.thread_for_session(provider, c.id.as_str());
            if owned.is_none() {
                return Some(c.id.clone());
            }
        }
        i = i + 1;
    }
    None
}

} // verus!
