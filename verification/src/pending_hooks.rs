//! Passive sessions announced by a provider's session-start hook, held until the
//! first actionable hook materializes them or they expire.
use vstd::prelude::*;

use dashmap::DashMap;

verus! {

#[verifier::external_type_specification]
#[verifier::external_body]
#[verifier::reject_recursive_types(K)]
#[verifier::reject_recursive_types(V)]
#[verifier::reject_recursive_types(S)]
pub struct ExDashMap<K, V, S>(DashMap<K, V, S>);

/// Which provider a hook came from.
#[derive(Debug, Clone, Copy, PartialEq, Eq, Structural)]
pub enum Provider {
    Claude,
    Codex,
}

/// Metadata from the first provider's session-start hook. `cached_at` is a monotonic clock
/// reading in milliseconds.
#[derive(Debug, Clone)]
pub struct PendingClaudeSession {
    pub cwd: String,
    pub model: Option<String>,
    pub source: Option<String>,
    pub context_label: Option<String>,
    pub transcript_path: Option<String>,
    pub permission_mode: Option<String>,
    pub agent_type: Option<String>,
    pub terminal_session_id: Option<String>,
    pub terminal_app: Option<String>,
    pub cached_at: u64,
}

/// Metadata from a Codex session-start hook. `cached_at` is a monotonic clock
/// reading in milliseconds.
#[derive(Debug, Clone)]
pub struct PendingCodexSession {
    pub cwd: String,
    pub model: Option<String>,
    pub transcript_path: Option<String>,
    pub cached_at: u64,
}

/// A pending passive session of either provider.
#[derive(Debug, Clone)]
pub enum PendingHookSession {
    Claude(PendingClaudeSession),
    Codex(PendingCodexSession),
}

impl PendingHookSession {
    /// The payload of the first provider, if the session is one of its.
    pub fn into_claude(self) -> (r: Option<PendingClaudeSession>)
        ensures
            match self {
                PendingHookSession::Claude(p) => r == Some(p),
                PendingHookSession::Codex(_) => r is None,
            },
    {
        match self {
            PendingHookSession::Claude(pending) => Some(pending),
            PendingHookSession::Codex(_) => None,
        }
    }

    /// The Codex payload, if this is a Codex session.
    pub fn into_codex(self) -> (r: Option<PendingCodexSession>)
        ensures
            match self {
                PendingHookSession::Claude(_) => r is None,
                PendingHookSession::Codex(p) => r == Some(p),
            },
    {
        match self {
            PendingHookSession::Claude(_) => None,
            PendingHookSession::Codex(pending) => Some(pending),
        }
    }
}


/// The provider a pending session belongs to.
pub open spec fn provider_of(p: PendingHookSession) -> Provider {
    match p {
        PendingHookSession::Claude(_) => Provider::Claude,
        PendingHookSession::Codex(_) => Provider::Codex,
    }
}

/// Working directory recorded for a pending session.
pub open spec fn cwd_of(p: PendingHookSession) -> Seq<char> {
    match p {
        PendingHookSession::Claude(c) => c.cwd@,
        PendingHookSession::Codex(c) => c.cwd@,
    }
}

/// When a pending session was cached (monotonic milliseconds).
pub open spec fn cached_at_of(p: PendingHookSession) -> u64 {
    match p {
        PendingHookSession::Claude(c) => c.cached_at,
        PendingHookSession::Codex(c) => c.cached_at,
    }
}

/// The working directory a pending session was announced with.
pub fn hook_cwd(p: &PendingHookSession) -> (r: String)
    ensures
        r@ == cwd_of(*p),
{
    match p {
        PendingHookSession::Claude(c) => c.cwd.clone(),
        PendingHookSession::Codex(c) => c.cwd.clone(),
    }
}

/// Whether a pending session was cached after `cutoff`.
pub fn is_fresh(p: &PendingHookSession, cutoff: u64) -> (r: bool)
    ensures
        r == (cached_at_of(*p) > cutoff),
{
    match p {
        PendingHookSession::Claude(c) => c.cached_at > cutoff,
        PendingHookSession::Codex(c) => c.cached_at > cutoff,
    }
}

/// A concurrent map of pending sessions keyed by session id.
pub type PendingMap = DashMap<String, PendingHookSession>;

/// The entries of a concurrent map of pending sessions, by session id.
pub uninterp spec fn pending_entries(map: PendingMap) -> Map<Seq<char>, PendingHookSession>;

/// `DashMap::new`: an empty map.
#[verifier::external_body]
fn pending_map_new() -> (r: PendingMap)
    ensures
        pending_entries(r) .dom() == Set::<Seq<char>>::empty(),
{
    DashMap::new()
}

/// `DashMap::insert`: the key now maps to the value; the value it replaced, if any,
/// comes back.
#[verifier::external_body]
fn pending_map_insert(
    map: &mut PendingMap,
    key: String,
    value: PendingHookSession,
) -> (r: Option<PendingHookSession>)
    ensures
        pending_entries(*final(map)) == pending_entries(*old(map)).insert(key@, value),
        r == pending_entries(*old(map)).get(key@),
{
    map.insert(key, value)
}

/// `DashMap::remove`: the entry for the key leaves the map and comes back with its key.
#[verifier::external_body]
fn pending_map_remove(map: &mut PendingMap, key: &str) -> (r: Option<
    (String, PendingHookSession),
>)
    ensures
        pending_entries(*final(map)) == pending_entries(*old(map)).remove(key@),
        match r {
            Some((k, v)) => k@ == key@ && pending_entries(*old(map)).get(key@) == Some(v),
            None => !pending_entries(*old(map)).contains_key(key@),
        },
{
    map.remove(key)
}

/// `DashMap::get`, reading the working directory of the entry for the key.
#[verifier::external_body]
fn pending_map_cwd(map: &PendingMap, key: &str) -> (r: Option<String>)
    ensures
        match r {
            Some(c) => pending_entries(*map).contains_key(key@) && c@ == cwd_of(
                pending_entries(*map)[key@],
            ),
            None => !pending_entries(*map).contains_key(key@),
        },
{
    map.get(key).map(|entry| hook_cwd(entry.value()))
}

/// `DashMap::retain`, keeping the entries cached after `cutoff`.
#[verifier::external_body]
fn pending_map_retain_fresh(map: &mut PendingMap, cutoff: u64)
    ensures
        pending_entries(*final(map)) == pending_entries(*old(map)).restrict(
            pending_entries(*old(map)).dom().filter(
                |k: Seq<char>| cached_at_of(pending_entries(*old(map))[k]) > cutoff,
            ),
        ),
{
    map.retain(|_, value| is_fresh(value, cutoff))
}

/// Pending passive sessions of both providers, each keyed by the provider's session id.
pub struct PendingHookRegistry {
    claude: PendingMap,
    codex: PendingMap,
}

/// Entries whose values all belong to `provider`.
pub open spec fn all_of_provider(m: Map<Seq<char>, PendingHookSession>, provider: Provider) -> bool {
    forall|k: Seq<char>| #[trigger] m.contains_key(k) ==> provider_of(m[k]) == provider
}

impl PendingHookRegistry {
    /// Each map holds only sessions of its own provider.
    pub closed spec fn wf(self) -> bool {
        &&& all_of_provider(pending_entries(self.claude), Provider::Claude)
        &&& all_of_provider(pending_entries(self.codex), Provider::Codex)
    }

    /// The pending sessions of one provider, by session id.
    pub closed spec fn pending(self, provider: Provider) -> Map<Seq<char>, PendingHookSession> {
        match provider {
            Provider::Claude => pending_entries(self.claude),
            Provider::Codex => pending_entries(self.codex),
        }
    }

    /// An empty registry.
    pub fn new() -> (r: Self)
        ensures
            r.wf(),
            r.pending(Provider::Claude) .dom() == Set::<Seq<char>>::empty(),
            r.pending(Provider::Codex) .dom() == Set::<Seq<char>>::empty(),
    {
        PendingHookRegistry { claude: pending_map_new(), codex: pending_map_new() }
    }

    /// Caches a pending session under its provider, replacing any earlier one with
    /// the same id.
    pub fn cache_pending_hook_session(&mut self, session_id: String, pending: PendingHookSession)
        requires
            old(self).wf(),
        ensures
            final(self).wf(),
            final(self).pending(provider_of(pending)) == old(self).pending(
                provider_of(pending),
            ).insert(session_id@, pending),
            forall|p: Provider|
                p != provider_of(pending) ==> #[trigger] final(self).pending(p) == old(self).pending(p),
    {
        match pending {
            PendingHookSession::Claude(_) => {
                let _ = pending_map_insert(&mut self.claude, session_id, pending);
            },
            PendingHookSession::Codex(_) => {
                let _ = pending_map_insert(&mut self.codex, session_id, pending);
            },
        }
    }

    /// Removes and returns the pending session of `provider` with this id.
    pub fn take_pending_hook_session(&mut self, provider: Provider, session_id: &str) -> (r: Option<
        PendingHookSession,
    >)
        requires
            old(self).wf(),
        ensures
            final(self).wf(),
            r == old(self).pending(provider).get(session_id@),
            final(self).pending(provider) == old(self).pending(provider).remove(session_id@),
            forall|p: Provider| p != provider ==> #[trigger] final(self).pending(p) == old(self).pending(p),
            r matches Some(s) ==> provider_of(s) == provider,
    {
        let removed = match provider {
            Provider::Claude => pending_map_remove(&mut self.claude, session_id),
            Provider::Codex => pending_map_remove(&mut self.codex, session_id),
        };
        match removed {
            Some((_, pending)) => Some(pending),
            None => None,
        }
    }

    /// Drops the pending session of `provider` with this id; whether there was one.
    pub fn discard_pending_hook_session(&mut self, provider: Provider, session_id: &str) -> (r: bool)
        requires
            old(self).wf(),
        ensures
            final(self).wf(),
            r == old(self).pending(provider).contains_key(session_id@),
            final(self).pending(provider) == old(self).pending(provider).remove(session_id@),
            forall|p: Provider| p != provider ==> #[trigger] final(self).pending(p) == old(self).pending(p),
    {
        let removed = match provider {
            Provider::Claude => pending_map_remove(&mut self.claude, session_id),
            Provider::Codex => pending_map_remove(&mut self.codex, session_id),
        };
        removed.is_some()
    }

    /// The working directory of a pending session, left in place.
    pub fn peek_pending_hook_cwd(&self, provider: Provider, session_id: &str) -> (r: Option<String>)
        ensures
            match r {
                Some(c) => self.pending(provider).contains_key(session_id@) && c@ == cwd_of(
                    self.pending(provider)[session_id@],
                ),
                None => !self.pending(provider).contains_key(session_id@),
            },
    {
        match provider {
            Provider::Claude => pending_map_cwd(&self.claude, session_id),
            Provider::Codex => pending_map_cwd(&self.codex, session_id),
        }
    }

    /// Drops the pending sessions cached `ttl_ms` or more before `now_ms`. When `ttl_ms`
    /// reaches back before the clock's origin, nothing is old enough to drop.
    pub fn expire_pending_hook_sessions(&mut self, now_ms: u64, ttl_ms: u64)
        requires
            old(self).wf(),
        ensures
            final(self).wf(),
            forall|p: Provider|
                #[trigger] final(self).pending(p) == if ttl_ms > now_ms {
                    old(self).pending(p)
                } else {
                    old(self).pending(p).restrict(
                        old(self).pending(p).dom().filter(
                            |k: Seq<char>| cached_at_of(old(self).pending(p)[k]) > now_ms - ttl_ms,
                        ),
                    )
                },
    {
        if ttl_ms > now_ms {
            return;
        }
        let cutoff = now_ms - ttl_ms;
        pending_map_retain_fresh(&mut self.claude, cutoff);
        pending_map_retain_fresh(&mut self.codex, cutoff);
    }
}

/// A cached session is taken back once: after caching `p` under `id`, taking `id` for
/// its provider gives `p`, and taking it again gives nothing.
pub proof fn cached_session_is_taken_back_once(
    before: Map<Seq<char>, PendingHookSession>,
    id: Seq<char>,
    p: PendingHookSession,
)
    ensures
        before.insert(id, p).get(id) == Some(p),
        before.insert(id, p).remove(id).get(id) is None,
{
}

/// Expiry keeps exactly the sessions cached after the cutoff, unchanged.
pub proof fn expiry_keeps_exactly_the_fresh(
    before: Map<Seq<char>, PendingHookSession>,
    cutoff: u64,
    id: Seq<char>,
)
    ensures
        ({
            let after = before.restrict(
                before.dom().filter(|k: Seq<char>| cached_at_of(before[k]) > cutoff),
            );
            &&& after.contains_key(id) <==> (before.contains_key(id) && cached_at_of(before[id])
                > cutoff)
            &&& after.contains_key(id) ==> after[id] == before[id]
        }),
{
}

} // verus!
