//! The session manager: derives session identities, records activity, caches
//! resolved routes until a session's configuration changes, and queues
//! lifecycle events for listeners.
use vstd::prelude::*;
use vstd::string::*;
use crate::route::{
    resolve_route, route_of, route_view, profile_views, EffectiveRoute, GlobalConfig, NamedProfile,
    RouteError,
};
use crate::session::SessionView;
use crate::store::{
    has_session, position_of, upserted, reconfigured, annotated, without, of_session, of_tool,
    str_opt_view, swept, SessionDatabase,
};

verus! {

/// The session id for a request of `tool`: built from the tool's correlation
/// token when it sends one, else from the connection's own nonce, so that two
/// unrelated connections are never merged.
pub open spec fn identity_of(tool: Seq<char>, correlation: Option<Seq<char>>, nonce: Seq<char>) -> Seq<char> {
    match correlation {
        Some(c) => if c.len() > 0 {
            tool + "/tok:"@ + c
        } else {
            tool + "/conn:"@ + nonce
        },
        None => tool + "/conn:"@ + nonce,
    }
}

/// Derives the session id of a request; see [`identity_of`].
pub fn derive_session_id(tool_id: &str, correlation: Option<&str>, connection_nonce: &str) -> (r: String)
    ensures
        r@ == identity_of(tool_id@, str_opt_view(correlation), connection_nonce@),
{
    let mut id = tool_id.to_owned();
    match correlation {
        Some(c) => {
            if !c.is_empty() {
                id.append("/tok:");
                id.append(c);
            } else {
                id.append("/conn:");
                id.append(connection_nonce);
            }
        },
        None => {
            id.append("/conn:");
            id.append(connection_nonce);
        },
    }
    id
}

/// The correlation token that a request carries, if it carries a non-empty one.
pub open spec fn token_of(correlation: Option<Seq<char>>) -> Option<Seq<char>> {
    match correlation {
        Some(c) => if c.len() > 0 {
            Some(c)
        } else {
            None
        },
        None => None,
    }
}

/// Two requests of one tool get the same session id only when they carry the
/// same correlation token, or, both carrying none, the same connection nonce.
pub proof fn lemma_identity_separates(
    tool: Seq<char>,
    c1: Option<Seq<char>>,
    n1: Seq<char>,
    c2: Option<Seq<char>>,
    n2: Seq<char>,
)
    requires
        identity_of(tool, c1, n1) == identity_of(tool, c2, n2),
    ensures
        token_of(c1) == token_of(c2),
        token_of(c1) is None ==> n1 == n2,
{
    reveal_strlit("/tok:");
    reveal_strlit("/conn:");
    let l = tool.len() as int;
    let a = identity_of(tool, c1, n1);
    let b = identity_of(tool, c2, n2);
    match (token_of(c1), token_of(c2)) {
        (Some(x), Some(y)) => {
            assert(a.subrange(l + 5, a.len() as int) =~= x);
            assert(b.subrange(l + 5, b.len() as int) =~= y);
        },
        (Some(x), None) => {
            assert(a[l + 1] == 't');
            assert(b[l + 1] == 'c');
        },
        (None, Some(y)) => {
            assert(a[l + 1] == 'c');
            assert(b[l + 1] == 't');
        },
        (None, None) => {
            assert(a.subrange(l + 6, a.len() as int) =~= n1);
            assert(b.subrange(l + 6, b.len() as int) =~= n2);
        },
    }
}

/// What happened to a session.
#[derive(Clone, Copy, Debug, PartialEq, Eq, Structural)]
pub enum SessionEventKind {
    Created,
    Touched,
    Updated,
    Deleted,
}

/// A lifecycle event for listeners such as the user interface.
pub struct SessionEvent {
    pub kind: SessionEventKind,
    /// The session concerned; empty for a change to a whole tool.
    pub session_id: String,
}

/// The result of recording a request: the session it belongs to.
pub struct SessionHandle {
    pub session_id: String,
    pub created: bool,
}

pub open spec fn events_view(v: Seq<SessionEvent>) -> Seq<(SessionEventKind, Seq<char>)> {
    v.map_values(|e: SessionEvent| (e.kind, e.session_id@))
}

pub open spec fn cache_view(v: Seq<(String, EffectiveRoute)>) -> Seq<(Seq<char>, (Seq<char>, Seq<char>))> {
    v.map_values(|e: (String, EffectiveRoute)| (e.0@, (e.1.url@, e.1.api_key@)))
}

/// The route cached for `sid`: the first entry under that id.
pub open spec fn cached(c: Seq<(Seq<char>, (Seq<char>, Seq<char>))>, sid: Seq<char>) -> Option<
    (Seq<char>, Seq<char>),
>
    decreases c.len(),
{
    if c.len() == 0 {
        None
    } else if c[0].0 == sid {
        Some(c[0].1)
    } else {
        cached(c.drop_first(), sid)
    }
}

/// The cache without the entries of `sid`.
pub open spec fn uncached(c: Seq<(Seq<char>, (Seq<char>, Seq<char>))>, sid: Seq<char>) -> Seq<
    (Seq<char>, (Seq<char>, Seq<char>)),
>
    decreases c.len(),
{
    if c.len() == 0 {
        c
    } else {
        let rest = uncached(c.drop_last(), sid);
        if c.last().0 == sid {
            rest
        } else {
            rest.push(c.last())
        }
    }
}

/// The single owner of the session table, shared by the proxy and the
/// command layer.
pub struct SessionManager {
    db: SessionDatabase,
    routes: Vec<(String, EffectiveRoute)>,
    events: Vec<SessionEvent>,
}

impl SessionManager {
    pub closed spec fn table(&self) -> Seq<SessionView> {
        self.db@
    }

    pub closed spec fn route_cache(&self) -> Seq<(Seq<char>, (Seq<char>, Seq<char>))> {
        cache_view(self.routes@)
    }

    pub closed spec fn pending(&self) -> Seq<(SessionEventKind, Seq<char>)> {
        events_view(self.events@)
    }

    pub closed spec fn wf(&self) -> bool {
        self.db.wf()
    }

    /// A manager over `db`, with an empty cache and no pending events.
    pub fn new(db: SessionDatabase) -> (r: SessionManager)
        requires
            db.wf(),
        ensures
            r.wf(),
            r.table() == db@,
            r.route_cache() == Seq::<(Seq<char>, (Seq<char>, Seq<char>))>::empty(),
            r.pending() == Seq::<(SessionEventKind, Seq<char>)>::empty(),
    {
        let r = SessionManager { db, routes: Vec::new(), events: Vec::new() };
        assert(r.route_cache() =~= Seq::<(Seq<char>, (Seq<char>, Seq<char>))>::empty());
        assert(r.pending() =~= Seq::<(SessionEventKind, Seq<char>)>::empty());
        r
    }

    /// The session table.
    pub fn database(&self) -> (r: &SessionDatabase)
        ensures
            r@ == self.table(),
            self.wf() ==> r.wf(),
    {
        &self.db
    }

    fn emit(&mut self, kind: SessionEventKind, session_id: String)
        ensures
            final(self).db == old(self).db,
            final(self).routes == old(self).routes,
            final(self).pending() == old(self).pending().push((kind, session_id@)),
    {
        let ghost prev = self.events@;
        self.events.push(SessionEvent { kind, session_id });
        assert(events_view(self.events@) =~= events_view(prev).push((kind, session_id@)));
    }

    /// Takes the pending events, oldest first.
    pub fn drain_events(&mut self) -> (r: Vec<SessionEvent>)
        ensures
            events_view(r@) == old(self).pending(),
            final(self).pending() == Seq::<(SessionEventKind, Seq<char>)>::empty(),
            final(self).table() == old(self).table(),
            final(self).route_cache() == old(self).route_cache(),
            final(self).wf() == old(self).wf(),
    {
        let mut r: Vec<SessionEvent> = Vec::new();
        core::mem::swap(&mut r, &mut self.events);
        assert(self.pending() =~= Seq::<(SessionEventKind, Seq<char>)>::empty());
        r
    }

    /// Records one request of `tool_id` at `now`. The session id comes from
    /// the correlation token or the connection nonce; `display_id` is used
    /// only if the session is new.
    pub fn touch(
        &mut self,
        tool_id: &str,
        correlation: Option<&str>,
        connection_nonce: &str,
        display_id: &str,
        now: i64,
    ) -> (r: SessionHandle)
        requires
            old(self).wf(),
        ensures
            final(self).wf(),
            r.session_id@ == identity_of(tool_id@, str_opt_view(correlation), connection_nonce@),
            r.created == !has_session(old(self).table(), r.session_id@),
            final(self).table() == upserted(old(self).table(), r.session_id@, display_id@, tool_id@, now),
            final(self).route_cache() == old(self).route_cache(),
            final(self).pending() == old(self).pending().push(
                (
                    if r.created {
                        SessionEventKind::Created
                    } else {
                        SessionEventKind::Touched
                    },
                    r.session_id@,
                ),
            ),
    {
        let sid = derive_session_id(tool_id, correlation, connection_nonce);
        let created = self.db.get_session(sid.as_str()).is_none();
        self.db.upsert_session(sid.as_str(), display_id, tool_id, now);
        let kind = if created {
            SessionEventKind::Created
        } else {
            SessionEventKind::Touched
        };
        self.emit(kind, sid.clone());
        SessionHandle { session_id: sid, created }
    }

    fn lookup_cached(&self, session_id: &str) -> (r: Option<EffectiveRoute>)
        ensures
            match r {
                Some(e) => cached(self.route_cache(), session_id@) == Some((e.url@, e.api_key@)),
                None => cached(self.route_cache(), session_id@) is None,
            },
    {
        let key = session_id.to_owned();
        let ghost all = self.route_cache();
        let mut i: usize = 0;
        assert(all.skip(0) =~= all);
        while i < self.routes.len()
            invariant
                i <= self.routes.len(),
                key@ == session_id@,
                all == cache_view(self.routes@),
                cached(all, session_id@) == cached(all.skip(i as int), session_id@),
            decreases self.routes.len() - i,
        {
            assert(all.skip(i as int)[0] == all[i as int]);
            assert(all.skip(i as int).drop_first() =~= all.skip(i + 1));
            if self.routes[i].0 == key {
                return Some(
                    EffectiveRoute {
                        url: self.routes[i].1.url.clone(),
                        api_key: self.routes[i].1.api_key.clone(),
                    },
                );
            }
            i += 1;
        }
        assert(all.skip(i as int).len() == 0);
        None
    }

    fn forget_route(&mut self, session_id: &str)
        ensures
            final(self).db == old(self).db,
            final(self).events == old(self).events,
            final(self).route_cache() == uncached(old(self).route_cache(), session_id@),
    {
        let key = session_id.to_owned();
        let mut old_routes: Vec<(String, EffectiveRoute)> = Vec::new();
        core::mem::swap(&mut old_routes, &mut self.routes);
        let ghost all = cache_view(old_routes@);
        let mut kept: Vec<(String, EffectiveRoute)> = Vec::new();
        let mut i: usize = 0;
        while i < old_routes.len()
            invariant
                i <= old_routes.len(),
                key@ == session_id@,
                all == cache_view(old_routes@),
                cache_view(kept@) == uncached(all.take(i as int), session_id@),
            decreases old_routes.len() - i,
        {
            assert(all.take(i + 1).drop_last() =~= all.take(i as int));
            if old_routes[i].0 != key {
                let ghost prev = kept@;
                kept.push(
                    (
                        old_routes[i].0.clone(),
                        EffectiveRoute {
                            url: old_routes[i].1.url.clone(),
                            api_key: old_routes[i].1.api_key.clone(),
                        },
                    ),
                );
                assert(cache_view(kept@) =~= cache_view(prev).push(all[i as int]));
            }
            i += 1;
        }
        assert(all.take(i as int) =~= all);
        self.routes = kept;
    }

    /// The route of a stored session: the cached one if there is one, else
    /// the one resolved now from `profiles` and `global`, which is then cached.
    pub fn resolve_route(&mut self, session_id: &str, profiles: &Vec<NamedProfile>, global: &GlobalConfig) -> (r:
        Result<EffectiveRoute, RouteError>)
        requires
            old(self).wf(),
        ensures
            final(self).wf(),
            final(self).table() == old(self).table(),
            final(self).pending() == old(self).pending(),
            match cached(old(self).route_cache(), session_id@) {
                Some(c) => route_view(r) == Ok::<(Seq<char>, Seq<char>), RouteError>(c)
                    && final(self).route_cache() == old(self).route_cache(),
                None => if has_session(old(self).table(), session_id@) {
                    &&& route_view(r) == route_of(
                        old(self).table()[position_of(old(self).table(), session_id@)],
                        profile_views(profiles@),
                        global.upstream_url@,
                        global.upstream_api_key@,
                    )
                    &&& final(self).route_cache() == match route_view(r) {
                        Ok(v) => old(self).route_cache().push((session_id@, v)),
                        Err(_) => old(self).route_cache(),
                    }
                } else {
                    &&& r == Err::<EffectiveRoute, RouteError>(RouteError::UnknownSession)
                    &&& final(self).route_cache() == old(self).route_cache()
                },
            },
    {
        if let Some(e) = self.lookup_cached(session_id) {
            return Ok(e);
        }
        match self.db.get_session(session_id) {
            None => Err(RouteError::UnknownSession),
            Some(s) => {
                let r = resolve_route(&s, profiles, global);
                match &r {
                    Ok(e) => {
                        let ghost prev = self.routes@;
                        self.routes.push(
                            (
                                session_id.to_owned(),
                                EffectiveRoute { url: e.url.clone(), api_key: e.api_key.clone() },
                            ),
                        );
                        assert(cache_view(self.routes@) =~= cache_view(prev).push(
                            (session_id@, (e.url@, e.api_key@)),
                        ));
                    },
                    Err(_) => {},
                }
                r
            },
        }
    }

    /// Sets the routing fields of a session at `now` and drops its cached route.
    pub fn on_config_changed(
        &mut self,
        session_id: &str,
        config_name: &str,
        custom_profile_name: Option<&str>,
        url: &str,
        api_key: &str,
        now: i64,
    )
        requires
            old(self).wf(),
        ensures
            final(self).wf(),
            final(self).table() == reconfigured(
                old(self).table(),
                session_id@,
                config_name@,
                str_opt_view(custom_profile_name),
                url@,
                api_key@,
                now,
            ),
            final(self).route_cache() == uncached(old(self).route_cache(), session_id@),
            final(self).pending() == old(self).pending().push((SessionEventKind::Updated, session_id@)),
    {
        self.db.update_session_config_at(session_id, config_name, custom_profile_name, url, api_key, now);
        self.forget_route(session_id);
        self.emit(SessionEventKind::Updated, session_id.to_owned());
    }

    /// Sets the note of a session at `now` and drops its cached route.
    pub fn on_note_changed(&mut self, session_id: &str, note: Option<&str>, now: i64)
        requires
            old(self).wf(),
        ensures
            final(self).wf(),
            final(self).table() == annotated(old(self).table(), session_id@, str_opt_view(note), now),
            final(self).route_cache() == uncached(old(self).route_cache(), session_id@),
            final(self).pending() == old(self).pending().push((SessionEventKind::Updated, session_id@)),
    {
        self.db.update_session_note_at(session_id, note, now);
        self.forget_route(session_id);
        self.emit(SessionEventKind::Updated, session_id.to_owned());
    }

    /// Deletes a session and its cached route.
    pub fn on_deleted(&mut self, session_id: &str)
        requires
            old(self).wf(),
        ensures
            final(self).wf(),
            final(self).table() == without(old(self).table(), of_session(session_id@)),
            final(self).route_cache() == uncached(old(self).route_cache(), session_id@),
            final(self).pending() == old(self).pending().push((SessionEventKind::Deleted, session_id@)),
    {
        self.db.delete_session(session_id);
        self.forget_route(session_id);
        self.emit(SessionEventKind::Deleted, session_id.to_owned());
    }

    fn forget_all_routes(&mut self)
        ensures
            final(self).db == old(self).db,
            final(self).events == old(self).events,
            final(self).route_cache() == Seq::<(Seq<char>, (Seq<char>, Seq<char>))>::empty(),
    {
        self.routes = Vec::new();
        assert(self.route_cache() =~= Seq::<(Seq<char>, (Seq<char>, Seq<char>))>::empty());
    }

    /// Deletes every session of a tool and empties the route cache.
    pub fn on_cleared(&mut self, tool_id: &str)
        requires
            old(self).wf(),
        ensures
            final(self).wf(),
            final(self).table() == without(old(self).table(), of_tool(tool_id@)),
            final(self).route_cache() == Seq::<(Seq<char>, (Seq<char>, Seq<char>))>::empty(),
            final(self).pending() == old(self).pending().push((SessionEventKind::Deleted, Seq::<char>::empty())),
    {
        self.db.clear_sessions(tool_id);
        self.forget_all_routes();
        self.emit(SessionEventKind::Deleted, String::new());
    }

    /// The periodic retention sweep of a tool at `now`. When it removes
    /// records, the route cache is emptied and an event is queued.
    pub fn run_retention(&mut self, tool_id: &str, max_count: usize, max_age_days: i64, now: i64) -> (r: usize)
        requires
            old(self).wf(),
        ensures
            final(self).wf(),
            final(self).table() == swept(
                old(self).table(),
                tool_id@,
                max_count as nat,
                crate::store::age_cutoff(now, max_age_days),
            ),
            r == old(self).table().len() - final(self).table().len(),
            r == 0 ==> final(self).route_cache() == old(self).route_cache() && final(self).pending()
                == old(self).pending(),
            r > 0 ==> final(self).route_cache() == Seq::<(Seq<char>, (Seq<char>, Seq<char>))>::empty()
                && final(self).pending() == old(self).pending().push(
                (SessionEventKind::Deleted, Seq::<char>::empty()),
            ),
    {
        let removed = self.db.cleanup_old_sessions_at(tool_id, max_count, max_age_days, now);
        if removed > 0 {
            self.forget_all_routes();
            self.emit(SessionEventKind::Deleted, String::new());
        }
        removed
    }
}

} // verus!
