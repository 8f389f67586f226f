//! The route a session's requests take upstream: which URL and which key.
use vstd::prelude::*;
use crate::session::{ProxySession, SessionView};

verus! {

/// A process-wide network proxy through which upstream traffic leaves.
pub struct NetworkProxySettings {
    pub enabled: bool,
    pub url: String,
}

/// The default route and the network proxy, as configured for the whole process.
pub struct GlobalConfig {
    pub upstream_url: String,
    pub upstream_api_key: String,
    pub network_proxy: Option<NetworkProxySettings>,
}

/// A user-managed credential set that a session can be pinned to.
pub struct NamedProfile {
    pub name: String,
    pub url: String,
    pub api_key: String,
}

/// The upstream URL and key to put into an outbound request.
pub struct EffectiveRoute {
    pub url: String,
    pub api_key: String,
}

/// Why no route can be given.
#[derive(Clone, Copy, Debug, PartialEq, Eq, Structural)]
pub enum RouteError {
    /// The session is pinned to a profile that does not exist.
    ProfileNotFound,
    /// Neither the session nor the global configuration holds a URL and a key.
    NoRoute,
    /// No session with the given id is stored.
    UnknownSession,
}

impl View for NamedProfile {
    type V = (Seq<char>, Seq<char>, Seq<char>);

    open spec fn view(&self) -> (Seq<char>, Seq<char>, Seq<char>) {
        (self.name@, self.url@, self.api_key@)
    }
}

pub open spec fn profile_views(v: Seq<NamedProfile>) -> Seq<(Seq<char>, Seq<char>, Seq<char>)> {
    v.map_values(|p: NamedProfile| p@)
}

/// The URL and key of the first profile called `name`.
pub open spec fn profile_lookup(profiles: Seq<(Seq<char>, Seq<char>, Seq<char>)>, name: Seq<char>) -> Option<
    (Seq<char>, Seq<char>),
>
    decreases profiles.len(),
{
    if profiles.len() == 0 {
        None
    } else if profiles[0].0 == name {
        Some((profiles[0].1, profiles[0].2))
    } else {
        profile_lookup(profiles.drop_first(), name)
    }
}

/// The route of a session: its pinned profile if it has one, else its own URL
/// and key when both are set, else the global default when both are set.
pub open spec fn route_of(
    s: SessionView,
    profiles: Seq<(Seq<char>, Seq<char>, Seq<char>)>,
    global_url: Seq<char>,
    global_key: Seq<char>,
) -> Result<(Seq<char>, Seq<char>), RouteError> {
    match s.custom_profile_name {
        Some(name) => match profile_lookup(profiles, name) {
            Some(r) => Ok(r),
            None => Err(RouteError::ProfileNotFound),
        },
        None => if s.url.len() > 0 && s.api_key.len() > 0 {
            Ok((s.url, s.api_key))
        } else if global_url.len() > 0 && global_key.len() > 0 {
            Ok((global_url, global_key))
        } else {
            Err(RouteError::NoRoute)
        },
    }
}

/// The model of a resolver result.
pub open spec fn route_view(r: Result<EffectiveRoute, RouteError>) -> Result<(Seq<char>, Seq<char>), RouteError> {
    match r {
        Ok(e) => Ok((e.url@, e.api_key@)),
        Err(e) => Err(e),
    }
}

fn find_profile(profiles: &Vec<NamedProfile>, name: &String) -> (r: Option<EffectiveRoute>)
    ensures
        match r {
            Some(e) => profile_lookup(profile_views(profiles@), name@) == Some((e.url@, e.api_key@)),
            None => profile_lookup(profile_views(profiles@), name@) is None,
        },
{
    let ghost all = profile_views(profiles@);
    let mut i: usize = 0;
    assert(all.skip(0) =~= all);
    while i < profiles.len()
        invariant
            i <= profiles.len(),
            all == profile_views(profiles@),
            profile_lookup(all, name@) == profile_lookup(all.skip(i as int), name@),
        decreases profiles.len() - i,
    {
        assert(all.skip(i as int)[0] == profiles@[i as int]@);
        assert(all.skip(i as int).drop_first() =~= all.skip(i + 1));
        if profiles[i].name == *name {
            return Some(EffectiveRoute { url: profiles[i].url.clone(), api_key: profiles[i].api_key.clone() });
        }
        i += 1;
    }
    assert(all.skip(i as int).len() == 0);
    None
}

/// The route a request of `session` takes upstream.
pub fn resolve_route(session: &ProxySession, profiles: &Vec<NamedProfile>, global: &GlobalConfig) -> (r:
    Result<EffectiveRoute, RouteError>)
    ensures
        route_view(r) == route_of(
            session@,
            profile_views(profiles@),
            global.upstream_url@,
            global.upstream_api_key@,
        ),
{
    match &session.custom_profile_name {
        Some(name) => match find_profile(profiles, name) {
            Some(e) => Ok(e),
            None => Err(RouteError::ProfileNotFound),
        },
        None => {
            if !session.url.as_str().is_empty() && !session.api_key.as_str().is_empty() {
                Ok(EffectiveRoute { url: session.url.clone(), api_key: session.api_key.clone() })
            } else if !global.upstream_url.as_str().is_empty() && !global.upstream_api_key.as_str().is_empty() {
                Ok(
                    EffectiveRoute {
                        url: global.upstream_url.clone(),
                        api_key: global.upstream_api_key.clone(),
                    },
                )
            } else {
                Err(RouteError::NoRoute)
            }
        },
    }
}

/// A pinned profile wins over the session's own URL and key, which win over
/// the global default.
pub proof fn lemma_route_precedence(
    s: SessionView,
    profiles: Seq<(Seq<char>, Seq<char>, Seq<char>)>,
    global_url: Seq<char>,
    global_key: Seq<char>,
)
    requires
        global_url.len() > 0,
        global_key.len() > 0,
    ensures
        s.custom_profile_name is Some && profile_lookup(profiles, s.custom_profile_name->0) is Some
            ==> route_of(s, profiles, global_url, global_key) == Ok::<(Seq<char>, Seq<char>), RouteError>(
            profile_lookup(profiles, s.custom_profile_name->0)->0,
        ),
        s.custom_profile_name is None && s.url.len() > 0 && s.api_key.len() > 0 ==> route_of(
            s,
            profiles,
            global_url,
            global_key,
        ) == Ok::<(Seq<char>, Seq<char>), RouteError>((s.url, s.api_key)),
        s.custom_profile_name is None && s.url.len() == 0 && s.api_key.len() == 0 ==> route_of(
            s,
            profiles,
            global_url,
            global_key,
        ) == Ok::<(Seq<char>, Seq<char>), RouteError>((global_url, global_key)),
{
}

} // verus!
