//! The session table: one record per session id, kept in insertion order.
use vstd::prelude::*;
use crate::clock::unix_now;
use crate::ordering::{listing, slot, lemma_listing, lemma_slot_at};
use crate::session::{ProxySession, SessionView, fresh_session, touched};

verus! {

/// The models of a sequence of records.
pub open spec fn views(v: Seq<ProxySession>) -> Seq<SessionView> {
    v.map_values(|s: ProxySession| s@)
}

/// No two records share a session id.
pub open spec fn ids_unique(rows: Seq<SessionView>) -> bool {
    forall|i: int, j: int|
        0 <= i < rows.len() && 0 <= j < rows.len() && i != j ==> rows[i].session_id
            != rows[j].session_id
}

/// Every stored record has seen at least one request.
pub open spec fn counts_positive(rows: Seq<SessionView>) -> bool {
    forall|i: int| 0 <= i < rows.len() ==> rows[i].request_count >= 1
}

pub open spec fn table_wf(rows: Seq<SessionView>) -> bool {
    ids_unique(rows) && counts_positive(rows)
}

pub open spec fn has_session(rows: Seq<SessionView>, sid: Seq<char>) -> bool {
    exists|i: int| 0 <= i < rows.len() && rows[i].session_id == sid
}

/// Where the record of `sid` stands; meaningful when `has_session(rows, sid)`.
pub open spec fn position_of(rows: Seq<SessionView>, sid: Seq<char>) -> int {
    choose|i: int| 0 <= i < rows.len() && rows[i].session_id == sid
}

/// The table after one observed request of `sid` at time `t`: the record is
/// created on first sight, otherwise its activity is refreshed.
pub open spec fn upserted(
    rows: Seq<SessionView>,
    sid: Seq<char>,
    did: Seq<char>,
    tool: Seq<char>,
    t: i64,
) -> Seq<SessionView> {
    if has_session(rows, sid) {
        let i = position_of(rows, sid);
        rows.update(i, touched(rows[i], t))
    } else {
        rows.push(fresh_session(sid, did, tool, t))
    }
}

/// `rows` without the records that `drop` holds of, in table order.
pub open spec fn without(rows: Seq<SessionView>, drop: spec_fn(SessionView) -> bool) -> Seq<
    SessionView,
>
    decreases rows.len(),
{
    if rows.len() == 0 {
        Seq::empty()
    } else {
        let rest = without(rows.drop_last(), drop);
        if drop(rows.last()) {
            rest
        } else {
            rest.push(rows.last())
        }
    }
}

/// The records of session `sid`.
pub open spec fn of_session(sid: Seq<char>) -> spec_fn(SessionView) -> bool {
    |s: SessionView| s.session_id == sid
}

/// The records of `tool`.
pub open spec fn of_tool(tool: Seq<char>) -> spec_fn(SessionView) -> bool {
    |s: SessionView| s.tool_id == tool
}

/// The records of `tool` last seen before `cutoff`.
pub open spec fn stale(tool: Seq<char>, cutoff: int) -> spec_fn(SessionView) -> bool {
    |s: SessionView| s.tool_id == tool && s.last_seen_at < cutoff
}

/// The first `max_count` entries of the listing of `tool`, or all of it.
pub open spec fn newest(rows: Seq<SessionView>, tool: Seq<char>, max_count: nat) -> Seq<SessionView> {
    let l = listing(rows, tool);
    if max_count < l.len() {
        l.take(max_count as int)
    } else {
        l
    }
}

/// The records of `tool` beyond the `max_count` most recently seen.
pub open spec fn surplus(rows: Seq<SessionView>, tool: Seq<char>, max_count: nat) -> spec_fn(
    SessionView,
) -> bool {
    |s: SessionView| s.tool_id == tool && !newest(rows, tool, max_count).contains(s)
}

/// The moment before which a record counts as stale.
pub open spec fn age_cutoff(now: i64, max_age_days: i64) -> int {
    now - max_age_days * 86400
}

/// The table after the retention sweep of `tool`: first the stale records
/// go, then the oldest of what remains beyond `max_count`.
pub open spec fn swept(rows: Seq<SessionView>, tool: Seq<char>, max_count: nat, cutoff: int) -> Seq<
    SessionView,
> {
    let fresh = without(rows, stale(tool, cutoff));
    without(fresh, surplus(fresh, tool, max_count))
}

pub open spec fn str_opt_view(o: Option<&str>) -> Option<Seq<char>> {
    match o {
        Some(s) => Some(s@),
        None => None,
    }
}

/// The table after the routing fields of `sid` are set at time `t`.
pub open spec fn reconfigured(
    rows: Seq<SessionView>,
    sid: Seq<char>,
    config_name: Seq<char>,
    custom_profile_name: Option<Seq<char>>,
    url: Seq<char>,
    api_key: Seq<char>,
    t: i64,
) -> Seq<SessionView> {
    if has_session(rows, sid) {
        let i = position_of(rows, sid);
        rows.update(
            i,
            SessionView {
                config_name,
                custom_profile_name,
                url,
                api_key,
                updated_at: t,
                ..rows[i]
            },
        )
    } else {
        rows
    }
}

/// The table after the note of `sid` is set at time `t`.
pub open spec fn annotated(rows: Seq<SessionView>, sid: Seq<char>, note: Option<Seq<char>>, t: i64) -> Seq<
    SessionView,
> {
    if has_session(rows, sid) {
        let i = position_of(rows, sid);
        rows.update(i, SessionView { note, updated_at: t, ..rows[i] })
    } else {
        rows
    }
}

/// What is left after a drop keeps the table's records, their order and validity.
pub proof fn lemma_without(rows: Seq<SessionView>, drop: spec_fn(SessionView) -> bool)
    ensures
        without(rows, drop).len() <= rows.len(),
        forall|k: int|
            0 <= k < without(rows, drop).len() ==> exists|i: int|
                0 <= i < rows.len() && rows[i] == #[trigger] without(rows, drop)[k] && !drop(rows[i]),
        forall|i: int|
            0 <= i < rows.len() && !drop(rows[i]) ==> without(rows, drop).contains(#[trigger] rows[i]),
        table_wf(rows) ==> table_wf(without(rows, drop)),
    decreases rows.len(),
{
    if rows.len() > 0 {
        let prev = rows.drop_last();
        lemma_without(prev, drop);
        let rest = without(prev, drop);
        let w = without(rows, drop);
        assert forall|k: int| 0 <= k < rest.len() implies exists|i: int|
            0 <= i < rows.len() && rows[i] == #[trigger] rest[k] && !drop(rows[i]) by {
            let i = choose|i: int| 0 <= i < prev.len() && prev[i] == rest[k] && !drop(prev[i]);
            assert(rows[i] == prev[i]);
        }
        assert forall|i: int| 0 <= i < rows.len() && !drop(rows[i]) implies w.contains(
            #[trigger] rows[i],
        ) by {
            if i == rows.len() - 1 {
                assert(w[w.len() - 1] == rows[i]);
            } else {
                assert(rows[i] == prev[i]);
                assert(rest.contains(prev[i]));
                let k = choose|k: int| 0 <= k < rest.len() && rest[k] == prev[i];
                assert(w[k] == rest[k]);
            }
        }
        assert forall|k: int| 0 <= k < w.len() implies exists|i: int|
            0 <= i < rows.len() && rows[i] == #[trigger] w[k] && !drop(rows[i]) by {
            if k < rest.len() {
                assert(w[k] == rest[k]);
            } else {
                assert(rows[rows.len() - 1] == w[k]);
            }
        }
        if table_wf(rows) {
            assert(table_wf(prev));
            if !drop(rows.last()) {
                assert forall|a: int, b: int|
                    0 <= a < w.len() && 0 <= b < w.len() && a != b implies w[a].session_id
                    != w[b].session_id by {
                    let ia = choose|i: int| 0 <= i < rows.len() && rows[i] == w[a] && !drop(rows[i]);
                    let ib = choose|i: int| 0 <= i < rows.len() && rows[i] == w[b] && !drop(rows[i]);
                    if a < rest.len() && b < rest.len() {
                        assert(w[a] == rest[a] && w[b] == rest[b]);
                    } else if a < rest.len() {
                        let ja = choose|i: int| 0 <= i < prev.len() && prev[i] == rest[a] && !drop(prev[i]);
                        assert(w[a] == rest[a]);
                        assert(rows[ja] == prev[ja]);
                    } else {
                        let jb = choose|i: int| 0 <= i < prev.len() && prev[i] == rest[b] && !drop(prev[i]);
                        assert(w[b] == rest[b]);
                        assert(rows[jb] == prev[jb]);
                    }
                }
            }
        }
    }
}

/// Where page `page` of `page_size` entries starts; pages count from 1 and
/// page 0 reads as page 1.
pub open spec fn page_start(page: int, page_size: int) -> int {
    (if page <= 1 {
        0
    } else {
        page - 1
    }) * page_size
}

/// The entries of `l` that page `page` shows.
pub open spec fn page_of(l: Seq<SessionView>, page: int, page_size: int) -> Seq<SessionView> {
    let lo = page_start(page, page_size);
    if lo >= l.len() {
        Seq::empty()
    } else if lo + page_size >= l.len() {
        l.subrange(lo, l.len() as int)
    } else {
        l.subrange(lo, lo + page_size)
    }
}

/// A page of the listing returned by `get_sessions`.
pub struct SessionListResponse {
    pub sessions: Vec<ProxySession>,
    pub total: usize,
    pub page: usize,
    pub page_size: usize,
}

/// The durable store of session records.
pub struct SessionDatabase {
    rows: Vec<ProxySession>,
}

impl View for SessionDatabase {
    type V = Seq<SessionView>;

    closed spec fn view(&self) -> Seq<SessionView> {
        views(self.rows@)
    }
}

impl SessionDatabase {
    pub open spec fn wf(&self) -> bool {
        table_wf(self@)
    }

    /// An empty table.
    pub fn new() -> (r: SessionDatabase)
        ensures
            r.wf(),
            r@ == Seq::<SessionView>::empty(),
    {
        let r = SessionDatabase { rows: Vec::new() };
        assert(r@ =~= Seq::<SessionView>::empty());
        r
    }

    /// A table holding `rows`, which must not repeat a session id.
    pub fn from_rows(rows: Vec<ProxySession>) -> (r: SessionDatabase)
        requires
            table_wf(views(rows@)),
        ensures
            r.wf(),
            r@ == views(rows@),
    {
        SessionDatabase { rows }
    }

    /// Copies of all records, in table order.
    pub fn all_rows(&self) -> (r: Vec<ProxySession>)
        ensures
            views(r@) == self@,
    {
        let mut out: Vec<ProxySession> = Vec::new();
        let mut i: usize = 0;
        while i < self.rows.len()
            invariant
                i <= self.rows.len(),
                out@.len() == i,
                views(out@) == self@.take(i as int),
            decreases self.rows.len() - i,
        {
            let ghost prev = out@;
            out.push(self.rows[i].snapshot());
            proof {
                assert(self@ == views(self.rows@));
                assert(out@ == prev.push(out@[i as int]));
                assert(views(out@)[i as int] == self@[i as int]);
                assert(views(out@) =~= self@.take(i + 1));
            }
            i += 1;
        }
        assert(self@.take(i as int) =~= self@);
        out
    }

    /// The number of stored records.
    pub fn len(&self) -> (r: usize)
        ensures
            r == self@.len(),
    {
        self.rows.len()
    }

    fn find(&self, sid: &str) -> (r: Option<usize>)
        requires
            self.wf(),
        ensures
            match r {
                Some(i) => i < self@.len() && self@[i as int].session_id == sid@ && i as int
                    == position_of(self@, sid@) && has_session(self@, sid@),
                None => !has_session(self@, sid@),
            },
    {
        let key = sid.to_owned();
        let mut i: usize = 0;
        while i < self.rows.len()
            invariant
                i <= self.rows.len(),
                key@ == sid@,
                self.wf(),
                forall|k: int| 0 <= k < i ==> self@[k].session_id != sid@,
            decreases self.rows.len() - i,
        {
            if self.rows[i].session_id == key {
                proof {
                    assert(self@[i as int].session_id == sid@);
                    let j = position_of(self@, sid@);
                    assert(self@[j].session_id == sid@);
                    assert(ids_unique(self@));
                    assert(j == i);
                }
                return Some(i);
            }
            i += 1;
        }
        None
    }

    /// Records one observed request of a session at `timestamp`: a first
    /// request creates the record, a later one refreshes its activity.
    pub fn upsert_session(&mut self, session_id: &str, display_id: &str, tool_id: &str, timestamp: i64)
        requires
            old(self).wf(),
        ensures
            final(self).wf(),
            final(self)@ == upserted(old(self)@, session_id@, display_id@, tool_id@, timestamp),
    {
        match self.find(session_id) {
            Some(i) => {
                let c = self.rows[i].request_count;
                let next: i64 = if c < i64::MAX { c + 1 } else { c };
                let mut s = self.rows[i].snapshot();
                s.last_seen_at = timestamp;
                s.request_count = next;
                s.updated_at = timestamp;
                self.rows.set(i, s);
                proof {
                    assert(self@ =~= upserted(old(self)@, session_id@, display_id@, tool_id@, timestamp));
                }
            },
            None => {
                self.rows.push(ProxySession::first_seen(session_id, display_id, tool_id, timestamp));
                proof {
                    assert(self@ =~= upserted(old(self)@, session_id@, display_id@, tool_id@, timestamp));
                }
            },
        }
    }

    /// The record of a session, if it is stored.
    pub fn get_session(&self, session_id: &str) -> (r: Option<ProxySession>)
        requires
            self.wf(),
        ensures
            r.is_some() == has_session(self@, session_id@),
            r.is_some() ==> r.unwrap()@ == self@[position_of(self@, session_id@)],
    {
        match self.find(session_id) {
            Some(i) => Some(self.rows[i].snapshot()),
            None => None,
        }
    }

    /// The routing fields `(config_name, url, api_key)` of a session, if it is stored.
    pub fn get_session_config(&self, session_id: &str) -> (r: Option<(String, String, String)>)
        requires
            self.wf(),
        ensures
            r.is_some() == has_session(self@, session_id@),
            r.is_some() ==> {
                let s = self@[position_of(self@, session_id@)];
                &&& r.unwrap().0@ == s.config_name
                &&& r.unwrap().1@ == s.url
                &&& r.unwrap().2@ == s.api_key
            },
    {
        match self.find(session_id) {
            Some(i) => Some(
                (
                    self.rows[i].config_name.clone(),
                    self.rows[i].url.clone(),
                    self.rows[i].api_key.clone(),
                ),
            ),
            None => None,
        }
    }

    /// Copies of the records of `tool`, most recently seen first.
    fn listing_for(&self, tool: &String) -> (r: Vec<ProxySession>)
        ensures
            views(r@) == listing(self@, tool@),
    {
        let mut out: Vec<ProxySession> = Vec::new();
        let mut i: usize = 0;
        while i < self.rows.len()
            invariant
                i <= self.rows.len(),
                views(out@) == listing(self@.take(i as int), tool@),
            decreases self.rows.len() - i,
        {
            let ghost before = self@.take(i as int);
            assert(self@.take(i + 1).drop_last() =~= before);
            if self.rows[i].tool_id == *tool {
                let t = self.rows[i].last_seen_at;
                let mut p: usize = 0;
                while p < out.len() && out[p].last_seen_at >= t
                    invariant
                        p <= out.len(),
                        forall|q: int| 0 <= q < p ==> views(out@)[q].last_seen_at >= t,
                    decreases out.len() - p,
                {
                    p += 1;
                }
                proof {
                    lemma_slot_at(views(out@), t, p as int);
                }
                let ghost prev = out@;
                out.insert(p, self.rows[i].snapshot());
                proof {
                    assert(views(out@) =~= views(prev).insert(p as int, self@[i as int]));
                }
            }
            i += 1;
        }
        assert(self@.take(i as int) =~= self@);
        out
    }

    /// One page of the records of a tool, most recently seen first, with the
    /// tool's record count.
    pub fn get_sessions(&self, tool_id: &str, page: usize, page_size: usize) -> (r:
        SessionListResponse)
        ensures
            r.total == listing(self@, tool_id@).len(),
            views(r.sessions@) == page_of(listing(self@, tool_id@), page as int, page_size as int),
            r.page == page,
            r.page_size == page_size,
    {
        let tool = tool_id.to_owned();
        let mut sessions = self.listing_for(&tool);
        let n = sessions.len();
        let first: usize = if page <= 1 {
            0
        } else {
            page - 1
        };
        let lo: usize = match first.checked_mul(page_size) {
            Some(x) => if x < n {
                x
            } else {
                n
            },
            None => n,
        };
        let hi: usize = if page_size < n - lo {
            lo + page_size
        } else {
            n
        };
        let ghost whole = views(sessions@);
        let mut shown = sessions.split_off(lo);
        shown.truncate(hi - lo);
        proof {
            assert(views(shown@) =~= page_of(whole, page as int, page_size as int));
        }
        SessionListResponse { sessions: shown, total: n, page, page_size }
    }

    /// Removes the records whose mark is set.
    fn drop_marked(&mut self, marks: &Vec<bool>, Ghost(drop): Ghost<spec_fn(SessionView) -> bool>) -> (r:
        usize)
        requires
            old(self).wf(),
            marks@.len() == old(self)@.len(),
            forall|i: int| 0 <= i < marks@.len() ==> marks@[i] == drop(old(self)@[i]),
        ensures
            final(self).wf(),
            final(self)@ == without(old(self)@, drop),
            r == old(self)@.len() - final(self)@.len(),
    {
        let mut out: Vec<ProxySession> = Vec::new();
        let mut i: usize = 0;
        while i < self.rows.len()
            invariant
                i <= self.rows.len(),
                marks@.len() == self@.len(),
                forall|k: int| 0 <= k < marks@.len() ==> marks@[k] == drop(self@[k]),
                views(out@) == without(self@.take(i as int), drop),
            decreases self.rows.len() - i,
        {
            assert(self@.take(i + 1).drop_last() =~= self@.take(i as int));
            if !marks[i] {
                let ghost prev = out@;
                out.push(self.rows[i].snapshot());
                proof {
                    assert(views(out@) =~= views(prev).push(self@[i as int]));
                }
            }
            i += 1;
        }
        proof {
            assert(self@.take(i as int) =~= self@);
            lemma_without(self@, drop);
        }
        let n = self.rows.len();
        self.rows = out;
        n - self.rows.len()
    }

    /// Deletes the record of a session, if any.
    pub fn delete_session(&mut self, session_id: &str)
        requires
            old(self).wf(),
        ensures
            final(self).wf(),
            final(self)@ == without(old(self)@, of_session(session_id@)),
    {
        let key = session_id.to_owned();
        let mut marks: Vec<bool> = Vec::new();
        let mut i: usize = 0;
        while i < self.rows.len()
            invariant
                i <= self.rows.len(),
                key@ == session_id@,
                marks@.len() == i,
                forall|k: int| 0 <= k < i ==> marks@[k] == of_session(session_id@)(self@[k]),
            decreases self.rows.len() - i,
        {
            marks.push(self.rows[i].session_id == key);
            i += 1;
        }
        self.drop_marked(&marks, Ghost(of_session(session_id@)));
    }

    /// Deletes every record of a tool.
    pub fn clear_sessions(&mut self, tool_id: &str)
        requires
            old(self).wf(),
        ensures
            final(self).wf(),
            final(self)@ == without(old(self)@, of_tool(tool_id@)),
    {
        let key = tool_id.to_owned();
        let mut marks: Vec<bool> = Vec::new();
        let mut i: usize = 0;
        while i < self.rows.len()
            invariant
                i <= self.rows.len(),
                key@ == tool_id@,
                marks@.len() == i,
                forall|k: int| 0 <= k < i ==> marks@[k] == of_tool(tool_id@)(self@[k]),
            decreases self.rows.len() - i,
        {
            marks.push(self.rows[i].tool_id == key);
            i += 1;
        }
        self.drop_marked(&marks, Ghost(of_tool(tool_id@)));
    }

    /// Whether one of the first `m` entries of `l` has the session id of `row`.
    fn in_prefix(l: &Vec<ProxySession>, m: usize, row: &ProxySession) -> (r: bool)
        requires
            m <= l@.len(),
        ensures
            r == exists|k: int| 0 <= k < m && l@[k].session_id@ == row.session_id@,
    {
        let mut k: usize = 0;
        while k < m
            invariant
                k <= m,
                m <= l@.len(),
                forall|q: int| 0 <= q < k ==> l@[q].session_id@ != row.session_id@,
            decreases m - k,
        {
            if l[k].session_id == row.session_id {
                return true;
            }
            k += 1;
        }
        false
    }

    /// The retention sweep of a tool at time `now`: deletes its records last
    /// seen more than `max_age_days` days before `now`, then, while more than
    /// `max_count` remain, the least recently seen. Returns how many went.
    pub fn cleanup_old_sessions_at(&mut self, tool_id: &str, max_count: usize, max_age_days: i64, now: i64) -> (r:
        usize)
        requires
            old(self).wf(),
        ensures
            final(self).wf(),
            final(self)@ == swept(old(self)@, tool_id@, max_count as nat, age_cutoff(now, max_age_days)),
            r == old(self)@.len() - final(self)@.len(),
    {
        let tool = tool_id.to_owned();
        let cutoff: i128 = now as i128 - (max_age_days as i128) * 86400;
        let ghost stale_pred = stale(tool_id@, age_cutoff(now, max_age_days));
        let mut marks: Vec<bool> = Vec::new();
        let mut i: usize = 0;
        while i < self.rows.len()
            invariant
                i <= self.rows.len(),
                tool@ == tool_id@,
                cutoff == age_cutoff(now, max_age_days),
                stale_pred == stale(tool_id@, age_cutoff(now, max_age_days)),
                marks@.len() == i,
                forall|k: int| 0 <= k < i ==> marks@[k] == stale_pred(self@[k]),
            decreases self.rows.len() - i,
        {
            marks.push(self.rows[i].tool_id == tool && (self.rows[i].last_seen_at as i128) < cutoff);
            i += 1;
        }
        let by_age = self.drop_marked(&marks, Ghost(stale_pred));
        let ghost fresh = self@;
        let l = self.listing_for(&tool);
        proof {
            lemma_listing(fresh, tool_id@);
        }
        let m: usize = if max_count < l.len() {
            max_count
        } else {
            l.len()
        };
        let ghost surplus_pred = surplus(fresh, tool_id@, max_count as nat);
        let mut marks2: Vec<bool> = Vec::new();
        let mut j: usize = 0;
        while j < self.rows.len()
            invariant
                j <= self.rows.len(),
                self@ == fresh,
                self.wf(),
                tool@ == tool_id@,
                views(l@) == listing(fresh, tool_id@),
                m <= l@.len(),
                m == max_count || m == l@.len(),
                m <= max_count,
                m < max_count ==> m == l@.len(),
                surplus_pred == surplus(fresh, tool_id@, max_count as nat),
                marks2@.len() == j,
                forall|k: int| 0 <= k < j ==> marks2@[k] == surplus_pred(self@[k]),
                forall|k: int|
                    0 <= k < listing(fresh, tool_id@).len() ==> exists|i: int|
                        0 <= i < fresh.len() && fresh[i] == #[trigger] listing(fresh, tool_id@)[k],
            decreases self.rows.len() - j,
        {
            let found = Self::in_prefix(&l, m, &self.rows[j]);
            proof {
                let top = newest(fresh, tool_id@, max_count as nat);
                let lv = listing(fresh, tool_id@);
                assert(views(l@).len() == l@.len());
                assert(lv.len() == l@.len());
                assert(top =~= lv.take(m as int));
                if found {
                    let k = choose|k: int| 0 <= k < m && l@[k].session_id@ == self.rows@[j as int].session_id@;
                    assert(views(l@)[k] == lv[k]);
                    let i = choose|i: int| 0 <= i < fresh.len() && fresh[i] == #[trigger] lv[k];
                    assert(fresh[i].session_id == fresh[j as int].session_id);
                    assert(i == j);
                    assert(top[k] == fresh[j as int]);
                } else {
                    if top.contains(fresh[j as int]) {
                        let k = choose|k: int| 0 <= k < top.len() && top[k] == fresh[j as int];
                        assert(views(l@)[k] == lv[k]);
                        assert(l@[k].session_id@ == self.rows@[j as int].session_id@);
                    }
                }
            }
            marks2.push(self.rows[j].tool_id == tool && !found);
            j += 1;
        }
        let by_count = self.drop_marked(&marks2, Ghost(surplus_pred));
        by_age + by_count
    }

    /// Sets the routing fields of a session at time `now`; an unknown session
    /// leaves the table as it is.
    pub fn update_session_config_at(
        &mut self,
        session_id: &str,
        config_name: &str,
        custom_profile_name: Option<&str>,
        url: &str,
        api_key: &str,
        now: i64,
    )
        requires
            old(self).wf(),
        ensures
            final(self).wf(),
            final(self)@ == reconfigured(
                old(self)@,
                session_id@,
                config_name@,
                str_opt_view(custom_profile_name),
                url@,
                api_key@,
                now,
            ),
    {
        if let Some(i) = self.find(session_id) {
            let mut s = self.rows[i].snapshot();
            s.config_name = config_name.to_owned();
            s.custom_profile_name = match custom_profile_name {
                Some(p) => Some(p.to_owned()),
                None => None,
            };
            s.url = url.to_owned();
            s.api_key = api_key.to_owned();
            s.updated_at = now;
            self.rows.set(i, s);
            proof {
                assert(self@ =~= reconfigured(
                    old(self)@,
                    session_id@,
                    config_name@,
                    str_opt_view(custom_profile_name),
                    url@,
                    api_key@,
                    now,
                ));
            }
        }
    }

    /// Sets the note of a session at time `now`; an unknown session leaves the
    /// table as it is.
    pub fn update_session_note_at(&mut self, session_id: &str, note: Option<&str>, now: i64)
        requires
            old(self).wf(),
        ensures
            final(self).wf(),
            final(self)@ == annotated(old(self)@, session_id@, str_opt_view(note), now),
    {
        if let Some(i) = self.find(session_id) {
            let mut s = self.rows[i].snapshot();
            s.note = match note {
                Some(n) => Some(n.to_owned()),
                None => None,
            };
            s.updated_at = now;
            self.rows.set(i, s);
            proof {
                assert(self@ =~= annotated(old(self)@, session_id@, str_opt_view(note), now));
            }
        }
    }

    /// The retention sweep of a tool at the current time; see
    /// [`SessionDatabase::cleanup_old_sessions_at`].
    pub fn cleanup_old_sessions(&mut self, tool_id: &str, max_count: usize, max_age_days: i64) -> (r:
        usize)
        requires
            old(self).wf(),
        ensures
            final(self).wf(),
            exists|now: i64|
                final(self)@ == swept(
                    old(self)@,
                    tool_id@,
                    max_count as nat,
                    #[trigger] age_cutoff(now, max_age_days),
                ),
            r == old(self)@.len() - final(self)@.len(),
    {
        let now = unix_now();
        self.cleanup_old_sessions_at(tool_id, max_count, max_age_days, now)
    }

    /// Sets the routing fields of a session, stamped with the current time.
    pub fn update_session_config(
        &mut self,
        session_id: &str,
        config_name: &str,
        custom_profile_name: Option<&str>,
        url: &str,
        api_key: &str,
    )
        requires
            old(self).wf(),
        ensures
            final(self).wf(),
            exists|now: i64|
                final(self)@ == #[trigger] reconfigured(
                    old(self)@,
                    session_id@,
                    config_name@,
                    str_opt_view(custom_profile_name),
                    url@,
                    api_key@,
                    now,
                ),
    {
        let now = unix_now();
        self.update_session_config_at(session_id, config_name, custom_profile_name, url, api_key, now);
    }

    /// Sets the note of a session, stamped with the current time.
    pub fn update_session_note(&mut self, session_id: &str, note: Option<&str>)
        requires
            old(self).wf(),
        ensures
            final(self).wf(),
            exists|now: i64|
                final(self)@ == #[trigger] annotated(old(self)@, session_id@, str_opt_view(note), now),
    {
        let now = unix_now();
        self.update_session_note_at(session_id, note, now);
    }
}

} // verus!
