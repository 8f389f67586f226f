//! Properties that hold across calls of the session table.
use vstd::prelude::*;
use crate::ordering::{listing, tool_count, lemma_listing, no_dups, lemma_listing_no_dups};
use crate::session::{SessionView, fresh_session};
use crate::store::{
    has_session, position_of, upserted, table_wf, without, stale, surplus, newest, swept,
    page_start, page_of, lemma_without, ids_unique,
};

verus! {

/// The table after one observed request of `sid` at each time of `ts`, in order.
pub open spec fn upserts(
    rows: Seq<SessionView>,
    sid: Seq<char>,
    did: Seq<char>,
    tool: Seq<char>,
    ts: Seq<i64>,
) -> Seq<SessionView>
    decreases ts.len(),
{
    if ts.len() == 0 {
        rows
    } else {
        upserted(upserts(rows, sid, did, tool, ts.drop_last()), sid, did, tool, ts.last())
    }
}

/// An upsert keeps the table valid and leaves a record of the session in it.
pub proof fn lemma_upsert_wf(rows: Seq<SessionView>, sid: Seq<char>, did: Seq<char>, tool: Seq<char>, t: i64)
    requires
        table_wf(rows),
    ensures
        table_wf(upserted(rows, sid, did, tool, t)),
        has_session(upserted(rows, sid, did, tool, t), sid),
{
    let r = upserted(rows, sid, did, tool, t);
    if has_session(rows, sid) {
        let i = position_of(rows, sid);
        assert(r[i].session_id == sid);
    } else {
        assert(r[rows.len() as int].session_id == sid);
        assert(r[rows.len() as int] == fresh_session(sid, did, tool, t));
    }
}

/// After N requests of a session that was not stored, its single record
/// counts N requests and was last seen at the time of the last one.
pub proof fn lemma_request_count(
    rows: Seq<SessionView>,
    sid: Seq<char>,
    did: Seq<char>,
    tool: Seq<char>,
    ts: Seq<i64>,
)
    requires
        table_wf(rows),
        !has_session(rows, sid),
        1 <= ts.len() < i64::MAX,
    ensures
        table_wf(upserts(rows, sid, did, tool, ts)),
        has_session(upserts(rows, sid, did, tool, ts), sid),
        upserts(rows, sid, did, tool, ts).len() == rows.len() + 1,
        upserts(rows, sid, did, tool, ts)[position_of(upserts(rows, sid, did, tool, ts), sid)].request_count
            == ts.len(),
        upserts(rows, sid, did, tool, ts)[position_of(upserts(rows, sid, did, tool, ts), sid)].last_seen_at
            == ts.last(),
    decreases ts.len(),
{
    let r = upserts(rows, sid, did, tool, ts);
    let prev = upserts(rows, sid, did, tool, ts.drop_last());
    if ts.len() == 1 {
        assert(ts.drop_last().len() == 0);
        lemma_upsert_wf(rows, sid, did, tool, ts.last());
        let n = rows.len() as int;
        assert(r[n].session_id == sid);
        let p = position_of(r, sid);
        assert(r[p].session_id == sid);
        assert(p == n);
    } else {
        lemma_request_count(rows, sid, did, tool, ts.drop_last());
        lemma_upsert_wf(prev, sid, did, tool, ts.last());
        let i = position_of(prev, sid);
        assert(r[i].session_id == sid);
        let p = position_of(r, sid);
        assert(r[p].session_id == sid);
        assert(p == i);
    }
}

/// However many requests of a new session arrive, the table ends with exactly
/// one record of it, counting every one of them.
pub proof fn lemma_upserts_one_record(
    rows: Seq<SessionView>,
    sid: Seq<char>,
    did: Seq<char>,
    tool: Seq<char>,
    ts: Seq<i64>,
)
    requires
        table_wf(rows),
        !has_session(rows, sid),
        1 <= ts.len() < i64::MAX,
    ensures
        upserts(rows, sid, did, tool, ts).len() == rows.len() + 1,
        forall|i: int, j: int|
            0 <= i < upserts(rows, sid, did, tool, ts).len() && 0 <= j < upserts(
                rows,
                sid,
                did,
                tool,
                ts,
            ).len() && #[trigger] upserts(rows, sid, did, tool, ts)[i].session_id == sid
                && #[trigger] upserts(rows, sid, did, tool, ts)[j].session_id == sid ==> i == j,
        exists|i: int|
            0 <= i < upserts(rows, sid, did, tool, ts).len() && #[trigger] upserts(
                rows,
                sid,
                did,
                tool,
                ts,
            )[i].session_id == sid && upserts(rows, sid, did, tool, ts)[i].request_count == ts.len(),
{
    lemma_request_count(rows, sid, did, tool, ts);
    let r = upserts(rows, sid, did, tool, ts);
    let p = position_of(r, sid);
    assert(r[p].session_id == sid);
}

/// How many records of `rows` satisfy `p`.
pub open spec fn count_in(rows: Seq<SessionView>, p: spec_fn(SessionView) -> bool) -> nat
    decreases rows.len(),
{
    if rows.len() == 0 {
        0
    } else {
        count_in(rows.drop_last(), p) + if p(rows.last()) {
            1nat
        } else {
            0nat
        }
    }
}

proof fn lemma_without_len(rows: Seq<SessionView>, d: spec_fn(SessionView) -> bool)
    ensures
        without(rows, d).len() + count_in(rows, d) == rows.len(),
    decreases rows.len(),
{
    if rows.len() > 0 {
        lemma_without_len(rows.drop_last(), d);
    }
}

proof fn lemma_count_same(rows: Seq<SessionView>, p: spec_fn(SessionView) -> bool, q: spec_fn(SessionView) -> bool)
    requires
        forall|i: int| 0 <= i < rows.len() ==> p(rows[i]) == q(rows[i]),
    ensures
        count_in(rows, p) == count_in(rows, q),
    decreases rows.len(),
{
    if rows.len() > 0 {
        let prev = rows.drop_last();
        assert forall|i: int| 0 <= i < prev.len() implies p(prev[i]) == q(prev[i]) by {
            assert(prev[i] == rows[i]);
        }
        lemma_count_same(prev, p, q);
        assert(p(rows[rows.len() - 1]) == q(rows[rows.len() - 1]));
    }
}

proof fn lemma_count_split(rows: Seq<SessionView>, p: spec_fn(SessionView) -> bool, q: spec_fn(SessionView) -> bool)
    ensures
        count_in(rows, |x: SessionView| p(x) && q(x)) + count_in(rows, |x: SessionView| p(x) && !q(x))
            == count_in(rows, p),
    decreases rows.len(),
{
    if rows.len() > 0 {
        lemma_count_split(rows.drop_last(), p, q);
    }
}

proof fn lemma_tool_count(rows: Seq<SessionView>, tool: Seq<char>)
    ensures
        tool_count(rows, tool) == count_in(rows, |x: SessionView| x.tool_id == tool),
    decreases rows.len(),
{
    if rows.len() > 0 {
        lemma_tool_count(rows.drop_last(), tool);
    }
}

/// Records of a table of distinct records that belong to `s`, a list of
/// distinct records of the table, number as many as `s` has entries.
proof fn lemma_count_members(rows: Seq<SessionView>, s: Seq<SessionView>)
    requires
        no_dups(rows),
        no_dups(s),
        forall|k: int| 0 <= k < s.len() ==> rows.contains(#[trigger] s[k]),
    ensures
        count_in(rows, |x: SessionView| s.contains(x)) == s.len(),
    decreases rows.len(),
{
    if rows.len() == 0 {
        if s.len() > 0 {
            assert(rows.contains(s[0]));
        }
    } else {
        let prev = rows.drop_last();
        let last = rows.last();
        assert(no_dups(prev)) by {
            assert forall|a: int, b: int| 0 <= a < prev.len() && 0 <= b < prev.len() && a != b implies prev[a]
                != prev[b] by {
                assert(prev[a] == rows[a] && prev[b] == rows[b]);
            }
        }
        assert forall|i: int| 0 <= i < prev.len() implies prev[i] != last by {
            assert(prev[i] == rows[i]);
        }
        if s.contains(last) {
            let k = choose|k: int| 0 <= k < s.len() && s[k] == last;
            let t = s.remove(k);
            s.remove_ensures(k);
            assert forall|j: int| 0 <= j < t.len() implies prev.contains(#[trigger] t[j]) by {
                let sj = if j < k { j } else { j + 1 };
                assert(t[j] == s[sj]);
                assert(rows.contains(s[sj]));
                let i = choose|i: int| 0 <= i < rows.len() && rows[i] == s[sj];
                assert(i != rows.len() - 1);
                assert(prev[i] == rows[i]);
            }
            assert(no_dups(t)) by {
                assert forall|a: int, b: int| 0 <= a < t.len() && 0 <= b < t.len() && a != b implies t[a]
                    != t[b] by {
                    let sa = if a < k { a } else { a + 1 };
                    let sb = if b < k { b } else { b + 1 };
                    assert(t[a] == s[sa] && t[b] == s[sb]);
                }
            }
            lemma_count_members(prev, t);
            assert forall|i: int| 0 <= i < prev.len() implies s.contains(prev[i]) == t.contains(prev[i]) by {
                if s.contains(prev[i]) {
                    let j = choose|j: int| 0 <= j < s.len() && s[j] == prev[i];
                    assert(j != k);
                    if j < k {
                        assert(t[j] == s[j]);
                    } else {
                        assert(t[j - 1] == s[j]);
                    }
                }
                if t.contains(prev[i]) {
                    let j = choose|j: int| 0 <= j < t.len() && t[j] == prev[i];
                    if j < k {
                        assert(s[j] == t[j]);
                    } else {
                        assert(s[j + 1] == t[j]);
                    }
                }
            }
            lemma_count_same(prev, |x: SessionView| s.contains(x), |x: SessionView| t.contains(x));
        } else {
            assert forall|j: int| 0 <= j < s.len() implies prev.contains(#[trigger] s[j]) by {
                assert(rows.contains(s[j]));
                let i = choose|i: int| 0 <= i < rows.len() && rows[i] == s[j];
                assert(i != rows.len() - 1);
                assert(prev[i] == rows[i]);
            }
            lemma_count_members(prev, s);
        }
    }
}

/// Records of distinct session ids are distinct records.
proof fn lemma_unique_no_dups(rows: Seq<SessionView>)
    requires
        ids_unique(rows),
    ensures
        no_dups(rows),
{
}

/// When the records of `tool` number more than `max_count`, dropping the
/// surplus removes exactly the excess, and leaves `max_count` of them.
pub proof fn lemma_surplus_count(rows: Seq<SessionView>, tool: Seq<char>, max_count: nat)
    requires
        table_wf(rows),
        tool_count(rows, tool) > max_count,
    ensures
        without(rows, surplus(rows, tool, max_count)).len() == rows.len() - (tool_count(rows, tool)
            - max_count),
{
    let l = listing(rows, tool);
    let top = newest(rows, tool, max_count);
    lemma_listing(rows, tool);
    lemma_unique_no_dups(rows);
    lemma_listing_no_dups(rows, tool);
    assert(top =~= l.take(max_count as int));
    assert(no_dups(top));
    assert forall|k: int| 0 <= k < top.len() implies rows.contains(#[trigger] top[k]) by {
        assert(top[k] == l[k]);
        let i = choose|i: int| 0 <= i < rows.len() && rows[i] == #[trigger] l[k];
    }
    lemma_count_members(rows, top);
    let is_tool = |x: SessionView| x.tool_id == tool;
    let in_top = |x: SessionView| top.contains(x);
    lemma_count_split(rows, is_tool, in_top);
    lemma_tool_count(rows, tool);
    assert forall|i: int| 0 <= i < rows.len() implies (is_tool(rows[i]) && in_top(rows[i])) == in_top(
        rows[i],
    ) by {
        if top.contains(rows[i]) {
            let k = choose|k: int| 0 <= k < top.len() && top[k] == rows[i];
            assert(l[k] == top[k]);
        }
    }
    lemma_count_same(rows, |x: SessionView| is_tool(x) && in_top(x), in_top);
    lemma_count_same(rows, |x: SessionView| is_tool(x) && !in_top(x), surplus(rows, tool, max_count));
    lemma_without_len(rows, surplus(rows, tool, max_count));
}

/// When the records of `tool` number no more than `max_count`, there is no
/// surplus to drop.
pub proof fn lemma_no_surplus(rows: Seq<SessionView>, tool: Seq<char>, max_count: nat)
    requires
        tool_count(rows, tool) <= max_count,
    ensures
        without(rows, surplus(rows, tool, max_count)).len() == rows.len(),
{
    lemma_listing(rows, tool);
    lemma_count_same(rows, surplus(rows, tool, max_count), |x: SessionView| false);
    lemma_count_none(rows);
    lemma_without_len(rows, surplus(rows, tool, max_count));
}

proof fn lemma_count_none(rows: Seq<SessionView>)
    ensures
        count_in(rows, |x: SessionView| false) == 0,
    decreases rows.len(),
{
    if rows.len() > 0 {
        lemma_count_none(rows.drop_last());
    }
}

/// The retention sweep of `tool` leaves other tools' records alone, and
/// removes a record of `tool` seen at or after the cutoff only when more than
/// `max_count` such records remain, and then only one seen no later than
/// every record of `tool` that it keeps. Its second phase removes exactly the
/// records beyond `max_count`, and none when there are no more than that.
pub proof fn lemma_sweep_spares_recent(rows: Seq<SessionView>, tool: Seq<char>, max_count: nat, cutoff: int)
    requires
        table_wf(rows),
    ensures
        forall|i: int|
            0 <= i < rows.len() && rows[i].tool_id != tool ==> swept(rows, tool, max_count, cutoff).contains(
                #[trigger] rows[i],
            ),
        forall|i: int|
            0 <= i < rows.len() && rows[i].tool_id == tool && rows[i].last_seen_at >= cutoff
                && !swept(rows, tool, max_count, cutoff).contains(#[trigger] rows[i]) ==> {
                &&& tool_count(without(rows, stale(tool, cutoff)), tool) > max_count
                &&& forall|k: int|
                    0 <= k < swept(rows, tool, max_count, cutoff).len() && (#[trigger] swept(
                        rows,
                        tool,
                        max_count,
                        cutoff,
                    )[k]).tool_id == tool ==> rows[i].last_seen_at <= swept(
                        rows,
                        tool,
                        max_count,
                        cutoff,
                    )[k].last_seen_at
            },
        tool_count(without(rows, stale(tool, cutoff)), tool) > max_count ==> swept(
            rows,
            tool,
            max_count,
            cutoff,
        ).len() == without(rows, stale(tool, cutoff)).len() - (tool_count(
            without(rows, stale(tool, cutoff)),
            tool,
        ) - max_count),
        tool_count(without(rows, stale(tool, cutoff)), tool) <= max_count ==> swept(
            rows,
            tool,
            max_count,
            cutoff,
        ).len() == without(rows, stale(tool, cutoff)).len(),
{
    let fresh = without(rows, stale(tool, cutoff));
    let sp = surplus(fresh, tool, max_count);
    let out = swept(rows, tool, max_count, cutoff);
    let l = listing(fresh, tool);
    lemma_without(rows, stale(tool, cutoff));
    lemma_without(fresh, sp);
    lemma_listing(fresh, tool);
    if tool_count(fresh, tool) > max_count {
        lemma_surplus_count(fresh, tool, max_count);
    } else {
        lemma_no_surplus(fresh, tool, max_count);
    }
    assert forall|i: int| 0 <= i < rows.len() && rows[i].tool_id != tool implies out.contains(
        #[trigger] rows[i],
    ) by {
        assert(fresh.contains(rows[i]));
        let f = choose|f: int| 0 <= f < fresh.len() && fresh[f] == rows[i];
        assert(!sp(fresh[f]));
    }
    assert forall|i: int|
        0 <= i < rows.len() && rows[i].tool_id == tool && rows[i].last_seen_at >= cutoff
            && !out.contains(#[trigger] rows[i]) implies {
        &&& tool_count(fresh, tool) > max_count
        &&& forall|k: int|
            0 <= k < out.len() && (#[trigger] out[k]).tool_id == tool ==> rows[i].last_seen_at
                <= out[k].last_seen_at
    } by {
        assert(!stale(tool, cutoff)(rows[i]));
        assert(fresh.contains(rows[i]));
        let f = choose|f: int| 0 <= f < fresh.len() && fresh[f] == rows[i];
        assert(sp(fresh[f]));
        assert(l.contains(fresh[f]));
        let a = choose|a: int| 0 <= a < l.len() && l[a] == fresh[f];
        if tool_count(fresh, tool) <= max_count {
            assert(newest(fresh, tool, max_count) == l);
        }
        assert(newest(fresh, tool, max_count) =~= l.take(max_count as int));
        if a < max_count {
            assert(newest(fresh, tool, max_count)[a] == rows[i]);
        }
        assert forall|k: int| 0 <= k < out.len() && (#[trigger] out[k]).tool_id == tool implies rows[i].last_seen_at
            <= out[k].last_seen_at by {
            let j = choose|j: int| 0 <= j < fresh.len() && fresh[j] == out[k] && !sp(fresh[j]);
            assert(newest(fresh, tool, max_count).contains(out[k]));
            let b = choose|b: int|
                0 <= b < newest(fresh, tool, max_count).len() && newest(fresh, tool, max_count)[b]
                    == out[k];
            assert(l[b] == out[k]);
        }
    }
}

/// The page on which position `k` of a listing is shown.
pub open spec fn page_holding(k: int, page_size: int) -> int {
    k / page_size + 1
}

proof fn lemma_page_holding(k: int, page_size: int)
    requires
        k >= 0,
        page_size > 0,
    ensures
        page_start(page_holding(k, page_size), page_size) <= k,
        k < page_start(page_holding(k, page_size), page_size) + page_size,
{
    assert(k / page_size >= 0) by (nonlinear_arith)
        requires
            k >= 0,
            page_size > 0,
    ;
    assert((k / page_size) * page_size <= k < (k / page_size) * page_size + page_size) by (nonlinear_arith)
        requires
            k >= 0,
            page_size > 0,
    ;
}

/// Pages hold at most `page_size` entries each; page `q` shows the listing
/// from position `page_start(q)` on, and the next page starts where it ends;
/// so the entry at position `k` of the listing is shown on exactly one page,
/// `page_holding(k)`, and over a valid table no record is listed twice; the
/// total is the tool's whole record count.
pub proof fn lemma_paging(rows: Seq<SessionView>, tool: Seq<char>, page_size: int, k: int)
    requires
        page_size > 0,
        0 <= k < listing(rows, tool).len(),
    ensures
        listing(rows, tool).len() == tool_count(rows, tool),
        table_wf(rows) ==> no_dups(listing(rows, tool)),
        forall|q: int| #[trigger] page_of(listing(rows, tool), q, page_size).len() <= page_size,
        forall|q: int, j: int|
            0 <= j < page_of(listing(rows, tool), q, page_size).len() ==> #[trigger] page_of(
                listing(rows, tool),
                q,
                page_size,
            )[j] == listing(rows, tool)[page_start(q, page_size) + j],
        forall|q: int|
            q >= 1 ==> #[trigger] page_start(q + 1, page_size) == page_start(q, page_size) + page_size,
        page_start(page_holding(k, page_size), page_size) <= k,
        k < page_start(page_holding(k, page_size), page_size) + page_size,
        page_of(listing(rows, tool), page_holding(k, page_size), page_size)[k - page_start(
            page_holding(k, page_size),
            page_size,
        )] == listing(rows, tool)[k],
{
    let l = listing(rows, tool);
    lemma_listing(rows, tool);
    if table_wf(rows) {
        lemma_unique_no_dups(rows);
        lemma_listing_no_dups(rows, tool);
    }
    assert forall|q: int| q >= 1 implies #[trigger] page_start(q + 1, page_size) == page_start(
        q,
        page_size,
    ) + page_size by {
        assert((q + 1 - 1) * page_size == (q - 1) * page_size + page_size) by (nonlinear_arith);
    }
    let q = page_holding(k, page_size);
    lemma_page_holding(k, page_size);
    let lo = page_start(q, page_size);
    let pg = page_of(l, q, page_size);
    if lo + page_size >= l.len() {
        assert(pg == l.subrange(lo, l.len() as int));
    } else {
        assert(pg == l.subrange(lo, lo + page_size));
    }
    assert(pg[k - lo] == l[k]);
}

} // verus!
