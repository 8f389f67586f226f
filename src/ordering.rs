//! The recency order in which a tool's sessions are listed: most recently
//! seen first, and records seen at the same second in table order.
use vstd::prelude::*;
use crate::session::SessionView;

verus! {

/// The number of records of `rows` that belong to `tool`.
pub open spec fn tool_count(rows: Seq<SessionView>, tool: Seq<char>) -> nat
    decreases rows.len(),
{
    if rows.len() == 0 {
        0
    } else {
        tool_count(rows.drop_last(), tool) + if rows.last().tool_id == tool {
            1nat
        } else {
            0nat
        }
    }
}

/// Where a record last seen at `t` joins a list that is newest first: after
/// every entry seen at `t` or later.
pub open spec fn slot(s: Seq<SessionView>, t: i64) -> nat
    decreases s.len(),
{
    if s.len() == 0 {
        0
    } else if s[0].last_seen_at < t {
        0
    } else {
        1 + slot(s.drop_first(), t)
    }
}

/// The records of `tool`, most recently seen first; ties keep table order.
pub open spec fn listing(rows: Seq<SessionView>, tool: Seq<char>) -> Seq<SessionView>
    decreases rows.len(),
{
    if rows.len() == 0 {
        Seq::empty()
    } else {
        let rest = listing(rows.drop_last(), tool);
        let s = rows.last();
        if s.tool_id == tool {
            rest.insert(slot(rest, s.last_seen_at) as int, s)
        } else {
            rest
        }
    }
}

/// Entries never become more recent further down the list.
pub open spec fn newest_first(s: Seq<SessionView>) -> bool {
    forall|a: int, b: int| 0 <= a < b < s.len() ==> s[a].last_seen_at >= s[b].last_seen_at
}

pub proof fn lemma_slot(s: Seq<SessionView>, t: i64)
    ensures
        slot(s, t) <= s.len(),
        forall|q: int| 0 <= q < slot(s, t) ==> s[q].last_seen_at >= t,
        slot(s, t) < s.len() ==> s[slot(s, t) as int].last_seen_at < t,
    decreases s.len(),
{
    if s.len() > 0 && s[0].last_seen_at >= t {
        let r = s.drop_first();
        lemma_slot(r, t);
        assert forall|q: int| 0 <= q < slot(s, t) implies s[q].last_seen_at >= t by {
            if q > 0 {
                assert(s[q] == r[q - 1]);
            }
        }
        if slot(s, t) < s.len() {
            assert(s[slot(s, t) as int] == r[slot(r, t) as int]);
        }
    }
}

/// The slot is the first entry seen before `t`.
pub proof fn lemma_slot_at(s: Seq<SessionView>, t: i64, p: int)
    requires
        0 <= p <= s.len(),
        forall|q: int| 0 <= q < p ==> s[q].last_seen_at >= t,
        p == s.len() || s[p].last_seen_at < t,
    ensures
        slot(s, t) == p,
{
    lemma_slot(s, t);
}

/// No entry occurs twice.
pub open spec fn no_dups(s: Seq<SessionView>) -> bool {
    forall|a: int, b: int| 0 <= a < s.len() && 0 <= b < s.len() && a != b ==> s[a] != s[b]
}

/// Over a table whose records are pairwise distinct, the listing repeats no record.
pub proof fn lemma_listing_no_dups(rows: Seq<SessionView>, tool: Seq<char>)
    requires
        no_dups(rows),
    ensures
        no_dups(listing(rows, tool)),
    decreases rows.len(),
{
    if rows.len() > 0 {
        let prev = rows.drop_last();
        assert(no_dups(prev)) by {
            assert forall|a: int, b: int| 0 <= a < prev.len() && 0 <= b < prev.len() && a != b implies prev[a]
                != prev[b] by {
                assert(prev[a] == rows[a] && prev[b] == rows[b]);
            }
        }
        lemma_listing_no_dups(prev, tool);
        lemma_listing(prev, tool);
        let rest = listing(prev, tool);
        let s = rows.last();
        let l = listing(rows, tool);
        if s.tool_id == tool {
            let p = slot(rest, s.last_seen_at) as int;
            lemma_slot(rest, s.last_seen_at);
            rest.insert_ensures(p, s);
            assert forall|k: int| 0 <= k < rest.len() implies rest[k] != s by {
                let i = choose|i: int| 0 <= i < prev.len() && prev[i] == #[trigger] rest[k];
                assert(rows[i] == prev[i]);
                assert(rows[rows.len() - 1] == s);
            }
            assert forall|a: int, b: int| 0 <= a < l.len() && 0 <= b < l.len() && a != b implies l[a]
                != l[b] by {
                let ra = if a < p { a } else { a - 1 };
                let rb = if b < p { b } else { b - 1 };
                if a == p {
                    assert(l[b] == rest[rb]);
                } else if b == p {
                    assert(l[a] == rest[ra]);
                } else {
                    assert(l[a] == rest[ra]);
                    assert(l[b] == rest[rb]);
                }
            }
        }
    }
}

/// The listing holds exactly the records of `tool`, newest first.
pub proof fn lemma_listing(rows: Seq<SessionView>, tool: Seq<char>)
    ensures
        listing(rows, tool).len() == tool_count(rows, tool),
        tool_count(rows, tool) <= rows.len(),
        newest_first(listing(rows, tool)),
        forall|k: int|
            0 <= k < listing(rows, tool).len() ==> (#[trigger] listing(rows, tool)[k]).tool_id
                == tool,
        forall|k: int|
            0 <= k < listing(rows, tool).len() ==> exists|i: int|
                0 <= i < rows.len() && rows[i] == #[trigger] listing(rows, tool)[k],
        forall|i: int|
            0 <= i < rows.len() && rows[i].tool_id == tool ==> listing(rows, tool).contains(
                #[trigger] rows[i],
            ),
    decreases rows.len(),
{
    if rows.len() > 0 {
        let prev = rows.drop_last();
        lemma_listing(prev, tool);
        let rest = listing(prev, tool);
        let s = rows.last();
        let l = listing(rows, tool);
        assert forall|k: int| 0 <= k < rest.len() implies exists|i: int|
            0 <= i < rows.len() && rows[i] == #[trigger] rest[k] by {
            let i = choose|i: int| 0 <= i < prev.len() && prev[i] == rest[k];
            assert(rows[i] == prev[i]);
        }
        if s.tool_id == tool {
            let p = slot(rest, s.last_seen_at) as int;
            lemma_slot(rest, s.last_seen_at);
            rest.insert_ensures(p, s);
            assert forall|k: int| 0 <= k < l.len() implies (k < p && l[k] == rest[k]) || (k == p
                && l[k] == s) || (k > p && l[k] == rest[k - 1]) by {
                if k > p {
                    assert(l[(k - 1) + 1] == rest[k - 1]);
                }
            }
            assert forall|a: int, b: int| 0 <= a < b < l.len() implies l[a].last_seen_at
                >= l[b].last_seen_at by {
                if a == p && b > p {
                    assert(rest[p].last_seen_at >= rest[b - 1].last_seen_at || p == b - 1);
                }
            }
            assert forall|k: int| 0 <= k < l.len() implies exists|i: int|
                0 <= i < rows.len() && rows[i] == #[trigger] l[k] by {
                if k == p {
                    assert(rows[rows.len() - 1] == l[k]);
                } else if k > p {
                    assert(l[k] == rest[k - 1]);
                }
            }
            assert forall|i: int| 0 <= i < rows.len() && rows[i].tool_id == tool implies l.contains(
                #[trigger] rows[i],
            ) by {
                if i == rows.len() - 1 {
                    assert(l[p] == rows[i]);
                } else {
                    assert(rows[i] == prev[i]);
                    assert(rest.contains(prev[i]));
                    let k = choose|k: int| 0 <= k < rest.len() && rest[k] == prev[i];
                    if k < p {
                        assert(l[k] == rows[i]);
                    } else {
                        assert(l[k + 1] == rows[i]);
                    }
                }
            }
        } else {
            assert forall|i: int| 0 <= i < rows.len() && rows[i].tool_id == tool implies l.contains(
                #[trigger] rows[i],
            ) by {
                assert(rows[i] == prev[i]);
            }
        }
    }
}

} // verus!
