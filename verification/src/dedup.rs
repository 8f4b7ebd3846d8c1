//! Each update id goes through once.

use std::collections::HashSet;
use vstd::prelude::*;

verus! {

/// Remembers the greatest update id, and tells whether an id is greater than all before.
pub fn register_new_u(last_u: &mut u64, u_value: u64) -> (r: bool)
    ensures
        r == (u_value > *old(last_u)),
        *final(last_u) == (if r {
            u_value
        } else {
            *old(last_u)
        }),
{
    if u_value <= *last_u {
        false
    } else {
        *last_u = u_value;
        true
    }
}

/// The update ids that went through. It holds one entry for each, for as long as it lives: an id
/// may come again, or come late, at any time.
pub struct SentIds {
    pub ids: HashSet<u64>,
}

impl SentIds {
    /// No id went through yet.
    pub fn new() -> (r: SentIds)
        ensures
            r.ids@ == Set::<u64>::empty(),
    {
        SentIds { ids: HashSet::new() }
    }

    /// Lets an id through, unless it went through before.
    pub fn register(&mut self, u_value: u64) -> (r: bool)
        ensures
            r == !old(self).ids@.contains(u_value),
            final(self).ids@ == old(self).ids@.insert(u_value),
    {
        self.ids.insert(u_value)
    }
}

/// The greatest id after a run of ids.
pub open spec fn last_after(last_u: u64, ids: Seq<u64>) -> u64
    decreases ids.len(),
{
    if ids.len() == 0 {
        last_u
    } else {
        let before = last_after(last_u, ids.drop_last());
        if ids.last() > before {
            ids.last()
        } else {
            before
        }
    }
}

/// The ids that went through after a run of ids.
pub open spec fn sent_after(sent: Set<u64>, ids: Seq<u64>) -> Set<u64>
    decreases ids.len(),
{
    if ids.len() == 0 {
        sent
    } else {
        sent_after(sent, ids.drop_last()).insert(ids.last())
    }
}

/// The ids of a run that are let through, in order.
pub open spec fn let_through(sent: Set<u64>, ids: Seq<u64>) -> Seq<u64>
    decreases ids.len(),
{
    if ids.len() == 0 {
        Seq::empty()
    } else {
        let before = let_through(sent, ids.drop_last());
        if sent_after(sent, ids.drop_last()).contains(ids.last()) {
            before
        } else {
            before.push(ids.last())
        }
    }
}

/// The greatest id is at least the first one and those of the run, and it is one of them.
pub proof fn law_last_is_greatest(last_u: u64, ids: Seq<u64>)
    ensures
        last_after(last_u, ids) >= last_u,
        forall|i: int| 0 <= i < ids.len() ==> #[trigger] ids[i] <= last_after(last_u, ids),
        last_after(last_u, ids) == last_u || ids.contains(last_after(last_u, ids)),
    decreases ids.len(),
{
    if ids.len() > 0 {
        let rest = ids.drop_last();
        law_last_is_greatest(last_u, rest);
        assert forall|i: int| 0 <= i < ids.len() implies #[trigger] ids[i] <= last_after(
            last_u,
            ids,
        ) by {
            if i < rest.len() {
                assert(ids[i] == rest[i]);
            }
        }
        if last_after(last_u, ids) == ids.last() {
            assert(ids[ids.len() - 1] == ids.last());
        } else if last_after(last_u, rest) != last_u {
            let k = choose|k: int| 0 <= k < rest.len() && rest[k] == last_after(last_u, rest);
            assert(ids[k] == rest[k]);
        }
    }
}

/// Behind a sequence and one more id stand the ids of the sequence and that one.
proof fn lemma_contains_push(ids: Seq<u64>, last: u64, u_value: u64)
    ensures
        ids.push(last).contains(u_value) == (ids.contains(u_value) || u_value == last),
{
    let all = ids.push(last);
    assert(all[ids.len() as int] == last);
    if ids.contains(u_value) {
        let k = choose|k: int| 0 <= k < ids.len() && ids[k] == u_value;
        assert(all[k] == u_value);
    }
    if all.contains(u_value) && u_value != last {
        let k = choose|k: int| 0 <= k < all.len() && all[k] == u_value;
        assert(ids[k] == u_value);
    }
}

/// After a run, the ids that went through are those from before it and those of the run.
proof fn lemma_sent_after(sent: Set<u64>, ids: Seq<u64>, u_value: u64)
    ensures
        sent_after(sent, ids).contains(u_value) == (sent.contains(u_value) || ids.contains(
            u_value,
        )),
    decreases ids.len(),
{
    if ids.len() > 0 {
        let rest = ids.drop_last();
        lemma_sent_after(sent, rest, u_value);
        lemma_contains_push(rest, ids.last(), u_value);
        assert(ids =~= rest.push(ids.last()));
    }
}

/// Each id of a run that did not go through before goes through once, and no other id does.
pub proof fn law_each_id_goes_through_once(sent: Set<u64>, ids: Seq<u64>)
    ensures
        let_through(sent, ids).no_duplicates(),
        forall|u_value: u64| #[trigger]
            let_through(sent, ids).contains(u_value) <==> ids.contains(u_value) && !sent.contains(
                u_value,
            ),
    decreases ids.len(),
{
    let through = let_through(sent, ids);
    if ids.len() > 0 {
        let rest = ids.drop_last();
        let before = let_through(sent, rest);
        law_each_id_goes_through_once(sent, rest);
        lemma_sent_after(sent, rest, ids.last());
        assert(ids =~= rest.push(ids.last()));
        assert forall|u_value: u64| #[trigger]
            through.contains(u_value) <==> ids.contains(u_value) && !sent.contains(u_value) by {
            lemma_contains_push(rest, ids.last(), u_value);
            lemma_contains_push(before, ids.last(), u_value);
            assert(before.contains(u_value) <==> rest.contains(u_value) && !sent.contains(u_value));
        }
        assert(before.contains(ids.last()) ==> rest.contains(ids.last()));
        assert forall|i: int, j: int| 0 <= i < j < through.len() implies through[i] != through[j] by {
            assert(through[i] == before[i]);
            assert(before.contains(before[i]));
            if j < before.len() {
                assert(through[j] == before[j]);
            }
        }
    }
}

/// An id goes through at its place in a run exactly where it neither went through before the run
/// nor came before in it.
pub proof fn law_first_arrival_goes_through(sent: Set<u64>, ids: Seq<u64>, u_value: u64)
    ensures
        let_through(sent, ids.push(u_value)) == (if sent.contains(u_value) || ids.contains(u_value) {
            let_through(sent, ids)
        } else {
            let_through(sent, ids).push(u_value)
        }),
{
    assert(ids.push(u_value).drop_last() =~= ids);
    lemma_sent_after(sent, ids, u_value);
}

} // verus!
