//! The table of pending transactions: the requests that were sent to the
//! server and have not been answered yet, each under its id, with the
//! time it was made at and the handle on which its caller waits for the
//! reply.

use std::collections::HashMap;
use vstd::prelude::*;
use vstd::std_specs::iter::IteratorSpec;

verus! {

broadcast use vstd::std_specs::hash::group_hash_axioms;

/// How long a request waits for its answer, in milliseconds.
pub const TXN_TIMEOUT_MS: u64 = 10_000;

/// A pending transaction. Times are milliseconds on the caller's
/// monotonic clock.
pub struct Pending<R> {
    pub created_at: u64,
    pub reply: R,
}

/// Whether a request has waited for longer than [`TXN_TIMEOUT_MS`].
pub open spec fn timed_out<R>(p: Pending<R>, now: u64) -> bool {
    now > p.created_at && now - p.created_at > TXN_TIMEOUT_MS
}

/// The ids of the requests that have timed out.
pub open spec fn expired_ids<R>(table: Map<u64, Pending<R>>, now: u64) -> Set<u64> {
    Set::new(|id: u64| table.contains_key(id) && timed_out(table[id], now))
}

/// The table without the requests that have timed out.
pub open spec fn live<R>(table: Map<u64, Pending<R>>, now: u64) -> Map<u64, Pending<R>> {
    table.remove_keys(expired_ids(table, now))
}

/// Whether a list names the requests that have timed out, each once. The
/// order of the list is the order in which the table was walked, of which
/// nothing is known.
pub open spec fn lists_expired<R>(order: Seq<u64>, table: Map<u64, Pending<R>>, now: u64) -> bool {
    &&& order.no_duplicates()
    &&& forall|id: u64| order.contains(id) <==> expired_ids(table, now).contains(id)
}

/// The ids of a list of requests that were taken out of the table.
pub open spec fn ids_of<R>(gone: Seq<(u64, R)>) -> Seq<u64> {
    Seq::new(gone.len(), |i: int| gone[i].0)
}

/// Trusted: `HashMap::capacity` of the standard library returns the
/// number of entries that the map can hold without allocating again.
/// Nothing is claimed of the number.
#[verifier::external_body]
pub(crate) fn capacity_of<R>(table: &HashMap<u64, Pending<R>>) -> usize {
    table.capacity()
}

/// The ids of the requests that have timed out, each once, in the order
/// in which the table is walked.
fn expired_keys<R>(table: &HashMap<u64, Pending<R>>, now: u64) -> (gone: Vec<u64>)
    ensures
        lists_expired(gone@, table@, now),
{
    let mut gone: Vec<u64> = Vec::new();
    for k in it: table.keys()
        invariant
            it.seq().unref().to_set() == table@.dom(),
            it.seq().no_duplicates(),
            gone@.no_duplicates(),
            forall|x: u64|
                gone@.contains(x) ==> table@.contains_key(x) && timed_out(table@[x], now),
            forall|i: int|
                0 <= i < it.index() ==> (table@.contains_key(*it.seq()[i]) && timed_out(
                    table@[*it.seq()[i]],
                    now,
                ) ==> gone@.contains(*it.seq()[i])),
            forall|x: u64|
                gone@.contains(x) ==> exists|i: int| 0 <= i < it.index() && *it.seq()[i] == x,
    {
        let ghost at = it.index() as int;
        let ghost before = gone@;
        assert(*k == *it.seq()[at]);
        assert(it.seq().unref()[at] == *k);
        assert(it.seq().unref().to_set().contains(*k));
        match table.get(k) {
            Some(entry) => {
                if now > entry.created_at && now - entry.created_at > TXN_TIMEOUT_MS {
                    gone.push(*k);
                    proof {
                        assert(gone@ =~= before.push(*k));
                        assert(!before.contains(*k)) by {
                            if before.contains(*k) {
                                let i = choose|i: int| 0 <= i < at && *it.seq()[i] == *k;
                                assert(it.seq()[i] == it.seq()[at]);
                            }
                        }
                        assert forall|x: u64| gone@.contains(x) implies table@.contains_key(x)
                            && timed_out(table@[x], now) by {
                            let j = choose|j: int| 0 <= j < gone@.len() && gone@[j] == x;
                            if j < before.len() {
                                assert(before[j] == x);
                                assert(before.contains(x));
                            }
                        }
                        assert forall|x: u64| gone@.contains(x) implies exists|i: int|
                            0 <= i < at + 1 && *it.seq()[i] == x by {
                            let j = choose|j: int| 0 <= j < gone@.len() && gone@[j] == x;
                            if j < before.len() {
                                assert(before[j] == x);
                                assert(before.contains(x));
                            } else {
                                assert(*it.seq()[at] == x);
                            }
                        }
                        assert forall|a: int, b: int|
                            0 <= a < gone@.len() && 0 <= b < gone@.len() && a != b implies gone@[a]
                            != gone@[b] by {
                            if a < before.len() && b < before.len() {
                                assert(before[a] != before[b]);
                            } else if a < before.len() {
                                assert(before.contains(before[a]));
                            } else {
                                assert(before.contains(before[b]));
                            }
                        }
                        assert forall|i: int| 0 <= i < at + 1 implies (table@.contains_key(
                            *it.seq()[i],
                        ) && timed_out(table@[*it.seq()[i]], now) ==> gone@.contains(
                            *it.seq()[i],
                        )) by {
                            if i < at {
                                if table@.contains_key(*it.seq()[i]) && timed_out(
                                    table@[*it.seq()[i]],
                                    now,
                                ) {
                                    let x = *it.seq()[i];
                                    assert(before.contains(x));
                                    let j = choose|j: int| 0 <= j < before.len() && before[j] == x;
                                    assert(gone@[j] == x);
                                }
                            } else {
                                assert(gone@[gone@.len() - 1] == *k);
                            }
                        }
                    }
                }
            },
            None => {},
        }
    }
    gone
}

/// Takes the requests that have timed out of the table, and returns each
/// with its id and the handle of its caller, in the order in which the
/// table was walked.
pub fn take_expired<R>(table: &mut HashMap<u64, Pending<R>>, now: u64) -> (gone: Vec<(u64, R)>)
    ensures
        final(table)@ == live(old(table)@, now),
        lists_expired(ids_of(gone@), old(table)@, now),
        forall|i: int|
            0 <= i < gone@.len() ==> old(table)@.contains_key((#[trigger] gone@[i]).0)
                && gone@[i].1 == old(table)@[gone@[i].0].reply,
{
    let ids = expired_keys(table, now);
    let ghost whole = table@;
    let mut gone: Vec<(u64, R)> = Vec::new();
    let mut i: usize = 0;
    assert(ids_of(gone@) =~= ids@.subrange(0, 0));
    assert(whole.remove_keys(ids@.subrange(0, 0).to_set()) =~= whole);
    while i < ids.len()
        invariant
            i <= ids.len(),
            whole == old(table)@,
            lists_expired(ids@, whole, now),
            table@ == whole.remove_keys(ids@.subrange(0, i as int).to_set()),
            ids_of(gone@) == ids@.subrange(0, i as int),
            forall|k: int|
                0 <= k < gone@.len() ==> whole.contains_key((#[trigger] gone@[k]).0) && gone@[k].1
                    == whole[gone@[k].0].reply,
        decreases ids.len() - i,
    {
        let id = ids[i];
        let ghost done = ids@.subrange(0, i as int);
        let ghost next = ids@.subrange(0, i + 1);
        let ghost taken = gone@;
        proof {
            assert(ids@.contains(id));
            assert(expired_ids(whole, now).contains(id));
            assert(!done.to_set().contains(id)) by {
                if done.contains(id) {
                    let j = choose|j: int| 0 <= j < done.len() && done[j] == id;
                    assert(ids@[j] == ids@[i as int]);
                }
            }
            assert(table@.contains_key(id));
            assert(table@[id] == whole[id]);
            assert(next =~= done.push(id));
            assert(next.to_set() =~= done.to_set().insert(id)) by {
                assert forall|x: u64| next.to_set().contains(x) <==> done.to_set().insert(
                    id,
                ).contains(x) by {
                    if next.contains(x) {
                        let j = choose|j: int| 0 <= j < next.len() && next[j] == x;
                        if j < done.len() {
                            assert(done[j] == x);
                            assert(done.contains(x));
                        }
                    }
                    if done.contains(x) {
                        let j = choose|j: int| 0 <= j < done.len() && done[j] == x;
                        assert(next[j] == x);
                    }
                    if x == id {
                        assert(next[next.len() - 1] == id);
                    }
                }
            }
        }
        match table.remove(&id) {
            Some(entry) => {
                gone.push((id, entry.reply));
                proof {
                    assert(table@ =~= whole.remove_keys(next.to_set()));
                    assert(ids_of(gone@) =~= next);
                    assert forall|k: int| 0 <= k < gone@.len() implies whole.contains_key(
                        (#[trigger] gone@[k]).0,
                    ) && gone@[k].1 == whole[gone@[k].0].reply by {
                        if k < taken.len() {
                            assert(gone@[k] == taken[k]);
                        }
                    }
                }
            },
            None => {
                assert(false);
            },
        }
        i += 1;
    }
    proof {
        assert(ids@.subrange(0, ids@.len() as int) =~= ids@);
        assert(ids@.to_set() =~= expired_ids(whole, now));
    }
    gone
}

} // verus!
