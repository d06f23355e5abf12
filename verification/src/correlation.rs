//! How requests and replies belong together: a reply goes to the caller
//! whose request it answers, whatever the order in which the answers
//! come; a second operation on a mail whose first is still pending is
//! told so at once; and a request that is not answered in time is told of
//! the timeout and forgotten.

use vstd::prelude::*;
use crate::client_logic::{
    allocate,
    apply_frames,
    apply_resp,
    on_cmd,
    on_refresh,
    probes,
    resolve,
    taken_ahead,
    wrap_add,
    ClientCmd,
    EffectView,
    EngineView,
    ReplyView,
    Step,
};
use crate::packet::Frame;
use crate::pending::{expired_ids, lists_expired, timed_out, Pending, TXN_TIMEOUT_MS};
use crate::protocol::{GeneralErrors, MailAckType, PulseErrorReason, PulseType};
use crate::server_resp::{handle_frame, ServerRespView};

verus! {

/// The frames by which the server takes the pulses with these ids, in
/// this order.
pub open spec fn pulse_acks(ids: Seq<u64>) -> Seq<Frame> {
    Seq::new(
        ids.len(),
        |i: int| Frame::PulseResp { successful: true, pulse_id: ids[i], error_reason: None },
    )
}

/// The replies that tell the callers of the requests with these ids of
/// the success, in this order.
pub open spec fn successes<R>(pending: Map<u64, Pending<R>>, ids: Seq<u64>) -> Seq<EffectView<R>> {
    Seq::new(ids.len(), |i: int| EffectView::Reply(pending[ids[i]].reply, ReplyView::Success))
}

/// Completing a pending request replies to the caller of that request and
/// to nobody else, takes that request out of the table and leaves every
/// other request as it was.
pub proof fn lemma_resolve_own_caller<R>(state: EngineView<R>, txn_id: u64, value: ReplyView)
    requires
        state.pending.contains_key(txn_id),
    ensures
        resolve(state, txn_id, value).effects == seq![
            EffectView::Reply(state.pending[txn_id].reply, value),
        ],
        resolve(state, txn_id, value).outcome is None,
        !resolve(state, txn_id, value).state.pending.contains_key(txn_id),
        forall|other: u64|
            other != txn_id ==> (#[trigger] resolve(state, txn_id, value).state.pending.contains_key(
                other,
            ) == state.pending.contains_key(other)),
        forall|other: u64|
            other != txn_id && state.pending.contains_key(other) ==> #[trigger] resolve(
                state,
                txn_id,
                value,
            ).state.pending[other] == state.pending[other],
{
}

/// Replies reach the callers whose requests they answer, whatever the
/// order of the answers: when the server takes pending pulses in any
/// order, each caller is told of the success of its own request, in the
/// order of the answers, the requests that were answered leave the table,
/// and every other request stays as it was.
pub proof fn lemma_responses_in_any_order<R>(state: EngineView<R>, ids: Seq<u64>)
    requires
        ids.no_duplicates(),
        forall|i: int| 0 <= i < ids.len() ==> state.pending.contains_key(#[trigger] ids[i]),
    ensures
        apply_frames(state, pulse_acks(ids)).outcome is None,
        apply_frames(state, pulse_acks(ids)).effects == successes(state.pending, ids),
        apply_frames(state, pulse_acks(ids)).state == (EngineView {
            pending: state.pending.remove_keys(ids.to_set()),
            ..state
        }),
    decreases ids.len(),
{
    let frames = pulse_acks(ids);
    if ids.len() == 0 {
        assert(successes(state.pending, ids) =~= Seq::<EffectView<R>>::empty());
        assert(state.pending.remove_keys(ids.to_set()) =~= state.pending);
    } else {
        let first = ids[0];
        let others = ids.drop_first();
        assert(handle_frame(frames[0]) == ServerRespView::PulseResp(
            Ok::<u64, (u64, PulseErrorReason)>(first),
        ));
        let one = apply_resp(state, handle_frame(frames[0]));
        assert(one == resolve(state, first, ReplyView::Success));
        assert(frames.drop_first() =~= pulse_acks(others));
        assert(others.no_duplicates()) by {
            assert forall|a: int, b: int|
                0 <= a < others.len() && 0 <= b < others.len() && a != b implies others[a]
                != others[b] by {
                assert(others[a] == ids[a + 1]);
                assert(others[b] == ids[b + 1]);
            }
        }
        assert forall|i: int| 0 <= i < others.len() implies one.state.pending.contains_key(
            #[trigger] others[i],
        ) by {
            assert(others[i] == ids[i + 1]);
            assert(ids[i + 1] != ids[0]);
        }
        lemma_responses_in_any_order(one.state, others);
        let rest = apply_frames(one.state, pulse_acks(others));
        let whole = apply_frames(state, frames);
        assert(whole.effects =~= successes(state.pending, ids)) by {
            assert forall|i: int| 0 <= i < ids.len() implies whole.effects[i] == successes(
                state.pending,
                ids,
            )[i] by {
                if i > 0 {
                    assert(others[i - 1] == ids[i]);
                    assert(ids[i] != ids[0]);
                    assert(rest.effects[i - 1] == successes(one.state.pending, others)[i - 1]);
                }
            }
        }
        assert(ids.to_set() =~= others.to_set().insert(first)) by {
            assert forall|x: u64| ids.to_set().contains(x) <==> others.to_set().insert(
                first,
            ).contains(x) by {
                if ids.contains(x) {
                    let k = choose|k: int| 0 <= k < ids.len() && ids[k] == x;
                    if k > 0 {
                        assert(others[k - 1] == x);
                    }
                }
                if others.contains(x) {
                    let k = choose|k: int| 0 <= k < others.len() && others[k] == x;
                    assert(ids[k + 1] == x);
                }
                if x == first {
                    assert(ids[0] == x);
                }
            }
        }
        assert(state.pending.remove(first).remove_keys(others.to_set())
            =~= state.pending.remove_keys(ids.to_set()));
    }
}

/// The number of ids that are taken ahead is at most the number of
/// probes, and where it is less, the id after them is free.
proof fn lemma_taken_ahead<R>(pending: Map<u64, Pending<R>>, next_txn_id: u64, k: int)
    requires
        0 <= k <= probes(),
    ensures
        k <= taken_ahead(pending, next_txn_id, k) <= probes(),
        taken_ahead(pending, next_txn_id, k) < probes() ==> !pending.contains_key(
            wrap_add(next_txn_id, taken_ahead(pending, next_txn_id, k)),
        ),
    decreases probes() - k,
{
    if k < probes() && pending.contains_key(wrap_add(next_txn_id, k)) {
        lemma_taken_ahead(pending, next_txn_id, k + 1);
    }
}

/// A request that is recorded gets an id under which nothing was pending,
/// stands in the table under that id with its caller's handle and the
/// time of the request, and leaves every other request as it was.
pub proof fn lemma_allocate_fresh<R>(state: EngineView<R>, now: u64, reply: R)
    requires
        allocate(state, now, reply).1 is Some,
    ensures
        !state.pending.contains_key(allocate(state, now, reply).1->0),
        allocate(state, now, reply).0.pending == state.pending.insert(
            allocate(state, now, reply).1->0,
            Pending { created_at: now, reply },
        ),
{
    lemma_taken_ahead(state.pending, state.next_txn_id, 0);
}

/// A second operation on a mail, while the first is pending, is told at
/// once that it is a duplicate: nothing is sent and nothing changes.
pub proof fn lemma_second_mail_op_is_duplicate<R>(
    state: EngineView<R>,
    first: (MailAckType, R, u64),
    second: (MailAckType, R, u64),
    pulse_id: u64,
)
    requires
        !state.pending.contains_key(pulse_id),
    ensures
        ({
            let one = on_cmd(state, ClientCmd::MailOp(first.0, pulse_id, first.1), first.2);
            let two = on_cmd(one.state, ClientCmd::MailOp(second.0, pulse_id, second.1), second.2);
            &&& one.outcome is None
            &&& one.state.pending.contains_key(pulse_id)
            &&& two == (Step {
                state: one.state,
                effects: seq![
                    EffectView::Reply(
                        second.1,
                        ReplyView::Error(GeneralErrors::DuplicateReq.text()),
                    ),
                ],
                outcome: None,
            })
        }),
{
}

/// An operation on a mail for which a request is pending is a duplicate,
/// whenever it comes.
pub proof fn lemma_duplicate_mail_op<R>(
    state: EngineView<R>,
    ack_type: MailAckType,
    pulse_id: u64,
    reply: R,
    now: u64,
)
    requires
        state.pending.contains_key(pulse_id),
    ensures
        on_cmd(state, ClientCmd::MailOp(ack_type, pulse_id, reply), now) == (Step {
            state,
            effects: seq![
                EffectView::Reply(reply, ReplyView::Error(GeneralErrors::DuplicateReq.text())),
            ],
            outcome: None,
        }),
{
}

/// A request that has waited for longer than the timeout is told of the
/// timeout at the next sweep, once, and is gone from the table after it;
/// a request that has not waited that long stays as it was. This holds in
/// whatever order the sweep walks the table.
pub proof fn lemma_sweep_times_out<R>(
    state: EngineView<R>,
    now: u64,
    order: Seq<u64>,
    txn_id: u64,
)
    requires
        lists_expired(order, state.pending, now),
        state.pending.contains_key(txn_id),
    ensures
        on_refresh(state, now, order).outcome is None,
        timed_out(state.pending[txn_id], now) ==> {
            &&& order.contains(txn_id)
            &&& on_refresh(state, now, order).effects[order.index_of(txn_id)] == EffectView::Reply(
                state.pending[txn_id].reply,
                ReplyView::Timeout,
            )
            &&& !on_refresh(state, now, order).state.pending.contains_key(txn_id)
        },
        !timed_out(state.pending[txn_id], now) ==> {
            &&& !order.contains(txn_id)
            &&& on_refresh(state, now, order).state.pending.contains_key(txn_id)
            &&& on_refresh(state, now, order).state.pending[txn_id] == state.pending[txn_id]
        },
{
    if timed_out(state.pending[txn_id], now) {
        assert(expired_ids(state.pending, now).contains(txn_id));
        assert(order.contains(txn_id));
        let at = order.index_of(txn_id);
        assert(0 <= at < order.len() && order[at] == txn_id);
    } else {
        assert(!expired_ids(state.pending, now).contains(txn_id));
    }
}

/// A request that was made at a time is timed out at every time that is
/// more than the timeout later, and at none before.
pub proof fn lemma_timed_out_after<R>(p: Pending<R>, now: u64)
    ensures
        timed_out(p, now) <==> now - p.created_at > TXN_TIMEOUT_MS,
{
}

/// A pulse that is sent and not answered is told of the timeout: at a
/// sweep that comes more than the timeout after the pulse was sent, with
/// nothing in between, the caller of the pulse gets the timeout and the
/// request is gone from the table.
pub proof fn lemma_unanswered_pulse_times_out<R>(
    state: EngineView<R>,
    pulse: (PulseType, String, Option<String>),
    reply: R,
    sent_at: u64,
    now: u64,
    order: Seq<u64>,
)
    requires
        vstd::utf8::encode_utf8(pulse.1@).len() <= 255,
        allocate(state, sent_at, reply).1 is Some,
        now - sent_at > TXN_TIMEOUT_MS,
        lists_expired(
            order,
            on_cmd(
                state,
                ClientCmd::SendPulse(pulse.0, pulse.1, pulse.2, reply),
                sent_at,
            ).state.pending,
            now,
        ),
    ensures
        ({
            let txn_id = allocate(state, sent_at, reply).1->0;
            let sent = on_cmd(state, ClientCmd::SendPulse(pulse.0, pulse.1, pulse.2, reply), sent_at);
            let swept = on_refresh(sent.state, now, order);
            &&& sent.state.pending.contains_key(txn_id)
            &&& swept.effects.contains(EffectView::Reply(reply, ReplyView::Timeout))
            &&& !swept.state.pending.contains_key(txn_id)
        }),
{
    let txn_id = allocate(state, sent_at, reply).1->0;
    let sent = on_cmd(state, ClientCmd::SendPulse(pulse.0, pulse.1, pulse.2, reply), sent_at);
    lemma_allocate_fresh(state, sent_at, reply);
    assert(sent.state == allocate(state, sent_at, reply).0);
    lemma_sweep_times_out(sent.state, now, order, txn_id);
    let swept = on_refresh(sent.state, now, order);
    let at = order.index_of(txn_id);
    assert(swept.effects[at] == EffectView::Reply(reply, ReplyView::Timeout));
}

} // verus!
