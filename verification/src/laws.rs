//! Session-wide laws, proved over the engine's transition functions: every
//! completion resolves exactly once and to the request that earned it,
//! request ids never run backwards, and a closed session never comes back.

use vstd::prelude::*;

use crate::messages::{Msg, WampId};
use crate::session::{
    spec_abort_request, spec_call, spec_challenge_reply, spec_handshake_frame, spec_join_start,
    spec_leave, spec_on_inbound, spec_publish, spec_register, spec_shutdown, spec_subscribe,
    spec_unregister, spec_unsubscribe, CoreModel, Dispatch, SessionState,
};

verus! {

/// One transition of the engine, whichever function took it.
pub enum Step {
    JoinStart,
    HandshakeFrame { msg: Msg, has_handler: bool },
    ChallengeReply,
    Subscribe { res: u64 },
    Unsubscribe { sub_id: WampId, res: u64 },
    Publish { res: u64 },
    Register { func_ptr: u64, res: u64 },
    Unregister { rpc_id: WampId, res: u64 },
    Call { res: u64 },
    AbortRequest { request: WampId },
    Leave,
    Shutdown,
    Inbound { msg: Msg },
}

/// The model after one transition: the single place every way the engine can
/// move is written down.
pub open spec fn spec_step(m: CoreModel, s: Step) -> CoreModel {
    match s {
        Step::JoinStart => spec_join_start(m),
        Step::HandshakeFrame { msg, has_handler } => spec_handshake_frame(m, msg, has_handler),
        Step::ChallengeReply => spec_challenge_reply(m),
        Step::Subscribe { res } => spec_subscribe(m, res).0,
        Step::Unsubscribe { sub_id, res } => spec_unsubscribe(m, sub_id, res).0,
        Step::Publish { res } => spec_publish(m, res).0,
        Step::Register { func_ptr, res } => spec_register(m, func_ptr, res).0,
        Step::Unregister { rpc_id, res } => spec_unregister(m, rpc_id, res).0,
        Step::Call { res } => spec_call(m, res).0,
        Step::AbortRequest { request } => spec_abort_request(m, request),
        Step::Leave => spec_leave(m),
        Step::Shutdown => spec_shutdown(m),
        Step::Inbound { msg } => spec_on_inbound(m, msg).0,
    }
}

/// Request ids keep increasing monotonically across the session's lifetime:
/// no transition — leaving included — ever winds the counter back, so no id
/// is handed out twice within one session.
pub proof fn lemma_request_ids_monotone(m: CoreModel, s: Step)
    ensures
        spec_step(m, s).next_request_id >= m.next_request_id,
{
}

/// Once the session is closed and invalid — after `leave_realm`, `shutdown`
/// or a failed handshake — no transition makes it valid or moves it out of
/// `Closed`: no WELCOME is ever observed to succeed afterwards.
pub proof fn lemma_closed_stays_closed(m: CoreModel, s: Step)
    requires
        m.state == SessionState::Closed,
        !m.valid_session,
    ensures
        spec_step(m, s).state == SessionState::Closed,
        !spec_step(m, s).valid_session,
{
}

/// Every transition preserves the engine's structural invariant: pending ids
/// stay below the counter and no id is parked in two tables.
pub proof fn lemma_step_preserves_inv(m: CoreModel, s: Step)
    requires
        m.inv(),
    ensures
        spec_step(m, s).inv(),
{
}

/// The request id a response frame answers, if it is a response at all.
pub open spec fn response_request_id(msg: Msg) -> Option<WampId> {
    match msg {
        Msg::Subscribed { request, .. } => Some(request),
        Msg::Unsubscribed { request } => Some(request),
        Msg::Published { request, .. } => Some(request),
        Msg::Registered { request, .. } => Some(request),
        Msg::RpcResult { request, .. } => Some(request),
        Msg::Error { request, .. } => Some(request),
        _ => None,
    }
}

/// The (request id, continuation) pair that dispatching `msg` resolves, if
/// dispatching it resolves one at all.
pub open spec fn dispatch_resolution(m: CoreModel, msg: Msg) -> Option<(WampId, u64)> {
    match spec_on_inbound(m, msg).1 {
        Dispatch::SubscribedOk { cont, .. } => Some((response_request_id(msg)->Some_0, cont)),
        Dispatch::AckOk { cont, .. } => Some((response_request_id(msg)->Some_0, cont)),
        Dispatch::RegisteredOk { cont, .. } => Some((response_request_id(msg)->Some_0, cont)),
        Dispatch::CallOk { cont, .. } => Some((response_request_id(msg)->Some_0, cont)),
        Dispatch::Failed { cont, .. } => Some((response_request_id(msg)->Some_0, cont)),
        _ => None,
    }
}

/// An id the counter has not handed out yet has nothing parked under it, so
/// a fresh request can never collide with an outstanding one.
pub proof fn lemma_fresh_request_never_pending(m: CoreModel, id: u64)
    requires
        m.inv(),
        id >= m.next_request_id,
    ensures
        m.pending_cont(id) is None,
{
}

/// No cross-wiring: when dispatching a frame resolves a continuation, the
/// continuation is exactly the one parked under the frame's own request id,
/// and the value it resolves to is taken from that very frame.
pub proof fn lemma_no_cross_wiring(m: CoreModel, msg: Msg)
    requires
        m.inv(),
        dispatch_resolution(m, msg) is Some,
    ensures
        ({
            let (r, c) = dispatch_resolution(m, msg)->Some_0;
            response_request_id(msg) == Some(r) && m.pending_cont(r) == Some(c)
        }),
        (msg matches Msg::Subscribed { request, subscription } ==> spec_on_inbound(m, msg).1 == (
        Dispatch::SubscribedOk { cont: m.pending_sub[request], subscription })),
        (msg matches Msg::Published { request, publication } ==> spec_on_inbound(m, msg).1 == (
        Dispatch::AckOk { cont: m.pending_transactions[request], publication: Some(publication) })),
        (msg matches Msg::Registered { request, registration } ==> spec_on_inbound(m, msg).1 == (
        Dispatch::RegisteredOk { cont: m.pending_register[request].1, registration })),
        (msg matches Msg::RpcResult { request, details, arguments, arguments_kw } ==> spec_on_inbound(
            m,
            msg,
        ).1 == (Dispatch::CallOk { cont: m.pending_call[request], arguments, arguments_kw })),
{
}

/// Resolved exactly once: once a frame resolves the continuation parked
/// under request id `r`, no later frame resolves anything under `r` again —
/// resolution removes the id from its table the instant it fires.
pub proof fn lemma_resolved_exactly_once(m: CoreModel, f1: Msg, f2: Msg)
    requires
        m.inv(),
        dispatch_resolution(m, f1) is Some,
    ensures
        ({
            let m2 = spec_on_inbound(m, f1).0;
            dispatch_resolution(m2, f2) is Some ==> dispatch_resolution(m2, f2)->Some_0.0
                != dispatch_resolution(m, f1)->Some_0.0
        }),
{
    let r = dispatch_resolution(m, f1)->Some_0.0;
    let m2 = spec_on_inbound(m, f1).0;
    assert(!m2.pending_sub.contains_key(r));
    assert(!m2.pending_transactions.contains_key(r));
    assert(!m2.pending_register.contains_key(r));
    assert(!m2.pending_call.contains_key(r));
}

} // verus!
