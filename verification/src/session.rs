//! The session engine: the authenticated-handshake state machine, the
//! request/response correlation tables, and the dispatch step that routes an
//! inbound frame to the right pending operation or registered procedure.
//!
//! The engine owns no transport. Every operation is a pure step: it updates
//! the engine's state and hands back the frame to send, or says what a just
//! received frame means. The surrounding program performs the sends and
//! receives and suspends callers on their one-shot completion signals; the
//! engine names a caller's signal by an opaque `u64` token and names a
//! registered procedure handler the same way.

use vstd::prelude::*;

use crate::common::ClientRole;
use crate::messages::{
    Arg, Msg, WampArgs, WampDict, WampError, WampId, WampKwArgs, WampString, CALL_ID,
    INVOCATION_ID, MAX_WAMP_ID, PUBLISH_ID, REGISTER_ID, SUBSCRIBE_ID, UNREGISTER_ID,
    UNSUBSCRIBE_ID,
};
use crate::table::IdTable;

verus! {

/// The session lifecycle. All pub/sub/RPC operations are only meaningful in
/// `Established`; the engine itself does not forbid issuing them outside that
/// state — that validation belongs to the caller-facing wrapper.
#[derive(Clone, Copy, PartialEq, Eq, Structural, Debug)]
pub enum SessionState {
    Unauthenticated,
    Handshaking,
    AwaitingChallengeResponse,
    Established,
    Closed,
}

/// The mathematical model of the engine: the lifecycle state, the validity
/// flag, the next request id, and the six correlation tables as maps.
#[verifier::ext_equal]
pub struct CoreModel {
    pub state: SessionState,
    pub valid_session: bool,
    pub next_request_id: u64,
    /// Awaits SUBSCRIBED/ERROR; yields a subscription id.
    pub pending_sub: Map<u64, u64>,
    /// Awaits a single ack/ERROR for UNSUBSCRIBE, PUBLISH, UNREGISTER.
    pub pending_transactions: Map<u64, u64>,
    /// Awaits REGISTERED/ERROR; holds (handler token, completion token).
    pub pending_register: Map<u64, (u64, u64)>,
    /// Awaits RESULT/ERROR.
    pub pending_call: Map<u64, u64>,
    /// Subscription id -> the request id that created it; membership is the
    /// sole truth for "are we subscribed".
    pub subscriptions: Map<u64, u64>,
    /// Registration id -> handler token.
    pub rpc_endpoints: Map<u64, u64>,
}

impl CoreModel {
    /// Every pending request id was handed out by the counter.
    pub open spec fn pending_ids_bounded(self) -> bool {
        &&& (forall|k: u64|
            #[trigger] self.pending_sub.contains_key(k) ==> 1 <= k < self.next_request_id)
        &&& (forall|k: u64|
            #[trigger] self.pending_transactions.contains_key(k) ==> 1 <= k
                < self.next_request_id)
        &&& (forall|k: u64|
            #[trigger] self.pending_register.contains_key(k) ==> 1 <= k < self.next_request_id)
        &&& (forall|k: u64|
            #[trigger] self.pending_call.contains_key(k) ==> 1 <= k < self.next_request_id)
    }

    /// At most one live continuation per request id, across all tables.
    pub open spec fn pending_disjoint(self) -> bool {
        &&& (forall|k: u64|
            #[trigger] self.pending_transactions.contains_key(k)
                ==> !self.pending_sub.contains_key(k))
        &&& (forall|k: u64|
            #[trigger] self.pending_register.contains_key(k) ==> !self.pending_sub.contains_key(k)
                && !self.pending_transactions.contains_key(k))
        &&& (forall|k: u64|
            #[trigger] self.pending_call.contains_key(k) ==> !self.pending_sub.contains_key(k)
                && !self.pending_transactions.contains_key(k)
                && !self.pending_register.contains_key(k))
    }

    pub open spec fn inv(self) -> bool {
        &&& 1 <= self.next_request_id <= MAX_WAMP_ID
        &&& self.pending_ids_bounded()
        &&& self.pending_disjoint()
    }

    /// The continuation parked under a request id, wherever it is parked.
    pub open spec fn pending_cont(self, id: u64) -> Option<u64> {
        if self.pending_sub.contains_key(id) {
            Some(self.pending_sub[id])
        } else if self.pending_transactions.contains_key(id) {
            Some(self.pending_transactions[id])
        } else if self.pending_register.contains_key(id) {
            Some(self.pending_register[id].1)
        } else if self.pending_call.contains_key(id) {
            Some(self.pending_call[id])
        } else {
            None
        }
    }
}

/// The model of a freshly created engine.
pub open spec fn spec_initial_core() -> CoreModel {
    CoreModel {
        state: SessionState::Unauthenticated,
        valid_session: false,
        next_request_id: 1,
        pending_sub: Map::empty(),
        pending_transactions: Map::empty(),
        pending_register: Map::empty(),
        pending_call: Map::empty(),
        subscriptions: Map::empty(),
        rpc_endpoints: Map::empty(),
    }
}

/// The session engine.
pub struct Core {
    state: SessionState,
    valid_session: bool,
    next_request_id: u64,
    pending_sub: IdTable<u64>,
    pending_transactions: IdTable<u64>,
    pending_register: IdTable<(u64, u64)>,
    pending_call: IdTable<u64>,
    subscriptions: IdTable<u64>,
    rpc_endpoints: IdTable<u64>,
}

impl View for Core {
    type V = CoreModel;

    closed spec fn view(&self) -> CoreModel {
        CoreModel {
            state: self.state,
            valid_session: self.valid_session,
            next_request_id: self.next_request_id,
            pending_sub: self.pending_sub@,
            pending_transactions: self.pending_transactions@,
            pending_register: self.pending_register@,
            pending_call: self.pending_call@,
            subscriptions: self.subscriptions@,
            rpc_endpoints: self.rpc_endpoints@,
        }
    }
}

impl Core {
    /// The correlation tables hold each key at most once.
    pub closed spec fn tables_wf(self) -> bool {
        &&& self.pending_sub.wf()
        &&& self.pending_transactions.wf()
        &&& self.pending_register.wf()
        &&& self.pending_call.wf()
        &&& self.subscriptions.wf()
        &&& self.rpc_endpoints.wf()
    }

    pub open spec fn wf(self) -> bool {
        &&& self.tables_wf()
        &&& self@.inv()
    }

    /// Whether the session is between a successful WELCOME and a
    /// GOODBYE/disconnect.
    pub fn valid_session(&self) -> (r: bool)
        ensures
            r == self@.valid_session,
    {
        self.valid_session
    }

    pub fn session_state(&self) -> (r: SessionState)
        ensures
            r == self@.state,
    {
        self.state
    }

    /// The id the next request will get; always below `MAX_WAMP_ID` while the
    /// engine is well formed.
    pub fn next_request_id(&self) -> (r: u64)
        ensures
            r == self@.next_request_id,
    {
        self.next_request_id
    }

    pub fn new() -> (r: Core)
        ensures
            r.wf(),
            r@ == spec_initial_core(),
    {
        let r = Core {
            state: SessionState::Unauthenticated,
            valid_session: false,
            next_request_id: 1,
            pending_sub: IdTable::new(),
            pending_transactions: IdTable::new(),
            pending_register: IdTable::new(),
            pending_call: IdTable::new(),
            subscriptions: IdTable::new(),
            rpc_endpoints: IdTable::new(),
        };
        proof {
            assert(r@ =~= spec_initial_core());
        }
        r
    }

    /// Hands out the next request id, strictly increasing and never reused
    /// within the session.
    fn create_request(&mut self) -> (id: u64)
        requires
            old(self).wf(),
            old(self)@.next_request_id < MAX_WAMP_ID,
        ensures
            final(self).wf(),
            id == old(self)@.next_request_id,
            final(self)@ == (CoreModel {
                next_request_id: (old(self)@.next_request_id + 1) as u64,
                ..old(self)@
            }),
    {
        let id = self.next_request_id;
        self.next_request_id = self.next_request_id + 1;
        proof {
            assert(self@ =~= (CoreModel {
                next_request_id: (old(self)@.next_request_id + 1) as u64,
                ..old(self)@
            }));
        }
        id
    }
}

/// Allocates the next request id, or leaves the model unchanged when the id
/// space is exhausted.
pub open spec fn spec_alloc(m: CoreModel) -> (CoreModel, u64) {
    if m.next_request_id < MAX_WAMP_ID {
        ((CoreModel { next_request_id: (m.next_request_id + 1) as u64, ..m }), m.next_request_id)
    } else {
        (m, 0)
    }
}

pub open spec fn spec_subscribe(m: CoreModel, res: u64) -> (CoreModel, u64) {
    if m.next_request_id < MAX_WAMP_ID {
        let (m1, id) = spec_alloc(m);
        ((CoreModel { pending_sub: m1.pending_sub.insert(id, res), ..m1 }), id)
    } else {
        (m, 0)
    }
}

/// Allocates a request id, parks the continuation in the subscribe table and
/// hands back the SUBSCRIBE frame to send. On send failure the caller rolls
/// the allocation back with `abort_request`.
pub fn subscribe(core: &mut Core, topic: WampString, options: WampDict, res: u64) -> (r: (
    WampId,
    Msg,
))
    requires
        old(core).wf(),
        old(core)@.next_request_id < MAX_WAMP_ID,
    ensures
        final(core).wf(),
        final(core)@ == spec_subscribe(old(core)@, res).0,
        r.0 == spec_subscribe(old(core)@, res).1,
        (r.1 == Msg::Subscribe { request: r.0, topic: topic, options: options }),
{
    let request = core.create_request();
    core.pending_sub.insert(request, res);
    proof {
        assert(core@ =~= spec_subscribe(old(core)@, res).0);
    }
    (request, Msg::Subscribe { request, topic, options })
}

pub open spec fn spec_unsubscribe(m: CoreModel, sub_id: u64, res: u64) -> (CoreModel, Option<
    u64,
>) {
    if !m.subscriptions.contains_key(sub_id) {
        (m, None)
    } else if m.next_request_id < MAX_WAMP_ID {
        let m0 = CoreModel { subscriptions: m.subscriptions.remove(sub_id), ..m };
        let (m1, id) = spec_alloc(m0);
        ((CoreModel { pending_transactions: m1.pending_transactions.insert(id, res), ..m1 }), Some(
            id,
        ))
    } else {
        (m, None)
    }
}

/// Checked locally first: an id not in the subscription table fails
/// immediately with a caller error and produces no outbound frame. Otherwise
/// the local entry is removed eagerly, a request id is allocated and the
/// continuation parked in the generic-ack table.
pub fn unsubscribe(core: &mut Core, sub_id: WampId, res: u64) -> (r: Result<
    (WampId, Msg),
    WampError,
>)
    requires
        old(core).wf(),
        old(core)@.next_request_id < MAX_WAMP_ID,
    ensures
        final(core).wf(),
        final(core)@ == spec_unsubscribe(old(core)@, sub_id, res).0,
        r is Err <==> !old(core)@.subscriptions.contains_key(sub_id),
        match r {
            Ok(p) => Some(p.0) == spec_unsubscribe(old(core)@, sub_id, res).1 && (p.1
                == Msg::Unsubscribe { request: p.0, subscription: sub_id }),
            Err(e) => e matches WampError::CallerError(s) && s@
                == "Tried to unsubscribe from unknown sub_id"@,
        },
{
    match core.subscriptions.take(sub_id) {
        Some(_) => {
            let request = core.create_request();
            core.pending_transactions.insert(request, res);
            proof {
                assert(core@ =~= spec_unsubscribe(old(core)@, sub_id, res).0);
            }
            Ok((request, Msg::Unsubscribe { request, subscription: sub_id }))
        },
        None => {
            proof {
                assert(core@ =~= old(core)@);
            }
            Err(WampError::CallerError("Tried to unsubscribe from unknown sub_id".to_owned()))
        },
    }
}

pub open spec fn spec_publish(m: CoreModel, res: u64) -> (CoreModel, u64) {
    if m.next_request_id < MAX_WAMP_ID {
        let (m1, id) = spec_alloc(m);
        ((CoreModel { pending_transactions: m1.pending_transactions.insert(id, res), ..m1 }), id)
    } else {
        (m, 0)
    }
}

/// Always allocates a request id and parks in the generic-ack table; the
/// continuation resolves to "no id" when the broker does not acknowledge.
pub fn publish(
    core: &mut Core,
    uri: WampString,
    options: WampDict,
    arguments: Option<WampArgs>,
    arguments_kw: Option<WampKwArgs>,
    res: u64,
) -> (r: (WampId, Msg))
    requires
        old(core).wf(),
        old(core)@.next_request_id < MAX_WAMP_ID,
    ensures
        final(core).wf(),
        final(core)@ == spec_publish(old(core)@, res).0,
        r.0 == spec_publish(old(core)@, res).1,
        (r.1 == Msg::Publish {
            request: r.0,
            topic: uri,
            options: options,
            arguments: arguments,
            arguments_kw: arguments_kw,
        }),
{
    let request = core.create_request();
    core.pending_transactions.insert(request, res);
    proof {
        assert(core@ =~= spec_publish(old(core)@, res).0);
    }
    (request, Msg::Publish { request, topic: uri, options, arguments, arguments_kw })
}

pub open spec fn spec_register(m: CoreModel, func_ptr: u64, res: u64) -> (CoreModel, u64) {
    if m.next_request_id < MAX_WAMP_ID {
        let (m1, id) = spec_alloc(m);
        ((CoreModel { pending_register: m1.pending_register.insert(id, (func_ptr, res)), ..m1 }),
        id)
    } else {
        (m, 0)
    }
}

/// Parks handler and continuation together, so that on REGISTERED the handler
/// moves atomically into the registration table keyed by the router-assigned
/// registration id; on ERROR the handler is simply dropped.
pub fn register(
    core: &mut Core,
    uri: WampString,
    res: u64,
    func_ptr: u64,
    options: Option<WampDict>,
) -> (r: (WampId, Msg))
    requires
        old(core).wf(),
        old(core)@.next_request_id < MAX_WAMP_ID,
    ensures
        final(core).wf(),
        final(core)@ == spec_register(old(core)@, func_ptr, res).0,
        r.0 == spec_register(old(core)@, func_ptr, res).1,
        (r.1 matches Msg::Register { request, procedure, options: op } && request == r.0
            && procedure == uri && (match options {
            Some(d) => op == d,
            None => op.spec_empty(),
        })),
{
    let request = core.create_request();
    let op = match options {
        Some(c) => c,
        None => WampDict::new(),
    };
    core.pending_register.insert(request, (func_ptr, res));
    proof {
        assert(core@ =~= spec_register(old(core)@, func_ptr, res).0);
    }
    (request, Msg::Register { request, procedure: uri, options: op })
}

pub open spec fn spec_unregister(m: CoreModel, rpc_id: u64, res: u64) -> (CoreModel, Option<
    u64,
>) {
    if !m.rpc_endpoints.contains_key(rpc_id) {
        (m, None)
    } else if m.next_request_id < MAX_WAMP_ID {
        let m0 = CoreModel { rpc_endpoints: m.rpc_endpoints.remove(rpc_id), ..m };
        let (m1, id) = spec_alloc(m0);
        ((CoreModel { pending_transactions: m1.pending_transactions.insert(id, res), ..m1 }), Some(
            id,
        ))
    } else {
        (m, None)
    }
}

/// Checked locally first: an unknown registration id fails immediately with a
/// caller error and no round trip. The local entry is removed eagerly before
/// UNREGISTER is sent, so an INVOCATION racing the in-flight unregister finds
/// no handler and is answered with a "no such procedure" error.
pub fn unregister(core: &mut Core, rpc_id: WampId, res: u64) -> (r: Result<
    (WampId, Msg),
    WampError,
>)
    requires
        old(core).wf(),
        old(core)@.next_request_id < MAX_WAMP_ID,
    ensures
        final(core).wf(),
        final(core)@ == spec_unregister(old(core)@, rpc_id, res).0,
        r is Err <==> !old(core)@.rpc_endpoints.contains_key(rpc_id),
        match r {
            Ok(p) => Some(p.0) == spec_unregister(old(core)@, rpc_id, res).1 && (p.1
                == Msg::Unregister { request: p.0, registration: rpc_id }),
            Err(e) => e matches WampError::CallerError(s) && s@
                == "Tried to unregister RPC using invalid ID"@,
        },
{
    match core.rpc_endpoints.take(rpc_id) {
        Some(_) => {
            let request = core.create_request();
            core.pending_transactions.insert(request, res);
            proof {
                assert(core@ =~= spec_unregister(old(core)@, rpc_id, res).0);
            }
            Ok((request, Msg::Unregister { request, registration: rpc_id }))
        },
        None => {
            proof {
                assert(core@ =~= old(core)@);
            }
            Err(WampError::CallerError("Tried to unregister RPC using invalid ID".to_owned()))
        },
    }
}

pub open spec fn spec_call(m: CoreModel, res: u64) -> (CoreModel, u64) {
    if m.next_request_id < MAX_WAMP_ID {
        let (m1, id) = spec_alloc(m);
        ((CoreModel { pending_call: m1.pending_call.insert(id, res), ..m1 }), id)
    } else {
        (m, 0)
    }
}

/// Allocates a request id, parks in the call table and hands back the CALL
/// frame; the continuation resolves on RESULT or ERROR.
pub fn call(
    core: &mut Core,
    uri: WampString,
    options: WampDict,
    arguments: Option<WampArgs>,
    arguments_kw: Option<WampKwArgs>,
    res: u64,
) -> (r: (WampId, Msg))
    requires
        old(core).wf(),
        old(core)@.next_request_id < MAX_WAMP_ID,
    ensures
        final(core).wf(),
        final(core)@ == spec_call(old(core)@, res).0,
        r.0 == spec_call(old(core)@, res).1,
        (r.1 == Msg::Call {
            request: r.0,
            procedure: uri,
            options: options,
            arguments: arguments,
            arguments_kw: arguments_kw,
        }),
{
    let request = core.create_request();
    core.pending_call.insert(request, res);
    proof {
        assert(core@ =~= spec_call(old(core)@, res).0);
    }
    (request, Msg::Call { request, procedure: uri, options, arguments, arguments_kw })
}

/// Unparks a continuation whose frame could not be sent: the request id is
/// freed from whichever table holds it; the id itself is never reused.
pub open spec fn spec_abort_request(m: CoreModel, request: u64) -> CoreModel {
    CoreModel {
        pending_sub: m.pending_sub.remove(request),
        pending_transactions: m.pending_transactions.remove(request),
        pending_register: m.pending_register.remove(request),
        pending_call: m.pending_call.remove(request),
        ..m
    }
}

/// Rolls back a parked request after its frame failed to send, returning the
/// continuation token so the caller can be told.
pub fn abort_request(core: &mut Core, request: WampId) -> (r: Option<u64>)
    requires
        old(core).wf(),
    ensures
        final(core).wf(),
        final(core)@ == spec_abort_request(old(core)@, request),
        r == old(core)@.pending_cont(request),
{
    let r = if let Some(c) = core.pending_sub.take(request) {
        Some(c)
    } else if let Some(c) = core.pending_transactions.take(request) {
        Some(c)
    } else if let Some(p) = core.pending_register.take(request) {
        Some(p.1)
    } else if let Some(c) = core.pending_call.take(request) {
        Some(c)
    } else {
        None
    };
    proof {
        assert(core@ =~= spec_abort_request(old(core)@, request));
    }
    r
}

pub open spec fn spec_leave(m: CoreModel) -> CoreModel {
    CoreModel { state: SessionState::Closed, valid_session: false, ..m }
}

/// The GOODBYE frame a leaving session sends, with its fixed reason code.
pub open spec fn goodbye_frame_ok(m: Msg) -> bool {
    m matches Msg::Goodbye { reason, details } && reason@ == "wamp.close.close_realm"@
        && details.spec_empty()
}

/// Marks the session invalid *before* the GOODBYE goes out, so no further
/// operation is attempted against a closing session, and hands back the
/// GOODBYE frame; the close is fire-and-forget, and even a send failure
/// leaves the session left.
pub fn leave_realm(core: &mut Core) -> (m: Msg)
    requires
        old(core).wf(),
    ensures
        final(core).wf(),
        final(core)@ == spec_leave(old(core)@),
        !final(core)@.valid_session,
        final(core)@.next_request_id == old(core)@.next_request_id,
        goodbye_frame_ok(m),
{
    core.state = SessionState::Closed;
    core.valid_session = false;
    proof {
        assert(core@ =~= spec_leave(old(core)@));
    }
    Msg::Goodbye { reason: "wamp.close.close_realm".to_owned(), details: WampDict::new() }
}

pub open spec fn spec_shutdown(m: CoreModel) -> CoreModel {
    CoreModel {
        state: SessionState::Closed,
        valid_session: false,
        pending_sub: Map::empty(),
        pending_transactions: Map::empty(),
        pending_register: Map::empty(),
        pending_call: Map::empty(),
        ..m
    }
}

/// Tears the session down: stops it being valid and drains every outstanding
/// continuation so each can be failed exactly once. The result pairs each
/// pending request id with its continuation token; request ids are distinct,
/// every outstanding continuation appears, and nothing else does.
pub fn shutdown(core: &mut Core) -> (r: Vec<(WampId, u64)>)
    requires
        old(core).wf(),
    ensures
        final(core).wf(),
        final(core)@ == spec_shutdown(old(core)@),
        forall|i: int, j: int| 0 <= i < j < r@.len() ==> (#[trigger] r@[i]).0 != (#[trigger] r@[j]).0,
        forall|i: int|
            0 <= i < r@.len() ==> old(core)@.pending_cont((#[trigger] r@[i]).0) == Some(r@[i].1),
        forall|id: u64|
            old(core)@.pending_cont(id) is Some ==> exists|i: int|
                0 <= i < r@.len() && (#[trigger] r@[i]).0 == id,
{
    let mut out: Vec<(WampId, u64)> = Vec::new();
    let subs = core.pending_sub.take_all();
    let mut i: usize = 0;
    while i < subs.len()
        invariant
            0 <= i <= subs@.len(),
            out@ == subs@.subrange(0, i as int),
        decreases subs@.len() - i,
    {
        out.push(subs[i]);
        proof {
            assert(out@ =~= subs@.subrange(0, i as int + 1));
        }
        i = i + 1;
    }
    proof {
        assert(out@ =~= subs@);
    }
    let trans = core.pending_transactions.take_all();
    let mut i: usize = 0;
    while i < trans.len()
        invariant
            0 <= i <= trans@.len(),
            out@ == subs@ + trans@.subrange(0, i as int),
        decreases trans@.len() - i,
    {
        out.push(trans[i]);
        proof {
            assert(out@ =~= subs@ + trans@.subrange(0, i as int + 1));
        }
        i = i + 1;
    }
    proof {
        assert(out@ =~= subs@ + trans@);
    }
    let regs = core.pending_register.take_all();
    let mut i: usize = 0;
    while i < regs.len()
        invariant
            0 <= i <= regs@.len(),
            out@ == subs@ + trans@ + regs@.subrange(0, i as int).map_values(
                |p: (u64, (u64, u64))| (p.0, p.1.1),
            ),
        decreases regs@.len() - i,
    {
        let (id, p) = regs[i];
        out.push((id, p.1));
        proof {
            assert(out@ =~= subs@ + trans@ + regs@.subrange(0, i as int + 1).map_values(
                |p: (u64, (u64, u64))| (p.0, p.1.1),
            ));
        }
        i = i + 1;
    }
    proof {
        assert(out@ =~= subs@ + trans@ + regs@.map_values(|p: (u64, (u64, u64))| (p.0, p.1.1)));
    }
    let calls = core.pending_call.take_all();
    let mut i: usize = 0;
    while i < calls.len()
        invariant
            0 <= i <= calls@.len(),
            out@ == subs@ + trans@ + regs@.map_values(|p: (u64, (u64, u64))| (p.0, p.1.1))
                + calls@.subrange(0, i as int),
        decreases calls@.len() - i,
    {
        out.push(calls[i]);
        proof {
            assert(out@ =~= subs@ + trans@ + regs@.map_values(|p: (u64, (u64, u64))| (p.0, p.1.1))
                + calls@.subrange(0, i as int + 1));
        }
        i = i + 1;
    }
    core.state = SessionState::Closed;
    core.valid_session = false;
    proof {
        let mapped = regs@.map_values(|p: (u64, (u64, u64))| (p.0, p.1.1));
        assert(out@ =~= subs@ + trans@ + mapped + calls@);
        assert(core@ =~= spec_shutdown(old(core)@));
        assert forall|id: u64| old(core)@.pending_cont(id) is Some implies exists|i: int|
            0 <= i < out@.len() && (#[trigger] out@[i]).0 == id by {
            if old(core)@.pending_sub.contains_key(id) {
                let j = choose|j: int| 0 <= j < subs@.len() && (#[trigger] subs@[j]).0 == id;
                assert(out@[j].0 == id);
            } else if old(core)@.pending_transactions.contains_key(id) {
                let j = choose|j: int| 0 <= j < trans@.len() && (#[trigger] trans@[j]).0 == id;
                assert(out@[subs@.len() + j].0 == id);
            } else if old(core)@.pending_register.contains_key(id) {
                let j = choose|j: int| 0 <= j < regs@.len() && (#[trigger] regs@[j]).0 == id;
                assert(out@[subs@.len() + trans@.len() + j].0 == id);
            } else {
                let j = choose|j: int| 0 <= j < calls@.len() && (#[trigger] calls@[j]).0 == id;
                assert(out@[subs@.len() + trans@.len() + regs@.len() + j].0 == id);
            }
        }
    }
    out
}

/// What the caller-facing wrapper asks the engine to do. Completion signals
/// and procedure handlers live outside the engine and are named by tokens.
pub enum Request {
    Shutdown,
    Join {
        uri: WampString,
        roles: Vec<ClientRole>,
        agent_str: Option<WampString>,
        authentication_methods: Vec<WampString>,
        authentication_id: Option<WampString>,
        authextra: Option<WampDict>,
        has_challenge_handler: bool,
        res: u64,
    },
    Leave { res: u64 },
    Subscribe { uri: WampString, options: WampDict, res: u64 },
    Unsubscribe { sub_id: WampId, res: u64 },
    Publish {
        uri: WampString,
        options: WampDict,
        arguments: Option<WampArgs>,
        arguments_kw: Option<WampKwArgs>,
        res: u64,
    },
    Register { uri: WampString, res: u64, func_ptr: u64, options: Option<WampDict> },
    Unregister { rpc_id: WampId, res: u64 },
    InvocationResult {
        request: WampId,
        res: Result<(Option<WampArgs>, Option<WampKwArgs>), WampError>,
    },
    Call {
        uri: WampString,
        options: WampDict,
        arguments: Option<WampArgs>,
        arguments_kw: Option<WampKwArgs>,
        res: u64,
    },
}

/// What the loop driving the engine must do with one caller request.
#[derive(PartialEq, Debug)]
pub enum RequestOutcome {
    /// Send the frame; if the send fails, free the id with `abort_request`
    /// and tell the returned continuation.
    SendRequest { request: WampId, frame: Msg },
    /// Send the frame and resolve `res` with plain success once it went out.
    SendThenResolve { res: u64, frame: Msg },
    /// Send the frame; nothing is parked on it.
    SendPlain { frame: Msg },
    /// The request fails immediately, with no outbound frame.
    RejectCaller { res: u64, error: WampError },
    /// Stop: fail every outstanding continuation via `shutdown` and close
    /// the transport.
    ShutdownNow,
}

/// The decision table of the engine's run loop: one caller request in, one
/// instruction out. A `Join` starts the handshake — the loop then feeds every
/// received frame to `handshake_on_frame` until it settles.
pub fn handle_request(core: &mut Core, req: Request) -> (r: RequestOutcome)
    requires
        old(core).wf(),
        (match req {
            Request::Shutdown => true,
            Request::Join { ref authentication_methods, ref authextra, .. } => old(core)@.state
                == SessionState::Unauthenticated && ((authentication_methods@.len() > 0
                && authextra is Some) ==> authextra->Some_0.spec_contains("pubkey"@)),
            Request::Leave { .. } => true,
            Request::InvocationResult { .. } => true,
            _ => old(core)@.next_request_id < MAX_WAMP_ID,
        }),
    ensures
        final(core).wf(),
        match req {
            Request::Shutdown => r == RequestOutcome::ShutdownNow && final(core)@ == old(core)@,
            Request::Join {
                uri,
                roles,
                agent_str,
                authentication_methods,
                authentication_id,
                authextra,
                has_challenge_handler,
                res,
            } => final(core)@ == spec_join_start(old(core)@) && (r matches
                RequestOutcome::SendPlain { frame } && hello_frame_ok(
                frame,
                uri,
                roles@,
                agent_str,
                authentication_methods@,
                authextra,
                authentication_id,
            )),
            Request::Leave { res } => final(core)@ == spec_leave(old(core)@) && (r matches
                RequestOutcome::SendThenResolve { res: res2, frame } && (res2 == res
                && goodbye_frame_ok(frame))),
            Request::Subscribe { uri, options, res } => final(core)@ == spec_subscribe(
                old(core)@,
                res,
            ).0 && (r matches RequestOutcome::SendRequest { request, frame } && (request
                == spec_subscribe(old(core)@, res).1 && frame == (Msg::Subscribe {
                request: request,
                topic: uri,
                options: options,
            }))),
            Request::Unsubscribe { sub_id, res } => final(core)@ == spec_unsubscribe(
                old(core)@,
                sub_id,
                res,
            ).0 && (if old(core)@.subscriptions.contains_key(sub_id) {
                r matches RequestOutcome::SendRequest { request, frame } && (Some(request)
                    == spec_unsubscribe(old(core)@, sub_id, res).1 && frame == (Msg::Unsubscribe {
                    request: request,
                    subscription: sub_id,
                }))
            } else {
                r matches RequestOutcome::RejectCaller { res: res2, error } && (res2 == res && (
                error matches WampError::CallerError(s) && s@
                    == "Tried to unsubscribe from unknown sub_id"@))
            }),
            Request::Publish { uri, options, arguments, arguments_kw, res } => final(core)@
                == spec_publish(old(core)@, res).0 && (r matches RequestOutcome::SendRequest {
                request,
                frame,
            } && (request == spec_publish(old(core)@, res).1 && frame == (Msg::Publish {
                request: request,
                topic: uri,
                options: options,
                arguments: arguments,
                arguments_kw: arguments_kw,
            }))),
            Request::Register { uri, res, func_ptr, options } => final(core)@ == spec_register(
                old(core)@,
                func_ptr,
                res,
            ).0 && (r matches RequestOutcome::SendRequest { request, frame } && (request
                == spec_register(old(core)@, func_ptr, res).1 && (frame matches Msg::Register {
                request: rq,
                procedure,
                options: op,
            } && (rq == request && procedure == uri && (match options {
                Some(d) => op == d,
                None => op.spec_empty(),
            }))))),
            Request::Unregister { rpc_id, res } => final(core)@ == spec_unregister(
                old(core)@,
                rpc_id,
                res,
            ).0 && (if old(core)@.rpc_endpoints.contains_key(rpc_id) {
                r matches RequestOutcome::SendRequest { request, frame } && (Some(request)
                    == spec_unregister(old(core)@, rpc_id, res).1 && frame == (Msg::Unregister {
                    request: request,
                    registration: rpc_id,
                }))
            } else {
                r matches RequestOutcome::RejectCaller { res: res2, error } && (res2 == res && (
                error matches WampError::CallerError(s) && s@
                    == "Tried to unregister RPC using invalid ID"@))
            }),
            Request::InvocationResult { request, res } => final(core)@ == old(core)@ && (r matches
                RequestOutcome::SendPlain { frame } && invocation_answer_ok(frame, request, res)),
            Request::Call { uri, options, arguments, arguments_kw, res } => final(core)@
                == spec_call(old(core)@, res).0 && (r matches RequestOutcome::SendRequest {
                request,
                frame,
            } && (request == spec_call(old(core)@, res).1 && frame == (Msg::Call {
                request: request,
                procedure: uri,
                options: options,
                arguments: arguments,
                arguments_kw: arguments_kw,
            }))),
        },
{
    match req {
        Request::Shutdown => RequestOutcome::ShutdownNow,
        Request::Join {
            uri,
            roles,
            agent_str,
            authentication_methods,
            authentication_id,
            authextra,
            has_challenge_handler: _,
            res: _,
        } => {
            let frame = join_realm_start(
                core,
                uri,
                roles,
                agent_str,
                authentication_methods,
                authextra,
                authentication_id,
            );
            RequestOutcome::SendPlain { frame }
        },
        Request::Leave { res } => {
            let frame = leave_realm(core);
            RequestOutcome::SendThenResolve { res, frame }
        },
        Request::Subscribe { uri, options, res } => {
            let (request, frame) = subscribe(core, uri, options, res);
            RequestOutcome::SendRequest { request, frame }
        },
        Request::Unsubscribe { sub_id, res } => {
            match unsubscribe(core, sub_id, res) {
                Ok((request, frame)) => RequestOutcome::SendRequest { request, frame },
                Err(error) => RequestOutcome::RejectCaller { res, error },
            }
        },
        Request::Publish { uri, options, arguments, arguments_kw, res } => {
            let (request, frame) = publish(core, uri, options, arguments, arguments_kw, res);
            RequestOutcome::SendRequest { request, frame }
        },
        Request::Register { uri, res, func_ptr, options } => {
            let (request, frame) = register(core, uri, res, func_ptr, options);
            RequestOutcome::SendRequest { request, frame }
        },
        Request::Unregister { rpc_id, res } => {
            match unregister(core, rpc_id, res) {
                Ok((request, frame)) => RequestOutcome::SendRequest { request, frame },
                Err(error) => RequestOutcome::RejectCaller { res, error },
            }
        },
        Request::InvocationResult { request, res } => {
            let frame = invoke_yield(request, res);
            RequestOutcome::SendPlain { frame }
        },
        Request::Call { uri, options, arguments, arguments_kw, res } => {
            let (request, frame) = call(core, uri, options, arguments, arguments_kw, res);
            RequestOutcome::SendRequest { request, frame }
        },
    }
}

/// What the handshake has to say about one received frame.
#[derive(PartialEq, Debug)]
pub enum HandshakeStep {
    /// WELCOME arrived: the session is established and valid.
    Established { session: WampId, details: WampDict },
    /// CHALLENGE arrived and a handler is configured: run it and answer with
    /// `challenge_reply`.
    AwaitChallenge { authentication_method: WampString, extra: WampDict },
    /// The join failed; the session must be torn down.
    Failed { error: WampError },
}

pub open spec fn spec_join_start(m: CoreModel) -> CoreModel {
    if m.state == SessionState::Unauthenticated {
        CoreModel { state: SessionState::Handshaking, ..m }
    } else {
        m
    }
}

/// The features sub-map a role announces. Support for pattern-based
/// subscription is announced by subscribers; the other roles announce none.
pub open spec fn role_dict_ok(rd: WampDict, r: ClientRole) -> bool {
    if r == ClientRole::Subscriber {
        &&& (rd.spec_get("features"@) matches Some(Arg::Dict(fd)) && fd.spec_get(
            "pattern_based_subscription"@,
        ) == Some(Arg::Bool(true)))
        &&& (forall|k: Seq<char>| rd.spec_contains(k) ==> k == "features"@)
    } else {
        forall|k: Seq<char>| rd.spec_get(k) is None
    }
}

/// The `roles` sub-map of the HELLO details: one entry per announced role,
/// and nothing else.
pub open spec fn roles_dict_ok(cr: WampDict, roles: Seq<ClientRole>) -> bool {
    &&& (forall|i: int|
        0 <= i < roles.len() ==> (cr.spec_get((#[trigger] roles[i]).spec_str()) matches Some(
            Arg::Dict(rd),
        ) && role_dict_ok(rd, roles[i])))
    &&& (forall|k: Seq<char>|
        cr.spec_contains(k) ==> exists|i: int|
            0 <= i < roles.len() && (#[trigger] roles[i]).spec_str() == k)
}

/// The details map the HELLO frame announces: the local role set; the agent
/// string if one was supplied; the authentication methods when any were
/// supplied, and then an `authextra` map carrying the caller's public-key
/// hint; and the authentication id if one was supplied.
pub open spec fn hello_details_ok(
    d: WampDict,
    roles: Seq<ClientRole>,
    agent_str: Option<WampString>,
    methods: Seq<WampString>,
    authextra: Option<WampDict>,
    authid: Option<WampString>,
) -> bool {
    &&& (d.spec_get("roles"@) matches Some(Arg::Dict(cr)) && roles_dict_ok(cr, roles))
    &&& (match agent_str {
        Some(a) => d.spec_get("agent"@) == Some(Arg::Str(a)),
        None => d.spec_get("agent"@) is None,
    })
    &&& (if methods.len() > 0 {
        d.spec_get("authmethods"@) matches Some(Arg::List(l)) && l@ == methods.map_values(
            |s: WampString| Arg::Str(s),
        )
    } else {
        d.spec_get("authmethods"@) is None
    })
    &&& (if methods.len() > 0 && authextra is Some {
        d.spec_get("authextra"@) matches Some(Arg::Dict(ad)) && ad.spec_get("pubkey"@)
            == authextra->Some_0.spec_get("pubkey"@) && (forall|k: Seq<char>|
            ad.spec_contains(k) ==> k == "pubkey"@)
    } else {
        d.spec_get("authextra"@) is None
    })
    &&& (match authid {
        Some(a) => d.spec_get("authid"@) == Some(Arg::Str(a)),
        None => d.spec_get("authid"@) is None,
    })
}

/// The HELLO frame a join opens with: the realm to join and the details map.
pub open spec fn hello_frame_ok(
    m: Msg,
    uri: WampString,
    roles: Seq<ClientRole>,
    agent_str: Option<WampString>,
    methods: Seq<WampString>,
    authextra: Option<WampDict>,
    authid: Option<WampString>,
) -> bool {
    m matches Msg::Hello { realm, details } && realm == uri && hello_details_ok(
        details,
        roles,
        agent_str,
        methods,
        authextra,
        authid,
    )
}

/// Starts a join: builds the HELLO frame announcing the local role set and
/// authentication wishes, and enters the handshake. The caller sends the
/// frame and feeds every received frame to `handshake_on_frame` until it
/// settles. A caller-supplied `authextra` map must carry a `pubkey` entry
/// when authentication methods are announced: its absence is a caller bug.
pub fn join_realm_start(
    core: &mut Core,
    uri: WampString,
    roles: Vec<ClientRole>,
    agent_str: Option<WampString>,
    authentication_methods: Vec<WampString>,
    authextra: Option<WampDict>,
    authid: Option<WampString>,
) -> (m: Msg)
    requires
        old(core).wf(),
        old(core)@.state == SessionState::Unauthenticated,
        (authentication_methods@.len() > 0 && authextra is Some)
            ==> authextra->Some_0.spec_contains("pubkey"@),
    ensures
        final(core).wf(),
        final(core)@ == spec_join_start(old(core)@),
        hello_frame_ok(m, uri, roles@, agent_str, authentication_methods@, authextra, authid),
{
    proof {
        reveal_strlit("caller");
        reveal_strlit("callee");
        reveal_strlit("publisher");
        reveal_strlit("subscriber");
        reveal_strlit("roles");
        reveal_strlit("agent");
        reveal_strlit("authmethods");
        reveal_strlit("authextra");
        reveal_strlit("authid");
    }
    let mut details = WampDict::new();
    let mut client_roles = WampDict::new();

    let mut i: usize = 0;
    while i < roles.len()
        invariant
            0 <= i <= roles@.len(),
            forall|j: int|
                0 <= j < i ==> (client_roles.spec_get((#[trigger] roles@[j]).spec_str()) matches
                Some(Arg::Dict(rd)) && role_dict_ok(rd, roles@[j])),
            forall|k: Seq<char>|
                client_roles.spec_contains(k) ==> exists|j: int|
                    0 <= j < i && (#[trigger] roles@[j]).spec_str() == k,
        decreases roles@.len() - i,
    {
        proof {
            reveal_strlit("caller");
            reveal_strlit("callee");
            reveal_strlit("publisher");
            reveal_strlit("subscriber");
            reveal_strlit("features");
            reveal_strlit("pattern_based_subscription");
        }
        let role = roles[i];
        let mut roledict = WampDict::new();
        // Support for pattern-based subscription is announced by subscribers;
        // some brokers enforce the announcement.
        if let ClientRole::Subscriber = role {
            let mut features = WampDict::new();
            features.insert("pattern_based_subscription".to_owned(), Arg::Bool(true));
            roledict.insert("features".to_owned(), Arg::Dict(features));
        }
        proof {
            assert(role_dict_ok(roledict, role));
        }
        let ghost cr0 = client_roles;
        client_roles.insert(role.to_string(), Arg::Dict(roledict));
        proof {
            assert forall|j: int|
                0 <= j < i + 1 implies (client_roles.spec_get(
                (#[trigger] roles@[j]).spec_str(),
            ) matches Some(Arg::Dict(rd)) && role_dict_ok(rd, roles@[j])) by {
                if j < i {
                    if roles@[j].spec_str() == roles@[i as int].spec_str() {
                        crate::common::lemma_role_str_injective(roles@[j], roles@[i as int]);
                        assert(roles@[j] == roles@[i as int]);
                    } else {
                        assert(client_roles.spec_get(roles@[j].spec_str()) == cr0.spec_get(
                            roles@[j].spec_str(),
                        ));
                    }
                }
            }
            assert forall|k: Seq<char>| client_roles.spec_contains(k) implies exists|j: int|
                0 <= j < i + 1 && (#[trigger] roles@[j]).spec_str() == k by {
                if k == roles@[i as int].spec_str() {
                    assert(roles@[i as int].spec_str() == k);
                } else {
                    assert(cr0.spec_contains(k));
                }
            }
        }
        i = i + 1;
    }

    details.insert("roles".to_owned(), Arg::Dict(client_roles));

    if let Some(agent) = agent_str {
        details.insert("agent".to_owned(), Arg::Str(agent));
    }

    if !authentication_methods.is_empty() {
        let mut l: Vec<Arg> = Vec::new();
        let mut i: usize = 0;
        while i < authentication_methods.len()
            invariant
                0 <= i <= authentication_methods@.len(),
                l@ == authentication_methods@.subrange(0, i as int).map_values(
                    |s: WampString| Arg::Str(s),
                ),
            decreases authentication_methods@.len() - i,
        {
            let s: &WampString = &authentication_methods[i];
            l.push(Arg::Str(s.clone()));
            proof {
                assert(l@ =~= authentication_methods@.subrange(0, i as int + 1).map_values(
                    |s: WampString| Arg::Str(s),
                ));
            }
            i = i + 1;
        }
        proof {
            assert(authentication_methods@.subrange(0, authentication_methods@.len() as int)
                =~= authentication_methods@);
        }
        details.insert("authmethods".to_owned(), Arg::List(l));

        if let Some(extra) = authextra {
            let mut extra = extra;
            let pk = extra.take_key("pubkey");
            let mut a = WampDict::new();
            match pk {
                Some(v) => {
                    a.insert("pubkey".to_owned(), v);
                },
                None => {
                    proof {
                        assert(false);
                    }
                },
            }
            details.insert("authextra".to_owned(), Arg::Dict(a));
        }
    }

    if let Some(id) = authid {
        details.insert("authid".to_owned(), Arg::Str(id));
    }

    core.state = SessionState::Handshaking;
    proof {
        reveal_strlit("roles");
        reveal_strlit("agent");
        reveal_strlit("authmethods");
        reveal_strlit("authextra");
        reveal_strlit("authid");
        assert("roles"@.len() == 5);
        assert("agent"@.len() == 5);
        assert("authmethods"@.len() == 11);
        assert("authextra"@.len() == 9);
        assert("authid"@.len() == 6);
        assert("roles"@[0] == 'r');
        assert("agent"@[0] == 'a');
        assert("agent"@ != "roles"@);
        assert("authmethods"@ != "roles"@);
        assert("authextra"@ != "roles"@);
        assert("authid"@ != "roles"@);
        assert("authmethods"@ != "agent"@);
        assert("authextra"@ != "agent"@);
        assert("authid"@ != "agent"@);
        assert("authextra"@ != "authmethods"@);
        assert("authid"@ != "authmethods"@);
        assert("authid"@ != "authextra"@);
        assert(core@ =~= spec_join_start(old(core)@));
    }
    Msg::Hello { realm: uri, details }
}

pub open spec fn spec_handshake_frame(m: CoreModel, msg: Msg, has_handler: bool) -> CoreModel {
    if m.state != SessionState::Handshaking {
        m
    } else {
        match msg {
            Msg::Welcome { .. } => CoreModel {
                state: SessionState::Established,
                valid_session: true,
                ..m
            },
            Msg::Challenge { .. } => if has_handler {
                CoreModel { state: SessionState::AwaitingChallengeResponse, ..m }
            } else {
                CoreModel { state: SessionState::Closed, valid_session: false, ..m }
            },
            _ => CoreModel { state: SessionState::Closed, valid_session: false, ..m },
        }
    }
}

/// Takes one frame received while handshaking. Only WELCOME (terminal
/// success) and CHALLENGE are accepted; a CHALLENGE with no handler
/// configured fails the join with an authentication error, and no
/// AUTHENTICATE is produced; any other frame is a protocol violation and
/// fatal.
pub fn handshake_on_frame(core: &mut Core, msg: Msg, has_challenge_handler: bool) -> (step:
    HandshakeStep)
    requires
        old(core).wf(),
        old(core)@.state == SessionState::Handshaking,
    ensures
        final(core).wf(),
        final(core)@ == spec_handshake_frame(old(core)@, msg, has_challenge_handler),
        match msg {
            Msg::Welcome { session, details } => step == (HandshakeStep::Established {
                session,
                details,
            }) && final(core)@.valid_session,
            Msg::Challenge { authentication_method, extra } => if has_challenge_handler {
                step == (HandshakeStep::AwaitChallenge { authentication_method, extra })
            } else {
                step matches HandshakeStep::Failed { error } && error matches
                    WampError::AuthenticationError(s) && s@
                    == "Server requested a CHALLENGE to authenticate, but there was no challenge handler provided"@
                    && !final(core)@.valid_session && final(core)@.state == SessionState::Closed
            },
            _ => step matches HandshakeStep::Failed { error } && error matches
                WampError::ProtocolViolation(s) && s@ == "Server did not respond with WELCOME"@
                && !final(core)@.valid_session && final(core)@.state == SessionState::Closed,
        },
{
    let ghost msg0 = msg;
    match msg {
        Msg::Welcome { session, details } => {
            core.state = SessionState::Established;
            core.valid_session = true;
            proof {
                assert(core@ =~= spec_handshake_frame(old(core)@, msg0, has_challenge_handler));
            }
            HandshakeStep::Established { session, details }
        },
        Msg::Challenge { authentication_method, extra } => {
            if has_challenge_handler {
                core.state = SessionState::AwaitingChallengeResponse;
                proof {
                    assert(core@ =~= spec_handshake_frame(
                        old(core)@,
                        msg0,
                        has_challenge_handler,
                    ));
                }
                HandshakeStep::AwaitChallenge { authentication_method, extra }
            } else {
                core.state = SessionState::Closed;
                core.valid_session = false;
                proof {
                    assert(core@ =~= spec_handshake_frame(
                        old(core)@,
                        msg0,
                        has_challenge_handler,
                    ));
                }
                HandshakeStep::Failed {
                    error: WampError::AuthenticationError(
                        "Server requested a CHALLENGE to authenticate, but there was no challenge handler provided".to_owned(),
                    ),
                }
            }
        },
        _ => {
            core.state = SessionState::Closed;
            core.valid_session = false;
            proof {
                assert(core@ =~= spec_handshake_frame(old(core)@, msg0, has_challenge_handler));
            }
            HandshakeStep::Failed {
                error: WampError::ProtocolViolation("Server did not respond with WELCOME".to_owned()),
            }
        },
    }
}

pub open spec fn spec_challenge_reply(m: CoreModel) -> CoreModel {
    if m.state == SessionState::AwaitingChallengeResponse {
        CoreModel { state: SessionState::Handshaking, ..m }
    } else {
        m
    }
}

/// Answers a CHALLENGE with the handler's signature: builds the AUTHENTICATE
/// frame and re-enters the handshake to await WELCOME.
pub fn challenge_reply(core: &mut Core, signature: WampString, extra: WampDict) -> (m: Msg)
    requires
        old(core).wf(),
        old(core)@.state == SessionState::AwaitingChallengeResponse,
    ensures
        final(core).wf(),
        final(core)@ == spec_challenge_reply(old(core)@),
        final(core)@.state == SessionState::Handshaking,
        (m == Msg::Authenticate { signature: signature, extra: extra }),
{
    core.state = SessionState::Handshaking;
    proof {
        assert(core@ =~= spec_challenge_reply(old(core)@));
    }
    Msg::Authenticate { signature, extra }
}

/// What one inbound frame means: which continuation resolves and with what,
/// which procedure to invoke, or what else to do.
#[derive(PartialEq, Debug)]
pub enum Dispatch {
    /// Resolve a pending subscribe with its new subscription id.
    SubscribedOk { cont: u64, subscription: WampId },
    /// Resolve a pending unsubscribe/publish/unregister; `publication` is the
    /// broker-assigned id when the ack carries one.
    AckOk { cont: u64, publication: Option<WampId> },
    /// Resolve a pending register with its new registration id; the parked
    /// handler is now reachable under that id.
    RegisteredOk { cont: u64, registration: WampId },
    /// Resolve a pending call with the procedure's result payload.
    CallOk { cont: u64, arguments: Option<WampArgs>, arguments_kw: Option<WampKwArgs> },
    /// Resolve a pending operation with an application-level error.
    Failed {
        cont: u64,
        error_uri: WampString,
        arguments: Option<WampArgs>,
        arguments_kw: Option<WampKwArgs>,
    },
    /// Run the named procedure handler and answer through `invoke_yield`.
    Invoke {
        handler: u64,
        request: WampId,
        arguments: Option<WampArgs>,
        arguments_kw: Option<WampKwArgs>,
    },
    /// An INVOCATION for a registration not held locally: answer with
    /// `no_such_procedure_error` rather than dropping the router's request.
    NoSuchProcedure { request: WampId },
    /// The peer said GOODBYE: the session is closed.
    PeerGoodbye,
    /// A frame type that has no business arriving here: fatal, the caller
    /// tears the session down.
    Unexpected,
    /// A response nobody is waiting for any more: discarded.
    Ignored,
}

pub open spec fn spec_on_inbound(m: CoreModel, msg: Msg) -> (CoreModel, Dispatch) {
    match msg {
        Msg::Subscribed { request, subscription } => {
            if m.pending_sub.contains_key(request) {
                (
                    (CoreModel {
                        pending_sub: m.pending_sub.remove(request),
                        subscriptions: m.subscriptions.insert(subscription, request),
                        ..m
                    }),
                    Dispatch::SubscribedOk { cont: m.pending_sub[request], subscription },
                )
            } else {
                (m, Dispatch::Ignored)
            }
        },
        Msg::Unsubscribed { request } => {
            if m.pending_transactions.contains_key(request) {
                (
                    (CoreModel {
                        pending_transactions: m.pending_transactions.remove(request),
                        ..m
                    }),
                    Dispatch::AckOk { cont: m.pending_transactions[request], publication: None },
                )
            } else {
                (m, Dispatch::Ignored)
            }
        },
        Msg::Published { request, publication } => {
            if m.pending_transactions.contains_key(request) {
                (
                    (CoreModel {
                        pending_transactions: m.pending_transactions.remove(request),
                        ..m
                    }),
                    Dispatch::AckOk {
                        cont: m.pending_transactions[request],
                        publication: Some(publication),
                    },
                )
            } else {
                (m, Dispatch::Ignored)
            }
        },
        Msg::Registered { request, registration } => {
            if m.pending_register.contains_key(request) {
                (
                    (CoreModel {
                        pending_register: m.pending_register.remove(request),
                        rpc_endpoints: m.rpc_endpoints.insert(
                            registration,
                            m.pending_register[request].0,
                        ),
                        ..m
                    }),
                    Dispatch::RegisteredOk { cont: m.pending_register[request].1, registration },
                )
            } else {
                (m, Dispatch::Ignored)
            }
        },
        Msg::RpcResult { request, details, arguments, arguments_kw } => {
            if m.pending_call.contains_key(request) {
                (
                    (CoreModel { pending_call: m.pending_call.remove(request), ..m }),
                    Dispatch::CallOk { cont: m.pending_call[request], arguments, arguments_kw },
                )
            } else {
                (m, Dispatch::Ignored)
            }
        },
        Msg::Error { typ, request, details, error, arguments, arguments_kw } => {
            if typ == SUBSCRIBE_ID && m.pending_sub.contains_key(request) {
                (
                    (CoreModel { pending_sub: m.pending_sub.remove(request), ..m }),
                    Dispatch::Failed {
                        cont: m.pending_sub[request],
                        error_uri: error,
                        arguments,
                        arguments_kw,
                    },
                )
            } else if (typ == UNSUBSCRIBE_ID || typ == PUBLISH_ID || typ == UNREGISTER_ID)
                && m.pending_transactions.contains_key(request) {
                (
                    (CoreModel {
                        pending_transactions: m.pending_transactions.remove(request),
                        ..m
                    }),
                    Dispatch::Failed {
                        cont: m.pending_transactions[request],
                        error_uri: error,
                        arguments,
                        arguments_kw,
                    },
                )
            } else if typ == REGISTER_ID && m.pending_register.contains_key(request) {
                (
                    (CoreModel { pending_register: m.pending_register.remove(request), ..m }),
                    Dispatch::Failed {
                        cont: m.pending_register[request].1,
                        error_uri: error,
                        arguments,
                        arguments_kw,
                    },
                )
            } else if typ == CALL_ID && m.pending_call.contains_key(request) {
                (
                    (CoreModel { pending_call: m.pending_call.remove(request), ..m }),
                    Dispatch::Failed {
                        cont: m.pending_call[request],
                        error_uri: error,
                        arguments,
                        arguments_kw,
                    },
                )
            } else {
                (m, Dispatch::Ignored)
            }
        },
        Msg::Invocation { request, registration, details, arguments, arguments_kw } => {
            if m.rpc_endpoints.contains_key(registration) {
                (
                    m,
                    Dispatch::Invoke {
                        handler: m.rpc_endpoints[registration],
                        request,
                        arguments,
                        arguments_kw,
                    },
                )
            } else {
                (m, Dispatch::NoSuchProcedure { request })
            }
        },
        Msg::Goodbye { .. } => (
            (CoreModel { state: SessionState::Closed, valid_session: false, ..m }),
            Dispatch::PeerGoodbye,
        ),
        _ => (m, Dispatch::Unexpected),
    }
}

/// Routes one inbound frame: resolves the continuation parked under the
/// frame's request id (removing it, so nothing resolves twice), dispatches an
/// INVOCATION to its registered handler, or reports the frame as a goodbye,
/// unexpected, or stale.
pub fn on_inbound(core: &mut Core, msg: Msg) -> (d: Dispatch)
    requires
        old(core).wf(),
    ensures
        final(core).wf(),
        final(core)@ == spec_on_inbound(old(core)@, msg).0,
        d == spec_on_inbound(old(core)@, msg).1,
{
    let ghost msg0 = msg;
    match msg {
        Msg::Subscribed { request, subscription } => {
            match core.pending_sub.take(request) {
                Some(cont) => {
                    core.subscriptions.set(subscription, request);
                    proof {
                        assert(core@ =~= spec_on_inbound(old(core)@, msg0).0);
                    }
                    Dispatch::SubscribedOk { cont, subscription }
                },
                None => {
                    proof {
                        assert(core@ =~= old(core)@);
                    }
                    Dispatch::Ignored
                },
            }
        },
        Msg::Unsubscribed { request } => {
            match core.pending_transactions.take(request) {
                Some(cont) => {
                    proof {
                        assert(core@ =~= spec_on_inbound(old(core)@, msg0).0);
                    }
                    Dispatch::AckOk { cont, publication: None }
                },
                None => {
                    proof {
                        assert(core@ =~= old(core)@);
                    }
                    Dispatch::Ignored
                },
            }
        },
        Msg::Published { request, publication } => {
            match core.pending_transactions.take(request) {
                Some(cont) => {
                    proof {
                        assert(core@ =~= spec_on_inbound(old(core)@, msg0).0);
                    }
                    Dispatch::AckOk { cont, publication: Some(publication) }
                },
                None => {
                    proof {
                        assert(core@ =~= old(core)@);
                    }
                    Dispatch::Ignored
                },
            }
        },
        Msg::Registered { request, registration } => {
            match core.pending_register.take(request) {
                Some(p) => {
                    core.rpc_endpoints.set(registration, p.0);
                    proof {
                        assert(core@ =~= spec_on_inbound(old(core)@, msg0).0);
                    }
                    Dispatch::RegisteredOk { cont: p.1, registration }
                },
                None => {
                    proof {
                        assert(core@ =~= old(core)@);
                    }
                    Dispatch::Ignored
                },
            }
        },
        Msg::RpcResult { request, details: _, arguments, arguments_kw } => {
            match core.pending_call.take(request) {
                Some(cont) => {
                    proof {
                        assert(core@ =~= spec_on_inbound(old(core)@, msg0).0);
                    }
                    Dispatch::CallOk { cont, arguments, arguments_kw }
                },
                None => {
                    proof {
                        assert(core@ =~= old(core)@);
                    }
                    Dispatch::Ignored
                },
            }
        },
        Msg::Error { typ, request, details: _, error, arguments, arguments_kw } => {
            if typ == SUBSCRIBE_ID {
                match core.pending_sub.take(request) {
                    Some(cont) => {
                        proof {
                            assert(core@ =~= spec_on_inbound(old(core)@, msg0).0);
                        }
                        Dispatch::Failed { cont, error_uri: error, arguments, arguments_kw }
                    },
                    None => {
                        proof {
                            assert(core@ =~= old(core)@);
                        }
                        Dispatch::Ignored
                    },
                }
            } else if typ == UNSUBSCRIBE_ID || typ == PUBLISH_ID || typ == UNREGISTER_ID {
                match core.pending_transactions.take(request) {
                    Some(cont) => {
                        proof {
                            assert(core@ =~= spec_on_inbound(old(core)@, msg0).0);
                        }
                        Dispatch::Failed { cont, error_uri: error, arguments, arguments_kw }
                    },
                    None => {
                        proof {
                            assert(core@ =~= old(core)@);
                        }
                        Dispatch::Ignored
                    },
                }
            } else if typ == REGISTER_ID {
                match core.pending_register.take(request) {
                    Some(p) => {
                        proof {
                            assert(core@ =~= spec_on_inbound(old(core)@, msg0).0);
                        }
                        Dispatch::Failed { cont: p.1, error_uri: error, arguments, arguments_kw }
                    },
                    None => {
                        proof {
                            assert(core@ =~= old(core)@);
                        }
                        Dispatch::Ignored
                    },
                }
            } else if typ == CALL_ID {
                match core.pending_call.take(request) {
                    Some(cont) => {
                        proof {
                            assert(core@ =~= spec_on_inbound(old(core)@, msg0).0);
                        }
                        Dispatch::Failed { cont, error_uri: error, arguments, arguments_kw }
                    },
                    None => {
                        proof {
                            assert(core@ =~= old(core)@);
                        }
                        Dispatch::Ignored
                    },
                }
            } else {
                proof {
                    assert(core@ =~= old(core)@);
                }
                Dispatch::Ignored
            }
        },
        Msg::Invocation { request, registration, details: _, arguments, arguments_kw } => {
            match core.rpc_endpoints.get_copied(registration) {
                Some(handler) => {
                    proof {
                        assert(core@ =~= old(core)@);
                    }
                    Dispatch::Invoke { handler, request, arguments, arguments_kw }
                },
                None => {
                    proof {
                        assert(core@ =~= old(core)@);
                    }
                    Dispatch::NoSuchProcedure { request }
                },
            }
        },
        Msg::Goodbye { .. } => {
            core.state = SessionState::Closed;
            core.valid_session = false;
            proof {
                assert(core@ =~= spec_on_inbound(old(core)@, msg0).0);
            }
            Dispatch::PeerGoodbye
        },
        _ => {
            proof {
                assert(core@ =~= old(core)@);
            }
            Dispatch::Unexpected
        },
    }
}

/// The frame that answers an INVOCATION for a handler outcome: YIELD on
/// success; on failure an ERROR whose URI and payload are the handler's own
/// when it failed with an application error, and a generic URI carrying the
/// error's description otherwise.
pub open spec fn invocation_answer_ok(
    m: Msg,
    request: WampId,
    res: Result<(Option<WampArgs>, Option<WampKwArgs>), WampError>,
) -> bool {
    match res {
        Ok((arguments, arguments_kw)) => (m matches Msg::Yield {
            request: rq,
            options,
            arguments: a,
            arguments_kw: kw,
        } && rq == request && options.spec_empty() && a == arguments && kw == arguments_kw),
        Err(e) => (m matches Msg::Error {
            typ,
            request: rq,
            details,
            error,
            arguments: a,
            arguments_kw: kw,
        } && typ == INVOCATION_ID && rq == request && details.spec_empty() && (match e {
            WampError::ApplicationError(uri, d) => error == uri && a == d.arguments && kw
                == d.arguments_kw,
            _ => error@ == "wamp.async.rs.rpc.failed"@ && (a matches Some(v) && (v@.len() == 1 && (
            v@[0] matches Arg::Str(s) && s@ == e.spec_describe()))) && (kw matches Some(k2)
                && k2.spec_empty()),
        })),
    }
}

/// Converts a procedure handler's outcome into the frame that answers the
/// INVOCATION.
pub fn invoke_yield(
    request: WampId,
    res: Result<(Option<WampArgs>, Option<WampKwArgs>), WampError>,
) -> (m: Msg)
    ensures
        invocation_answer_ok(m, request, res),
{
    match res {
        Ok((arguments, arguments_kw)) => Msg::Yield {
            request,
            options: WampDict::new(),
            arguments,
            arguments_kw,
        },
        Err(e) => {
            match e {
                WampError::ApplicationError(uri, d) => Msg::Error {
                    typ: INVOCATION_ID,
                    request,
                    details: WampDict::new(),
                    error: uri,
                    arguments: d.arguments,
                    arguments_kw: d.arguments_kw,
                },
                other => {
                    let txt = other.describe();
                    Msg::Error {
                        typ: INVOCATION_ID,
                        request,
                        details: WampDict::new(),
                        error: "wamp.async.rs.rpc.failed".to_owned(),
                        arguments: Some(vec![Arg::Str(txt)]),
                        arguments_kw: Some(WampDict::new()),
                    }
                },
            }
        },
    }
}

/// The ERROR frame answering an INVOCATION whose registration is not held
/// locally, so the router's waiting request is not leaked.
pub fn no_such_procedure_error(request: WampId) -> (m: Msg)
    ensures
        (m matches Msg::Error { typ, request: rq, details, error, arguments, arguments_kw } && typ
            == INVOCATION_ID && rq == request && details.spec_empty() && error@
            == "wamp.error.no_such_procedure"@ && arguments is None && arguments_kw is None),
{
    Msg::Error {
        typ: INVOCATION_ID,
        request,
        details: WampDict::new(),
        error: "wamp.error.no_such_procedure".to_owned(),
        arguments: None,
        arguments_kw: None,
    }
}

} // verus!
