use vstd::prelude::*;

use crate::json::JsonVal;
use crate::ConnectionId;
use crate::msg::{spec_request, Message};
use crate::mailbox::{same_except, Mailbox};
use crate::msg::build_request;
use crate::registry::{release_closes_now, release_result, AttachmentGuard, Registry};
use crate::dispatch::{response_for_add, response_for_delete, response_for_drop, response_for_query};

verus! {

/// The shared state a service owns: the mailbox table and the resource
/// directory, constructed once at startup and handed to every worker.
/// The caller serializes access to it, as the original's process-wide
/// locks did.
pub struct Service {
    pub mailbox: Mailbox,
    pub registry: Registry,
}

impl Service {
    /// A fresh service: no connection is known and no resource is open.
    pub fn new() -> (s: Service)
        ensures
            s.mailbox@ == Map::<u64, Option<Message>>::empty(),
            s.registry@ == Map::<Seq<char>, usize>::empty(),
            s.registry.wf(),
    {
        Service { mailbox: Mailbox::new(), registry: Registry::new() }
    }
}

/// Stage a caller's request in its mailbox slot, or report an unknown
/// message type code without staging anything. The registry is untouched:
/// staging a request is the caller's only act; the worker answers it.
pub fn send_message(
    svc: &mut Service,
    id: ConnectionId,
    msg_type: u64,
    strings: Vec<String>,
    create: bool,
) -> (r: Result<(), String>)
    requires
        msg_type == 0 || msg_type == 1 ==> strings@.len() == 1,
        msg_type == 4 ==> 1 <= strings@.len() <= 2,
    ensures
        final(svc).registry == old(svc).registry,
        match r {
            Ok(_) => msg_type <= 5 && final(svc).mailbox@ == old(svc).mailbox@.insert(
                id,
                Some(spec_request(msg_type, strings, create)),
            ),
            Err(e) => msg_type > 5 && e@ == "unknown message type"@ && final(svc).mailbox@ == old(
                svc,
            ).mailbox@,
        },
{
    match build_request(msg_type, strings, create) {
        Ok(m) => {
            svc.mailbox.put(id, m);
            Ok(())
        },
        Err(e) => Err(e),
    }
}

/// A call only the engine can perform; the driver carries it out and
/// feeds the outcome back as an event.
#[derive(Debug, PartialEq)]
pub enum ExtCall {
    /// Open the named resource, creating it on disk when asked to.
    Open(String, bool),
    /// Destroy the named resource on disk.
    Drop(String),
    /// Add each document to the attached resource, then flush once.
    Add(Vec<String>),
    /// Delete each named document from the attached resource, then flush
    /// once.
    Delete(Vec<String>),
    /// Evaluate the query, with its optional parameter text.
    Query(String, Option<String>),
}

/// What the driver must do after a step.
#[derive(Debug, PartialEq)]
pub enum Action {
    /// Nothing but read the next doorbell signal (or notice the
    /// connection has closed).
    Wait,
    /// Write the ack byte on the socket: a response is staged.
    Ack,
    /// Perform the engine call and feed its outcome back as an event.
    Call(ExtCall),
    /// The last attachment is gone: drop the shared instance open under
    /// this name, before the registry is visible to anyone else.
    CloseInstance(String),
}

/// What the driver observed for a connection.
pub enum Event {
    /// The caller rang the doorbell: a request is staged in the mailbox.
    Doorbell,
    /// The caller closed its end of the socket.
    Eof,
    /// The open call finished with this outcome.
    Opened(Result<(), String>),
    /// The destructive drop finished with this outcome.
    Dropped(Result<(), String>),
    /// The add batch finished: one outcome per document (the generated
    /// identifier, or a description of that item's failure), then the
    /// outcome of the single flush.
    AddDone(Vec<Result<String, String>>, Result<(), String>),
    /// The delete batch finished: one outcome per document (whether it
    /// existed, or a description of that item's failure), then the
    /// outcome of the single flush.
    DeleteDone(Vec<Result<bool, String>>, Result<(), String>),
    /// The query finished: the result values, or a description of the
    /// failure.
    QueryDone(Result<Vec<JsonVal>, String>),
}

/// Where a connection stands in its lifecycle.
pub enum Phase {
    /// Handshake done; the first request must open or drop a resource.
    AwaitingOpen,
    /// An open call for the named resource is in flight, with its create
    /// flag; no instance was open when it started.
    OpenPending(String, bool),
    /// A destructive drop of the named resource is in flight.
    DropPending(String),
    /// A final response — a drop's outcome, or a failed open's error —
    /// was staged and acknowledged; nothing more is accepted, and the
    /// slot is cleared when the caller closes the socket.
    Draining,
    /// Attached to a resource and serving requests against it.
    Servicing(AttachmentGuard),
    /// An add batch against the attached resource is in flight.
    AddPending(AttachmentGuard),
    /// A delete batch against the attached resource is in flight.
    DeletePending(AttachmentGuard),
    /// A query against the attached resource is in flight.
    QueryPending(AttachmentGuard),
    /// The connection is finished: any guard was released and the mailbox
    /// slot was cleared.
    Closed,
}

/// One connection's worker: its identifier and where it stands.
pub struct Worker {
    pub conn_id: ConnectionId,
    pub phase: Phase,
}

impl Worker {
    /// A worker fresh from the handshake, which yielded the connection
    /// identifier.
    pub fn new(conn_id: ConnectionId) -> (w: Worker)
        ensures
            w.conn_id == conn_id,
            w.phase is AwaitingOpen,
    {
        Worker { conn_id, phase: Phase::AwaitingOpen }
    }

    /// Whether the connection is finished, so the driver's loop may end.
    pub fn is_closed(&self) -> (b: bool)
        ensures
            b == (self.phase is Closed),
    {
        match self.phase {
            Phase::Closed => true,
            _ => false,
        }
    }

    /// The name of the resource this worker is attached to, while it
    /// holds an attachment; the driver reads it to find the instance an
    /// engine call is for.
    pub fn attached_name(&self) -> (r: Option<&String>)
        ensures
            match self.phase {
                Phase::Servicing(g) => r matches Some(n) && n@ == g@,
                Phase::AddPending(g) => r matches Some(n) && n@ == g@,
                Phase::DeletePending(g) => r matches Some(n) && n@ == g@,
                Phase::QueryPending(g) => r matches Some(n) && n@ == g@,
                _ => r is None,
            },
    {
        match &self.phase {
            Phase::Servicing(g) => Some(g.name()),
            Phase::AddPending(g) => Some(g.name()),
            Phase::DeletePending(g) => Some(g.name()),
            Phase::QueryPending(g) => Some(g.name()),
            _ => None,
        }
    }
}

/// Which events can reach a worker in each phase: the driver reads the
/// socket only while no engine call is in flight, and feeds back exactly
/// the outcome of the call it was asked to perform.
pub open spec fn fits(phase: Phase, ev: Event) -> bool {
    match phase {
        Phase::AwaitingOpen => ev is Doorbell || ev is Eof,
        Phase::OpenPending(_, _) => ev is Opened,
        Phase::DropPending(_) => ev is Dropped,
        Phase::Draining => ev is Doorbell || ev is Eof,
        Phase::Servicing(_) => ev is Doorbell || ev is Eof,
        Phase::AddPending(_) => ev is AddDone,
        Phase::DeletePending(_) => ev is DeleteDone,
        Phase::QueryPending(_) => ev is QueryDone,
        Phase::Closed => false,
    }
}

/// The connection ends holding nothing: its slot is cleared and the
/// registry is untouched.
pub open spec fn ends_plain(
    id: ConnectionId,
    m0: Map<u64, Option<Message>>,
    r0: Map<Seq<char>, usize>,
    w2: Worker,
    a: Action,
    m1: Map<u64, Option<Message>>,
    r1: Map<Seq<char>, usize>,
) -> bool {
    &&& w2.phase is Closed
    &&& a is Wait
    &&& m1 == m0.remove(id)
    &&& r1 == r0
}

/// The connection ends holding a guard on the name: the slot is cleared,
/// the attachment is released, and when it was the last one the driver is
/// told to close the instance.
pub open spec fn ends_released(
    id: ConnectionId,
    n: Seq<char>,
    m0: Map<u64, Option<Message>>,
    r0: Map<Seq<char>, usize>,
    w2: Worker,
    a: Action,
    m1: Map<u64, Option<Message>>,
    r1: Map<Seq<char>, usize>,
) -> bool {
    &&& w2.phase is Closed
    &&& m1 == m0.remove(id)
    &&& release_result(r0, r1, n)
    &&& if release_closes_now(r0, n) {
        a matches Action::CloseInstance(s) && s@ == n
    } else {
        a is Wait
    }
}

/// A response is staged in the connection's slot and nothing else moved.
pub open spec fn stages(
    id: ConnectionId,
    m0: Map<u64, Option<Message>>,
    m1: Map<u64, Option<Message>>,
    r: Message,
) -> bool {
    m1 == m0.insert(id, Some(r))
}

/// How one step of the per-connection protocol relates what the worker
/// and the shared state were, the event observed, and what they become,
/// together with the action the driver owes. This is the state machine of
/// the handshake-and-doorbell loop.
pub open spec fn step_rel(
    w: Worker,
    ev: Event,
    m0: Map<u64, Option<Message>>,
    r0: Map<Seq<char>, usize>,
    w2: Worker,
    a: Action,
    m1: Map<u64, Option<Message>>,
    r1: Map<Seq<char>, usize>,
) -> bool {
    let id = w.conn_id;
    w2.conn_id == id && match w.phase {
        Phase::AwaitingOpen => match ev {
            Event::Eof => ends_plain(id, m0, r0, w2, a, m1, r1),
            Event::Doorbell => {
                if !m0.contains_key(id) || m0[id] is None {
                    // a doorbell with nothing staged is a protocol
                    // violation, fatal to this connection alone
                    ends_plain(id, m0, r0, w2, a, m1, r1)
                } else {
                    match m0[id] {
                        Some(Message::OpenIndex(name, create)) => {
                            if r0.contains_key(name@) {
                                // someone already holds the instance:
                                // join it, no second open happens
                                &&& (w2.phase matches Phase::Servicing(g) && g@ == name@)
                                &&& a is Ack
                                &&& stages(id, m0, m1, Message::ResponseOk(JsonVal::True))
                                &&& r1 == r0.insert(name@, (r0[name@] + 1) as usize)
                            } else {
                                &&& w2.phase == Phase::OpenPending(name, create)
                                &&& a == Action::Call(ExtCall::Open(name, create))
                                &&& m1 == m0.insert(id, None::<Message>)
                                &&& r1 == r0
                            }
                        },
                        Some(Message::DropIndex(name)) => {
                            if r0.contains_key(name@) {
                                // attachments remain: the resource is busy
                                &&& w2.phase is Draining
                                &&& a is Ack
                                &&& same_except(m0, m1, id)
                                &&& m1.contains_key(id)
                                &&& (m1[id] matches Some(Message::ResponseError(e)) && e@
                                    == "Index instances still open"@)
                                &&& r1 == r0
                            } else {
                                &&& w2.phase == Phase::DropPending(name)
                                &&& a == Action::Call(ExtCall::Drop(name))
                                &&& m1 == m0.insert(id, None::<Message>)
                                &&& r1 == r0
                            }
                        },
                        // any other message before a resource is open is a
                        // protocol violation, fatal to this connection
                        _ => ends_plain(id, m0, r0, w2, a, m1, r1),
                    }
                }
            },
            _ => false,
        },
        Phase::OpenPending(name, create) => match ev {
            Event::Opened(res) => match res {
                Ok(_) => {
                    &&& (w2.phase matches Phase::Servicing(g) && g@ == name@)
                    &&& a is Ack
                    &&& stages(id, m0, m1, Message::ResponseOk(JsonVal::True))
                    &&& r1 == r0.insert(name@, 1usize)
                },
                Err(e) => {
                    // the failure is staged and acknowledged, so the
                    // caller can fetch it; nothing was inserted and no
                    // guard exists, so the connection only drains
                    &&& w2.phase is Draining
                    &&& a is Ack
                    &&& stages(id, m0, m1, Message::ResponseError(e))
                    &&& r1 == r0
                },
            },
            _ => false,
        },
        Phase::DropPending(_) => match ev {
            Event::Dropped(res) => {
                &&& w2.phase is Draining
                &&& a is Ack
                &&& same_except(m0, m1, id)
                &&& m1.contains_key(id)
                &&& (m1[id] matches Some(resp) && response_for_drop(res, resp))
                &&& r1 == r0
            },
            _ => false,
        },
        Phase::Draining => match ev {
            Event::Eof => ends_plain(id, m0, r0, w2, a, m1, r1),
            Event::Doorbell => ends_plain(id, m0, r0, w2, a, m1, r1),
            _ => false,
        },
        Phase::Servicing(g) => match ev {
            Event::Eof => ends_released(id, g@, m0, r0, w2, a, m1, r1),
            Event::Doorbell => {
                if !m0.contains_key(id) || m0[id] is None {
                    ends_released(id, g@, m0, r0, w2, a, m1, r1)
                } else {
                    match m0[id] {
                        Some(Message::Close) => ends_released(id, g@, m0, r0, w2, a, m1, r1),
                        Some(Message::Add(items)) => {
                            &&& w2.phase == Phase::AddPending(g)
                            &&& a == Action::Call(ExtCall::Add(items))
                            &&& m1 == m0.insert(id, None::<Message>)
                            &&& r1 == r0
                        },
                        Some(Message::Delete(items)) => {
                            &&& w2.phase == Phase::DeletePending(g)
                            &&& a == Action::Call(ExtCall::Delete(items))
                            &&& m1 == m0.insert(id, None::<Message>)
                            &&& r1 == r0
                        },
                        Some(Message::Query(q, p)) => {
                            &&& w2.phase == Phase::QueryPending(g)
                            &&& a == Action::Call(ExtCall::Query(q, p))
                            &&& m1 == m0.insert(id, None::<Message>)
                            &&& r1 == r0
                        },
                        // open, drop or a response here is a protocol
                        // violation, fatal to this connection
                        _ => ends_released(id, g@, m0, r0, w2, a, m1, r1),
                    }
                }
            },
            _ => false,
        },
        Phase::AddPending(g) => match ev {
            Event::AddDone(outcomes, flush) => {
                &&& w2.phase == Phase::Servicing(g)
                &&& a is Ack
                &&& same_except(m0, m1, id)
                &&& m1.contains_key(id)
                &&& (m1[id] matches Some(resp) && response_for_add(outcomes@, flush, resp))
                &&& r1 == r0
            },
            _ => false,
        },
        Phase::DeletePending(g) => match ev {
            Event::DeleteDone(outcomes, flush) => {
                &&& w2.phase == Phase::Servicing(g)
                &&& a is Ack
                &&& same_except(m0, m1, id)
                &&& m1.contains_key(id)
                &&& (m1[id] matches Some(resp) && response_for_delete(outcomes@, flush, resp))
                &&& r1 == r0
            },
            _ => false,
        },
        Phase::QueryPending(g) => match ev {
            Event::QueryDone(result) => {
                &&& w2.phase == Phase::Servicing(g)
                &&& a is Ack
                &&& same_except(m0, m1, id)
                &&& m1.contains_key(id)
                &&& (m1[id] matches Some(resp) && response_for_query(result, resp))
                &&& r1 == r0
            },
            _ => false,
        },
        Phase::Closed => false,
    }
}

/// An open outcome may only be fed back while no instance is open under
/// the name: the driver performs the open and the step that records it
/// under one registry lock, so no other connection slips in between.
pub open spec fn open_is_fresh(w: Worker, ev: Event, r0: Map<Seq<char>, usize>) -> bool {
    match w.phase {
        Phase::OpenPending(name, _) => match ev {
            Event::Opened(res) => res is Ok ==> !r0.contains_key(name@),
            _ => true,
        },
        _ => true,
    }
}

/// End the connection while it holds a guard: clear its slot, release the
/// attachment, and tell the driver to close the instance when the
/// attachment was the last.
fn end_with_release(conn_id: ConnectionId, svc: &mut Service, g: AttachmentGuard) -> (r: (Worker, Action))
    requires
        old(svc).registry.wf(),
    ensures
        final(svc).registry.wf(),
        r.0.conn_id == conn_id,
        ends_released(
            conn_id,
            g@,
            old(svc).mailbox@,
            old(svc).registry@,
            r.0,
            r.1,
            final(svc).mailbox@,
            final(svc).registry@,
        ),
{
    svc.mailbox.clear(conn_id);
    match svc.registry.release(g) {
        Some(name) => (Worker { conn_id, phase: Phase::Closed }, Action::CloseInstance(name)),
        None => (Worker { conn_id, phase: Phase::Closed }, Action::Wait),
    }
}

/// End the connection while it holds nothing: clear its slot.
fn end_plain(conn_id: ConnectionId, svc: &mut Service) -> (r: (Worker, Action))
    ensures
        r.0.conn_id == conn_id,
        final(svc).registry == old(svc).registry,
        ends_plain(
            conn_id,
            old(svc).mailbox@,
            old(svc).registry@,
            r.0,
            r.1,
            final(svc).mailbox@,
            final(svc).registry@,
        ),
{
    svc.mailbox.clear(conn_id);
    (Worker { conn_id, phase: Phase::Closed }, Action::Wait)
}

/// Drive one connection one step forward: consume the worker and the
/// event the driver observed, update the shared state, and say what the
/// driver must do next. The caller holds the service across the step, as
/// the original held its process-wide locks.
pub fn step(w: Worker, svc: &mut Service, ev: Event) -> (r: (Worker, Action))
    requires
        old(svc).registry.wf(),
        fits(w.phase, ev),
        open_is_fresh(w, ev, old(svc).registry@),
        forall|n: Seq<char>| #[trigger]
            old(svc).registry@.contains_key(n) ==> old(svc).registry@[n] < usize::MAX,
    ensures
        final(svc).registry.wf(),
        step_rel(
            w,
            ev,
            old(svc).mailbox@,
            old(svc).registry@,
            r.0,
            r.1,
            final(svc).mailbox@,
            final(svc).registry@,
        ),
{
    let Worker { conn_id, phase } = w;
    match phase {
        Phase::AwaitingOpen => match ev {
            Event::Eof => end_plain(conn_id, svc),
            Event::Doorbell => match svc.mailbox.take(conn_id) {
                None => end_plain(conn_id, svc),
                Some(None) => {
                    let res = end_plain(conn_id, svc);
                    proof {
                        assert(svc.mailbox@ =~= old(svc).mailbox@.remove(conn_id));
                    }
                    res
                },
                Some(Some(Message::OpenIndex(name, create))) => {
                    match svc.registry.attach_existing(&name) {
                        Some(g) => {
                            svc.mailbox.put(conn_id, Message::ResponseOk(JsonVal::True));
                            proof {
                                assert(svc.mailbox@ =~= old(svc).mailbox@.insert(
                                    conn_id,
                                    Some(Message::ResponseOk(JsonVal::True)),
                                ));
                            }
                            (Worker { conn_id, phase: Phase::Servicing(g) }, Action::Ack)
                        },
                        None => {
                            let call_name = name.clone();
                            (
                                Worker { conn_id, phase: Phase::OpenPending(name, create) },
                                Action::Call(ExtCall::Open(call_name, create)),
                            )
                        },
                    }
                },
                Some(Some(Message::DropIndex(name))) => {
                    if svc.registry.is_attached(&name) {
                        svc.mailbox.put(
                            conn_id,
                            Message::ResponseError("Index instances still open".to_owned()),
                        );
                        (Worker { conn_id, phase: Phase::Draining }, Action::Ack)
                    } else {
                        let call_name = name.clone();
                        (
                            Worker { conn_id, phase: Phase::DropPending(name) },
                            Action::Call(ExtCall::Drop(call_name)),
                        )
                    }
                },
                Some(Some(_)) => {
                    let res = end_plain(conn_id, svc);
                    proof {
                        assert(svc.mailbox@ =~= old(svc).mailbox@.remove(conn_id));
                    }
                    res
                },
            },
            _ => end_plain(conn_id, svc),
        },
        Phase::OpenPending(name, _create) => match ev {
            Event::Opened(res) => match res {
                Ok(_) => {
                    let g = svc.registry.attach_opened(name);
                    svc.mailbox.put(conn_id, Message::ResponseOk(JsonVal::True));
                    (Worker { conn_id, phase: Phase::Servicing(g) }, Action::Ack)
                },
                Err(e) => {
                    svc.mailbox.put(conn_id, Message::ResponseError(e));
                    (Worker { conn_id, phase: Phase::Draining }, Action::Ack)
                },
            },
            _ => end_plain(conn_id, svc),
        },
        Phase::DropPending(_name) => match ev {
            Event::Dropped(res) => {
                let resp = crate::dispatch::process_drop(res);
                svc.mailbox.put(conn_id, resp);
                (Worker { conn_id, phase: Phase::Draining }, Action::Ack)
            },
            _ => end_plain(conn_id, svc),
        },
        Phase::Draining => end_plain(conn_id, svc),
        Phase::Servicing(g) => match ev {
            Event::Eof => end_with_release(conn_id, svc, g),
            Event::Doorbell => match svc.mailbox.take(conn_id) {
                None => end_with_release(conn_id, svc, g),
                Some(None) => {
                    let res = end_with_release(conn_id, svc, g);
                    proof {
                        assert(svc.mailbox@ =~= old(svc).mailbox@.remove(conn_id));
                    }
                    res
                },
                Some(Some(Message::Close)) => {
                    let res = end_with_release(conn_id, svc, g);
                    proof {
                        assert(svc.mailbox@ =~= old(svc).mailbox@.remove(conn_id));
                    }
                    res
                },
                Some(Some(Message::Add(items))) => (
                    Worker { conn_id, phase: Phase::AddPending(g) },
                    Action::Call(ExtCall::Add(items)),
                ),
                Some(Some(Message::Delete(items))) => (
                    Worker { conn_id, phase: Phase::DeletePending(g) },
                    Action::Call(ExtCall::Delete(items)),
                ),
                Some(Some(Message::Query(q, p))) => (
                    Worker { conn_id, phase: Phase::QueryPending(g) },
                    Action::Call(ExtCall::Query(q, p)),
                ),
                Some(Some(_)) => {
                    let res = end_with_release(conn_id, svc, g);
                    proof {
                        assert(svc.mailbox@ =~= old(svc).mailbox@.remove(conn_id));
                    }
                    res
                },
            },
            _ => end_with_release(conn_id, svc, g),
        },
        Phase::AddPending(g) => match ev {
            Event::AddDone(outcomes, flush) => {
                let resp = crate::dispatch::process_add(outcomes, flush);
                svc.mailbox.put(conn_id, resp);
                (Worker { conn_id, phase: Phase::Servicing(g) }, Action::Ack)
            },
            _ => end_with_release(conn_id, svc, g),
        },
        Phase::DeletePending(g) => match ev {
            Event::DeleteDone(outcomes, flush) => {
                let resp = crate::dispatch::process_delete(outcomes, flush);
                svc.mailbox.put(conn_id, resp);
                (Worker { conn_id, phase: Phase::Servicing(g) }, Action::Ack)
            },
            _ => end_with_release(conn_id, svc, g),
        },
        Phase::QueryPending(g) => match ev {
            Event::QueryDone(result) => {
                let resp = crate::dispatch::process_query(result);
                svc.mailbox.put(conn_id, resp);
                (Worker { conn_id, phase: Phase::Servicing(g) }, Action::Ack)
            },
            _ => end_with_release(conn_id, svc, g),
        },
        Phase::Closed => end_plain(conn_id, svc),
    }
}

} // verus!
