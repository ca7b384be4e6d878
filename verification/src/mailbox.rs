use vstd::prelude::*;

use std::collections::HashMap;

use crate::json::JsonVal;
use crate::ConnectionId;
use crate::msg::Message;

verus! {

broadcast use vstd::std_specs::hash::group_hash_axioms;

/// The process-wide table holding, for each connection, at most one value
/// in transit: a request a worker has not yet taken, or a response the
/// caller has not yet claimed.
///
/// A slot distinguishes "no entry at all" (the connection is unknown)
/// from "an entry holding nothing" (the last value was consumed).
pub struct Mailbox {
    slots: HashMap<u64, Option<Message>>,
}

impl View for Mailbox {
    type V = Map<u64, Option<Message>>;

    closed spec fn view(&self) -> Map<u64, Option<Message>> {
        self.slots@
    }
}

/// The two maps agree on every slot but the named one.
pub open spec fn same_except(
    m0: Map<u64, Option<Message>>,
    m1: Map<u64, Option<Message>>,
    id: ConnectionId,
) -> bool {
    forall|k: u64|
        #![auto]
        k != id ==> (m0.contains_key(k) <==> m1.contains_key(k)) && (m0.contains_key(k)
            ==> m1[k] == m0[k])
}

impl Mailbox {
    /// An empty table, knowing no connection.
    pub fn new() -> (r: Mailbox)
        ensures
            r@ == Map::<u64, Option<Message>>::empty(),
    {
        Mailbox { slots: HashMap::new() }
    }

    /// Whether any slot exists for the connection.
    pub fn contains(&self, id: ConnectionId) -> (r: bool)
        ensures
            r == self@.contains_key(id),
    {
        self.slots.contains_key(&id)
    }

    /// Stage a value for the connection, unconditionally overwriting
    /// whatever its slot held.
    pub fn put(&mut self, id: ConnectionId, m: Message)
        ensures
            final(self)@ == old(self)@.insert(id, Some(m)),
    {
        self.slots.insert(id, Some(m));
    }

    /// Atomically remove and return what the connection's slot holds,
    /// leaving the slot present but empty. Reports a missing slot as the
    /// outer `None`.
    pub fn take(&mut self, id: ConnectionId) -> (r: Option<Option<Message>>)
        ensures
            old(self)@.contains_key(id) ==> r == Some(old(self)@[id]) && final(self)@ == old(
                self,
            )@.insert(id, None::<Message>),
            !old(self)@.contains_key(id) ==> r == None::<Option<Message>> && final(self)@ == old(
                self,
            )@,
    {
        if self.slots.contains_key(&id) {
            let prev = self.slots.insert(id, None);
            match prev {
                Some(p) => Some(p),
                None => Some(None),
            }
        } else {
            None
        }
    }

    /// Remove the connection's slot entirely, as connection teardown does.
    pub fn clear(&mut self, id: ConnectionId)
        ensures
            final(self)@ == old(self)@.remove(id),
    {
        self.slots.remove(&id);
    }
}

/// What a caller learns when it claims a response.
#[derive(Debug, PartialEq)]
pub enum FetchOutcome {
    /// No slot exists for the connection.
    NoSlot,
    /// The slot exists but holds nothing pending.
    NoPending,
    /// A successful response; its payload, now consumed.
    Value(JsonVal),
    /// A failed response; its description, now consumed.
    Failure(String),
    /// The slot held a request, which only a worker may consume.
    NotResponse,
}

/// What a caller learns when it probes a response for an error without
/// consuming a successful payload.
#[derive(Debug, PartialEq)]
pub enum ProbeOutcome {
    /// No slot exists for the connection.
    NoSlot,
    /// The slot exists but holds nothing pending.
    NoPending,
    /// A successful response; it was put back unconsumed.
    StillOk,
    /// A failed response; its description, now consumed.
    Failure(String),
    /// The slot held a request, which only a worker may consume.
    NotResponse,
}

/// What a caller learns from one pull on the result cursor.
#[derive(Debug, PartialEq)]
pub enum NextOutcome {
    /// No slot exists for the connection.
    NoSlot,
    /// The slot exists but holds nothing pending.
    NoPending,
    /// One more item, in original forward order.
    Item(JsonVal),
    /// The items are exhausted; nothing is left pending.
    Done,
    /// A failed response; its description, now consumed.
    Failure(String),
    /// The pending response was successful but not an array.
    NotArray,
    /// The slot held a request, which only a worker may consume.
    NotResponse,
}

/// A slot's content as the result cursor sees it.
pub ghost enum Pending {
    /// No slot exists for the connection.
    NoSlot,
    /// A slot exists but holds nothing pending.
    Idle,
    /// A successful array response: the items not yet handed out,
    /// last to be handed out first.
    Items(Seq<JsonVal>),
    /// A successful response that is not an array.
    Scalar(JsonVal),
    /// A failed response.
    Failed(String),
    /// A request, which only a worker may consume.
    Stray(Message),
}

/// The named slot's content, abstracted for the cursor.
pub open spec fn pending_of(m: Map<u64, Option<Message>>, id: ConnectionId) -> Pending {
    if !m.contains_key(id) {
        Pending::NoSlot
    } else {
        match m[id] {
            None => Pending::Idle,
            Some(Message::ResponseOk(JsonVal::Array(v))) => Pending::Items(v@),
            Some(Message::ResponseOk(j)) => Pending::Scalar(j),
            Some(Message::ResponseError(e)) => Pending::Failed(e),
            Some(q) => Pending::Stray(q),
        }
    }
}

/// What one pull on the cursor returns for a slot in the given state.
pub open spec fn next_outcome(p: Pending) -> NextOutcome {
    match p {
        Pending::NoSlot => NextOutcome::NoSlot,
        Pending::Idle => NextOutcome::NoPending,
        Pending::Items(s) => if s.len() == 0 {
            NextOutcome::Done
        } else {
            NextOutcome::Item(s.last())
        },
        Pending::Scalar(_) => NextOutcome::NotArray,
        Pending::Failed(e) => NextOutcome::Failure(e),
        Pending::Stray(_) => NextOutcome::NotResponse,
    }
}

/// The state one pull on the cursor leaves the slot in. Whatever was
/// pending and not handed back is consumed: only an array with items
/// left stays pending.
pub open spec fn next_pending(p: Pending) -> Pending {
    match p {
        Pending::NoSlot => Pending::NoSlot,
        Pending::Idle => Pending::Idle,
        Pending::Items(s) => if s.len() == 0 {
            Pending::Idle
        } else {
            Pending::Items(s.drop_last())
        },
        Pending::Scalar(_) => Pending::Idle,
        Pending::Failed(_) => Pending::Idle,
        Pending::Stray(_) => Pending::Idle,
    }
}

/// The state discarding a pending response leaves the slot in.
pub open spec fn unref_pending(p: Pending) -> Pending {
    if p is NoSlot {
        Pending::NoSlot
    } else {
        Pending::Idle
    }
}

/// The slot state after a number of pulls on the cursor.
pub open spec fn drain(p: Pending, n: nat) -> Pending
    decreases n,
{
    if n == 0 {
        p
    } else {
        next_pending(drain(p, (n - 1) as nat))
    }
}

proof fn lemma_drain_items(w: Seq<JsonVal>, n: nat)
    requires
        n <= w.len(),
    ensures
        drain(Pending::Items(w), n) == Pending::Items(w.take(w.len() - n)),
    decreases n,
{
    if n == 0 {
        assert(w.take(w.len() - 0) =~= w);
    } else {
        lemma_drain_items(w, (n - 1) as nat);
        assert(w.take(w.len() - (n - 1)).drop_last() =~= w.take(w.len() - n));
    }
}

/// The cursor law: a query result of length k, stored reversed as the
/// worker stores it, hands out exactly the k original items in original
/// forward order, each as a non-done item; the pull after them reports
/// done; and any pull after that finds nothing pending.
pub proof fn lemma_cursor_forward_order(v: Seq<JsonVal>)
    ensures
        forall|i: int|
            0 <= i < v.len() ==> #[trigger] next_outcome(drain(Pending::Items(v.reverse()), i as nat))
                == NextOutcome::Item(v[i]),
        next_outcome(drain(Pending::Items(v.reverse()), v.len())) == NextOutcome::Done,
        next_outcome(drain(Pending::Items(v.reverse()), v.len() + 1)) == NextOutcome::NoPending,
{
    let w = v.reverse();
    assert forall|i: int|
        0 <= i < v.len() implies #[trigger] next_outcome(
        drain(Pending::Items(w), i as nat),
    ) == NextOutcome::Item(v[i]) by {
        lemma_drain_items(w, i as nat);
        assert(w.take(w.len() - i).last() == w[w.len() - i - 1]);
        assert(w[w.len() - i - 1] == v[i]);
    }
    lemma_drain_items(w, v.len());
    assert(w.take(0).len() == 0);
    assert(drain(Pending::Items(w), v.len() + 1) == next_pending(
        drain(Pending::Items(w), v.len()),
    ));
}

/// The abandonment law: after a pending response is discarded, a pull on
/// the cursor behaves as "no pending response", however many items
/// remained, and the slot stays that way.
pub proof fn lemma_unref_then_next(p: Pending)
    ensures
        next_outcome(unref_pending(p)) == if p is NoSlot {
            NextOutcome::NoSlot
        } else {
            NextOutcome::NoPending
        },
        next_pending(unref_pending(p)) == unref_pending(p),
{
}

impl Mailbox {
    /// Claim the response staged for the connection, consuming it.
    pub fn fetch_response(&mut self, id: ConnectionId) -> (r: FetchOutcome)
        ensures
            ({
                let m0 = old(self)@;
                if !m0.contains_key(id) {
                    r == FetchOutcome::NoSlot && final(self)@ == m0
                } else {
                    final(self)@ == m0.insert(id, None::<Message>) && match m0[id] {
                        None => r == FetchOutcome::NoPending,
                        Some(Message::ResponseOk(j)) => r == FetchOutcome::Value(j),
                        Some(Message::ResponseError(e)) => r == FetchOutcome::Failure(e),
                        Some(_) => r == FetchOutcome::NotResponse,
                    }
                }
            }),
    {
        match self.take(id) {
            None => FetchOutcome::NoSlot,
            Some(None) => FetchOutcome::NoPending,
            Some(Some(Message::ResponseOk(j))) => FetchOutcome::Value(j),
            Some(Some(Message::ResponseError(e))) => FetchOutcome::Failure(e),
            Some(Some(_)) => FetchOutcome::NotResponse,
        }
    }

    /// Probe the response staged for the connection: report a failure,
    /// consuming it, but put a successful response back so that a later
    /// claim still finds it.
    pub fn fetch_error(&mut self, id: ConnectionId) -> (r: ProbeOutcome)
        ensures
            ({
                let m0 = old(self)@;
                if !m0.contains_key(id) {
                    r == ProbeOutcome::NoSlot && final(self)@ == m0
                } else {
                    match m0[id] {
                        None => r == ProbeOutcome::NoPending && final(self)@ == m0.insert(
                            id,
                            None::<Message>,
                        ),
                        Some(Message::ResponseOk(j)) => r == ProbeOutcome::StillOk && final(self)@
                            == m0.insert(id, Some(Message::ResponseOk(j))),
                        Some(Message::ResponseError(e)) => r == ProbeOutcome::Failure(e)
                            && final(self)@ == m0.insert(id, None::<Message>),
                        Some(_) => r == ProbeOutcome::NotResponse && final(self)@ == m0.insert(
                            id,
                            None::<Message>,
                        ),
                    }
                }
            }),
    {
        match self.take(id) {
            None => ProbeOutcome::NoSlot,
            Some(None) => ProbeOutcome::NoPending,
            Some(Some(Message::ResponseOk(j))) => {
                self.put(id, Message::ResponseOk(j));
                ProbeOutcome::StillOk
            },
            Some(Some(Message::ResponseError(e))) => ProbeOutcome::Failure(e),
            Some(Some(_)) => ProbeOutcome::NotResponse,
        }
    }

    /// Pull the next item off the pending query result: the stored array
    /// is consumed from its end, which hands the items out in original
    /// forward order, since the worker stored them reversed.
    pub fn query_next(&mut self, id: ConnectionId) -> (r: NextOutcome)
        ensures
            r == next_outcome(pending_of(old(self)@, id)),
            pending_of(final(self)@, id) == next_pending(pending_of(old(self)@, id)),
            same_except(old(self)@, final(self)@, id),
    {
        match self.take(id) {
            None => NextOutcome::NoSlot,
            Some(None) => NextOutcome::NoPending,
            Some(Some(Message::ResponseOk(JsonVal::Array(v)))) => {
                let mut v = v;
                match v.pop() {
                    Some(item) => {
                        self.put(id, Message::ResponseOk(JsonVal::Array(v)));
                        NextOutcome::Item(item)
                    },
                    None => NextOutcome::Done,
                }
            },
            Some(Some(Message::ResponseOk(_))) => NextOutcome::NotArray,
            Some(Some(Message::ResponseError(e))) => NextOutcome::Failure(e),
            Some(Some(_)) => NextOutcome::NotResponse,
        }
    }

    /// Discard whatever response is pending for the connection, so the
    /// rest of a result can be abandoned early; a missing slot is left
    /// missing.
    pub fn query_unref(&mut self, id: ConnectionId)
        ensures
            old(self)@.contains_key(id) ==> final(self)@ == old(self)@.insert(id, None::<Message>),
            !old(self)@.contains_key(id) ==> final(self)@ == old(self)@,
            pending_of(final(self)@, id) == unref_pending(pending_of(old(self)@, id)),
            same_except(old(self)@, final(self)@, id),
    {
        let _ = self.take(id);
    }
}

} // verus!
