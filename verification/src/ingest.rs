//! The sync ingestion actor: the states it goes through while it waits for a
//! notification, asks for operations and applies them, and the bookkeeping of
//! the newest applied timestamp of every instance.
//!
//! The actor's loop runs outside the library: it waits on the channels, asks
//! the database whether an operation is old and applies operations; the
//! functions here decide what comes next.
use vstd::prelude::*;

use std::collections::HashMap;

use vstd::std_specs::iter::IteratorSpec;

verus! {

broadcast use vstd::std_specs::hash::group_hash_axioms;

/// A sync operation as the actor sees it: the instance that made it and its
/// timestamp; the rest of the operation is applied by the caller.
#[derive(Debug, Clone, Copy, PartialEq, Eq, Structural)]
pub struct CrdtOperation {
    pub instance: u128,
    pub timestamp: u64,
}

/// A batch of operations received from a peer.
#[derive(Debug)]
pub struct MessagesEvent {
    pub instance_id: u128,
    pub messages: Vec<CrdtOperation>,
    pub has_more: bool,
}

/// What the actor consumes.
#[derive(Debug)]
pub enum Event {
    Notification,
    Messages(MessagesEvent),
}

/// What the actor asks of the outside.
#[derive(Debug)]
pub enum Request {
    Messages { timestamps: Vec<(u128, u64)> },
    Ingested,
    FinishedIngesting,
}

/// The actor's states.
#[derive(Debug)]
pub enum State {
    WaitingForNotification,
    RetrievingMessages,
    Ingesting(MessagesEvent),
}

/// What woke the actor while it waited for the operations it asked for.
#[derive(Debug)]
pub enum Wake {
    Event(Event),
    /// The peer dropped the request for operations.
    RequestDropped,
}

impl State {
    /// The state the actor starts in.
    pub fn default() -> (r: Self)
        ensures
            r is WaitingForNotification,
    {
        State::WaitingForNotification
    }
}

/// While waiting for a notification: a notification makes the actor retrieve
/// operations; anything else is ignored (`None`: keep waiting).
pub fn on_waiting(event: Event) -> (r: Option<State>)
    ensures
        event is Notification ==> r matches Some(State::RetrievingMessages),
        event is Messages ==> r is None,
{
    match event {
        Event::Notification => Some(State::RetrievingMessages),
        Event::Messages(_) => None,
    }
}

/// While waiting for the operations it asked for: a batch makes the actor
/// ingest it; a dropped request sends it back to waiting for a notification;
/// a notification is ignored (`None`: keep waiting).
pub fn on_retrieving(wake: Wake) -> (r: Option<State>)
    ensures
        wake matches Wake::Event(Event::Messages(ev)) ==> r == Some(State::Ingesting(ev)),
        wake is RequestDropped ==> r matches Some(State::WaitingForNotification),
        wake matches Wake::Event(Event::Notification) ==> r is None,
{
    match wake {
        Wake::Event(Event::Messages(ev)) => Some(State::Ingesting(ev)),
        Wake::Event(Event::Notification) => None,
        Wake::RequestDropped => Some(State::WaitingForNotification),
    }
}

/// After ingesting a batch: when the peer has more, retrieve again; otherwise
/// tell the outside that ingestion finished and wait for a notification.
pub fn after_ingesting(has_more: bool) -> (r: (State, Option<Request>))
    ensures
        has_more ==> r.0 is RetrievingMessages && r.1 is None,
        !has_more ==> r.0 is WaitingForNotification && r.1 matches Some(Request::FinishedIngesting),
{
    if has_more {
        (State::RetrievingMessages, None)
    } else {
        (State::WaitingForNotification, Some(Request::FinishedIngesting))
    }
}

/// The request for operations newer than the known timestamps: one pair per
/// instance the actor knows.
pub fn messages_request(timestamps: &HashMap<u128, u64>) -> (r: Request)
    ensures
        r matches Request::Messages { timestamps: pairs } && pairs@.to_set() == timestamps@.kv_pairs()
            && pairs@.len() == timestamps@.dom().len(),
{
    let mut pairs: Vec<(u128, u64)> = Vec::new();
    let ghost expected = timestamps.iter().remaining();
    for entry in it: timestamps.iter()
        invariant
            it.seq() == expected,
            pairs@ == expected.take(it.index() as int).map_values(
                |e: (&u128, &u64)| (*e.0, *e.1),
            ),
    {
        proof {
            assert(expected.take(it.index() + 1) =~= expected.take(it.index() as int).push(
                expected[it.index() as int],
            ));
        }
        pairs.push((*entry.0, *entry.1));
    }
    proof {
        assert(expected.take(expected.len() as int) =~= expected);
        assert(pairs@ =~= expected.unref());
    }
    Request::Messages { timestamps: pairs }
}

/// Whether an operation with timestamp `op_timestamp` is old: the newest
/// stored operation on the same record, of the same kind, at or after that
/// timestamp (`newest`, read by the caller) is another one.
pub open spec fn operation_is_old(op_timestamp: u64, newest: Option<i64>) -> bool {
    match newest {
        Some(t) => t != op_timestamp as i64,
        None => false,
    }
}

/// Decides whether an operation is old (see [`operation_is_old`]).
pub fn is_operation_old(op_timestamp: u64, newest: Option<i64>) -> (r: bool)
    ensures
        r == operation_is_old(op_timestamp, newest),
{
    match newest {
        Some(t) => t != op_timestamp as i64,
        None => false,
    }
}

/// The newest known timestamp of `instance` after applying an operation of
/// `instance` with timestamp `ts`.
pub open spec fn bumped(m: Map<u128, u64>, instance: u128, ts: u64) -> Map<u128, u64> {
    let prev: u64 = if m.contains_key(instance) { m[instance] } else { 0 };
    m.insert(instance, if prev >= ts { prev } else { ts })
}

/// Handles one received operation: it is applied unless it is old, and then
/// the newest known timestamp of its instance becomes the larger of the
/// stored one and the operation's. The result says whether to apply it.
pub fn receive_crdt_operation(
    timestamps: &mut HashMap<u128, u64>,
    op: CrdtOperation,
    newest: Option<i64>,
) -> (apply: bool)
    ensures
        apply == !operation_is_old(op.timestamp, newest),
        apply ==> final(timestamps)@ == bumped(old(timestamps)@, op.instance, op.timestamp),
        !apply ==> final(timestamps)@ == old(timestamps)@,
        forall|k: u128| #[trigger] old(timestamps)@.contains_key(k) ==> final(timestamps)@.contains_key(k)
            && final(timestamps)@[k] >= old(timestamps)@[k],
{
    if is_operation_old(op.timestamp, newest) {
        return false;
    }
    let prev: u64 = match timestamps.get(&op.instance) {
        Some(t) => *t,
        None => 0,
    };
    let next = if prev >= op.timestamp {
        prev
    } else {
        op.timestamp
    };
    timestamps.insert(op.instance, next);
    true
}


/// The newest known timestamps after receiving `ops` in order, the i-th
/// found old or not by `newest[i]` (see [`operation_is_old`]).
pub open spec fn ingest_fold(m: Map<u128, u64>, ops: Seq<CrdtOperation>, newest: Seq<Option<i64>>) -> Map<u128, u64>
    decreases ops.len(),
{
    if ops.len() == 0 {
        m
    } else {
        let prev = ingest_fold(m, ops.drop_last(), newest);
        let op = ops.last();
        if operation_is_old(op.timestamp, newest[ops.len() - 1]) {
            prev
        } else {
            bumped(prev, op.instance, op.timestamp)
        }
    }
}

/// The operations of `ops` that are applied, in order.
pub open spec fn applied_ops(ops: Seq<CrdtOperation>, newest: Seq<Option<i64>>) -> Seq<CrdtOperation>
    decreases ops.len(),
{
    if ops.len() == 0 {
        Seq::empty()
    } else {
        let prev = applied_ops(ops.drop_last(), newest);
        if operation_is_old(ops.last().timestamp, newest[ops.len() - 1]) {
            prev
        } else {
            prev.push(ops.last())
        }
    }
}

/// One tick of the actor in the ingesting state: the batch's operations are
/// received in order (`newest[i]` is the caller's reading for the i-th; a
/// batch comes ordered by timestamp, so applying an earlier operation never
/// makes a later one old), the result lists those to apply, in order; then
/// the actor retrieves again when the peer has more, or tells the outside
/// that ingestion finished and waits for a notification.
pub fn ingest_batch(
    timestamps: &mut HashMap<u128, u64>,
    event: MessagesEvent,
    newest: Vec<Option<i64>>,
) -> (r: (Vec<CrdtOperation>, State, Option<Request>))
    requires
        newest@.len() == event.messages@.len(),
    ensures
        r.0@ == applied_ops(event.messages@, newest@),
        final(timestamps)@ == ingest_fold(old(timestamps)@, event.messages@, newest@),
        event.has_more ==> r.1 is RetrievingMessages && r.2 is None,
        !event.has_more ==> r.1 is WaitingForNotification && r.2 matches Some(Request::FinishedIngesting),
{
    let ops = &event.messages;
    let mut applied: Vec<CrdtOperation> = Vec::new();
    let mut i: usize = 0;
    proof {
        assert(ops@.subrange(0, 0) =~= Seq::<CrdtOperation>::empty());
    }
    while i < ops.len()
        invariant
            i <= ops@.len(),
            newest@.len() == ops@.len(),
            applied@ == applied_ops(ops@.subrange(0, i as int), newest@),
            timestamps@ == ingest_fold(old(timestamps)@, ops@.subrange(0, i as int), newest@),
        decreases ops.len() - i,
    {
        proof {
            let sub = ops@.subrange(0, i + 1);
            assert(sub.drop_last() =~= ops@.subrange(0, i as int));
            assert(sub.last() == ops@[i as int]);
        }
        let op = ops[i];
        if receive_crdt_operation(timestamps, op, newest[i]) {
            applied.push(op);
        }
        i = i + 1;
    }
    proof {
        assert(ops@.subrange(0, ops@.len() as int) =~= ops@);
    }
    let (state, request) = after_ingesting(event.has_more);
    (applied, state, request)
}

/// Ingesting a batch never lowers a known timestamp nor forgets an
/// instance, and leaves every applied operation's instance at or after that
/// operation's timestamp.
pub proof fn lemma_ingest_monotone(m: Map<u128, u64>, ops: Seq<CrdtOperation>, newest: Seq<Option<i64>>)
    requires
        newest.len() == ops.len(),
    ensures
        forall|k: u128| #[trigger] m.contains_key(k) ==> ingest_fold(m, ops, newest).contains_key(k)
            && ingest_fold(m, ops, newest)[k] >= m[k],
        forall|i: int|
            0 <= i < applied_ops(ops, newest).len() ==> ingest_fold(m, ops, newest).contains_key(
                (#[trigger] applied_ops(ops, newest)[i]).instance,
            ) && ingest_fold(m, ops, newest)[applied_ops(ops, newest)[i].instance]
                >= applied_ops(ops, newest)[i].timestamp,
    decreases ops.len(),
{
    if ops.len() > 0 {
        let t = ops.drop_last();
        lemma_ingest_monotone(m, t, newest.subrange(0, t.len() as int));
        lemma_fold_prefix(m, t, newest);
        let prev = ingest_fold(m, t, newest);
        let ap = applied_ops(t, newest);
        assert(applied_ops(t, newest.subrange(0, t.len() as int)) == ap) by {
            lemma_applied_prefix(t, newest);
        }
    }
}

proof fn lemma_fold_prefix(m: Map<u128, u64>, ops: Seq<CrdtOperation>, newest: Seq<Option<i64>>)
    requires
        ops.len() <= newest.len(),
    ensures
        ingest_fold(m, ops, newest) == ingest_fold(m, ops, newest.subrange(0, ops.len() as int)),
    decreases ops.len(),
{
    if ops.len() > 0 {
        lemma_fold_prefix(m, ops.drop_last(), newest);
        lemma_fold_prefix(m, ops.drop_last(), newest.subrange(0, ops.len() as int));
        assert(newest.subrange(0, ops.len() as int).subrange(0, ops.len() - 1) =~= newest.subrange(
            0,
            ops.len() - 1,
        ));
    }
}

proof fn lemma_applied_prefix(ops: Seq<CrdtOperation>, newest: Seq<Option<i64>>)
    requires
        ops.len() <= newest.len(),
    ensures
        applied_ops(ops, newest) == applied_ops(ops, newest.subrange(0, ops.len() as int)),
    decreases ops.len(),
{
    if ops.len() > 0 {
        lemma_applied_prefix(ops.drop_last(), newest);
        lemma_applied_prefix(ops.drop_last(), newest.subrange(0, ops.len() as int));
        assert(newest.subrange(0, ops.len() as int).subrange(0, ops.len() - 1) =~= newest.subrange(
            0,
            ops.len() - 1,
        ));
    }
}


/// What a tick of the actor consumes, by its state: while waiting for a
/// notification, the events received; while retrieving, what woke it after
/// it asked for operations; while ingesting, the caller's readings for the
/// batch's operations (see [`ingest_batch`]).
#[derive(Debug)]
pub enum TickInput {
    Events(Vec<Event>),
    Wakes(Vec<Wake>),
    Readings(Vec<Option<i64>>),
}

/// What a tick did: the state the actor is in afterwards, the requests it
/// sent, in order, and the operations it applied, in order.
#[derive(Debug)]
pub struct TickOutcome {
    pub state: State,
    pub requests: Vec<Request>,
    pub applied: Vec<CrdtOperation>,
}

/// Whether a tick's input fits the state it starts in.
pub open spec fn input_fits(state: State, input: TickInput) -> bool {
    match state {
        State::WaitingForNotification => input is Events,
        State::RetrievingMessages => input is Wakes,
        State::Ingesting(ev) => input matches TickInput::Readings(n) && n@.len() == ev.messages@.len(),
    }
}

/// The first of some wakes that decides where a retrieval goes: a batch or
/// a dropped request (a notification is skipped).
pub open spec fn first_decision(wakes: Seq<Wake>) -> Option<Wake>
    decreases wakes.len(),
{
    if wakes.len() == 0 {
        None
    } else {
        match wakes[0] {
            Wake::Event(Event::Notification) => first_decision(wakes.drop_first()),
            w => Some(w),
        }
    }
}

/// Whether some event is a notification.
pub open spec fn has_notification(events: Seq<Event>) -> bool {
    exists|i: int| 0 <= i < events.len() && events[i] is Notification
}

/// One tick of the actor, as a whole. Waiting: it moves to retrieving once a
/// notification comes (other events are dropped). Retrieving: it sends one
/// request for the operations after the known timestamps, then ingests the
/// first batch that comes, or waits again if the request is dropped (it
/// keeps retrieving while neither came). Ingesting: it applies the batch in
/// order, then retrieves again if the peer has more, or tells the outside
/// that ingestion finished and waits.
#[verifier::loop_isolation(false)]
pub fn tick(state: State, timestamps: &mut HashMap<u128, u64>, input: TickInput) -> (r: TickOutcome)
    requires
        input_fits(state, input),
    ensures
        match state {
            State::WaitingForNotification => {
                &&& final(timestamps)@ == old(timestamps)@
                &&& r.requests@.len() == 0
                &&& r.applied@.len() == 0
                &&& (input matches TickInput::Events(es) && (has_notification(es@) ==> r.state is RetrievingMessages)
                    && (!has_notification(es@) ==> r.state is WaitingForNotification))
            },
            State::RetrievingMessages => {
                &&& final(timestamps)@ == old(timestamps)@
                &&& r.applied@.len() == 0
                &&& r.requests@.len() == 1
                &&& (r.requests@[0] matches Request::Messages { timestamps: pairs } && pairs@.to_set()
                    == old(timestamps)@.kv_pairs() && pairs@.len() == old(timestamps)@.dom().len())
                &&& (input matches TickInput::Wakes(ws) && match first_decision(ws@) {
                    Some(Wake::Event(Event::Messages(ev))) => r.state == State::Ingesting(ev),
                    Some(_) => r.state is WaitingForNotification,
                    None => r.state is RetrievingMessages,
                })
            },
            State::Ingesting(ev) => {
                &&& (input matches TickInput::Readings(n) && r.applied@ == applied_ops(ev.messages@, n@)
                    && final(timestamps)@ == ingest_fold(old(timestamps)@, ev.messages@, n@))
                &&& (ev.has_more ==> r.state is RetrievingMessages && r.requests@.len() == 0)
                &&& (!ev.has_more ==> r.state is WaitingForNotification && r.requests@.len() == 1
                    && r.requests@[0] is FinishedIngesting)
            },
        },
{
    match state {
        State::WaitingForNotification => {
            let es = match input {
                TickInput::Events(es) => es,
                _ => {
                    return TickOutcome { state: State::WaitingForNotification, requests: Vec::new(), applied: Vec::new() };
                },
            };
            let mut i: usize = 0;
            while i < es.len()
                invariant
                    i <= es@.len(),
                    forall|j: int| 0 <= j < i ==> !(es@[j] is Notification),
                decreases es.len() - i,
            {
                match &es[i] {
                    Event::Notification => {
                        assert(es@[i as int] is Notification);
                        return TickOutcome { state: State::RetrievingMessages, requests: Vec::new(), applied: Vec::new() };
                    },
                    _ => {},
                }
                i = i + 1;
            }
            TickOutcome { state: State::WaitingForNotification, requests: Vec::new(), applied: Vec::new() }
        },
        State::RetrievingMessages => {
            let mut requests: Vec<Request> = Vec::new();
            requests.push(messages_request(timestamps));
            let ws = match input {
                TickInput::Wakes(ws) => ws,
                _ => {
                    return TickOutcome { state: State::RetrievingMessages, requests, applied: Vec::new() };
                },
            };
            let ghost all = ws@;
            let mut rest = ws;
            while rest.len() > 0
                invariant
                    first_decision(all) == first_decision(rest@),
                    requests@.len() == 1,
                    requests@[0] matches Request::Messages { timestamps: pairs } && pairs@.to_set()
                        == timestamps@.kv_pairs() && pairs@.len() == timestamps@.dom().len(),
                    timestamps@ == old(timestamps)@,
                decreases rest@.len(),
            {
                let ghost before = rest@;
                let w = rest.remove(0);
                proof {
                    assert(before[0] == w);
                    assert(before.drop_first() =~= rest@);
                }
                match w {
                    Wake::Event(Event::Notification) => {},
                    Wake::Event(Event::Messages(ev)) => {
                        return TickOutcome { state: State::Ingesting(ev), requests, applied: Vec::new() };
                    },
                    Wake::RequestDropped => {
                        return TickOutcome { state: State::WaitingForNotification, requests, applied: Vec::new() };
                    },
                }
            }
            TickOutcome { state: State::RetrievingMessages, requests, applied: Vec::new() }
        },
        State::Ingesting(ev) => {
            let n = match input {
                TickInput::Readings(n) => n,
                _ => Vec::new(),
            };
            let (applied, next, request) = ingest_batch(timestamps, ev, n);
            let mut requests: Vec<Request> = Vec::new();
            match request {
                Some(q) => requests.push(q),
                None => {},
            }
            TickOutcome { state: next, requests, applied }
        },
    }
}

} // verus!
