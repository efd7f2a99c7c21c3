use vstd::prelude::*;
use crate::path_filter::{shortened, shorten_file_path};

verus! {

/// Makes `std::io::Error` known to the verifier, as an opaque value that a
/// transport hands back when a write fails.
#[verifier::external_type_specification]
#[verifier::external_body]
pub struct ExIoError(std::io::Error);

/// What producers send to the worker of an asynchronous appender.
pub enum AsyncEvent {
    /// A formatted log message.
    Log(Vec<u8>),
    /// Stop after the messages sent before this one.
    Terminate,
}

/// A destination that writes one message at a time and has flushed it
/// before it returns.
pub trait SyncWrite {
    /// Writes all of `buf` to the destination and flushes it.
    fn sync_write(&mut self, buf: &[u8]) -> std::io::Result<()>;
}

/// What the loop around a worker does next.
pub enum WorkerAction {
    /// Hand these bytes to the transport, drop any error, and go on.
    Write(Vec<u8>),
    /// Leave the loop.
    Stop,
}

/// The bytes that `action` hands to the transport, as a list of writes.
pub open spec fn written(action: WorkerAction) -> Seq<Seq<u8>> {
    match action {
        WorkerAction::Write(b) => seq![b@],
        WorkerAction::Stop => Seq::empty(),
    }
}

/// The state of a worker after `event`, as (running, buffers its transport
/// has been handed).
pub open spec fn step(running: bool, delivered: Seq<Seq<u8>>, event: AsyncEvent) -> (bool, Seq<Seq<u8>>) {
    if !running {
        (false, delivered)
    } else {
        match event {
            AsyncEvent::Log(m) => (true, delivered.push(shortened(m@))),
            AsyncEvent::Terminate => (false, delivered),
        }
    }
}

/// The state of a worker after `events`, handled in order, with the writes
/// that its actions hand to the transport appended to `delivered`.
pub open spec fn run(running: bool, delivered: Seq<Seq<u8>>, events: Seq<AsyncEvent>) -> (bool, Seq<Seq<u8>>)
    decreases events.len(),
{
    if events.len() == 0 {
        (running, delivered)
    } else {
        let s = step(running, delivered, events[0]);
        run(s.0, s.1, events.drop_first())
    }
}

/// Each message of `msgs`, shortened as the worker does.
pub open spec fn shortened_all(msgs: Seq<Seq<u8>>) -> Seq<Seq<u8>> {
    msgs.map_values(|m: Seq<u8>| shortened(m))
}

/// The `Log` events carrying `msgs`, in order.
pub open spec fn is_log_of(events: Seq<AsyncEvent>, msgs: Seq<Seq<u8>>) -> bool {
    &&& events.len() == msgs.len()
    &&& forall|i: int| 0 <= i < events.len() ==> (#[trigger] events[i] matches AsyncEvent::Log(m)
        && m@ == msgs[i])
}

/// The messages of `msgs` whose sender, by the same position in `senders`, is `k`.
pub open spec fn of_sender(msgs: Seq<Seq<u8>>, senders: Seq<nat>, k: nat) -> Seq<Seq<u8>>
    decreases msgs.len(),
{
    if msgs.len() == 0 {
        Seq::empty()
    } else {
        let rest = of_sender(msgs.drop_last(), senders.drop_last(), k);
        if senders.last() == k {
            rest.push(msgs.last())
        } else {
            rest
        }
    }
}

/// The decisions of the single consumer behind an asynchronous appender.
/// The loop around it receives each event from the channel, hands it to
/// `handle`, and performs the returned action on the transport, which it
/// alone owns.
pub struct AsyncWorker {
    running: bool,
}

impl AsyncWorker {
    /// The worker still takes messages.
    pub closed spec fn is_running(&self) -> bool {
        self.running
    }

    /// A running worker.
    pub fn new() -> (r: Self)
        ensures
            r.is_running(),
    {
        AsyncWorker { running: true }
    }

    /// Decides what to do with one event from the channel. A message has its
    /// source path shortened and is to be written; an error of the transport
    /// is to be dropped, as no caller is left to take it. `Terminate` stops
    /// the worker, and a stopped worker writes nothing more.
    pub fn handle(&mut self, event: AsyncEvent) -> (action: WorkerAction)
        ensures
            step(old(self).is_running(), Seq::empty(), event) == (
                final(self).is_running(),
                written(action),
            ),
            action is Stop <==> !final(self).is_running(),
    {
        if !self.running {
            return WorkerAction::Stop;
        }
        match event {
            AsyncEvent::Log(msg) => {
                let out = shorten_file_path(msg.as_slice());
                assert(seq![out@] =~= Seq::<Seq<u8>>::empty().push(shortened(msg@)));
                WorkerAction::Write(out)
            },
            AsyncEvent::Terminate => {
                self.running = false;
                WorkerAction::Stop
            },
        }
    }
}

/// A running worker that handles messages and then `Terminate` has had every
/// one of the messages written, shortened, once each, in the order sent, and
/// has stopped.
pub proof fn lemma_drain(delivered: Seq<Seq<u8>>, events: Seq<AsyncEvent>, msgs: Seq<Seq<u8>>)
    requires
        is_log_of(events, msgs),
    ensures
        run(true, delivered, events.push(AsyncEvent::Terminate)) == (false, delivered
            + shortened_all(msgs)),
    decreases events.len(),
{
    if events.len() == 0 {
        assert(shortened_all(msgs) =~= Seq::<Seq<u8>>::empty());
        assert(events.push(AsyncEvent::Terminate).drop_first() =~= Seq::<AsyncEvent>::empty());
        assert(delivered + shortened_all(msgs) =~= delivered);
        assert(run(false, delivered, Seq::<AsyncEvent>::empty()) == (false, delivered));
    } else {
        let e = events.push(AsyncEvent::Terminate);
        let m0 = msgs[0];
        assert(events[0] matches AsyncEvent::Log(m) && m@ == m0);
        assert(e[0] == events[0]);
        assert(e.drop_first() =~= events.drop_first().push(AsyncEvent::Terminate));
        assert(is_log_of(events.drop_first(), msgs.drop_first())) by {
            assert forall|i: int| 0 <= i < events.drop_first().len() implies (
            #[trigger] events.drop_first()[i] matches AsyncEvent::Log(m) && m@
                == msgs.drop_first()[i]) by {
                assert(events.drop_first()[i] == events[i + 1]);
                assert(events[i + 1] matches AsyncEvent::Log(m) && m@ == msgs[i + 1]);
            }
        }
        lemma_drain(delivered.push(shortened(m0)), events.drop_first(), msgs.drop_first());
        assert(delivered.push(shortened(m0)) + shortened_all(msgs.drop_first()) =~= delivered
            + shortened_all(msgs));
    }
}

/// What one `handle` call has written, as its contract gives it from an empty
/// list, extends any list of earlier writes: so the writes of a sequence of
/// calls are what `run` gives.
pub proof fn lemma_step_appends(running: bool, delivered: Seq<Seq<u8>>, event: AsyncEvent)
    ensures
        step(running, delivered, event) == (
            step(running, Seq::empty(), event).0,
            delivered + step(running, Seq::empty(), event).1,
        ),
{
    let e = Seq::<Seq<u8>>::empty();
    assert(delivered + e =~= delivered);
    if let AsyncEvent::Log(m) = event {
        assert(delivered + e.push(shortened(m@)) =~= delivered.push(shortened(m@)));
    }
}

/// Dropping an appender after `n` messages: a fresh worker has had exactly
/// `n` messages written.
pub proof fn lemma_drain_count(events: Seq<AsyncEvent>, msgs: Seq<Seq<u8>>)
    requires
        is_log_of(events, msgs),
    ensures
        run(true, Seq::empty(), events.push(AsyncEvent::Terminate)).1.len() == events.len(),
{
    lemma_drain(Seq::empty(), events, msgs);
}

/// A stopped worker has nothing more written, whatever it is handed after
/// `Terminate`.
pub proof fn lemma_stopped(delivered: Seq<Seq<u8>>, events: Seq<AsyncEvent>)
    ensures
        run(false, delivered, events) == (false, delivered),
    decreases events.len(),
{
    if events.len() > 0 {
        lemma_stopped(delivered, events.drop_first());
    }
}

proof fn lemma_of_sender_shortened(msgs: Seq<Seq<u8>>, senders: Seq<nat>, k: nat)
    requires
        senders.len() == msgs.len(),
    ensures
        of_sender(shortened_all(msgs), senders, k) == shortened_all(of_sender(msgs, senders, k)),
    decreases msgs.len(),
{
    if msgs.len() > 0 {
        assert(shortened_all(msgs).drop_last() =~= shortened_all(msgs.drop_last()));
        lemma_of_sender_shortened(msgs.drop_last(), senders.drop_last(), k);
        let rest = of_sender(msgs.drop_last(), senders.drop_last(), k);
        assert(shortened_all(rest.push(msgs.last())) =~= shortened_all(rest).push(
            shortened(msgs.last()),
        ));
    }
}

/// Messages from many producers reach one worker through one FIFO channel,
/// in some interleaving; `senders` names the producer of each. Whatever the
/// interleaving, the transport receives the messages of every producer in
/// the order that producer sent them.
pub proof fn lemma_sender_order(events: Seq<AsyncEvent>, msgs: Seq<Seq<u8>>, senders: Seq<nat>, k: nat)
    requires
        is_log_of(events, msgs),
        senders.len() == msgs.len(),
    ensures
        of_sender(run(true, Seq::empty(), events.push(AsyncEvent::Terminate)).1, senders, k)
            == shortened_all(of_sender(msgs, senders, k)),
{
    lemma_drain(Seq::empty(), events, msgs);
    assert(Seq::<Seq<u8>>::empty() + shortened_all(msgs) =~= shortened_all(msgs));
    lemma_of_sender_shortened(msgs, senders, k);
}

} // verus!
