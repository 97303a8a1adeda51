//! What the server sends to one WebSocket client, step by step.
use crate::event_log::{
    entries, entries_of_slices, in_order, law_newer_is_tail, law_replay_is_whole_log, newer,
    seen_count, Entry, EventLog,
};
use crate::text::{decimal, digits_value, law_decimal_reads_back, push_decimal};
use vstd::prelude::*;
use vstd::string::*;

verus! {

/// How many seconds a client is left without a message before it is sent a ping.
pub const PING_AFTER_SECONDS: u64 = 15;

/// Where the server stands with a client.
enum Phase {
    /// The first message is on its way.
    Opening,
    /// Event `pos` of `batch` is on its way.
    Sending { batch: Vec<(u64, String)>, pos: usize },
    /// The client has all events; new ones are waited for.
    Waiting,
    /// A ping is on its way.
    Pinging,
    /// Nothing more is sent.
    Done,
}

/// The server's side of one WebSocket client, which keeps its own position in the event log.
pub struct WsClient {
    phase: Phase,
    last_seq: u64,
}

/// What has become of the last action.
#[derive(Clone, Copy, Debug, PartialEq, Eq, Structural)]
pub enum ClientEvent {
    /// The message or the ping was sent.
    Sent,
    /// The message or the ping could not be sent.
    SendFailed,
    /// While waiting: there may be new events.
    Notified,
    /// While waiting: the time has run out.
    TimedOut,
}

/// What to do next for a client.
pub enum ClientAction {
    /// Send the first message, with the graph and the status.
    SendInit { message: String },
    /// Send the message of the event with this number.
    SendEvent { seq: u64, message: String },
    /// Wait for new events, for at most `PING_AFTER_SECONDS`.
    Wait,
    /// Send a ping, to keep the connection alive.
    Ping,
    /// Close the connection, as the server is going away.
    Close,
    /// Do nothing more: the client has gone.
    Stop,
}

/// What the phase of a client says. `pending` begins with the event that is on its way.
pub enum PhaseView {
    Opening,
    Sending { pending: Seq<Entry> },
    Waiting,
    Pinging,
    Done,
}

/// What a `WsClient` holds.
pub struct ClientView {
    pub phase: PhaseView,
    pub last_seq: u64,
}

/// What a `ClientAction` says.
pub enum ActionView {
    SendInit { message: Seq<char> },
    SendEvent { seq: u64, message: Seq<char> },
    Wait,
    Ping,
    Close,
    Stop,
}

impl View for WsClient {
    type V = ClientView;

    closed spec fn view(&self) -> ClientView {
        ClientView {
            phase: match self.phase {
                Phase::Opening => PhaseView::Opening,
                Phase::Sending { batch, pos } => PhaseView::Sending {
                    pending: entries(batch@).skip(pos as int),
                },
                Phase::Waiting => PhaseView::Waiting,
                Phase::Pinging => PhaseView::Pinging,
                Phase::Done => PhaseView::Done,
            },
            last_seq: self.last_seq,
        }
    }
}

impl View for ClientAction {
    type V = ActionView;

    open spec fn view(&self) -> ActionView {
        match self {
            ClientAction::SendInit { message } => ActionView::SendInit { message: message@ },
            ClientAction::SendEvent { seq, message } => ActionView::SendEvent {
                seq: *seq,
                message: message@,
            },
            ClientAction::Wait => ActionView::Wait,
            ClientAction::Ping => ActionView::Ping,
            ClientAction::Close => ActionView::Close,
            ClientAction::Stop => ActionView::Stop,
        }
    }
}

/// The message of an event.
pub open spec fn event_text(entry: Entry) -> Seq<char> {
    "{\"type\":\"event\",\"seq\":"@ + decimal(entry.0 as nat) + ",\"data\":"@ + entry.1 + "}"@
}

/// The message of the event with this number and this JSON text.
pub fn event_message(seq: u64, json: &str) -> (r: String)
    ensures
        r@ == event_text((seq, json@)),
{
    let mut r = String::from("{\"type\":\"event\",\"seq\":");
    push_decimal(&mut r, seq);
    r.append(",\"data\":");
    r.append(json);
    r.append("}");
    r
}

/// The first message, made of the JSON texts of the graph and of the status.
pub open spec fn init_text(graph: Seq<char>, status: Seq<char>) -> Seq<char> {
    "{\"graph\":"@ + graph + ",\"status\":"@ + status + ",\"type\":\"init\"}"@
}

/// The first message, made of the JSON texts of the graph and of the status.
pub fn init_message(graph: &str, status: &str) -> (r: String)
    ensures
        r@ == init_text(graph@, status@),
{
    let mut r = String::from("{\"graph\":");
    r.append(graph);
    r.append(",\"status\":");
    r.append(status);
    r.append(",\"type\":\"init\"}");
    r
}

/// A client that has just connected.
pub open spec fn connected() -> ClientView {
    ClientView { phase: PhaseView::Opening, last_seq: 0 }
}

/// Whether an event is one that the phase waits for.
pub open spec fn expects(phase: PhaseView, event: ClientEvent) -> bool {
    match phase {
        PhaseView::Waiting => event is Notified || event is TimedOut,
        PhaseView::Done => false,
        _ => event is Sent || event is SendFailed,
    }
}

/// Sends the first of some events.
pub open spec fn send_first(pending: Seq<Entry>, last_seq: u64) -> (ClientView, ActionView) {
    (
        ClientView { phase: PhaseView::Sending { pending }, last_seq },
        ActionView::SendEvent { seq: pending[0].0, message: event_text(pending[0]) },
    )
}

/// Goes on with a client that has been sent what was there for it: the connection is closed if
/// the server is going away; else newer events are sent, or waited for where there are none.
pub open spec fn go_on(last_seq: u64, log: Seq<Entry>, shutdown: bool) -> (ClientView, ActionView) {
    if shutdown {
        (ClientView { phase: PhaseView::Done, last_seq }, ActionView::Close)
    } else if newer(log, last_seq).len() > 0 {
        send_first(newer(log, last_seq), last_seq)
    } else {
        (ClientView { phase: PhaseView::Waiting, last_seq }, ActionView::Wait)
    }
}

/// The step that follows an event: the client after it, and what to do. The first message is
/// followed by all events of the log. A batch that has begun is sent to its end.
pub open spec fn client_step(
    c: ClientView,
    event: ClientEvent,
    log: Seq<Entry>,
    shutdown: bool,
) -> (ClientView, ActionView) {
    if event is SendFailed {
        (ClientView { phase: PhaseView::Done, ..c }, ActionView::Stop)
    } else {
        match c.phase {
            PhaseView::Opening => if newer(log, 0).len() > 0 {
                send_first(newer(log, 0), c.last_seq)
            } else {
                go_on(c.last_seq, log, shutdown)
            },
            PhaseView::Sending { pending } => if pending.len() > 1 {
                send_first(pending.drop_first(), pending[0].0)
            } else {
                go_on(pending[0].0, log, shutdown)
            },
            PhaseView::Waiting => if event is TimedOut {
                (ClientView { phase: PhaseView::Pinging, ..c }, ActionView::Ping)
            } else {
                go_on(c.last_seq, log, shutdown)
            },
            PhaseView::Pinging => go_on(c.last_seq, log, shutdown),
            PhaseView::Done => (c, ActionView::Stop),
        }
    }
}

/// Copies the events with a number above `after`.
fn events_since(log: &EventLog, after: u64) -> (r: Vec<(u64, String)>)
    ensures
        entries(r@) == newer(log@, after),
{
    let found = log.since(after);
    let mut r: Vec<(u64, String)> = Vec::new();
    let mut i: usize = 0;
    while i < found.len()
        invariant
            i <= found.len(),
            entries(r@) == entries_of_slices(found@).take(i as int),
        decreases found.len() - i,
    {
        let ghost before = entries(r@);
        r.push((found[i].0, found[i].1.to_owned()));
        assert(entries(r@) =~= before.push(entries_of_slices(found@)[i as int]));
        assert(entries(r@) =~= entries_of_slices(found@).take(i + 1));
        i += 1;
    }
    assert(entries_of_slices(found@).take(i as int) =~= entries_of_slices(found@));
    r
}

impl WsClient {
    /// An event that is being sent stands in its batch.
    pub closed spec fn wf(&self) -> bool {
        match self.phase {
            Phase::Sending { batch, pos } => pos < batch@.len(),
            _ => true,
        }
    }

    /// A client that has just connected, and what to do first: it is sent the JSON texts of the
    /// graph and of the status.
    pub fn connect(graph: &str, status: &str) -> (r: (WsClient, ClientAction))
        ensures
            r.0@ == connected(),
            r.1@ == (ActionView::SendInit { message: init_text(graph@, status@) }),
            r.0.wf(),
    {
        (
            WsClient { phase: Phase::Opening, last_seq: 0 },
            ClientAction::SendInit { message: init_message(graph, status) },
        )
    }

    /// The number of the last event that was sent; 0 before the first.
    pub fn last_seq(&self) -> (r: u64)
        ensures
            r == self@.last_seq,
    {
        self.last_seq
    }

    /// Sends the first event of `batch`.
    fn begin(&mut self, batch: Vec<(u64, String)>) -> (r: ClientAction)
        requires
            batch@.len() > 0,
        ensures
            (final(self)@, r@) == send_first(entries(batch@), old(self)@.last_seq),
            final(self).wf(),
    {
        let seq = batch[0].0;
        let message = event_message(seq, batch[0].1.as_str());
        assert(entries(batch@).skip(0) =~= entries(batch@));
        self.phase = Phase::Sending { batch, pos: 0 };
        ClientAction::SendEvent { seq, message }
    }

    /// Goes on with a client that has been sent what was there for it.
    fn proceed(&mut self, log: &EventLog, shutdown: bool) -> (r: ClientAction)
        ensures
            (final(self)@, r@) == go_on(old(self)@.last_seq, log@, shutdown),
            final(self).wf(),
    {
        if shutdown {
            self.phase = Phase::Done;
            return ClientAction::Close;
        }
        let batch = events_since(log, self.last_seq);
        if batch.len() > 0 {
            self.begin(batch)
        } else {
            self.phase = Phase::Waiting;
            ClientAction::Wait
        }
    }

    /// Takes what has become of the last action and says what to do next.
    pub fn step(&mut self, event: ClientEvent, log: &EventLog, shutdown: bool) -> (r: ClientAction)
        requires
            old(self).wf(),
            expects(old(self)@.phase, event),
        ensures
            (final(self)@, r@) == client_step(old(self)@, event, log@, shutdown),
            final(self).wf(),
    {
        if matches!(event, ClientEvent::SendFailed) {
            self.phase = Phase::Done;
            return ClientAction::Stop;
        }
        let mut phase = Phase::Done;
        core::mem::swap(&mut self.phase, &mut phase);
        match phase {
            Phase::Opening => {
                let batch = events_since(log, 0);
                if batch.len() > 0 {
                    self.begin(batch)
                } else {
                    self.proceed(log, shutdown)
                }
            },
            Phase::Sending { batch, pos } => {
                let ghost pending = entries(batch@).skip(pos as int);
                assert(pending[0] == entries(batch@)[pos as int]);
                self.last_seq = batch[pos].0;
                assert(pos < batch.len());
                let next: usize = pos + 1;
                if next < batch.len() {
                    let seq = batch[next].0;
                    let message = event_message(seq, batch[next].1.as_str());
                    assert(entries(batch@).skip(next as int) =~= pending.drop_first());
                    self.phase = Phase::Sending { batch, pos: next };
                    ClientAction::SendEvent { seq, message }
                } else {
                    self.proceed(log, shutdown)
                }
            },
            Phase::Waiting => {
                if matches!(event, ClientEvent::TimedOut) {
                    self.phase = Phase::Pinging;
                    ClientAction::Ping
                } else {
                    self.proceed(log, shutdown)
                }
            },
            Phase::Pinging => self.proceed(log, shutdown),
            Phase::Done => ClientAction::Stop,
        }
    }
}

/// The number of the event that a client gets or got last.
pub open spec fn reached(c: ClientView) -> u64 {
    match c.phase {
        PhaseView::Sending { pending } => pending[0].0,
        _ => c.last_seq,
    }
}

/// Whether what is on its way to a client is in order: numbers one by one and upwards, all above
/// the last one sent; and nothing was sent before the first message.
pub open spec fn client_in_order(c: ClientView) -> bool {
    match c.phase {
        PhaseView::Sending { pending } => {
            &&& pending.len() > 0
            &&& pending[0].0 > c.last_seq
            &&& forall|i: int|
                0 <= i < pending.len() ==> (#[trigger] pending[i]).0 == pending[0].0 + i
        },
        PhaseView::Opening => c.last_seq == 0,
        _ => true,
    }
}

/// One step of a client's life: what has become of the last action, the log at that time, whose
/// next number is `next`, and whether the server is shutting down.
pub struct Moment {
    pub event: ClientEvent,
    pub log: Seq<Entry>,
    pub next: u64,
    pub shutdown: bool,
}

/// The client after a moment.
pub open spec fn client_at(c: ClientView, m: Moment) -> ClientView {
    client_step(c, m.event, m.log, m.shutdown).0
}

/// What is done at a moment.
pub open spec fn action_at(c: ClientView, m: Moment) -> ActionView {
    client_step(c, m.event, m.log, m.shutdown).1
}

proof fn lemma_go_on(last_seq: u64, log: Seq<Entry>, next: u64, shutdown: bool)
    requires
        in_order(log, next),
    ensures
        client_in_order(go_on(last_seq, log, shutdown).0),
        reached(go_on(last_seq, log, shutdown).0) >= last_seq,
        !(go_on(last_seq, log, shutdown).1 is SendEvent) ==> reached(
            go_on(last_seq, log, shutdown).0,
        ) == last_seq,
        match go_on(last_seq, log, shutdown).1 {
            ActionView::SendEvent { seq, .. } => {
                &&& seq == reached(go_on(last_seq, log, shutdown).0)
                &&& seq > last_seq
                &&& seq == last_seq + 1 || seq == next - log.len()
            },
            ActionView::Wait => newer(log, last_seq).len() == 0,
            _ => shutdown,
        },
{
    law_newer_is_tail(log, next, last_seq);
    let fresh = newer(log, last_seq);
    if fresh.len() > 0 {
        let k = seen_count(log, next, last_seq);
        assert(fresh[0] == log[k]);
        assert(log[k].0 == fresh[0].0);
    }
}

/// Every step keeps what is on its way to a client in order. A message that is sent is that of
/// the first event on its way; its number is above the one before, and it is the next number
/// after it, unless the log no longer has that event: then it is the oldest that the log has.
/// A client is left waiting only if the log has no newer event for it.
pub proof fn law_client_gets_next_event(c: ClientView, m: Moment)
    requires
        client_in_order(c),
        in_order(m.log, m.next),
        expects(c.phase, m.event),
    ensures
        client_in_order(client_at(c, m)),
        reached(client_at(c, m)) >= reached(c) || m.event is SendFailed,
        !(action_at(c, m) is SendEvent) ==> reached(client_at(c, m)) == reached(c)
            || m.event is SendFailed,
        match action_at(c, m) {
            ActionView::SendEvent { seq, message } => {
                &&& client_at(c, m).phase is Sending
                &&& message == event_text(client_at(c, m).phase->pending[0])
                &&& seq == reached(client_at(c, m))
                &&& seq > reached(c)
                &&& seq == reached(c) + 1 || seq == m.next - m.log.len()
            },
            ActionView::Wait => newer(m.log, client_at(c, m).last_seq).len() == 0,
            _ => true,
        },
{
    if !(m.event is SendFailed) {
        match c.phase {
            PhaseView::Opening => {
                law_newer_is_tail(m.log, m.next, 0);
                lemma_go_on(0, m.log, m.next, m.shutdown);
                lemma_go_on(0, m.log, m.next, false);
            },
            PhaseView::Sending { pending } => {
                let rest = pending.drop_first();
                if pending.len() > 1 {
                    assert(rest[0] == pending[1]);
                    assert forall|i: int| 0 <= i < rest.len() implies (#[trigger] rest[i]).0
                        == rest[0].0 + i by {
                        assert(rest[i] == pending[i + 1]);
                    }
                } else {
                    lemma_go_on(pending[0].0, m.log, m.next, m.shutdown);
                }
            },
            PhaseView::Waiting => {
                if !(m.event is TimedOut) {
                    lemma_go_on(c.last_seq, m.log, m.next, m.shutdown);
                }
            },
            PhaseView::Pinging => {
                lemma_go_on(c.last_seq, m.log, m.next, m.shutdown);
            },
            PhaseView::Done => {},
        }
    }
}

/// The numbers and the messages of the events that a client is sent in a series of moments.
pub open spec fn sent(c: ClientView, moments: Seq<Moment>) -> Seq<(u64, Seq<char>)>
    decreases moments.len(),
{
    if moments.len() == 0 {
        Seq::empty()
    } else {
        let later = sent(client_at(c, moments[0]), moments.drop_first());
        match action_at(c, moments[0]) {
            ActionView::SendEvent { seq, message } => seq![(seq, message)] + later,
            _ => later,
        }
    }
}

/// Whether each moment of a series can follow those before it.
pub open spec fn plausible(c: ClientView, moments: Seq<Moment>) -> bool
    decreases moments.len(),
{
    moments.len() > 0 ==> {
        &&& in_order(moments[0].log, moments[0].next)
        &&& expects(c.phase, moments[0].event)
        &&& plausible(client_at(c, moments[0]), moments.drop_first())
    }
}

/// No event is sent to a client twice, and none out of order: in whatever may happen, the
/// numbers of the events that it is sent go up.
pub proof fn law_numbers_go_up(c: ClientView, moments: Seq<Moment>)
    requires
        client_in_order(c),
        plausible(c, moments),
    ensures
        forall|i: int|
            0 <= i < sent(c, moments).len() ==> (#[trigger] sent(c, moments)[i]).0 > reached(c),
        forall|i: int, j: int|
            0 <= i < j < sent(c, moments).len() ==> sent(c, moments)[i].0 < sent(c, moments)[j].0,
    decreases moments.len(),
{
    if moments.len() > 0 {
        let m = moments[0];
        let after = client_at(c, m);
        let rest = moments.drop_first();
        law_client_gets_next_event(c, m);
        if m.event is SendFailed {
            lemma_done_sends_nothing(after, rest);
        } else {
            law_numbers_go_up(after, rest);
        }
        let later = sent(after, rest);
        match action_at(c, m) {
            ActionView::SendEvent { seq, message } => {
                let all = seq![(seq, message)] + later;
                assert(all == sent(c, moments));
                assert forall|i: int| 0 <= i < all.len() implies (#[trigger] all[i]).0 > reached(
                    c,
                ) by {
                    if i > 0 {
                        assert(all[i] == later[i - 1]);
                    }
                }
                assert forall|i: int, j: int| 0 <= i < j < all.len() implies all[i].0 < all[j].0 by {
                    assert(all[j] == later[j - 1]);
                    if i > 0 {
                        assert(all[i] == later[i - 1]);
                    }
                }
            },
            _ => {
                assert(later == sent(c, moments));
            },
        }
    }
}

/// Whether a client never falls so far behind that the event it is to get next has left the log.
pub open spec fn keeps_up(c: ClientView, moments: Seq<Moment>) -> bool
    decreases moments.len(),
{
    moments.len() > 0 ==> {
        &&& moments[0].next - moments[0].log.len() <= reached(c) + 1
        &&& keeps_up(client_at(c, moments[0]), moments.drop_first())
    }
}

/// A client that keeps up misses no event: in whatever may happen, the numbers of the events
/// that it is sent follow each other without a gap.
pub proof fn law_no_event_is_missed(c: ClientView, moments: Seq<Moment>)
    requires
        client_in_order(c),
        plausible(c, moments),
        keeps_up(c, moments),
    ensures
        forall|i: int|
            0 <= i < sent(c, moments).len() ==> (#[trigger] sent(c, moments)[i]).0 == reached(c) + 1
                + i,
    decreases moments.len(),
{
    if moments.len() > 0 {
        let m = moments[0];
        let after = client_at(c, m);
        let rest = moments.drop_first();
        law_client_gets_next_event(c, m);
        if m.event is SendFailed {
            lemma_done_sends_nothing(after, rest);
        } else {
            law_no_event_is_missed(after, rest);
        }
        let later = sent(after, rest);
        match action_at(c, m) {
            ActionView::SendEvent { seq, message } => {
                let all = seq![(seq, message)] + later;
                assert(all == sent(c, moments));
                assert forall|i: int| 0 <= i < all.len() implies (#[trigger] all[i]).0 == reached(c)
                    + 1 + i by {
                    if i > 0 {
                        assert(all[i] == later[i - 1]);
                    }
                }
            },
            _ => {
                assert(later == sent(c, moments));
            },
        }
    }
}

proof fn lemma_done_sends_nothing(c: ClientView, moments: Seq<Moment>)
    requires
        c.phase is Done,
        plausible(c, moments),
    ensures
        sent(c, moments).len() == 0,
{
}

/// The numbers and the messages of some events.
pub open spec fn messages(events: Seq<Entry>) -> Seq<(u64, Seq<char>)> {
    events.map_values(|e: Entry| (e.0, event_text(e)))
}

/// A batch that has begun is sent to its end while sending succeeds, whatever comes into the log
/// meanwhile and even if the server is going away: each of its events, once and in order.
pub proof fn law_batch_is_sent_whole(c: ClientView, moments: Seq<Moment>)
    requires
        c.phase is Sending,
        moments.len() == c.phase->pending.len() - 1,
        forall|i: int| 0 <= i < moments.len() ==> (#[trigger] moments[i]).event is Sent,
    ensures
        sent(c, moments) == messages(c.phase->pending.drop_first()),
    decreases moments.len(),
{
    let rest = c.phase->pending.drop_first();
    if moments.len() > 0 {
        let later = moments.drop_first();
        assert forall|i: int| 0 <= i < later.len() implies (#[trigger] later[i]).event is Sent by {
            assert(later[i] == moments[i + 1]);
        }
        law_batch_is_sent_whole(client_at(c, moments[0]), later);
        assert(sent(c, moments) =~= messages(rest));
    } else {
        assert(sent(c, moments) =~= messages(rest));
    }
}

/// A client that connects is sent every event of the log after its first message, each once and
/// in order, while sending succeeds.
pub proof fn law_connecting_client_gets_whole_log(moments: Seq<Moment>)
    requires
        moments.len() > 0,
        in_order(moments[0].log, moments[0].next),
        moments.len() == moments[0].log.len(),
        forall|i: int| 0 <= i < moments.len() ==> (#[trigger] moments[i]).event is Sent,
    ensures
        sent(connected(), moments) == messages(moments[0].log),
{
    let c = connected();
    let log = moments[0].log;
    let later = moments.drop_first();
    law_replay_is_whole_log(log, moments[0].next);
    assert forall|i: int| 0 <= i < later.len() implies (#[trigger] later[i]).event is Sent by {
        assert(later[i] == moments[i + 1]);
    }
    law_batch_is_sent_whole(client_at(c, moments[0]), later);
    assert(sent(c, moments) =~= messages(log));
}

/// A client that has been sent everything there was is closed when the server is going away.
pub proof fn law_shutdown_closes(c: ClientView, m: Moment)
    requires
        m.shutdown,
        m.event is Notified && c.phase is Waiting || m.event is Sent && c.phase is Pinging,
    ensures
        action_at(c, m) is Close,
        client_at(c, m).phase is Done,
{
}

/// A client that is alive stays alive while what it is sent arrives and the server is not going
/// away: only a failure to send ends it, and only a shutdown closes it.
pub proof fn law_live_client_stays_alive(c: ClientView, m: Moment)
    requires
        !(c.phase is Done),
        expects(c.phase, m.event),
    ensures
        client_at(c, m).phase is Done ==> m.event is SendFailed || m.shutdown,
        action_at(c, m) is Stop <==> m.event is SendFailed,
        action_at(c, m) is Close ==> m.shutdown && !(m.event is SendFailed),
        m.event is SendFailed ==> client_at(c, m).phase is Done,
        !(m.event is SendFailed) && !m.shutdown ==> action_at(c, m) is SendEvent || action_at(
            c,
            m,
        ) is Wait || action_at(c, m) is Ping,
{
}

/// What a client that has been sent everything there was does next, after a wake-up as after a
/// ping that was sent: it is closed if the server is going away; else it is sent the first event
/// that it has not seen, and only if there is none does it wait, with its position unchanged.
pub proof fn law_caught_up_client_goes_on(c: ClientView, m: Moment)
    requires
        c.phase is Waiting && m.event is Notified || c.phase is Pinging && m.event is Sent,
    ensures
        ({
            let fresh = newer(m.log, c.last_seq);
            &&& m.shutdown ==> action_at(c, m) is Close && client_at(c, m).phase is Done
            &&& !m.shutdown && fresh.len() > 0 ==> {
                &&& action_at(c, m) is SendEvent
                &&& action_at(c, m)->seq == fresh[0].0
                &&& action_at(c, m)->SendEvent_message == event_text(fresh[0])
                &&& client_at(c, m).phase is Sending
                &&& client_at(c, m).phase->pending == fresh
            }
            &&& !m.shutdown && fresh.len() == 0 ==> action_at(c, m) is Wait && client_at(
                c,
                m,
            ).phase is Waiting
            &&& client_at(c, m).last_seq == c.last_seq
        }),
{
}

/// A client that waits is pinged exactly when the time runs out, and nothing else pings it; its
/// position is kept.
pub proof fn law_silence_is_answered_with_a_ping(c: ClientView, m: Moment)
    requires
        !(c.phase is Done),
        expects(c.phase, m.event),
    ensures
        action_at(c, m) is Ping <==> m.event is TimedOut,
        client_at(c, m).phase is Pinging <==> m.event is TimedOut,
        m.event is TimedOut ==> client_at(c, m).last_seq == c.last_seq,
        PING_AFTER_SECONDS == 15,
{
}

/// After its first message a client is sent the log from its first event on, even if the server is
/// going away; only if the log is empty is it closed then, or left to wait.
pub proof fn law_opened_client_is_sent_the_log(c: ClientView, m: Moment)
    requires
        c.phase is Opening,
        c.last_seq == 0,
        m.event is Sent,
        in_order(m.log, m.next),
    ensures
        m.log.len() > 0 ==> {
            &&& action_at(c, m) is SendEvent
            &&& action_at(c, m)->seq == m.log[0].0
            &&& action_at(c, m)->SendEvent_message == event_text(m.log[0])
            &&& client_at(c, m).phase is Sending
            &&& client_at(c, m).phase->pending == m.log
        },
        m.log.len() == 0 && m.shutdown ==> action_at(c, m) is Close,
        m.log.len() == 0 && !m.shutdown ==> action_at(c, m) is Wait && client_at(
            c,
            m,
        ).phase is Waiting,
        client_at(c, m).last_seq == 0,
{
    law_replay_is_whole_log(m.log, m.next);
}

/// An event that was sent moves the client's position to it, and the next one on its way is sent;
/// behind the last one, the client is closed if the server is going away, and else is sent the
/// first event that has come since, or waits.
pub proof fn law_sent_event_is_followed_by_the_next(c: ClientView, m: Moment)
    requires
        c.phase is Sending,
        c.phase->pending.len() > 0,
        m.event is Sent,
    ensures
        ({
            let pending = c.phase->pending;
            let fresh = newer(m.log, pending[0].0);
            &&& client_at(c, m).last_seq == pending[0].0
            &&& pending.len() > 1 ==> {
                &&& action_at(c, m) is SendEvent
                &&& action_at(c, m)->seq == pending[1].0
                &&& action_at(c, m)->SendEvent_message == event_text(pending[1])
                &&& client_at(c, m).phase is Sending
                &&& seq![pending[0]] + client_at(c, m).phase->pending == pending
            }
            &&& pending.len() == 1 && m.shutdown ==> action_at(c, m) is Close && client_at(
                c,
                m,
            ).phase is Done
            &&& pending.len() == 1 && !m.shutdown && fresh.len() > 0 ==> {
                &&& action_at(c, m) is SendEvent
                &&& action_at(c, m)->seq == fresh[0].0
                &&& action_at(c, m)->SendEvent_message == event_text(fresh[0])
                &&& client_at(c, m).phase is Sending
                &&& client_at(c, m).phase->pending == fresh
            }
            &&& pending.len() == 1 && !m.shutdown && fresh.len() == 0 ==> action_at(c, m) is Wait
                && client_at(c, m).phase is Waiting
        }),
{
    let pending = c.phase->pending;
    if pending.len() > 1 {
        assert(seq![pending[0]] + pending.drop_first() =~= pending);
    }
}

/// Each phase but the last waits for what can become of its own action, and for nothing else.
pub proof fn law_what_a_client_expects(phase: PhaseView, event: ClientEvent)
    ensures
        phase is Waiting ==> (expects(phase, event) <==> event is Notified || event is TimedOut),
        phase is Opening || phase is Sending || phase is Pinging ==> (expects(phase, event)
            <==> event is Sent || event is SendFailed),
        phase is Done ==> !expects(phase, event),
{
}

/// A client that follows the run is sent every event that has come, once each and in their order,
/// while sending succeeds and the server is not going away: what it is woken to, or finds after a
/// ping, is all sent, and nothing else.
pub proof fn law_follower_is_sent_every_new_event(c: ClientView, moments: Seq<Moment>)
    requires
        moments.len() > 0,
        c.phase is Waiting && moments[0].event is Notified || c.phase is Pinging
            && moments[0].event is Sent,
        !moments[0].shutdown,
        moments.len() == newer(moments[0].log, c.last_seq).len(),
        forall|i: int| 0 < i < moments.len() ==> (#[trigger] moments[i]).event is Sent,
    ensures
        sent(c, moments) == messages(newer(moments[0].log, c.last_seq)),
{
    let fresh = newer(moments[0].log, c.last_seq);
    let later = moments.drop_first();
    assert forall|i: int| 0 <= i < later.len() implies (#[trigger] later[i]).event is Sent by {
        assert(later[i] == moments[i + 1]);
    }
    law_batch_is_sent_whole(client_at(c, moments[0]), later);
    assert(sent(c, moments) =~= messages(fresh));
}

/// A client that is being sent events catches up with a log that has grown meanwhile: it is sent
/// the rest of its batch and then everything newer, while sending succeeds and the server is not
/// going away.
pub proof fn law_sending_client_catches_up(c: ClientView, log: Seq<Entry>, moments: Seq<Moment>)
    requires
        c.phase is Sending,
        c.phase->pending.len() > 0,
        moments.len() == c.phase->pending.len() - 1 + newer(log, c.phase->pending.last().0).len(),
        forall|i: int|
            0 <= i < moments.len() ==> (#[trigger] moments[i]).event is Sent && moments[i].log == log
                && !moments[i].shutdown,
    ensures
        sent(c, moments) == messages(
            c.phase->pending.drop_first() + newer(log, c.phase->pending.last().0),
        ),
    decreases c.phase->pending.len(),
{
    let pending = c.phase->pending;
    let fresh = newer(log, pending.last().0);
    if moments.len() == 0 {
        assert(sent(c, moments) =~= messages(pending.drop_first() + fresh));
    } else {
        let later = moments.drop_first();
        let after = client_at(c, moments[0]);
        assert(moments[0].event is Sent && moments[0].log == log && !moments[0].shutdown);
        assert forall|i: int| 0 <= i < later.len() implies (#[trigger] later[i]).event is Sent
            && later[i].log == log && !later[i].shutdown by {
            assert(later[i] == moments[i + 1]);
        }
        if pending.len() > 1 {
            assert(after.phase->pending == pending.drop_first());
            assert(pending.drop_first().last() == pending.last());
            law_sending_client_catches_up(after, log, later);
            assert(sent(c, moments) =~= messages(pending.drop_first() + fresh));
        } else {
            assert(pending.last() == pending[0]);
            law_batch_is_sent_whole(after, later);
            assert(sent(c, moments) =~= messages(pending.drop_first() + fresh));
        }
    }
}

/// The messages of some events are theirs, one for one and in their order, each under its number.
pub proof fn law_messages_are_of_the_events(events: Seq<Entry>)
    ensures
        messages(events).len() == events.len(),
        forall|i: int|
            0 <= i < events.len() ==> (#[trigger] messages(events)[i]).0 == events[i].0 && messages(
                events,
            )[i].1 == event_text(events[i]),
{
}

/// What is done and not done at a moment is what is counted as sent, and a moment is one step.
pub proof fn law_sent_counts_what_is_sent(c: ClientView, m: Moment, later: Seq<Moment>)
    ensures
        client_step(c, m.event, m.log, m.shutdown) == (client_at(c, m), action_at(c, m)),
        sent(c, Seq::<Moment>::empty()).len() == 0,
        action_at(c, m) is SendEvent ==> sent(c, seq![m] + later) == seq![
            (action_at(c, m)->seq, action_at(c, m)->SendEvent_message),
        ] + sent(client_at(c, m), later),
        !(action_at(c, m) is SendEvent) ==> sent(c, seq![m] + later) == sent(
            client_at(c, m),
            later,
        ),
{
    let all = seq![m] + later;
    assert(all[0] == m);
    assert(all.drop_first() =~= later);
}

/// A receiver finds in the message of an event the event's number and its very text, at the places
/// where the message says that they stand.
pub proof fn law_event_message_reads_back(entry: Entry)
    ensures
        ({
            let text = event_text(entry);
            let digits = decimal(entry.0 as nat).len() as int;
            &&& text.len() == 22 + digits + 8 + entry.1.len() + 1
            &&& text.subrange(0, 22) == "{\"type\":\"event\",\"seq\":"@
            &&& text.subrange(22, 22 + digits) == decimal(entry.0 as nat)
            &&& digits_value(text.subrange(22, 22 + digits)) == entry.0
            &&& text.subrange(22 + digits, 30 + digits) == ",\"data\":"@
            &&& text.subrange(30 + digits, text.len() - 1) == entry.1
            &&& text.last() == '}'
        }),
{
    reveal_strlit("{\"type\":\"event\",\"seq\":");
    reveal_strlit(",\"data\":");
    reveal_strlit("}");
    let text = event_text(entry);
    let digits = decimal(entry.0 as nat).len() as int;
    law_decimal_reads_back(entry.0 as nat);
    assert(text.subrange(0, 22) =~= "{\"type\":\"event\",\"seq\":"@);
    assert(text.subrange(22, 22 + digits) =~= decimal(entry.0 as nat));
    assert(text.subrange(22 + digits, 30 + digits) =~= ",\"data\":"@);
    assert(text.subrange(30 + digits, text.len() - 1) =~= entry.1);
}

/// A receiver finds in the first message the very texts of the graph and of the status, each under
/// its name, and that it is the first message.
pub proof fn law_first_message_reads_back(graph: Seq<char>, status: Seq<char>)
    ensures
        ({
            let text = init_text(graph, status);
            let g = graph.len() as int;
            let s = status.len() as int;
            &&& text.len() == 9 + g + 10 + s + 15
            &&& text.subrange(0, 9) == "{\"graph\":"@
            &&& text.subrange(9, 9 + g) == graph
            &&& text.subrange(9 + g, 19 + g) == ",\"status\":"@
            &&& text.subrange(19 + g, 19 + g + s) == status
            &&& text.subrange(19 + g + s, 34 + g + s) == ",\"type\":\"init\"}"@
        }),
{
    reveal_strlit("{\"graph\":");
    reveal_strlit(",\"status\":");
    reveal_strlit(",\"type\":\"init\"}");
    let text = init_text(graph, status);
    let g = graph.len() as int;
    let s = status.len() as int;
    assert("{\"graph\":"@.len() == 9);
    assert(",\"status\":"@.len() == 10);
    assert(",\"type\":\"init\"}"@.len() == 15);
    assert(text.subrange(0, 9) =~= "{\"graph\":"@);
    assert(text.subrange(9, 9 + g) =~= graph);
    assert(text.subrange(9 + g, 19 + g) =~= ",\"status\":"@);
    assert(text.subrange(19 + g, 19 + g + s) =~= status);
    assert(text.subrange(19 + g + s, 34 + g + s) =~= ",\"type\":\"init\"}"@);
}

/// A client that has just connected waits for its first message to be sent and has been sent no
/// event.
pub proof fn law_connected_client_is_new()
    ensures
        connected().phase is Opening,
        connected().last_seq == 0,
        client_in_order(connected()),
        reached(connected()) == 0,
{
}

/// An action is shown as it is.
pub proof fn law_actions_are_shown(action: ClientAction)
    ensures
        action is Wait <==> action@ is Wait,
        action is Ping <==> action@ is Ping,
        action is Close <==> action@ is Close,
        action is Stop <==> action@ is Stop,
        action matches ClientAction::SendInit { message } ==> action@ is SendInit
            && action@->SendInit_message == message@,
        action matches ClientAction::SendEvent { seq, message } ==> action@ is SendEvent
            && action@->seq == seq && action@->SendEvent_message == message@,
{
}

} // verus!
