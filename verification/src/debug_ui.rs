//! What the socket of the debug UI sends: first the messages of a snapshot, then those of every
//! update that is newer than the snapshot.
use crate::text::{lemma_views_push, option_view, views};
use vstd::prelude::*;

verus! {

/// What happened on the socket or in the monitor.
#[derive(Debug)]
pub enum FeedEvent {
    /// The payload that was to be sent has been sent.
    Sent,
    /// The payload that was to be sent could not be sent.
    SendFailed,
    /// The monitor reports messages. A message that could not be written as JSON has no payload.
    Update { sequence: u64, payloads: Vec<Option<String>> },
    /// The monitor dropped updates that were not received in time.
    Lagged,
    /// The monitor reports nothing more.
    Closed,
}

/// What is to be done next.
#[derive(Debug, PartialEq, Eq)]
pub enum FeedAction {
    /// Send this payload.
    Send { payload: String },
    /// Wait for the monitor.
    Receive,
    /// Leave the socket.
    Stop,
}

/// What a [`FeedEvent`] says.
pub enum FeedEventView {
    Sent,
    SendFailed,
    Update { sequence: u64, payloads: Seq<Option<Seq<char>>> },
    Lagged,
    Closed,
}

/// What a [`FeedAction`] says.
pub enum FeedActionView {
    Send { payload: Seq<char> },
    Receive,
    Stop,
}

/// The state of a feed: the last update that its snapshot covers, the payloads that wait to be
/// sent, and whether the socket is still served.
pub struct FeedView {
    pub last_sequence: u64,
    pub queue: Seq<Seq<char>>,
    pub open: bool,
}

/// What some payloads say.
pub open spec fn payload_views(payloads: Seq<Option<String>>) -> Seq<Option<Seq<char>>> {
    payloads.map_values(|payload: Option<String>| option_view(payload))
}

impl View for FeedEvent {
    type V = FeedEventView;

    open spec fn view(&self) -> FeedEventView {
        match self {
            FeedEvent::Sent => FeedEventView::Sent,
            FeedEvent::SendFailed => FeedEventView::SendFailed,
            FeedEvent::Update { sequence, payloads } => FeedEventView::Update {
                sequence: *sequence,
                payloads: payload_views(payloads@),
            },
            FeedEvent::Lagged => FeedEventView::Lagged,
            FeedEvent::Closed => FeedEventView::Closed,
        }
    }
}

impl View for FeedAction {
    type V = FeedActionView;

    open spec fn view(&self) -> FeedActionView {
        match self {
            FeedAction::Send { payload } => FeedActionView::Send { payload: payload@ },
            FeedAction::Receive => FeedActionView::Receive,
            FeedAction::Stop => FeedActionView::Stop,
        }
    }
}

/// The payloads of the messages that have one.
pub open spec fn present(payloads: Seq<Option<Seq<char>>>) -> Seq<Seq<char>>
    decreases payloads.len(),
{
    if payloads.len() == 0 {
        Seq::empty()
    } else {
        match payloads.last() {
            Some(payload) => present(payloads.drop_last()).push(payload),
            None => present(payloads.drop_last()),
        }
    }
}

/// What is to be done in a state.
pub open spec fn next_action(feed: FeedView) -> FeedActionView {
    if !feed.open {
        FeedActionView::Stop
    } else if feed.queue.len() > 0 {
        FeedActionView::Send { payload: feed.queue.first() }
    } else {
        FeedActionView::Receive
    }
}

/// The payloads that an event adds to those that wait: those of an update that the snapshot
/// does not cover.
pub open spec fn added(last_sequence: u64, event: FeedEventView) -> Seq<Seq<char>> {
    match event {
        FeedEventView::Update { sequence, payloads } => if sequence <= last_sequence {
            Seq::empty()
        } else {
            present(payloads)
        },
        _ => Seq::empty(),
    }
}

/// The state after an event.
pub open spec fn step(feed: FeedView, event: FeedEventView) -> FeedView {
    if !feed.open {
        feed
    } else {
        match event {
            FeedEventView::Sent => if feed.queue.len() > 0 {
                FeedView { queue: feed.queue.drop_first(), ..feed }
            } else {
                feed
            },
            FeedEventView::Update { .. } => FeedView {
                queue: feed.queue + added(feed.last_sequence, event),
                ..feed
            },
            FeedEventView::SendFailed | FeedEventView::Lagged | FeedEventView::Closed => FeedView {
                open: false,
                ..feed
            },
        }
    }
}

/// The payloads that an event confirms as sent.
pub open spec fn confirmed(feed: FeedView, event: FeedEventView) -> Seq<Seq<char>> {
    if feed.open && feed.queue.len() > 0 && event is Sent {
        seq![feed.queue.first()]
    } else {
        Seq::empty()
    }
}

/// The state after some events.
pub open spec fn run(feed: FeedView, events: Seq<FeedEventView>) -> FeedView
    decreases events.len(),
{
    if events.len() == 0 {
        feed
    } else {
        step(run(feed, events.drop_last()), events.last())
    }
}

/// The payloads that were sent in the course of some events.
pub open spec fn sent(feed: FeedView, events: Seq<FeedEventView>) -> Seq<Seq<char>>
    decreases events.len(),
{
    if events.len() == 0 {
        Seq::empty()
    } else {
        sent(feed, events.drop_last()) + confirmed(run(feed, events.drop_last()), events.last())
    }
}

/// The payloads of the updates among some events that the snapshot does not cover.
pub open spec fn reported(last_sequence: u64, events: Seq<FeedEventView>) -> Seq<Seq<char>>
    decreases events.len(),
{
    if events.len() == 0 {
        Seq::empty()
    } else {
        reported(last_sequence, events.drop_last()) + added(last_sequence, events.last())
    }
}

/// The feed of one socket of the debug UI.
#[derive(Debug)]
pub struct DebugFeed {
    last_sequence: u64,
    queue: Vec<String>,
    open: bool,
}

impl View for DebugFeed {
    type V = FeedView;

    closed spec fn view(&self) -> FeedView {
        FeedView { last_sequence: self.last_sequence, queue: views(self.queue@), open: self.open }
    }
}

/// Puts the payloads that are present behind those that wait.
fn enqueue(queue: &mut Vec<String>, payloads: Vec<Option<String>>)
    ensures
        views(final(queue)@) == views(old(queue)@) + present(payload_views(payloads@)),
{
    let ghost start = views(queue@);
    let ghost all = payload_views(payloads@);
    let mut i: usize = 0;
    assert(all.take(0) =~= Seq::empty());
    assert(views(queue@) =~= start + present(all.take(0)));
    while i < payloads.len()
        invariant
            i <= payloads.len(),
            all == payload_views(payloads@),
            views(queue@) == start + present(all.take(i as int)),
        decreases payloads.len() - i,
    {
        assert(all.take(i + 1).drop_last() =~= all.take(i as int));
        assert(all.take(i + 1).last() == option_view(payloads@[i as int]));
        if let Some(payload) = &payloads[i] {
            proof {
                lemma_views_push(queue@, *payload);
            }
            queue.push(payload.clone());
            assert(views(queue@) =~= start + present(all.take(i + 1)));
        }
        i += 1;
    }
    assert(all.take(i as int) =~= all);
}

impl DebugFeed {
    /// The feed that begins with the messages of a snapshot, which covers the updates up to
    /// `last_sequence`.
    pub fn start(last_sequence: u64, payloads: Vec<Option<String>>) -> (feed: DebugFeed)
        ensures
            feed@ == (FeedView {
                last_sequence,
                queue: present(payload_views(payloads@)),
                open: true,
            }),
    {
        let mut queue: Vec<String> = Vec::new();
        let ghost all = payload_views(payloads@);
        enqueue(&mut queue, payloads);
        assert(views(queue@) =~= present(all));
        DebugFeed { last_sequence, queue, open: true }
    }

    /// What is to be done next.
    pub fn action(&self) -> (action: FeedAction)
        ensures
            action@ == next_action(self@),
    {
        if !self.open {
            FeedAction::Stop
        } else if self.queue.len() > 0 {
            FeedAction::Send { payload: self.queue[0].clone() }
        } else {
            FeedAction::Receive
        }
    }

    /// Takes note of an event.
    pub fn handle(&mut self, event: FeedEvent)
        ensures
            final(self)@ == step(old(self)@, event@),
    {
        if !self.open {
            return;
        }
        match event {
            FeedEvent::Sent => {
                if self.queue.len() > 0 {
                    let ghost before = self.queue@;
                    let _ = self.queue.remove(0);
                    assert(views(self.queue@) =~= views(before).drop_first());
                }
            },
            FeedEvent::Update { sequence, payloads } => {
                if sequence > self.last_sequence {
                    enqueue(&mut self.queue, payloads);
                } else {
                    assert(self@.queue + Seq::<Seq<char>>::empty() =~= self@.queue);
                }
            },
            FeedEvent::SendFailed => {
                self.open = false;
            },
            FeedEvent::Lagged => {
                self.open = false;
            },
            FeedEvent::Closed => {
                self.open = false;
            },
        }
    }
}

/// As long as the socket is served, what was sent and what waits is together what the snapshot
/// held and what newer updates reported, in that order: nothing is lost, repeated or reordered,
/// and no update that the snapshot covers is sent.
pub proof fn law_feed_is_complete(feed: FeedView, events: Seq<FeedEventView>)
    requires
        run(feed, events).open,
    ensures
        feed.open,
        sent(feed, events) + run(feed, events).queue == feed.queue + reported(
            feed.last_sequence,
            events,
        ),
    decreases events.len(),
{
    if events.len() > 0 {
        let before = run(feed, events.drop_last());
        law_feed_is_complete(feed, events.drop_last());
        lemma_last_sequence_stays(feed, events.drop_last());
        let event = events.last();
        assert(confirmed(before, event) + step(before, event).queue =~= before.queue + added(
            feed.last_sequence,
            event,
        ));
        assert(sent(feed, events) + run(feed, events).queue =~= sent(feed, events.drop_last()) + (
        before.queue + added(feed.last_sequence, event)));
        assert(sent(feed, events) + run(feed, events).queue =~= (sent(feed, events.drop_last())
            + before.queue) + added(feed.last_sequence, event));
        assert(sent(feed, events) + run(feed, events).queue =~= feed.queue + reported(
            feed.last_sequence,
            events,
        ));
    } else {
        assert(sent(feed, events) + run(feed, events).queue =~= feed.queue + reported(
            feed.last_sequence,
            events,
        ));
    }
}

/// The last update that the snapshot covers stays the same.
proof fn lemma_last_sequence_stays(feed: FeedView, events: Seq<FeedEventView>)
    ensures
        run(feed, events).last_sequence == feed.last_sequence,
    decreases events.len(),
{
    if events.len() > 0 {
        lemma_last_sequence_stays(feed, events.drop_last());
    }
}

/// Whatever happens, what was sent is the beginning of what the snapshot held and newer updates
/// reported.
pub proof fn law_feed_sends_in_order(feed: FeedView, events: Seq<FeedEventView>)
    ensures
        sent(feed, events).is_prefix_of(feed.queue + reported(feed.last_sequence, events)),
    decreases events.len(),
{
    let due = feed.queue + reported(feed.last_sequence, events);
    if events.len() > 0 {
        let earlier = events.drop_last();
        law_feed_sends_in_order(feed, earlier);
        let due_earlier = feed.queue + reported(feed.last_sequence, earlier);
        assert(due =~= due_earlier + added(feed.last_sequence, events.last()));
        if run(feed, earlier).open {
            law_feed_is_complete(feed, earlier);
            let before = run(feed, earlier);
            let all = sent(feed, earlier) + before.queue;
            assert(all == due_earlier);
            assert(sent(feed, events) =~= all.take(sent(feed, events).len() as int));
            assert(sent(feed, events) =~= due.take(sent(feed, events).len() as int));
        } else {
            assert(sent(feed, events) =~= sent(feed, earlier));
            assert(sent(feed, events) =~= due.take(sent(feed, events).len() as int));
        }
    } else {
        assert(sent(feed, events) =~= due.take(0));
    }
}

/// A socket that is left is not served again: nothing changes and nothing is sent any more.
pub proof fn law_feed_stops_for_good(feed: FeedView, events: Seq<FeedEventView>)
    requires
        next_action(feed) is Stop,
    ensures
        run(feed, events) == feed,
        sent(feed, events).len() == 0,
    decreases events.len(),
{
    if events.len() > 0 {
        law_feed_stops_for_good(feed, events.drop_last());
    }
}

/// The views of events, actions and payloads say what these hold.
pub proof fn law_feed_views(
    sequence: u64,
    payloads: Vec<Option<String>>,
    payload: String,
    i: int,
)
    ensures
        payload_views(payloads@).len() == payloads@.len(),
        0 <= i < payloads@.len() ==> payload_views(payloads@)[i] == option_view(payloads@[i]),
        (FeedEvent::Update { sequence, payloads })@ == (FeedEventView::Update {
            sequence,
            payloads: payload_views(payloads@),
        }),
        FeedEvent::Sent@ == FeedEventView::Sent,
        FeedEvent::SendFailed@ == FeedEventView::SendFailed,
        FeedEvent::Lagged@ == FeedEventView::Lagged,
        FeedEvent::Closed@ == FeedEventView::Closed,
        (FeedAction::Send { payload })@ == (FeedActionView::Send { payload: payload@ }),
        FeedAction::Receive@ == FeedActionView::Receive,
        FeedAction::Stop@ == FeedActionView::Stop,
{
}

/// Every payload that is there is sent and nothing else: the payloads of two lists of messages are
/// those of the first and then those of the second, and one message gives its payload, if it has
/// one.
pub proof fn law_present(
    one: Seq<Option<Seq<char>>>,
    other: Seq<Option<Seq<char>>>,
    payload: Seq<char>,
)
    ensures
        present(Seq::empty()).len() == 0,
        present(seq![Some(payload)]) == seq![payload],
        present(seq![None]).len() == 0,
        present(one + other) == present(one) + present(other),
    decreases other.len(),
{
    reveal_with_fuel(present, 2);
    let some: Seq<Option<Seq<char>>> = seq![Some(payload)];
    let none: Seq<Option<Seq<char>>> = seq![None];
    assert(some.drop_last() =~= Seq::empty());
    assert(none.drop_last() =~= Seq::empty());
    assert(present(some) =~= seq![payload]);
    if other.len() == 0 {
        assert(one + other =~= one);
    } else {
        law_present(one, other.drop_last(), payload);
        assert((one + other).drop_last() =~= one + other.drop_last());
    }
    assert(present(one + other) =~= present(one) + present(other));
}

/// As long as the socket is served, the first payload that waits is sent next, and the monitor is
/// asked only where none waits. A socket that is left is left for good.
pub proof fn law_what_is_done_next(feed: FeedView)
    ensures
        !feed.open <==> next_action(feed) is Stop,
        feed.open && feed.queue.len() == 0 <==> next_action(feed) is Receive,
        feed.open && feed.queue.len() > 0 ==> next_action(feed) == (FeedActionView::Send {
            payload: feed.queue[0],
        }),
{
}

/// What an event does to a socket that is served: a payload that was sent waits no longer, newer
/// updates line up their payloads behind those that wait, updates that the snapshot covers do
/// nothing, and everything that goes wrong ends the service.
pub proof fn law_what_an_event_does(
    feed: FeedView,
    sequence: u64,
    payloads: Seq<Option<Seq<char>>>,
)
    requires
        feed.open,
    ensures
        feed.queue.len() > 0 ==> {
            let after = step(feed, FeedEventView::Sent);
            &&& after.open
            &&& seq![feed.queue[0]] + after.queue == feed.queue
            &&& after.last_sequence == feed.last_sequence
        },
        feed.queue.len() == 0 ==> step(feed, FeedEventView::Sent) == feed,
        sequence > feed.last_sequence ==> {
            let after = step(feed, FeedEventView::Update { sequence, payloads });
            &&& after.open
            &&& after.queue == feed.queue + present(payloads)
            &&& after.last_sequence == feed.last_sequence
        },
        sequence <= feed.last_sequence ==> step(
            feed,
            FeedEventView::Update { sequence, payloads },
        ) == feed,
        !step(feed, FeedEventView::SendFailed).open,
        !step(feed, FeedEventView::Lagged).open,
        !step(feed, FeedEventView::Closed).open,
{
    if feed.queue.len() > 0 {
        assert(seq![feed.queue[0]] + step(feed, FeedEventView::Sent).queue =~= feed.queue);
    }
    assert(feed.queue + Seq::<Seq<char>>::empty() =~= feed.queue);
}

/// What was sent is, payload by payload, what was to be sent when the sending was confirmed; what
/// was reported is what the updates newer than the snapshot held.
pub proof fn law_what_was_sent_and_reported(
    feed: FeedView,
    events: Seq<FeedEventView>,
    event: FeedEventView,
)
    ensures
        run(feed, Seq::empty()) == feed,
        run(feed, events.push(event)) == step(run(feed, events), event),
        sent(feed, Seq::empty()).len() == 0,
        sent(feed, events.push(event)) == (match (next_action(run(feed, events)), event) {
            (FeedActionView::Send { payload }, FeedEventView::Sent) => sent(feed, events).push(
                payload,
            ),
            _ => sent(feed, events),
        }),
        reported(feed.last_sequence, Seq::empty()).len() == 0,
        reported(feed.last_sequence, events.push(event)) == (match event {
            FeedEventView::Update { sequence, payloads } => if sequence > feed.last_sequence {
                reported(feed.last_sequence, events) + present(payloads)
            } else {
                reported(feed.last_sequence, events)
            },
            _ => reported(feed.last_sequence, events),
        }),
{
    let longer = events.push(event);
    assert(longer.drop_last() =~= events);
    let before = sent(feed, events);
    assert(before + Seq::<Seq<char>>::empty() =~= before);
    if run(feed, events).queue.len() > 0 {
        let first = run(feed, events).queue.first();
        assert(before + seq![first] =~= before.push(first));
    }
    let so_far = reported(feed.last_sequence, events);
    assert(so_far + Seq::<Seq<char>>::empty() =~= so_far);
}

} // verus!
