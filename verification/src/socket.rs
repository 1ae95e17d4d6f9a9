//! A browser's WebSocket while a session is open: it carries the session's messages to the
//! browser and the browser's messages to the session until either side is done.
use vstd::prelude::*;

use crate::signaling;
use crate::signaling::{Signal, SignalingMessage};

verus! {

/// Something that happens to a connection.
#[derive(Debug)]
pub enum SocketEvent {
    /// The session has a message for the browser.
    FromSession(SignalingMessage),
    /// The session will send nothing more.
    SessionEnded,
    /// A text could not be sent to the browser.
    SendFailed,
    /// The browser sent a text that is a signaling message.
    FromBrowser(SignalingMessage),
    /// The browser sent a text that is no signaling message.
    Malformed,
    /// The browser sent a frame that is neither text nor the end of the connection.
    OtherFrame,
    /// The browser closes the connection.
    CloseFrame,
    /// The connection has ended or failed.
    BrowserGone,
    /// A message could not be handed to the session.
    ForwardFailed,
}

/// What an event says.
pub enum Event {
    FromSession(Signal),
    SessionEnded,
    SendFailed,
    FromBrowser(Signal),
    Malformed,
    OtherFrame,
    CloseFrame,
    BrowserGone,
    ForwardFailed,
}

impl View for SocketEvent {
    type V = Event;

    open spec fn view(&self) -> Event {
        match self {
            SocketEvent::FromSession(m) => Event::FromSession(m@),
            SocketEvent::SessionEnded => Event::SessionEnded,
            SocketEvent::SendFailed => Event::SendFailed,
            SocketEvent::FromBrowser(m) => Event::FromBrowser(m@),
            SocketEvent::Malformed => Event::Malformed,
            SocketEvent::OtherFrame => Event::OtherFrame,
            SocketEvent::CloseFrame => Event::CloseFrame,
            SocketEvent::BrowserGone => Event::BrowserGone,
            SocketEvent::ForwardFailed => Event::ForwardFailed,
        }
    }
}

/// What to do on an event.
#[derive(Debug)]
pub enum SocketAction {
    /// Send this text to the browser.
    SendText(String),
    /// Hand this message to the session.
    Forward(SignalingMessage),
    /// Log that a text could not be read, and go on.
    ReportMalformed,
    /// Go on.
    Continue,
    /// Stop both directions and close the session.
    Disconnect,
}

/// What an action says.
pub enum Action {
    SendText(Seq<char>),
    Forward(Signal),
    ReportMalformed,
    Continue,
    Disconnect,
}

impl View for SocketAction {
    type V = Action;

    open spec fn view(&self) -> Action {
        match self {
            SocketAction::SendText(t) => Action::SendText(t@),
            SocketAction::Forward(m) => Action::Forward(m@),
            SocketAction::ReportMalformed => Action::ReportMalformed,
            SocketAction::Continue => Action::Continue,
            SocketAction::Disconnect => Action::Disconnect,
        }
    }
}

/// The events that end a connection.
pub open spec fn ends(event: Event) -> bool {
    match event {
        Event::SessionEnded => true,
        Event::SendFailed => true,
        Event::CloseFrame => true,
        Event::BrowserGone => true,
        Event::ForwardFailed => true,
        _ => false,
    }
}

/// What is done on an event while the connection is open.
pub open spec fn open_action(event: Event) -> Action {
    match event {
        Event::FromSession(m) => Action::SendText(signaling::wire_text(m)),
        Event::FromBrowser(m) => Action::Forward(m),
        Event::Malformed => Action::ReportMalformed,
        Event::OtherFrame => Action::Continue,
        _ => Action::Disconnect,
    }
}

/// What is done on an event: once the connection has ended, whatever comes late only
/// confirms the end.
pub open spec fn action(open: bool, event: Event) -> Action {
    if open {
        open_action(event)
    } else {
        Action::Disconnect
    }
}

/// The state of a connection.
#[derive(Debug)]
pub struct Connection {
    /// Whether neither side has ended the connection yet.
    pub open: bool,
}

impl Connection {
    /// A connection that a browser has just opened.
    pub fn new() -> (r: Self)
        ensures
            r.open,
    {
        Connection { open: true }
    }

    /// Takes note of an event and says what to do.
    pub fn step(&mut self, event: SocketEvent) -> (r: SocketAction)
        ensures
            r@ == action(old(self).open, event@),
            final(self).open == (old(self).open && !ends(event@)),
            !old(self).open ==> r is Disconnect && !final(self).open,
            old(self).open ==> match event {
                SocketEvent::FromSession(m) => final(self).open && (
                r matches SocketAction::SendText(t) && t@ == signaling::wire_text(m@)),
                SocketEvent::FromBrowser(m) => final(self).open && (
                r matches SocketAction::Forward(f) && f == m),
                SocketEvent::Malformed => final(self).open && r is ReportMalformed,
                SocketEvent::OtherFrame => final(self).open && r is Continue,
                SocketEvent::SessionEnded => !final(self).open && r is Disconnect,
                SocketEvent::SendFailed => !final(self).open && r is Disconnect,
                SocketEvent::CloseFrame => !final(self).open && r is Disconnect,
                SocketEvent::BrowserGone => !final(self).open && r is Disconnect,
                SocketEvent::ForwardFailed => !final(self).open && r is Disconnect,
            },
    {
        if !self.open {
            return SocketAction::Disconnect;
        }
        match event {
            SocketEvent::FromSession(message) => SocketAction::SendText(message.to_json()),
            SocketEvent::FromBrowser(message) => SocketAction::Forward(message),
            SocketEvent::Malformed => SocketAction::ReportMalformed,
            SocketEvent::OtherFrame => SocketAction::Continue,
            _ => {
                self.open = false;
                SocketAction::Disconnect
            },
        }
    }
}

/// Whether a new connection is still open after `events`.
pub open spec fn open_after(events: Seq<Event>) -> bool
    decreases events.len(),
{
    events.len() == 0 || (open_after(events.drop_last()) && !ends(events.last()))
}

/// What a new connection does on `events`, one action for each.
pub open spec fn actions(events: Seq<Event>) -> Seq<Action>
    decreases events.len(),
{
    if events.len() == 0 {
        Seq::empty()
    } else {
        let before = events.drop_last();
        actions(before).push(action(open_after(before), events.last()))
    }
}

/// The texts that are sent to the browser, in order.
pub open spec fn sent(actions: Seq<Action>) -> Seq<Seq<char>>
    decreases actions.len(),
{
    if actions.len() == 0 {
        Seq::empty()
    } else {
        match actions.last() {
            Action::SendText(t) => sent(actions.drop_last()).push(t),
            _ => sent(actions.drop_last()),
        }
    }
}

/// The messages that are handed to the session, in order.
pub open spec fn forwarded(actions: Seq<Action>) -> Seq<Signal>
    decreases actions.len(),
{
    if actions.len() == 0 {
        Seq::empty()
    } else {
        match actions.last() {
            Action::Forward(m) => forwarded(actions.drop_last()).push(m),
            _ => forwarded(actions.drop_last()),
        }
    }
}

/// The texts of the session's messages among `events`, in order.
pub open spec fn session_texts(events: Seq<Event>) -> Seq<Seq<char>>
    decreases events.len(),
{
    if events.len() == 0 {
        Seq::empty()
    } else {
        match events.last() {
            Event::FromSession(m) => session_texts(events.drop_last()).push(
                signaling::wire_text(m),
            ),
            _ => session_texts(events.drop_last()),
        }
    }
}

/// The browser's messages among `events`, in order.
pub open spec fn browser_messages(events: Seq<Event>) -> Seq<Signal>
    decreases events.len(),
{
    if events.len() == 0 {
        Seq::empty()
    } else {
        match events.last() {
            Event::FromBrowser(m) => browser_messages(events.drop_last()).push(m),
            _ => browser_messages(events.drop_last()),
        }
    }
}

/// A connection is open as long as no event has ended it.
pub proof fn law_open_until_ended(events: Seq<Event>)
    ensures
        open_after(events) <==> forall|i: int| 0 <= i < events.len() ==> !ends(#[trigger] events[i]),
    decreases events.len(),
{
    if events.len() > 0 {
        let before = events.drop_last();
        law_open_until_ended(before);
        assert(forall|i: int| 0 <= i < before.len() ==> before[i] == #[trigger] events[i]);
        if open_after(events) {
            assert forall|i: int| 0 <= i < events.len() implies !ends(#[trigger] events[i]) by {
                if i < before.len() {
                    assert(before[i] == events[i]);
                }
            }
        }
        if forall|i: int| 0 <= i < events.len() ==> !ends(#[trigger] events[i]) {
            assert forall|i: int| 0 <= i < before.len() implies !ends(#[trigger] before[i]) by {
                assert(before[i] == events[i]);
            }
            assert(!ends(events[events.len() - 1]));
        }
    }
}

/// While a connection is open, every message of the session reaches the browser as its
/// text, every message of the browser reaches the session, both in order, and nothing else
/// does. Texts that are no message are passed over.
pub proof fn law_everything_carried_while_open(events: Seq<Event>)
    requires
        open_after(events),
    ensures
        sent(actions(events)) == session_texts(events),
        forwarded(actions(events)) == browser_messages(events),
    decreases events.len(),
{
    if events.len() > 0 {
        law_everything_carried_while_open(events.drop_last());
        assert(actions(events).drop_last() =~= actions(events.drop_last()));
    }
}

/// Once a connection has ended nothing more is carried, whatever comes after, and it does
/// not open again.
pub proof fn law_nothing_carried_after_end(events: Seq<Event>, later: Seq<Event>)
    requires
        !open_after(events),
    ensures
        !open_after(events + later),
        sent(actions(events + later)) == sent(actions(events)),
        forwarded(actions(events + later)) == forwarded(actions(events)),
    decreases later.len(),
{
    if later.len() == 0 {
        assert(events + later =~= events);
    } else {
        let all = events + later;
        law_nothing_carried_after_end(events, later.drop_last());
        assert(all.drop_last() =~= events + later.drop_last());
        assert(actions(all).drop_last() =~= actions(all.drop_last()));
    }
}

/// The event that ends a connection carries nothing itself: what was carried in all is what
/// was carried while the connection was open.
pub proof fn law_end_carries_nothing(events: Seq<Event>, end: Event)
    requires
        open_after(events),
        ends(end),
    ensures
        !open_after(events.push(end)),
        actions(events.push(end)) == actions(events).push(Action::Disconnect),
        sent(actions(events.push(end))) == session_texts(events),
        forwarded(actions(events.push(end))) == browser_messages(events),
{
    law_everything_carried_while_open(events);
    let all = events.push(end);
    assert(all.drop_last() =~= events);
    assert(actions(all).drop_last() =~= actions(events));
}

/// A connection ends when the session ends, when the browser closes it or is gone, or when
/// a message cannot be passed on to either side; no message, readable or not, ends it.
pub proof fn law_what_ends_a_connection(event: Event)
    ensures
        ends(event) <==> (event is SessionEnded || event is CloseFrame || event is BrowserGone
            || event is SendFailed || event is ForwardFailed),
        event is FromSession || event is FromBrowser || event is Malformed || event is OtherFrame
            ==> open_after(seq![event]),
{
    assert(seq![event].drop_last() =~= Seq::<Event>::empty());
    reveal_with_fuel(open_after, 2);
}

/// Every event is answered by exactly one action, and what was done before an event does
/// not change with it.
pub proof fn law_one_action_each(events: Seq<Event>, event: Event)
    ensures
        actions(events).len() == events.len(),
        actions(events.push(event)).drop_last() == actions(events),
        open_after(events) && event is Malformed ==> actions(events.push(event)).last()
            is ReportMalformed,
        open_after(events) && event is OtherFrame ==> actions(events.push(event)).last()
            is Continue,
        !open_after(events) ==> actions(events.push(event)).last() is Disconnect,
    decreases events.len(),
{
    if events.len() > 0 {
        law_one_action_each(events.drop_last(), events.last());
        assert(events.drop_last().push(events.last()) =~= events);
    }
    assert(events.push(event).drop_last() =~= events);
    assert(actions(events.push(event)).drop_last() =~= actions(events));
}

} // verus!
