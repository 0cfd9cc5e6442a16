//! What a WebSocket connection does with what happens on it.
use vstd::prelude::*;
use vstd::utf8::encode_utf8;

use crate::sse::Feed;

verus! {

/// Seconds between two pings.
pub const KEEPALIVE_SECS: u64 = 15;

/// What a ping carries.
pub const PING: &'static str = "keepalive";

/// What happens on a connection.
#[derive(Debug)]
pub enum WsEvent {
    /// The broadcast channel gave something.
    Broadcast(Feed),
    /// It is time for a ping.
    Tick,
    /// A frame was sent, or could not be.
    Sent { ok: bool },
    /// The client sent a frame.
    Frame { close: bool },
    /// The client's frames have ended, by an error or not.
    Ended,
}

/// What the connection does.
#[derive(Debug)]
pub enum WsAction {
    SendText(String),
    SendPing(Vec<u8>),
    Wait,
    HangUp,
}

#[verifier::ext_equal]
pub enum WsActionView {
    SendText(Seq<char>),
    SendPing(Seq<u8>),
    Wait,
    HangUp,
}

impl View for WsAction {
    type V = WsActionView;

    open spec fn view(&self) -> WsActionView {
        match self {
            WsAction::SendText(text) => WsActionView::SendText(text@),
            WsAction::SendPing(bytes) => WsActionView::SendPing(bytes@),
            WsAction::Wait => WsActionView::Wait,
            WsAction::HangUp => WsActionView::HangUp,
        }
    }
}

/// What the connection does. Messages are forwarded, ticks become pings, a gap in the messages is
/// passed over. The connection ends with the broadcast, with the client, and when a frame cannot
/// be sent.
pub open spec fn ws_action(event: WsEvent) -> WsActionView {
    match event {
        WsEvent::Broadcast(Feed::Data(data)) => WsActionView::SendText(data@),
        WsEvent::Broadcast(Feed::Lagged(_)) => WsActionView::Wait,
        WsEvent::Broadcast(Feed::Closed) => WsActionView::HangUp,
        WsEvent::Tick => WsActionView::SendPing(encode_utf8(PING@)),
        WsEvent::Sent { ok } => if ok {
            WsActionView::Wait
        } else {
            WsActionView::HangUp
        },
        WsEvent::Frame { close } => if close {
            WsActionView::HangUp
        } else {
            WsActionView::Wait
        },
        WsEvent::Ended => WsActionView::HangUp,
    }
}

/// Decides what the connection does.
pub fn handle_ws(event: WsEvent) -> (action: WsAction)
    ensures
        action@ == ws_action(event),
{
    match event {
        WsEvent::Broadcast(Feed::Data(data)) => WsAction::SendText(data),
        WsEvent::Broadcast(Feed::Lagged(_)) => WsAction::Wait,
        WsEvent::Broadcast(Feed::Closed) => WsAction::HangUp,
        WsEvent::Tick => WsAction::SendPing(PING.as_bytes_vec()),
        WsEvent::Sent { ok } => if ok {
            WsAction::Wait
        } else {
            WsAction::HangUp
        },
        WsEvent::Frame { close } => if close {
            WsAction::HangUp
        } else {
            WsAction::Wait
        },
        WsEvent::Ended => WsAction::HangUp,
    }
}

/// When a ping is due, in seconds after the connection was made. The first has the number zero.
pub open spec fn ping_time(number: nat) -> nat {
    (number + 1) * KEEPALIVE_SECS as nat
}

/// Seconds from the start of a connection to its first ping.
pub fn first_ping_secs() -> (secs: u64)
    ensures
        secs == ping_time(0),
{
    KEEPALIVE_SECS
}

/// The first ping comes after one period and not at once, and each further one a period later.
pub proof fn law_pings_are_regular(number: nat)
    ensures
        ping_time(0) == KEEPALIVE_SECS,
        ping_time(number + 1) == ping_time(number) + KEEPALIVE_SECS,
{
}

/// A frame that the connection sends.
#[verifier::ext_equal]
pub enum FrameView {
    Text(Seq<char>),
    Ping(Seq<u8>),
}

/// Whether none of the events ends the connection.
pub open spec fn stays_open(events: Seq<WsEvent>) -> bool {
    forall|i: int| 0 <= i < events.len() ==> !(ws_action(#[trigger] events[i]) is HangUp)
}

/// The frames that the connection sends while these events happen on it.
pub open spec fn frames(events: Seq<WsEvent>) -> Seq<FrameView>
    decreases events.len(),
{
    if events.len() == 0 {
        Seq::empty()
    } else {
        let before = frames(events.drop_last());
        if !stays_open(events.drop_last()) {
            before
        } else {
            match ws_action(events.last()) {
                WsActionView::SendText(text) => before.push(FrameView::Text(text)),
                WsActionView::SendPing(bytes) => before.push(FrameView::Ping(bytes)),
                _ => before,
            }
        }
    }
}

/// The texts among the frames, in order.
pub open spec fn texts_sent(frames: Seq<FrameView>) -> Seq<Seq<char>>
    decreases frames.len(),
{
    if frames.len() == 0 {
        Seq::empty()
    } else {
        match frames.last() {
            FrameView::Text(text) => texts_sent(frames.drop_last()).push(text),
            FrameView::Ping(_) => texts_sent(frames.drop_last()),
        }
    }
}

/// The messages that the broadcast channel gave, in order.
pub open spec fn messages_given(events: Seq<WsEvent>) -> Seq<Seq<char>>
    decreases events.len(),
{
    if events.len() == 0 {
        Seq::empty()
    } else {
        match events.last() {
            WsEvent::Broadcast(Feed::Data(data)) => messages_given(events.drop_last()).push(data@),
            _ => messages_given(events.drop_last()),
        }
    }
}

/// How many of the events are ticks.
pub open spec fn ticks(events: Seq<WsEvent>) -> nat
    decreases events.len(),
{
    if events.len() == 0 {
        0
    } else {
        ticks(events.drop_last()) + if events.last() is Tick {
            1nat
        } else {
            0
        }
    }
}

/// As long as a connection stays open, it sends every message that the broadcast channel gives it
/// as one text, in order, and a ping with a fixed content for each tick. It sends nothing else.
pub proof fn law_messages_are_forwarded(events: Seq<WsEvent>)
    requires
        stays_open(events),
    ensures
        texts_sent(frames(events)) == messages_given(events),
        frames(events).len() == messages_given(events).len() + ticks(events),
        forall|k: int|
            0 <= k < frames(events).len() && (#[trigger] frames(events)[k]) is Ping
                ==> frames(events)[k] == FrameView::Ping(encode_utf8(PING@)),
    decreases events.len(),
{
    if events.len() > 0 {
        let rest = events.drop_last();
        assert forall|i: int| 0 <= i < rest.len() implies !(ws_action(#[trigger] rest[i]) is HangUp) by {
            assert(rest[i] == events[i]);
        }
        law_messages_are_forwarded(rest);
        if frames(events).len() > frames(rest).len() {
            assert(frames(events).drop_last() =~= frames(rest));
        }
    }
}

/// Once an event has ended the connection, nothing more is sent.
pub proof fn law_nothing_is_sent_after_the_end(events: Seq<WsEvent>, i: int)
    requires
        0 <= i < events.len(),
        ws_action(events[i]) is HangUp,
    ensures
        frames(events) == frames(events.take(i)),
    decreases events.len(),
{
    let rest = events.drop_last();
    if i < rest.len() {
        assert(rest[i] == events[i]);
        assert(!stays_open(rest));
        assert(rest.take(i) =~= events.take(i));
        law_nothing_is_sent_after_the_end(rest, i);
    } else {
        assert(rest =~= events.take(i));
    }
}

} // verus!
