//! Forwarding bytes between a WebSocket and a varlink socket.
//!
//! Each varlink message, which ends in a NUL byte, is sent as one binary frame.
//! After a protocol upgrade there are no messages any more, only bytes.

use vstd::prelude::*;
use vstd::utf8::encode_utf8;

verus! {

/// How many bytes are read at once after a protocol upgrade.
pub const RAW_READ_SIZE: usize = 8192;

/// What happens to a connection.
#[derive(Debug)]
pub enum WsEvent {
    /// A binary frame comes from the WebSocket.
    Binary(Vec<u8>),
    /// A text frame comes from the WebSocket.
    Text(String),
    /// The peer closes the WebSocket.
    Close,
    /// A control frame comes from the WebSocket.
    Other,
    /// The WebSocket is gone.
    Disconnected,
    /// A message comes from the varlink socket.
    Varlink(Vec<u8>),
    /// Writing to the varlink socket or sending to the WebSocket failed.
    Failed,
}

/// What to do then.
#[derive(Debug)]
pub enum WsAction {
    /// Write the bytes to the varlink socket.
    Write(Vec<u8>),
    /// Send the bytes to the WebSocket as one binary frame.
    Send(Vec<u8>),
    /// Wait for what comes next.
    Wait,
    /// End the connection.
    Stop,
}

/// What to do, with the bytes.
pub enum ActionView {
    Write(Seq<u8>),
    Send(Seq<u8>),
    Wait,
    Stop,
}

impl WsAction {
    /// What to do, with the bytes.
    pub open spec fn view(&self) -> ActionView {
        match self {
            WsAction::Write(data) => ActionView::Write(data@),
            WsAction::Send(data) => ActionView::Send(data@),
            WsAction::Wait => ActionView::Wait,
            WsAction::Stop => ActionView::Stop,
        }
    }
}

/// How the varlink socket is read.
#[derive(Debug, Clone, Copy, PartialEq, Eq, Structural)]
pub enum ReadMode {
    /// Up to and including the next NUL byte.
    UntilNul,
    /// Whatever there is, up to this many bytes.
    Raw(usize),
}

/// What reading the varlink socket gave. No bytes mean that it is closed.
#[derive(Debug)]
pub enum VarlinkRead {
    Data(Vec<u8>),
    Failed,
}

/// Some bytes without the NUL byte that they may end in.
pub open spec fn without_nul(data: Seq<u8>) -> Seq<u8> {
    if data.len() > 0 && data.last() == 0 {
        data.drop_last()
    } else {
        data
    }
}

/// The boolean under a name in a JSON object, as `serde_json::from_slice` reads
/// the bytes: nothing where they are no JSON, and `Some(None)` where they are but
/// hold no such boolean.
pub uninterp spec fn bool_field(json: Seq<u8>, name: Seq<char>) -> Option<Option<bool>>;

/// Calls `serde_json::from_slice`, and `get` and `as_bool` on the value. The
/// contract claims that the result depends on the bytes and the name alone.
#[verifier::external_body]
fn read_bool_field(json: &[u8], name: &str) -> (found: Option<Option<bool>>)
    ensures
        found == bool_field(json@, name@),
{
    let value: Option<serde_json::Value> = serde_json::from_slice(json).ok();
    value.map(|v| v.get(name).and_then(|f| f.as_bool()))
}

/// Whether a message that holds `found` under "upgrade" asks for an upgrade.
pub open spec fn is_upgrade(found: Option<Option<bool>>) -> bool {
    found == Some(Some(true))
}

/// Whether some bytes are a call that asks for a protocol upgrade.
pub open spec fn asks_for_upgrade(data: Seq<u8>) -> bool {
    is_upgrade(bool_field(without_nul(data), "upgrade"@))
}

/// What to do on an event, and whether the connection is upgraded then. Frames and
/// messages go to the other side as they are.
pub open spec fn step(upgraded: bool, event: WsEvent) -> (bool, ActionView) {
    match event {
        WsEvent::Binary(data) => (
            upgraded || asks_for_upgrade(data@),
            ActionView::Write(data@),
        ),
        WsEvent::Text(text) => (
            upgraded || asks_for_upgrade(encode_utf8(text@)),
            ActionView::Write(encode_utf8(text@)),
        ),
        WsEvent::Varlink(data) => (upgraded, ActionView::Send(data@)),
        WsEvent::Other => (upgraded, ActionView::Wait),
        WsEvent::Close | WsEvent::Disconnected | WsEvent::Failed => (upgraded, ActionView::Stop),
    }
}

/// A WebSocket that is forwarded to a varlink socket.
#[derive(Debug)]
pub struct WsBridge {
    upgraded: bool,
}

impl WsBridge {
    /// Whether there was a protocol upgrade.
    pub closed spec fn upgraded(&self) -> bool {
        self.upgraded
    }

    /// A connection that just began.
    pub fn new() -> (bridge: Self)
        ensures
            !bridge.upgraded(),
    {
        WsBridge { upgraded: false }
    }

    /// How the varlink socket has to be read now.
    pub fn read_mode(&self) -> (mode: ReadMode)
        ensures
            mode == if self.upgraded() {
                ReadMode::Raw(RAW_READ_SIZE)
            } else {
                ReadMode::UntilNul
            },
    {
        if self.upgraded {
            ReadMode::Raw(RAW_READ_SIZE)
        } else {
            ReadMode::UntilNul
        }
    }

    /// Takes an event. Binary and text frames are written to the varlink socket as
    /// they are, and messages from there are sent as frames; a call that asks for an
    /// upgrade is noted.
    pub fn handle_ws(&mut self, event: WsEvent) -> (action: WsAction)
        ensures
            (final(self).upgraded(), action@) == step(old(self).upgraded(), event),
    {
        let data = match event {
            WsEvent::Binary(data) => data,
            WsEvent::Text(text) => vstd::slice::slice_to_vec(text.as_str().as_bytes()),
            WsEvent::Varlink(data) => return WsAction::Send(data),
            WsEvent::Other => return WsAction::Wait,
            WsEvent::Close | WsEvent::Disconnected | WsEvent::Failed => return WsAction::Stop,
        };
        if !self.upgraded {
            let json = strip_nul(&data);
            let found = read_bool_field(json, "upgrade");
            self.note_upgrade(found);
        }
        WsAction::Write(data)
    }

    /// Notes whether a message asked for an upgrade, by what it holds under
    /// "upgrade".
    pub fn note_upgrade(&mut self, found: Option<Option<bool>>)
        ensures
            final(self).upgraded() == (old(self).upgraded() || is_upgrade(found)),
    {
        match found {
            Some(Some(true)) => {
                self.upgraded = true;
            },
            _ => {},
        }
    }
}

/// Some bytes without the NUL byte that they may end in.
fn strip_nul(data: &Vec<u8>) -> (rest: &[u8])
    ensures
        rest@ == without_nul(data@),
{
    let len: usize = data.len();
    if len > 0 && data[len - 1] == 0 {
        let rest = vstd::slice::slice_subrange(data.as_slice(), 0, len - 1);
        assert(rest@ == data@.drop_last());
        rest
    } else {
        data.as_slice()
    }
}

/// What to send to the WebSocket after reading the varlink socket: the bytes as
/// one frame, or nothing when the socket is closed or failed.
pub fn frame_of(read: VarlinkRead) -> (frame: Option<Vec<u8>>)
    ensures
        frame == match read {
            VarlinkRead::Data(data) => if data@.len() > 0 {
                Some(data)
            } else {
                None
            },
            VarlinkRead::Failed => None,
        },
{
    match read {
        VarlinkRead::Data(data) => if data.len() > 0 {
            Some(data)
        } else {
            None
        },
        VarlinkRead::Failed => None,
    }
}

/// What became of a connection: whether it is upgraded, what was written to the
/// varlink socket, and what was sent to the WebSocket.
#[verifier::ext_equal]
pub struct Forwarded {
    pub upgraded: bool,
    pub written: Seq<Seq<u8>>,
    pub sent: Seq<Seq<u8>>,
}

/// What becomes of a connection that takes the events one after the other, until
/// one ends it.
pub open spec fn forwarded(upgraded: bool, events: Seq<WsEvent>) -> Forwarded
    decreases events.len(),
{
    if events.len() == 0 {
        Forwarded { upgraded, written: seq![], sent: seq![] }
    } else {
        let (after, action) = step(upgraded, events[0]);
        let rest = forwarded(after, events.skip(1));
        match action {
            ActionView::Write(data) => Forwarded { written: seq![data] + rest.written, ..rest },
            ActionView::Send(data) => Forwarded { sent: seq![data] + rest.sent, ..rest },
            ActionView::Wait => rest,
            ActionView::Stop => Forwarded { upgraded: after, written: seq![], sent: seq![] },
        }
    }
}

/// Whether an event ends the connection.
pub open spec fn ends(event: WsEvent) -> bool {
    event is Close || event is Disconnected || event is Failed
}

/// What the frames among the events hold.
pub open spec fn frames_in(events: Seq<WsEvent>) -> Seq<Seq<u8>>
    decreases events.len(),
{
    if events.len() == 0 {
        seq![]
    } else {
        match events[0] {
            WsEvent::Binary(data) => seq![data@] + frames_in(events.skip(1)),
            WsEvent::Text(text) => seq![encode_utf8(text@)] + frames_in(events.skip(1)),
            _ => frames_in(events.skip(1)),
        }
    }
}

/// The varlink messages among the events.
pub open spec fn messages_in(events: Seq<WsEvent>) -> Seq<Seq<u8>>
    decreases events.len(),
{
    if events.len() == 0 {
        seq![]
    } else {
        match events[0] {
            WsEvent::Varlink(data) => seq![data@] + messages_in(events.skip(1)),
            _ => messages_in(events.skip(1)),
        }
    }
}

/// Whether one of the frames asks for an upgrade.
pub open spec fn some_asks_for_upgrade(frames: Seq<Seq<u8>>) -> bool {
    exists|i: int| 0 <= i < frames.len() && asks_for_upgrade(#[trigger] frames[i])
}

proof fn first_or_rest_asks(frame: Seq<u8>, rest: Seq<Seq<u8>>)
    ensures
        some_asks_for_upgrade(seq![frame] + rest) <==> asks_for_upgrade(frame)
            || some_asks_for_upgrade(rest),
{
    let all = seq![frame] + rest;
    if some_asks_for_upgrade(all) {
        let i = choose|i: int| 0 <= i < all.len() && asks_for_upgrade(#[trigger] all[i]);
        if i > 0 {
            assert(rest[i - 1] == all[i]);
        }
    }
    if asks_for_upgrade(frame) {
        assert(all[0] == frame);
    }
    if some_asks_for_upgrade(rest) {
        let i = choose|i: int| 0 <= i < rest.len() && asks_for_upgrade(#[trigger] rest[i]);
        assert(all[i + 1] == rest[i]);
    }
}

/// While the connection lasts, every frame reaches the varlink socket and every
/// message the WebSocket, as it is and in order. An upgrade is for good: the
/// connection is upgraded once any frame has asked for it, and stays so.
pub proof fn everything_reaches_the_other_side(upgraded: bool, events: Seq<WsEvent>)
    requires
        forall|i: int| 0 <= i < events.len() ==> !ends(#[trigger] events[i]),
    ensures
        forwarded(upgraded, events).written == frames_in(events),
        forwarded(upgraded, events).sent == messages_in(events),
        forwarded(upgraded, events).upgraded <==> upgraded || some_asks_for_upgrade(
            frames_in(events),
        ),
    decreases events.len(),
{
    if events.len() > 0 {
        let rest = events.skip(1);
        assert forall|i: int| 0 <= i < rest.len() implies !ends(#[trigger] rest[i]) by {
            assert(rest[i] == events[i + 1]);
        }
        everything_reaches_the_other_side(step(upgraded, events[0]).0, rest);
        match events[0] {
            WsEvent::Binary(data) => first_or_rest_asks(data@, frames_in(rest)),
            WsEvent::Text(text) => first_or_rest_asks(encode_utf8(text@), frames_in(rest)),
            _ => {},
        }
    }
}

/// Nothing is forwarded after the connection has ended.
pub proof fn nothing_follows_the_end(
    upgraded: bool,
    events: Seq<WsEvent>,
    end: WsEvent,
    more: Seq<WsEvent>,
)
    requires
        ends(end),
    ensures
        forwarded(upgraded, events.push(end) + more) == forwarded(upgraded, events),
    decreases events.len(),
{
    let all = events.push(end) + more;
    if events.len() > 0 {
        assert(all[0] == events[0]);
        assert(all.skip(1) == events.skip(1).push(end) + more);
        nothing_follows_the_end(step(upgraded, events[0]).0, events.skip(1), end, more);
    } else {
        assert(all[0] == end);
    }
}

/// An event is answered by its kind alone: a frame is written and a message is sent byte
/// for byte, whatever they hold, a control frame is passed over, and only a close frame, a
/// connection that is gone and a failure end the connection.
pub proof fn events_are_answered_by_their_kind(upgraded: bool, event: WsEvent)
    ensures
        event matches WsEvent::Binary(data) ==> step(upgraded, event).1 == ActionView::Write(data@),
        event matches WsEvent::Text(text) ==> step(upgraded, event).1 == ActionView::Write(
            encode_utf8(text@),
        ),
        event matches WsEvent::Varlink(data) ==> step(upgraded, event).1 == ActionView::Send(data@),
        event is Other <==> step(upgraded, event).1 is Wait,
        event is Close || event is Disconnected || event is Failed <==> step(
            upgraded,
            event,
        ).1 is Stop,
        ends(event) <==> event is Close || event is Disconnected || event is Failed,
{
}

/// A connection is upgraded by a frame that holds `true` under "upgrade" and by nothing
/// else, and stays upgraded. What is done on an event does not depend on that.
pub proof fn only_frames_upgrade(event: WsEvent)
    ensures
        step(true, event).0,
        step(true, event).1 == step(false, event).1,
        step(false, event).0 <==> match event {
            WsEvent::Binary(data) => asks_for_upgrade(data@),
            WsEvent::Text(text) => asks_for_upgrade(encode_utf8(text@)),
            _ => false,
        },
{
}

/// A call asks for an upgrade exactly when its JSON object holds `true` under "upgrade".
/// The NUL byte that ends a call does not count, and no more than one byte is left out.
pub proof fn upgrades_are_asked_for_in_json(data: Seq<u8>)
    ensures
        asks_for_upgrade(data.push(0)) <==> bool_field(data, "upgrade"@) == Some(Some(true)),
        data.len() == 0 || data.last() != 0 ==> (asks_for_upgrade(data) <==> bool_field(
            data,
            "upgrade"@,
        ) == Some(Some(true))),
        data.len() == 0 || data.last() != 0 ==> asks_for_upgrade(data) == asks_for_upgrade(
            data.push(0),
        ),
{
    assert(data.push(0).drop_last() == data);
}

/// What a message holds under "upgrade" asks for one only as the boolean `true`.
pub proof fn only_true_is_an_upgrade(found: Option<Option<bool>>)
    ensures
        is_upgrade(found) <==> (found matches Some(Some(value)) && value),
{
}

/// What is read from the varlink socket is sent as it is, as one frame; a socket that is
/// closed or failed sends nothing.
pub proof fn reads_are_sent_as_they_are(read: VarlinkRead, frame: Option<Vec<u8>>)
    requires
        call_ensures(frame_of, (read,), frame),
    ensures
        frame is Some <==> (read matches VarlinkRead::Data(data) && data@.len() > 0),
        frame matches Some(sent) ==> (read matches VarlinkRead::Data(data) && sent@ == data@),
{
}

/// Messages are read up to their NUL byte, until an upgrade; then bytes are read as they
/// come, up to 8192 at once.
pub proof fn messages_are_read_whole(bridge: &WsBridge, mode: ReadMode)
    requires
        call_ensures(WsBridge::read_mode, (bridge,), mode),
    ensures
        mode is UntilNul <==> !bridge.upgraded(),
        mode matches ReadMode::Raw(size) ==> size == 8192,
{
}

/// One more frame is one more write, of its bytes and behind all others, and one more
/// message is one more frame that is sent, as long as the connection lasts.
pub proof fn each_event_is_forwarded_once(upgraded: bool, events: Seq<WsEvent>, event: WsEvent)
    requires
        forall|i: int|
            0 <= i < events.len() ==> !((#[trigger] events[i]) is Close
                || events[i] is Disconnected || events[i] is Failed),
    ensures
        ({
            let before = forwarded(upgraded, events);
            let after = forwarded(upgraded, events.push(event));
            &&& event matches WsEvent::Binary(data) ==> after.written == before.written.push(data@)
                && after.sent == before.sent
            &&& event matches WsEvent::Text(text) ==> after.written == before.written.push(
                encode_utf8(text@),
            ) && after.sent == before.sent
            &&& event matches WsEvent::Varlink(data) ==> after.sent == before.sent.push(data@)
                && after.written == before.written && after.upgraded == before.upgraded
            &&& !(event is Binary || event is Text || event is Varlink) ==> after == before
        }),
    decreases events.len(),
{
    let all = events.push(event);
    if events.len() > 0 {
        let rest = events.skip(1);
        assert forall|i: int| 0 <= i < rest.len() implies !((#[trigger] rest[i]) is Close
            || rest[i] is Disconnected || rest[i] is Failed) by {
            assert(rest[i] == events[i + 1]);
        }
        assert(!(events[0] is Close || events[0] is Disconnected || events[0] is Failed));
        let then = step(upgraded, events[0]).0;
        each_event_is_forwarded_once(then, rest, event);
        assert(all[0] == events[0]);
        assert(all.skip(1) == rest.push(event));
        let before = forwarded(then, rest);
        assert forall|first: Seq<u8>, last: Seq<u8>, list: Seq<Seq<u8>>|
            #![trigger seq![first] + list.push(last)]
            seq![first] + list.push(last) == (seq![first] + list).push(last) by {
            assert(seq![first] + list.push(last) =~= (seq![first] + list).push(last));
        }
    } else {
        assert(all[0] == event);
        assert(all.skip(1) == Seq::<WsEvent>::empty());
        let then = step(upgraded, event).0;
        let none = forwarded(then, Seq::<WsEvent>::empty());
        assert(none.written == Seq::<Seq<u8>>::empty() && none.sent == Seq::<Seq<u8>>::empty());
        assert forall|item: Seq<u8>| #![trigger seq![item]]
            seq![item] + Seq::<Seq<u8>>::empty() == Seq::<Seq<u8>>::empty().push(item) by {
            assert(seq![item] + Seq::<Seq<u8>>::empty() =~= Seq::<Seq<u8>>::empty().push(item));
        }
    }
}

/// Every event that a connection takes is answered by its kind alone, byte for byte, and
/// only a frame that asks for it upgrades the connection, for good.
pub proof fn connections_answer_by_kind(bridge: &mut WsBridge, event: WsEvent, action: WsAction)
    requires
        call_ensures(WsBridge::handle_ws, (bridge, event), action),
    ensures
        event matches WsEvent::Binary(data) ==> (action matches WsAction::Write(written)
            && written@ == data@),
        event matches WsEvent::Text(text) ==> (action matches WsAction::Write(written) && written@
            == encode_utf8(text@)),
        event matches WsEvent::Varlink(data) ==> (action matches WsAction::Send(sent) && sent@
            == data@),
        action is Wait <==> event is Other,
        action is Stop <==> event is Close || event is Disconnected || event is Failed,
        final(bridge).upgraded() <==> old(bridge).upgraded() || match event {
            WsEvent::Binary(data) => asks_for_upgrade(data@),
            WsEvent::Text(text) => asks_for_upgrade(encode_utf8(text@)),
            _ => false,
        },
{
}

/// What was found under "upgrade" upgrades a connection only as the boolean `true`, and
/// nothing takes an upgrade back.
pub proof fn upgrades_are_for_good(bridge: &mut WsBridge, found: Option<Option<bool>>)
    requires
        call_ensures(WsBridge::note_upgrade, (bridge, found), ()),
    ensures
        final(bridge).upgraded() <==> old(bridge).upgraded() || (found matches Some(Some(value))
            && value),
{
}

} // verus!
