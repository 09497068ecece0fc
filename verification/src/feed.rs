//! What the clients get: the latest snapshot on request, and every snapshot over a WebSocket.
use vstd::prelude::*;

verus! {

/// The status of an answer that holds a snapshot.
pub const STATUS_OK: u16 = 200;

/// The status of an answer while there is no snapshot.
pub const STATUS_SERVICE_UNAVAILABLE: u16 = 503;

/// The latest snapshot, as it was sent.
pub struct Feed {
    latest: Option<String>,
}

/// An answer to a request.
pub struct Reply {
    pub status: u16,
    /// The type of the content, where it is not plain text.
    pub content_type: Option<&'static str>,
    pub body: String,
}

/// An answer as the client sees it.
pub struct ReplyView {
    pub status: u16,
    pub content_type: Option<Seq<char>>,
    pub body: Seq<char>,
}

impl View for Reply {
    type V = ReplyView;

    open spec fn view(&self) -> ReplyView {
        ReplyView {
            status: self.status,
            content_type: match self.content_type {
                Some(t) => Some(t@),
                None => None,
            },
            body: self.body@,
        }
    }
}

/// The answer to a request for the latest snapshot.
pub open spec fn snapshot_reply(latest: Option<Seq<char>>) -> ReplyView {
    match latest {
        Some(text) => ReplyView {
            status: STATUS_OK,
            content_type: Some("application/json"@),
            body: text,
        },
        None => ReplyView {
            status: STATUS_SERVICE_UNAVAILABLE,
            content_type: None,
            body: "no snapshot available yet"@,
        },
    }
}

/// What to do when a client connects.
pub open spec fn greeting(latest: Option<Seq<char>>) -> SocketActionView {
    match latest {
        Some(text) => SocketActionView::Send(text),
        None => SocketActionView::Wait,
    }
}

/// The latest snapshot after some were published, one after the other.
pub open spec fn latest_of(published: Seq<Seq<char>>) -> Option<Seq<char>> {
    if published.len() == 0 {
        None
    } else {
        Some(published.last())
    }
}

impl View for Feed {
    type V = Option<Seq<char>>;

    closed spec fn view(&self) -> Option<Seq<char>> {
        match self.latest {
            Some(text) => Some(text@),
            None => None,
        }
    }
}

impl Feed {
    /// No snapshot yet.
    pub fn new() -> (r: Feed)
        ensures
            r@ is None,
            r@ == latest_of(Seq::empty()),
    {
        Feed { latest: None }
    }

    /// Makes a snapshot the latest one, and gives back the text that goes to the clients that are
    /// connected.
    pub fn publish(&mut self, snapshot: String) -> (r: String)
        ensures
            final(self)@ == Some(snapshot@),
            forall|earlier: Seq<Seq<char>>| #[trigger]
                latest_of(earlier) == old(self)@ ==> final(self)@ == latest_of(
                    earlier.push(snapshot@),
                ),
            r@ == snapshot@,
    {
        self.latest = Some(snapshot.clone());
        snapshot
    }

    /// The answer to a request for the latest snapshot.
    pub fn snapshot(&self) -> (r: Reply)
        ensures
            r@ == snapshot_reply(self@),
            self@ matches Some(text) ==> {
                &&& r.status == 200
                &&& r.content_type is Some
                &&& r.content_type->0@ == "application/json"@
                &&& r.body@ == text
            },
            self@ is None ==> {
                &&& r.status == 503
                &&& r.content_type is None
                &&& r.body@ == "no snapshot available yet"@
            },
    {
        match &self.latest {
            Some(text) => Reply {
                status: STATUS_OK,
                content_type: Some("application/json"),
                body: text.clone(),
            },
            None => Reply {
                status: STATUS_SERVICE_UNAVAILABLE,
                content_type: None,
                body: "no snapshot available yet".to_owned(),
            },
        }
    }

    /// What to do when a client connects: it gets the latest snapshot at once, if there is one.
    pub fn on_connect(&self) -> (r: SocketAction)
        ensures
            r@ == greeting(self@),
            match self@ {
                Some(text) => r matches SocketAction::Send(sent) && sent@ == text,
                None => r is Wait,
            },
    {
        match &self.latest {
            Some(text) => SocketAction::Send(text.clone()),
            None => SocketAction::Wait,
        }
    }
}

/// What happens on a client's connection.
pub enum SocketEvent {
    /// A snapshot was published.
    Published(String),
    /// Nothing more comes from the feed, or the client has fallen too far behind it.
    FeedEnded,
    /// A text was sent to the client.
    Sent,
    /// A text could not be sent to the client.
    SendFailed,
    /// The client sent a message that does not close the connection.
    ClientMessage,
    /// The client closed the connection.
    ClientClosed,
    /// Reading from the client failed.
    ClientFailed,
}

/// What to do on a client's connection.
pub enum SocketAction {
    Send(String),
    Wait,
    Close,
}

/// What to do on a client's connection, with the text by its characters.
pub enum SocketActionView {
    Send(Seq<char>),
    Wait,
    Close,
}

impl View for SocketAction {
    type V = SocketActionView;

    open spec fn view(&self) -> SocketActionView {
        match self {
            SocketAction::Send(text) => SocketActionView::Send(text@),
            SocketAction::Wait => SocketActionView::Wait,
            SocketAction::Close => SocketActionView::Close,
        }
    }
}

/// What to do about an event.
pub open spec fn response_to(event: SocketEvent) -> SocketActionView {
    match event {
        SocketEvent::Published(text) => SocketActionView::Send(text@),
        SocketEvent::Sent | SocketEvent::ClientMessage => SocketActionView::Wait,
        _ => SocketActionView::Close,
    }
}

/// What to do about an event: a snapshot that is published goes to the client, what the client
/// says is ignored, and anything that ends one of the two directions ends the connection.
pub fn on_socket_event(event: SocketEvent) -> (r: SocketAction)
    ensures
        r@ == response_to(event),
        event matches SocketEvent::Published(text) ==> (r matches SocketAction::Send(sent) && sent@
            == text@),
        event is Sent || event is ClientMessage ==> r is Wait,
        event is FeedEnded || event is SendFailed || event is ClientClosed || event is ClientFailed
            ==> r is Close,
{
    match event {
        SocketEvent::Published(text) => SocketAction::Send(text),
        SocketEvent::Sent | SocketEvent::ClientMessage => SocketAction::Wait,
        SocketEvent::FeedEnded
        | SocketEvent::SendFailed
        | SocketEvent::ClientClosed
        | SocketEvent::ClientFailed => SocketAction::Close,
    }
}

/// After any snapshots were published, a request is answered with the newest of them, and a
/// client that connects gets that same text at once. Before the first one a request is told that
/// the service is unavailable, and a client that connects gets nothing yet.
pub proof fn clients_get_the_newest_snapshot(published: Seq<Seq<char>>)
    ensures
        published.len() > 0 ==> {
            &&& snapshot_reply(latest_of(published)).status == STATUS_OK
            &&& snapshot_reply(latest_of(published)).body == published.last()
            &&& greeting(latest_of(published)) == SocketActionView::Send(published.last())
        },
        published.len() == 0 ==> {
            &&& snapshot_reply(latest_of(published)).status == STATUS_SERVICE_UNAVAILABLE
            &&& greeting(latest_of(published)) == SocketActionView::Wait
        },
{
}

/// Whether an event ends a connection.
pub open spec fn ends(event: SocketEvent) -> bool {
    event is FeedEnded || event is SendFailed || event is ClientClosed || event is ClientFailed
}

/// The texts that are sent on a connection in response to a list of events, until one of them
/// closes it.
pub open spec fn responses(events: Seq<SocketEvent>) -> Seq<Seq<char>>
    decreases events.len(),
{
    if events.len() == 0 {
        Seq::empty()
    } else {
        match response_to(events[0]) {
            SocketActionView::Send(text) => seq![text] + responses(events.drop_first()),
            SocketActionView::Wait => responses(events.drop_first()),
            SocketActionView::Close => Seq::empty(),
        }
    }
}

/// The texts that are sent on a connection as a whole: the greeting, if there is one, and the
/// responses to the events after it.
pub open spec fn session_texts(latest: Option<Seq<char>>, events: Seq<SocketEvent>) -> Seq<
    Seq<char>,
> {
    match greeting(latest) {
        SocketActionView::Send(text) => seq![text] + responses(events),
        _ => responses(events),
    }
}

/// The snapshots that are published among a list of events, in their order.
pub open spec fn published_in(events: Seq<SocketEvent>) -> Seq<Seq<char>>
    decreases events.len(),
{
    if events.len() == 0 {
        Seq::empty()
    } else {
        match events[0] {
            SocketEvent::Published(text) => seq![text@] + published_in(events.drop_first()),
            _ => published_in(events.drop_first()),
        }
    }
}

/// A client that connects after some snapshots were published gets the newest of them first, and
/// then every snapshot that is published while it is connected, in order. Nothing is sent after
/// the event that ends the connection, which is the one with index `n`, if any ends it.
pub proof fn session_sends_the_newest_and_then_every_snapshot(
    before: Seq<Seq<char>>,
    events: Seq<SocketEvent>,
    n: int,
)
    requires
        0 <= n <= events.len(),
        forall|i: int| 0 <= i < n ==> !ends(#[trigger] events[i]),
        n < events.len() ==> ends(events[n]),
    ensures
        session_texts(latest_of(before), events) == (if before.len() > 0 {
            seq![before.last()]
        } else {
            Seq::empty()
        }) + published_in(events.take(n)),
{
    responses_are_the_published(events, n);
}

proof fn responses_are_the_published(events: Seq<SocketEvent>, n: int)
    requires
        0 <= n <= events.len(),
        forall|i: int| 0 <= i < n ==> !ends(#[trigger] events[i]),
        n < events.len() ==> ends(events[n]),
    ensures
        responses(events) == published_in(events.take(n)),
    decreases n,
{
    if n > 0 {
        let rest = events.drop_first();
        assert(!ends(events[0]));
        assert forall|i: int| 0 <= i < n - 1 implies !ends(#[trigger] rest[i]) by {
            assert(rest[i] == events[i + 1]);
        }
        responses_are_the_published(rest, n - 1);
        assert(events.take(n).drop_first() =~= rest.take(n - 1));
    }
}

/// A snapshot that was published is sent as JSON, word for word, with status 200. Before the first
/// one the answer is a short text with status 503.
pub proof fn answers_say_what_they_hold(text: Seq<char>)
    ensures
        snapshot_reply(Some(text)).status == 200,
        snapshot_reply(Some(text)).content_type == Some("application/json"@),
        snapshot_reply(Some(text)).body == text,
        snapshot_reply(None).status == 503,
        snapshot_reply(None).content_type is None,
        snapshot_reply(None).body == "no snapshot available yet"@,
{
}

/// On a connection a published snapshot is sent word for word. Nothing is done about a text that
/// was sent or about what the client says, and whatever ends either direction closes the
/// connection.
pub proof fn events_are_answered_by_their_kind(event: SocketEvent)
    ensures
        event matches SocketEvent::Published(text) ==> response_to(event) == SocketActionView::Send(
            text@,
        ),
        event is Sent || event is ClientMessage ==> response_to(event) == SocketActionView::Wait,
        event is FeedEnded || event is SendFailed || event is ClientClosed || event is ClientFailed
            ==> response_to(event) == SocketActionView::Close,
{
}

} // verus!
