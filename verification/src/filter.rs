//! The message filter: narrowing one raw timeline entry down to an original,
//! non-redacted, plain-text room message, and finding the newest such message
//! in a fetched timeline slice.

use vstd::prelude::*;

verus! {

/// One entry of a room's timeline as the transport hands it over, reduced to
/// the parts this library reads. An entry the transport could not decode at
/// all is handed over as `State`, so it is skipped exactly like room
/// state or metadata.
#[derive(Debug, PartialEq, Eq)]
pub enum RawEvent {
    /// Room state, metadata, or an undecodable entry.
    State,
    /// A message-like entry.
    MessageLike(MessageLikeEvent),
}

/// A message-like timeline entry.
#[derive(Debug, PartialEq, Eq)]
pub enum MessageLikeEvent {
    /// A room message.
    RoomMessage(RoomMessageEvent),
    /// Some other message-like entry: a reaction, a call event, and so on.
    OtherMessageLike,
}

/// A room message, which may have been redacted.
#[derive(Debug, PartialEq, Eq)]
pub enum RoomMessageEvent {
    /// An original, non-redacted room message.
    Original(OriginalRoomMessage),
    /// A message whose content was retracted by protocol action.
    Redacted,
}

/// An original room message: its identifier and its content.
#[derive(Debug, PartialEq, Eq)]
pub struct OriginalRoomMessage {
    pub event_id: String,
    pub content: MessageContent,
}

/// The content of an original room message.
#[derive(Debug, PartialEq, Eq)]
pub enum MessageContent {
    /// Plain text, with its body.
    Text(String),
    /// Any non-text content: an image, a file, a notice, and so on.
    OtherContent,
}

/// Why one timeline entry was kept or rejected: the result of running the
/// whole filter over it. Each rejection reason is its own variant.
#[derive(Debug, PartialEq, Eq)]
pub enum Classification {
    /// Not a message-like entry at all.
    StateEvent,
    /// A room message whose content was redacted.
    RedactedMessage,
    /// Message-like, but either not a room message or not plain text.
    NonTextMessage,
    /// An original, non-redacted, plain-text room message.
    OriginalTextMessage(FilteredMessage),
}

/// The successful result of the filter: the message's identifier and its
/// plain-text body.
#[derive(Debug, PartialEq, Eq)]
pub struct FilteredMessage {
    pub event_id: String,
    pub body: String,
}

/// What [`classify`] returns on each entry.
pub open spec fn classification_of(e: RawEvent) -> Classification {
    match e {
        RawEvent::State => Classification::StateEvent,
        RawEvent::MessageLike(MessageLikeEvent::OtherMessageLike) => Classification::NonTextMessage,
        RawEvent::MessageLike(MessageLikeEvent::RoomMessage(RoomMessageEvent::Redacted)) => Classification::RedactedMessage,
        RawEvent::MessageLike(MessageLikeEvent::RoomMessage(RoomMessageEvent::Original(m))) => match m.content {
            MessageContent::Text(body) => Classification::OriginalTextMessage(
                FilteredMessage { event_id: m.event_id, body },
            ),
            MessageContent::OtherContent => Classification::NonTextMessage,
        },
    }
}

/// The filtered view of one entry: its identifier and body when it is an
/// original plain-text room message, nothing otherwise.
pub open spec fn filtered(e: RawEvent) -> Option<FilteredMessage> {
    match classification_of(e) {
        Classification::OriginalTextMessage(fm) => Some(fm),
        _ => None,
    }
}

/// Run the whole filter over one timeline entry, making the rejection
/// reason explicit.
pub fn classify(event: RawEvent) -> (c: Classification)
    ensures
        c == classification_of(event),
{
    match event {
        RawEvent::State => Classification::StateEvent,
        RawEvent::MessageLike(MessageLikeEvent::OtherMessageLike) => Classification::NonTextMessage,
        RawEvent::MessageLike(MessageLikeEvent::RoomMessage(RoomMessageEvent::Redacted)) => Classification::RedactedMessage,
        RawEvent::MessageLike(MessageLikeEvent::RoomMessage(RoomMessageEvent::Original(m))) => match m.content {
            MessageContent::Text(body) => Classification::OriginalTextMessage(
                FilteredMessage { event_id: m.event_id, body },
            ),
            MessageContent::OtherContent => Classification::NonTextMessage,
        },
    }
}

/// Keep one timeline entry only if it is an original plain-text room message.
pub fn filter_event(event: RawEvent) -> (r: Option<FilteredMessage>)
    ensures
        r == filtered(event),
{
    match classify(event) {
        Classification::OriginalTextMessage(fm) => Some(fm),
        _ => None,
    }
}

/// The newest message that passes the filter, in a timeline slice ordered
/// most-recent-first: the first entry on which the filter succeeds.
pub open spec fn first_text(events: Seq<RawEvent>) -> Option<FilteredMessage>
    decreases events.len(),
{
    if events.len() == 0 {
        None
    } else if filtered(events[0]) is Some {
        filtered(events[0])
    } else {
        first_text(events.drop_first())
    }
}

/// Skipping entries on which the filter fails does not change which message
/// is found.
proof fn lemma_first_text_skip(events: Seq<RawEvent>, i: int)
    requires
        0 <= i <= events.len(),
        forall|j: int| 0 <= j < i ==> filtered(#[trigger] events[j]) is None,
    ensures
        first_text(events) == first_text(events.skip(i)),
    decreases i,
{
    if i > 0 {
        assert(events.skip(0) =~= events);
        lemma_first_text_skip(events.drop_first(), i - 1);
        assert(events.drop_first().skip(i - 1) =~= events.skip(i));
    } else {
        assert(events.skip(0) =~= events);
    }
}

/// The position of the newest filterable message in `events`.
fn first_text_index(events: &Vec<RawEvent>) -> (r: Option<usize>)
    ensures
        match r {
            Some(i) => i < events@.len() && first_text(events@) == filtered(events@[i as int])
                && filtered(events@[i as int]) is Some,
            None => first_text(events@) is None,
        },
{
    let mut i: usize = 0;
    while i < events.len()
        invariant
            i <= events@.len(),
            forall|j: int| 0 <= j < i ==> filtered(#[trigger] events@[j]) is None,
        decreases events@.len() - i,
    {
        let found = match &events[i] {
            RawEvent::MessageLike(MessageLikeEvent::RoomMessage(RoomMessageEvent::Original(m))) => match &m.content {
                MessageContent::Text(_) => true,
                MessageContent::OtherContent => false,
            },
            _ => false,
        };
        if found {
            proof {
                lemma_first_text_skip(events@, i as int);
                assert(events@.skip(i as int)[0] == events@[i as int]);
            }
            return Some(i);
        }
        i = i + 1;
    }
    proof {
        lemma_first_text_skip(events@, events@.len() as int);
        assert(events@.skip(events@.len() as int) =~= Seq::<RawEvent>::empty());
    }
    None
}

/// Scan a fetched timeline slice, ordered most-recent-first, and hand back
/// the newest original plain-text room message, if there is one.
pub fn first_text_message(events: Vec<RawEvent>) -> (r: Option<FilteredMessage>)
    ensures
        r == first_text(events@),
{
    match first_text_index(&events) {
        None => None,
        Some(i) => {
            let mut evs = events;
            let e = evs.remove(i);
            filter_event(e)
        },
    }
}

} // verus!
