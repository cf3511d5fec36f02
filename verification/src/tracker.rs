//! Per-room tracking: which message was seen last, and what one poll over a
//! freshly fetched timeline slice yields.

use vstd::prelude::*;

use crate::duration::ParseError;
use crate::duration::Seconds;
use crate::duration::opt_value;
use crate::duration::parse_outcome;
use crate::filter::RawEvent;
use crate::filter::first_text;
use crate::filter::first_text_message;

verus! {

/// A failure of the external transport while fetching one room's timeline,
/// carried through unchanged. It concerns only the room whose fetch failed.
#[derive(Debug, PartialEq, Eq)]
pub struct TransportError {
    pub message: String,
}

/// One watched room: its identifier and the identifier of the last message
/// this tracker has observed. `None` stands for a room in which no
/// filterable message has been seen yet.
#[derive(Debug, PartialEq, Eq)]
pub struct Room {
    pub room_id: String,
    pub last_event_id: Option<String>,
}

/// The identifier a tracker remembers, as a sequence of characters.
pub open spec fn last_seen_view(last: Option<String>) -> Option<Seq<char>> {
    match last {
        Some(s) => Some(s@),
        None => None,
    }
}

/// The identifier of the newest filterable message in a fetched slice.
pub open spec fn observed_id(events: Seq<RawEvent>) -> Option<Seq<char>> {
    match first_text(events) {
        Some(fm) => Some(fm.event_id@),
        None => None,
    }
}

/// What a tracker remembers after polling over `events`: the newest
/// filterable message's identifier, or the old state when there is none.
/// The identifier advances even when the body fails to parse.
pub open spec fn next_last_seen(last: Option<Seq<char>>, events: Seq<RawEvent>) -> Option<
    Seq<char>,
> {
    match observed_id(events) {
        Some(id) => Some(id),
        None => last,
    }
}

/// The duration value one poll over `events` yields: the parsed body of the
/// newest filterable message, but nothing when there is no such message,
/// when its identifier was already seen, or when its body does not parse.
pub open spec fn poll_value(last: Option<Seq<char>>, events: Seq<RawEvent>) -> Option<int> {
    match first_text(events) {
        None => None,
        Some(fm) => if last == Some(fm.event_id@) {
            None
        } else {
            parse_outcome(fm.body@)
        },
    }
}

/// A tracker that observes the same most-recent message identifier it
/// already remembers yields nothing and keeps its state.
pub proof fn lemma_second_poll_of_same_message(last: Seq<char>, events: Seq<RawEvent>)
    requires
        observed_id(events) == Some(last),
    ensures
        poll_value(Some(last), events) is None,
        next_last_seen(Some(last), events) == Some(last),
{
}

/// A new message advances the tracker to its identifier even when its body
/// is not a command, and then yields nothing: an unparseable message is
/// still "seen", so it is never re-processed.
pub proof fn lemma_unparseable_new_message(
    last: Option<Seq<char>>,
    events: Seq<RawEvent>,
    fm: crate::filter::FilteredMessage,
)
    requires
        first_text(events) == Some(fm),
        last != Some(fm.event_id@),
        !crate::duration::is_command_text(fm.body@),
    ensures
        poll_value(last, events) is None,
        next_last_seen(last, events) == Some(fm.event_id@),
{
}

impl Room {
    /// Set up a tracker from the room's current timeline slice: the newest
    /// filterable message becomes the baseline and yields no outcome, so
    /// pre-existing history is never treated as new. A room with no
    /// filterable message starts without a baseline.
    pub fn new(room_id: String, recent_events: Vec<RawEvent>) -> (r: Room)
        ensures
            r.room_id@ == room_id@,
            last_seen_view(r.last_event_id) == observed_id(recent_events@),
    {
        let last_event_id = match first_text_message(recent_events) {
            Some(fm) => Some(fm.event_id),
            None => None,
        };
        Room { room_id, last_event_id }
    }

    /// One poll of this room over a fetched timeline slice. A transport
    /// failure is handed back unchanged and leaves the tracker as it was;
    /// otherwise the tracker advances to the newest filterable message and
    /// the outcome is that message's parsed body, with no outcome when
    /// there is no new message or the body is not a command.
    pub fn poll_room(&mut self, fetched: Result<Vec<RawEvent>, TransportError>) -> (r: Result<
        Option<Seconds>,
        TransportError,
    >)
        ensures
            final(self).room_id@ == old(self).room_id@,
            (r matches Err(_)) <==> (fetched matches Err(_)),
            fetched matches Err(e) ==> (r matches Err(e2) && e2 == e && *final(self) == *old(
                self,
            )),
            fetched matches Ok(events) ==> {
                &&& last_seen_view(final(self).last_event_id) == next_last_seen(
                    last_seen_view(old(self).last_event_id),
                    events@,
                )
                &&& r matches Ok(o) && opt_value(o) == poll_value(
                    last_seen_view(old(self).last_event_id),
                    events@,
                )
            },
    {
        match fetched {
            Err(e) => Err(e),
            Ok(events) => match first_text_message(events) {
                None => Ok(None),
                Some(fm) => {
                    let already_seen = match &self.last_event_id {
                        Some(prev) => prev.eq(&fm.event_id),
                        None => false,
                    };
                    if already_seen {
                        Ok(None)
                    } else {
                        self.last_event_id = Some(fm.event_id);
                        match Seconds::from_str(fm.body) {
                            Ok(s) => Ok(Some(s)),
                            Err(ParseError { text: _ }) => Ok(None),
                        }
                    }
                },
            },
        }
    }
}

} // verus!
