use room_light::cycle::poll_all_rooms;
use room_light::duration::Seconds;
use room_light::filter::MessageContent;
use room_light::filter::MessageLikeEvent;
use room_light::filter::OriginalRoomMessage;
use room_light::filter::RawEvent;
use room_light::filter::RoomMessageEvent;
use room_light::tracker::Room;
use room_light::tracker::TransportError;

fn text_event(id: &str, body: &str) -> RawEvent {
    RawEvent::MessageLike(MessageLikeEvent::RoomMessage(RoomMessageEvent::Original(
        OriginalRoomMessage {
            event_id: id.to_string(),
            content: MessageContent::Text(body.to_string()),
        },
    )))
}

fn baseline_room(id: &str, last: &str) -> Room {
    Room::new(id.to_string(), vec![text_event(last, "hello")])
}

#[test]
fn the_cycle_decision_is_the_largest_request() {
    let mut rooms = vec![
        baseline_room("a", "a1"),
        baseline_room("b", "b1"),
        baseline_room("c", "c1"),
    ];
    let fetches = vec![
        Ok(vec![text_event("a2", "20"), text_event("a1", "hello")]),
        Ok(vec![text_event("b2", "80"), text_event("b1", "hello")]),
        Ok(vec![text_event("c1", "hello")]),
    ];
    let decision = poll_all_rooms(&mut rooms, fetches);
    assert_eq!(decision, Some(Seconds::new(80)));
    assert_eq!(rooms[0].last_event_id, Some("a2".to_string()));
    assert_eq!(rooms[1].last_event_id, Some("b2".to_string()));
    assert_eq!(rooms[2].last_event_id, Some("c1".to_string()));
}

#[test]
fn one_failed_room_does_not_null_out_the_cycle() {
    let mut rooms = vec![baseline_room("a", "a1"), baseline_room("b", "b1")];
    let fetches = vec![
        Ok(vec![text_event("a2", "15"), text_event("a1", "hello")]),
        Err(TransportError { message: "gateway timeout".to_string() }),
    ];
    let decision = poll_all_rooms(&mut rooms, fetches);
    assert_eq!(decision, Some(Seconds::new(15)));
    // the failed room's tracker is untouched
    assert_eq!(rooms[1].last_event_id, Some("b1".to_string()));
}

#[test]
fn a_cycle_with_nothing_new_decides_nothing() {
    let mut rooms = vec![baseline_room("a", "a1"), baseline_room("b", "b1")];
    let fetches = vec![
        Ok(vec![text_event("a1", "hello")]),
        Ok(vec![text_event("b1", "hello")]),
    ];
    assert_eq!(poll_all_rooms(&mut rooms, fetches), None);
}

#[test]
fn a_cycle_over_no_rooms_decides_nothing() {
    let mut rooms: Vec<Room> = vec![];
    assert_eq!(poll_all_rooms(&mut rooms, vec![]), None);
}

#[test]
fn ties_between_rooms_resolve_to_the_tied_value() {
    let mut rooms = vec![baseline_room("a", "a1"), baseline_room("b", "b1")];
    let fetches = vec![
        Ok(vec![text_event("a2", "60"), text_event("a1", "hello")]),
        Ok(vec![text_event("b2", "60"), text_event("b1", "hello")]),
    ];
    assert_eq!(poll_all_rooms(&mut rooms, fetches), Some(Seconds::new(60)));
}
