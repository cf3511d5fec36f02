use room_light::filter::Classification;
use room_light::filter::FilteredMessage;
use room_light::filter::MessageContent;
use room_light::filter::MessageLikeEvent;
use room_light::filter::OriginalRoomMessage;
use room_light::filter::RawEvent;
use room_light::filter::RoomMessageEvent;
use room_light::filter::classify;
use room_light::filter::filter_event;
use room_light::filter::first_text_message;

fn text_event(id: &str, body: &str) -> RawEvent {
    RawEvent::MessageLike(MessageLikeEvent::RoomMessage(RoomMessageEvent::Original(
        OriginalRoomMessage {
            event_id: id.to_string(),
            content: MessageContent::Text(body.to_string()),
        },
    )))
}

fn image_event(id: &str) -> RawEvent {
    RawEvent::MessageLike(MessageLikeEvent::RoomMessage(RoomMessageEvent::Original(
        OriginalRoomMessage { event_id: id.to_string(), content: MessageContent::OtherContent },
    )))
}

fn redacted_event() -> RawEvent {
    RawEvent::MessageLike(MessageLikeEvent::RoomMessage(RoomMessageEvent::Redacted))
}

fn reaction_event() -> RawEvent {
    RawEvent::MessageLike(MessageLikeEvent::OtherMessageLike)
}

#[test]
fn classify_rejects_state_entries() {
    assert_eq!(classify(RawEvent::State), Classification::StateEvent);
}

#[test]
fn classify_rejects_non_room_messages() {
    assert_eq!(classify(reaction_event()), Classification::NonTextMessage);
}

#[test]
fn classify_rejects_redacted_messages() {
    assert_eq!(classify(redacted_event()), Classification::RedactedMessage);
}

#[test]
fn classify_rejects_non_text_content() {
    assert_eq!(classify(image_event("e1")), Classification::NonTextMessage);
}

#[test]
fn classify_keeps_original_text_messages() {
    let c = classify(text_event("e1", "45"));
    let expected = FilteredMessage { event_id: "e1".to_string(), body: "45".to_string() };
    assert_eq!(c, Classification::OriginalTextMessage(expected));
}

#[test]
fn filter_event_keeps_only_text_messages() {
    assert_eq!(filter_event(RawEvent::State), None);
    assert_eq!(filter_event(reaction_event()), None);
    assert_eq!(filter_event(redacted_event()), None);
    assert_eq!(filter_event(image_event("e1")), None);
    let fm = filter_event(text_event("e2", "hi")).unwrap();
    assert_eq!(fm.event_id, "e2".to_string());
    assert_eq!(fm.body, "hi".to_string());
}

#[test]
fn first_text_message_takes_the_newest_text_message() {
    // most-recent-first: the image and the reaction are newer than the text
    let events = vec![
        image_event("e4"),
        reaction_event(),
        text_event("e2", "45"),
        text_event("e1", "old"),
    ];
    let fm = first_text_message(events).unwrap();
    assert_eq!(fm.event_id, "e2".to_string());
    assert_eq!(fm.body, "45".to_string());
}

#[test]
fn first_text_message_of_an_unfilterable_slice_is_nothing() {
    let events = vec![RawEvent::State, redacted_event(), image_event("e1")];
    assert_eq!(first_text_message(events), None);
    assert_eq!(first_text_message(vec![]), None);
}
