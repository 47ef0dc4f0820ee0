use pdslib::events::simple_event::SimpleEvent;
use pdslib::events::traits::EventUris;

#[test]
fn test_simple_event() {
    let event = SimpleEvent {
        id: 1,
        epoch_number: 1,
        event_key: 3,
        uris: EventUris::mock(),
    };
    assert_eq!(event.id, 1);
}
