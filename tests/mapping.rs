use luoxu_rs::lifecycle::{on_room_message, on_room_name, on_room_tombstone, LifecycleError};
use luoxu_rs::document::{IncomingMessage, MessageContent, MessageKind, SenderProfile};
use luoxu_rs::store::{MappingError, RoomTable};

#[test]
fn move_entry_copies_both_fields() {
    let mut t = RoomTable::new();
    t.add_entry("!a:x", "idx-a", Some("Room A"));
    assert_eq!(t.move_entry("!a:x", "!b:x"), Ok(()));
    assert_eq!(t.get_index("!b:x").as_deref(), Some("idx-a"));
    assert_eq!(t.get_name("!b:x").as_deref(), Some("Room A"));
}

#[test]
fn move_entry_from_missing_room_fails() {
    let mut t = RoomTable::new();
    assert_eq!(t.move_entry("!a:x", "!b:x"), Err(MappingError::SourceMissing));
    assert!(t.get_index("!b:x").is_none());
    t.update_entry("!a:x", Some("idx"), None);
    assert_eq!(t.move_entry("!a:x", "!b:x"), Err(MappingError::SourceMissing));
    assert!(t.get_index("!b:x").is_none());
}

#[test]
fn partial_updates_keep_the_other_field() {
    let mut t = RoomTable::new();
    t.update_entry("!r:x", Some("i"), None);
    t.update_entry("!r:x", None, Some("x"));
    assert_eq!(t.get_index("!r:x").as_deref(), Some("i"));
    assert_eq!(t.get_name("!r:x").as_deref(), Some("x"));
    t.update_entry("!r:x", Some("j"), None);
    assert_eq!(t.get_name("!r:x").as_deref(), Some("x"));
}

#[test]
fn add_entry_defaults_name_to_room_id() {
    let mut t = RoomTable::new();
    t.add_entry("!r:x", "i", None);
    assert_eq!(t.get_name("!r:x").as_deref(), Some("!r:x"));
    assert!(t.get_index("!other:x").is_none());
}

#[test]
fn rooms_are_listed() {
    let mut t = RoomTable::new();
    t.add_entry("!a:x", "ia", Some("A"));
    t.update_entry("!b:x", None, Some("B only"));
    t.add_entry("!c:x", "ic", None);
    let rooms = t.get_rooms();
    assert_eq!(rooms.len(), 2);
    assert_eq!(rooms[0].index_name, "ia");
    assert_eq!(rooms[0].room_name.as_deref(), Some("A"));
    assert_eq!(rooms[1].index_name, "ic");
    assert_eq!(rooms[1].room_name.as_deref(), Some("!c:x"));
}

#[test]
fn rename_changes_only_the_name() {
    let mut t = RoomTable::new();
    t.add_entry("!r:x", "i", Some("old"));
    on_room_name(&mut t, "!r:x", Some("new"));
    on_room_name(&mut t, "!r:x", Some("new"));
    assert_eq!(t.get_name("!r:x").as_deref(), Some("new"));
    assert_eq!(t.get_index("!r:x").as_deref(), Some("i"));
}

fn message_in(room: &str) -> IncomingMessage {
    IncomingMessage {
        event_id: "$e1".to_string(),
        sender: "@a:x".to_string(),
        room_id: room.to_string(),
        timestamp: 5,
        content: MessageContent { kind: MessageKind::Text, body: "hi".to_string(), is_reply: false },
        replacement: None,
        external_url: None,
    }
}

fn no_profile() -> SenderProfile {
    SenderProfile { display_name: None, avatar: None }
}

#[test]
fn tombstone_moves_mapping_to_successor() {
    let mut t = RoomTable::new();
    t.add_entry("!r1:x", "idx1", Some("Old room"));
    assert_eq!(on_room_tombstone(&mut t, "!r1:x", "!r2:x", true), Ok(()));
    let w = on_room_message(&t, message_in("!r2:x"), "@bot:x", no_profile()).unwrap();
    assert_eq!(w.index, "idx1");
    assert_eq!(w.message.room_id, "!r2:x");
}

#[test]
fn tombstone_without_join_changes_nothing() {
    let mut t = RoomTable::new();
    t.add_entry("!r1:x", "idx1", None);
    assert_eq!(on_room_tombstone(&mut t, "!r1:x", "!r2:x", false), Err(LifecycleError::JoinFailed));
    assert!(t.get_index("!r2:x").is_none());
}

#[test]
fn tombstone_of_unmapped_room_fails() {
    let mut t = RoomTable::new();
    assert_eq!(
        on_room_tombstone(&mut t, "!r1:x", "!r2:x", true),
        Err(LifecycleError::Mapping(MappingError::SourceMissing))
    );
}

#[test]
fn message_in_unmapped_room_is_dropped() {
    let t = RoomTable::new();
    assert!(on_room_message(&t, message_in("!r:x"), "@bot:x", no_profile()).is_none());
}

#[test]
fn each_room_is_listed_once() {
    let mut t = RoomTable::new();
    t.add_entry("!a:x", "ia", Some("A"));
    t.update_entry("!a:x", Some("ia2"), None);
    t.update_entry("!a:x", None, Some("A2"));
    t.add_entry("!b:x", "ib", None);
    assert_eq!(t.move_entry("!a:x", "!b:x"), Ok(()));
    let rooms = t.get_rooms();
    assert_eq!(rooms.len(), 2);
    assert_eq!(rooms[0].index_name, "ia2");
    assert_eq!(rooms[0].room_name.as_deref(), Some("A2"));
    assert_eq!(rooms[1].index_name, "ia2");
    assert_eq!(rooms[1].room_name.as_deref(), Some("A2"));
}

#[test]
fn rooms_are_listed_by_room_id() {
    let mut t = RoomTable::new();
    t.add_entry("!zeta:x", "iz", None);
    t.add_entry("!alpha:x", "ia", None);
    t.add_entry("!\u{e9}t\u{e9}:x", "ie", None);
    t.add_entry("!mid:x", "im", None);
    let names: Vec<String> = t.get_rooms().into_iter().map(|r| r.index_name).collect();
    assert_eq!(names, vec!["ia", "im", "iz", "ie"]);
}
