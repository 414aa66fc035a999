use luoxu_rs::document::{
    build_message, is_own_message, message_body, sender_avatar, IncomingMessage, MessageContent, MessageKind, Replacement,
    SenderProfile,
};
use luoxu_rs::ids::{AvatarError, KeyEventId, LuoxuAvatar};
use luoxu_rs::lifecycle::on_room_message;
use luoxu_rs::store::RoomTable;

fn content(kind: MessageKind, body: &str, is_reply: bool) -> MessageContent {
    MessageContent { kind, body: body.to_string(), is_reply }
}

fn message(sender: &str, kind: MessageKind, body: &str) -> IncomingMessage {
    IncomingMessage {
        event_id: "$orig1".to_string(),
        sender: sender.to_string(),
        room_id: "!room:example.org".to_string(),
        timestamp: 1000,
        content: content(kind, body, false),
        replacement: None,
        external_url: None,
    }
}

fn no_profile() -> SenderProfile {
    SenderProfile { display_name: None, avatar: None }
}

#[test]
fn image_caption_gets_tag() {
    let m = build_message(message("@a:x", MessageKind::Image, "cat.png"), "@bot:x", no_profile())
        .unwrap();
    assert_eq!(m.body, "[Image] cat.png");
}

#[test]
fn file_and_video_get_tags() {
    let f = message_body(content(MessageKind::File, "invoice.pdf", false)).unwrap();
    assert_eq!(f, "[File] invoice.pdf");
    let v = message_body(content(MessageKind::Video, "clip.mp4", false)).unwrap();
    assert_eq!(v, "[Video] clip.mp4");
}

#[test]
fn other_kind_is_skipped() {
    assert!(message_body(content(MessageKind::Other, "hi", false)).is_none());
    let r = build_message(message("@a:x", MessageKind::Other, "hi"), "@bot:x", no_profile());
    assert!(r.is_none());
}

#[test]
fn text_is_left_trimmed() {
    let b = message_body(content(MessageKind::Text, " \t\n hello  ", false)).unwrap();
    assert_eq!(b, "hello  ");
}

#[test]
fn reply_fallback_is_removed() {
    let body = "> <@alice:x> original\n> more\n\n  answer";
    let b = message_body(content(MessageKind::Text, body, true)).unwrap();
    assert_eq!(b, "answer");
    assert!(!b.starts_with("> "));
}

#[test]
fn reply_fallback_without_line_break_leaves_nothing() {
    let b = message_body(content(MessageKind::Text, "> only quote", true)).unwrap();
    assert_eq!(b, "");
}

#[test]
fn quote_kept_when_not_a_reply() {
    let b = message_body(content(MessageKind::Text, "> quoted\ntext", false)).unwrap();
    assert_eq!(b, "> quoted\ntext");
}

#[test]
fn own_message_is_not_built() {
    let r = build_message(message("@bot:x", MessageKind::Text, "hi"), "@bot:x", no_profile());
    assert!(r.is_none());
}

#[test]
fn own_message_writes_nothing() {
    let mut t = RoomTable::new();
    t.add_entry("!room:example.org", "idx", None);
    let r = on_room_message(&t, message("@bot:x", MessageKind::Text, "hi"), "@bot:x", no_profile());
    assert!(r.is_none());
}

#[test]
fn document_carries_event_fields() {
    let mut ev = message("@a:x", MessageKind::Text, "hello");
    ev.external_url = Some("https://example.org/post".to_string());
    let profile = SenderProfile {
        display_name: Some("Alice".to_string()),
        avatar: Some(LuoxuAvatar("https://hs/a".to_string())),
    };
    let m = build_message(ev, "@bot:x", profile).unwrap();
    assert_eq!(m.event_id, KeyEventId("orig1".to_string()));
    assert_eq!(m.body, "hello");
    assert_eq!(m.external_url.as_deref(), Some("https://example.org/post"));
    assert_eq!(m.user_id, "@a:x");
    assert_eq!(m.user_display_name.as_deref(), Some("Alice"));
    assert_eq!(m.user_avatar, Some(LuoxuAvatar("https://hs/a".to_string())));
    assert_eq!(m.timestamp, 1000);
    assert_eq!(m.room_id, "!room:example.org");
    assert!(m.ocr_body.is_none());
}

#[test]
fn edit_uses_original_event_key() {
    let mut first = message("@a:x", MessageKind::Text, "* fixed");
    first.event_id = "$edit1".to_string();
    first.replacement = Some(Replacement {
        event_id: "$orig1".to_string(),
        content: content(MessageKind::Text, "fixed", false),
    });
    let mut second = message("@a:x", MessageKind::Text, "* fixed again");
    second.event_id = "$edit2".to_string();
    second.replacement = Some(Replacement {
        event_id: "$orig1".to_string(),
        content: content(MessageKind::Text, "fixed again", false),
    });
    let a = build_message(first, "@bot:x", no_profile()).unwrap();
    let b = build_message(second, "@bot:x", no_profile()).unwrap();
    let o = build_message(message("@a:x", MessageKind::Text, "orig"), "@bot:x", no_profile())
        .unwrap();
    assert_eq!(a.event_id, KeyEventId("orig1".to_string()));
    assert_eq!(a.event_id, b.event_id);
    assert_eq!(a.event_id, o.event_id);
    assert_eq!(a.body, "fixed");
    assert_eq!(b.body, "fixed again");
}

#[test]
fn event_key_round_trip() {
    let k = KeyEventId::from_event_id("$abc:example.org").unwrap();
    assert_eq!(k, KeyEventId("abc:example.org".to_string()));
    assert_eq!(k.event_id(), "$abc:example.org");
    assert!(KeyEventId::from_event_id("abc").is_none());
    assert!(KeyEventId::from_event_id("").is_none());
}

#[test]
fn avatar_url_from_media_reference() {
    let a = LuoxuAvatar::new("mxc://example.org/abcDEF123", "https://matrix.example.org").unwrap();
    assert_eq!(
        a.into_string(),
        "https://matrix.example.org/_matrix/media/r0/download/example.org/abcDEF123"
    );
}

#[test]
fn avatar_with_bad_reference_fails() {
    let e = LuoxuAvatar::new("https://example.org/abc", "https://matrix.example.org");
    assert_eq!(e, Err(AvatarError::InvalidMediaUri));
}

#[test]
fn avatar_with_bad_homeserver_fails() {
    let e = LuoxuAvatar::from_parts("example.org", "abc", "not a url");
    assert_eq!(e, Err(AvatarError::InvalidUrl));
}

#[test]
fn overlong_media_reference_is_rejected() {
    let uri = format!("mxc://{}/abc", "a".repeat(300));
    let e = LuoxuAvatar::new(&uri, "https://matrix.example.org");
    assert_eq!(e, Err(AvatarError::InvalidMediaUri));
    // The slash at byte 251: still in time.
    let uri = format!("mxc://{}/abc", "a".repeat(245));
    let a = LuoxuAvatar::new(&uri, "https://matrix.example.org").unwrap();
    assert_eq!(
        a.into_string(),
        format!("https://matrix.example.org/_matrix/media/r0/download/{}/abc", "a".repeat(245))
    );
}

#[test]
fn media_reference_with_bad_media_id_is_rejected() {
    let e = LuoxuAvatar::new("mxc://example.org/ab$c", "https://matrix.example.org");
    assert_eq!(e, Err(AvatarError::InvalidMediaUri));
}

#[test]
fn sender_avatar_is_empty_when_unresolved() {
    assert!(sender_avatar(None, "https://matrix.example.org").is_none());
    assert!(sender_avatar(Some("https://x/y"), "https://matrix.example.org").is_none());
    assert!(sender_avatar(Some("mxc://example.org/abc"), "not a url").is_none());
    let a = sender_avatar(Some("mxc://example.org/abc"), "https://matrix.example.org").unwrap();
    assert_eq!(
        a.into_string(),
        "https://matrix.example.org/_matrix/media/r0/download/example.org/abc"
    );
}

#[test]
fn own_messages_are_recognised() {
    assert!(is_own_message("@bot:x", "@bot:x"));
    assert!(!is_own_message("@bot:y", "@bot:x"));
    assert!(!is_own_message("@bot:x2", "@bot:x"));
}

#[test]
fn text_trim_covers_unicode_white_space() {
    let b = message_body(content(MessageKind::Text, "\u{3000}\u{A0}\u{2009}x\u{3000}", false)).unwrap();
    assert_eq!(b, "x\u{3000}");
    let b = message_body(content(MessageKind::Text, "\u{200B}x", false)).unwrap();
    assert_eq!(b, "\u{200B}x");
}

#[test]
fn long_media_id_after_early_slash_resolves() {
    let media = "b".repeat(250);
    let uri = format!("mxc://example.org/{}", media);
    let a = LuoxuAvatar::new(&uri, "https://matrix.example.org").unwrap();
    assert_eq!(
        a.into_string(),
        format!("https://matrix.example.org/_matrix/media/r0/download/example.org/{}", media)
    );
}
