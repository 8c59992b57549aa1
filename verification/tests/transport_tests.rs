use waigaya_core::transport::{
    EventClass, ImageData, InboundFrame, SlackEvent, SlackReactionItem, SocketModeMessage,
    SocketModePayload, build_message_event, build_reaction_event, classify_event,
    thread_parent_needed, transport_step,
};

fn bare_event() -> SlackEvent {
    SlackEvent {
        event_type: None,
        channel: None,
        user: None,
        text: None,
        ts: None,
        thread_ts: None,
        files: None,
        reaction: None,
        item: None,
    }
}

fn envelope(msg_type: &str, envelope_id: Option<&str>, event: Option<SlackEvent>) -> InboundFrame {
    InboundFrame::Envelope(SocketModeMessage {
        msg_type: Some(msg_type.to_string()),
        envelope_id: envelope_id.map(|s| s.to_string()),
        payload: Some(SocketModePayload { event }),
    })
}

#[test]
fn ping_is_answered_with_its_payload() {
    let d = transport_step(InboundFrame::Ping(vec![1, 2, 3]));
    assert_eq!(d.pong, Some(vec![1, 2, 3]));
    assert_eq!(d.ack, None);
    assert!(!d.exit);
}

#[test]
fn close_error_and_end_leave_the_loop() {
    assert!(transport_step(InboundFrame::Close).exit);
    assert!(transport_step(InboundFrame::ReadError).exit);
    assert!(transport_step(InboundFrame::Ended).exit);
    assert!(!transport_step(InboundFrame::Undecodable).exit);
    assert!(!transport_step(InboundFrame::Other).exit);
}

#[test]
fn envelopes_are_acknowledged_even_off_the_events_feed() {
    let d = transport_step(envelope("hello", Some("env-1"), None));
    assert_eq!(d.ack, Some("env-1".to_string()));
    assert!(d.event.is_none());
    assert!(!d.exit);
}

#[test]
fn only_events_feed_envelopes_yield_events() {
    let mut event = bare_event();
    event.event_type = Some("message".to_string());
    let d = transport_step(envelope("events_api", Some("env-2"), Some(event)));
    assert_eq!(d.ack, Some("env-2".to_string()));
    assert!(d.event.is_some());

    let mut event = bare_event();
    event.event_type = Some("message".to_string());
    let d = transport_step(envelope("slash_commands", Some("env-3"), Some(event)));
    assert!(d.event.is_none());
}

#[test]
fn reaction_events_classify_with_their_target() {
    let mut event = bare_event();
    event.event_type = Some("reaction_added".to_string());
    event.user = Some("U1".to_string());
    event.reaction = Some("tada".to_string());
    event.item = Some(SlackReactionItem {
        channel: Some("C1".to_string()),
        ts: Some("123.456".to_string()),
    });
    match classify_event(event) {
        EventClass::Reaction { added, channel, reaction, user_id, message_ts } => {
            assert!(added);
            assert_eq!(channel, "C1");
            assert_eq!(reaction, "tada");
            assert_eq!(user_id, "U1");
            assert_eq!(message_ts, "123.456");
        },
        _ => panic!("expected a reaction"),
    }
}

#[test]
fn reaction_without_target_channel_is_ignored() {
    let mut event = bare_event();
    event.event_type = Some("reaction_removed".to_string());
    event.item = Some(SlackReactionItem { channel: None, ts: None });
    assert!(matches!(classify_event(event), EventClass::Ignored));
}

#[test]
fn message_events_classify_with_their_fields() {
    let mut event = bare_event();
    event.event_type = Some("message".to_string());
    event.channel = Some("C2".to_string());
    event.user = Some("U2".to_string());
    event.text = Some("hello".to_string());
    event.ts = Some("1.2".to_string());
    event.thread_ts = Some("1.1".to_string());
    match classify_event(event) {
        EventClass::ChannelMessage { channel, user_id, text, ts, thread_ts, files } => {
            assert_eq!(channel, "C2");
            assert_eq!(user_id, "U2");
            assert_eq!(text, "hello");
            assert_eq!(ts, Some("1.2".to_string()));
            assert_eq!(thread_ts, Some("1.1".to_string()));
            assert!(files.is_empty());
        },
        _ => panic!("expected a message"),
    }
}

#[test]
fn unrelated_events_are_ignored() {
    let mut event = bare_event();
    event.event_type = Some("member_joined_channel".to_string());
    event.channel = Some("C1".to_string());
    assert!(matches!(classify_event(event), EventClass::Ignored));
}

#[test]
fn thread_parent_lookup_only_for_real_replies() {
    let thread = Some("1.1".to_string());
    let own_same = Some("1.1".to_string());
    let own_other = Some("1.2".to_string());
    assert!(!thread_parent_needed(&thread, &own_same));
    assert!(thread_parent_needed(&thread, &own_other));
    assert!(thread_parent_needed(&thread, &None));
    assert!(!thread_parent_needed(&None, &own_other));
}

#[test]
fn empty_message_without_images_is_suppressed() {
    let r = build_message_event(
        String::new(),
        "Ann".to_string(),
        String::new(),
        "C1".to_string(),
        Some("1.2".to_string()),
        None,
        None,
        None,
        Vec::new(),
    );
    assert!(r.is_none());
}

#[test]
fn image_only_message_is_emitted() {
    let images = vec![ImageData {
        data_url: "data:image/png;base64,AQID".to_string(),
        name: Some("pic.png".to_string()),
    }];
    let m = build_message_event(
        String::new(),
        "Ann".to_string(),
        String::new(),
        "C1".to_string(),
        None,
        None,
        None,
        None,
        images,
    ).unwrap();
    assert_eq!(m.text, "");
    assert_eq!(m.images.as_ref().unwrap().len(), 1);
    assert_eq!(m.queue_action, Some("addToQueue".to_string()));
    assert_eq!(m.channel, Some("C1".to_string()));
}

#[test]
fn text_message_without_images_carries_no_image_list() {
    let m = build_message_event(
        "hello".to_string(),
        "Ann".to_string(),
        "https://avatar.test/72.png".to_string(),
        "C1".to_string(),
        Some("1.2".to_string()),
        Some("1.1".to_string()),
        Some("Bob".to_string()),
        Some("parent text".to_string()),
        Vec::new(),
    ).unwrap();
    assert!(m.images.is_none());
    assert_eq!(m.user, "Ann");
    assert_eq!(m.reply_to_user, Some("Bob".to_string()));
    assert_eq!(m.reply_to_text, Some("parent text".to_string()));
}

#[test]
fn reaction_action_names_added_or_removed() {
    let added = build_reaction_event(
        true,
        "tada".to_string(),
        "Ann".to_string(),
        "C1".to_string(),
        "1.2".to_string(),
    );
    assert_eq!(added.action, "added");
    let removed = build_reaction_event(
        false,
        "tada".to_string(),
        "Ann".to_string(),
        "C1".to_string(),
        "1.2".to_string(),
    );
    assert_eq!(removed.action, "removed");
    assert_eq!(removed.channel, "C1");
}
