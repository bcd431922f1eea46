use zulip::message::{
    AddEmojiReactionRequest, Anchor, AnchorValue, EditMessageRequest, GetMessagesRequest, Narrow,
    PropagateMode, ReactionType, RemoveEmojiReactionRequest,
};

#[test]
fn a_new_request_for_messages_is_anchored_at_the_newest() {
    let req = GetMessagesRequest::new(3, 7);
    assert_eq!(
        req,
        GetMessagesRequest {
            anchor: Some(Anchor::Newest),
            num_before: 3,
            num_after: 7,
            narrow: None
        }
    );
}

#[test]
fn a_request_for_messages_is_built_in_steps() {
    let narrow = vec![Narrow { operand: "Verona".to_string(), operator: "stream".to_string() }];
    let mut req = GetMessagesRequest::new(0, 0);
    req.anchor(Anchor::MessageID(42)).narrow(narrow.clone());
    assert_eq!(
        req,
        GetMessagesRequest {
            anchor: Some(Anchor::MessageID(42)),
            num_before: 0,
            num_after: 0,
            narrow: Some(narrow)
        }
    );
    req.anchor(Anchor::Oldest);
    assert_eq!(req.anchor, Some(Anchor::Oldest));
    assert_eq!(req.narrow.as_ref().map(|n| n.len()), Some(1));
}

#[test]
fn anchors_go_over_the_wire_by_name_or_by_number() {
    assert_eq!(Anchor::Newest.value(), AnchorValue::Name("newest"));
    assert_eq!(Anchor::Oldest.value(), AnchorValue::Name("oldest"));
    assert_eq!(Anchor::FirstUnread.value(), AnchorValue::Name("first_unread"));
    assert_eq!(Anchor::MessageID(-5).value(), AnchorValue::Id(-5));
    assert_eq!(Anchor::MessageID(i64::MAX).value(), AnchorValue::Id(i64::MAX));
}

#[test]
fn a_new_edit_changes_nothing_yet() {
    assert_eq!(
        EditMessageRequest::new(9),
        EditMessageRequest {
            message_id: 9,
            topic: None,
            propagate_mode: PropagateMode::ChangeOne,
            send_notification_to_old_thread: true,
            send_notification_to_new_thread: true,
            content: None,
            stream_id: None,
        }
    );
}

#[test]
fn an_edit_is_built_in_steps() {
    let mut req = EditMessageRequest::new(9);
    req.topic("lunch")
        .propagate_mode(PropagateMode::ChangeLater)
        .send_notification_to_old_thread(false)
        .content("at noon")
        .stream_id(4);
    assert_eq!(
        req,
        EditMessageRequest {
            message_id: 9,
            topic: Some("lunch".to_string()),
            propagate_mode: PropagateMode::ChangeLater,
            send_notification_to_old_thread: false,
            send_notification_to_new_thread: true,
            content: Some("at noon".to_string()),
            stream_id: Some(4),
        }
    );
    req.send_notification_to_new_thread(false).propagate_mode(PropagateMode::ChangeAll);
    assert!(!req.send_notification_to_new_thread);
    assert!(!req.send_notification_to_old_thread);
    assert_eq!(req.propagate_mode, PropagateMode::ChangeAll);
    assert_eq!(req.topic, Some("lunch".to_string()));
}

#[test]
fn each_step_of_an_edit_touches_one_field() {
    let fresh = EditMessageRequest::new(1);

    let mut req = fresh.clone();
    req.topic("t");
    assert_eq!(req, EditMessageRequest { topic: Some("t".to_string()), ..fresh.clone() });

    let mut req = fresh.clone();
    req.content("c");
    assert_eq!(req, EditMessageRequest { content: Some("c".to_string()), ..fresh.clone() });

    let mut req = fresh.clone();
    req.stream_id(-3);
    assert_eq!(req, EditMessageRequest { stream_id: Some(-3), ..fresh.clone() });

    let mut req = fresh.clone();
    req.send_notification_to_old_thread(false);
    assert_eq!(req, EditMessageRequest { send_notification_to_old_thread: false, ..fresh.clone() });

    let mut req = fresh.clone();
    req.send_notification_to_new_thread(false);
    assert_eq!(req, EditMessageRequest { send_notification_to_new_thread: false, ..fresh.clone() });

    let mut req = fresh.clone();
    req.propagate_mode(PropagateMode::ChangeAll);
    assert_eq!(req, EditMessageRequest { propagate_mode: PropagateMode::ChangeAll, ..fresh });
}

#[test]
fn a_reaction_to_add_is_built_in_steps() {
    let mut req = AddEmojiReactionRequest::new(12, "octopus");
    assert_eq!(
        req,
        AddEmojiReactionRequest {
            message_id: 12,
            emoji_name: "octopus".to_string(),
            emoji_code: None,
            reaction_type: None,
        }
    );
    req.emoji_code("1f419").reaction_type(ReactionType::UnicodeEmoji);
    assert_eq!(
        req,
        AddEmojiReactionRequest {
            message_id: 12,
            emoji_name: "octopus".to_string(),
            emoji_code: Some("1f419".to_string()),
            reaction_type: Some(ReactionType::UnicodeEmoji),
        }
    );
}

#[test]
fn a_reaction_to_remove_is_built_in_steps() {
    let mut req = RemoveEmojiReactionRequest::new(12);
    assert_eq!(
        req,
        RemoveEmojiReactionRequest {
            message_id: 12,
            emoji_name: None,
            emoji_code: None,
            reaction_type: None,
        }
    );
    req.emoji_name("octopus");
    assert_eq!(req.emoji_name, Some("octopus".to_string()));
    assert_eq!(req.emoji_code, None);
    req.reaction_type(ReactionType::RealmEmoji).emoji_code("1f419");
    assert_eq!(
        req,
        RemoveEmojiReactionRequest {
            message_id: 12,
            emoji_name: Some("octopus".to_string()),
            emoji_code: Some("1f419".to_string()),
            reaction_type: Some(ReactionType::RealmEmoji),
        }
    );
}
