use meeting_room::protocol::{
    BreakoutRoom, ChatMessage, DrawAction, Participant, Poll, PollOption, RoomConfig, ServerMessage,
};
use meeting_room::room::{Admission, ProfileChange, Room};

fn person(id: &str, name: &str) -> Participant {
    Participant {
        id: id.to_string(),
        name: name.to_string(),
        is_hand_raised: false,
        is_sharing_screen: false,
    }
}

fn chat(user: &str, content: &str, recipient: Option<&str>) -> ChatMessage {
    ChatMessage {
        user_id: user.to_string(),
        content: content.to_string(),
        recipient_id: recipient.map(|r| r.to_string()),
        timestamp: 1234567890,
        attachment: None,
    }
}

fn color_poll(id: &str) -> Poll {
    Poll {
        id: id.to_string(),
        question: "Color?".to_string(),
        options: vec![
            PollOption { id: 0, text: "Red".to_string(), votes: 0 },
            PollOption { id: 1, text: "Blue".to_string(), votes: 0 },
        ],
        voters: Vec::new(),
    }
}

#[test]
fn default_config_values() {
    let config = RoomConfig::default();
    assert_eq!(config.room_name, "Default Room");
    assert!(!config.is_locked);
    assert!(!config.is_recording);
    assert!(!config.is_lobby_enabled);
    assert_eq!(config.max_participants, 100);
    assert_eq!(config.host_id, None);
}

#[test]
fn test_create_room_with_limit() {
    let mut room = Room::new(RoomConfig::default());
    room.enroll(person("a", "Alice"));
    let config = RoomConfig { max_participants: 10, ..RoomConfig::default() };
    room.reset(config.clone());
    assert_eq!(room.config().max_participants, 10);
    assert_eq!(room.config(), &config);
    assert!(room.participants().is_empty());
}

#[test]
fn test_chat_history() {
    let mut room = Room::new(RoomConfig::default());
    assert!(room.record_chat(chat("user1", "Hello", None), &None));
    assert_eq!(room.chat_history().len(), 1);
    assert_eq!(room.chat_history()[0].content, "Hello");
}

#[test]
fn private_and_breakout_chat_not_persisted() {
    let mut room = Room::new(RoomConfig::default());
    assert!(!room.record_chat(chat("u1", "psst", Some("u2")), &None));
    assert!(!room.record_chat(chat("u1", "team", None), &Some("x".to_string())));
    assert!(room.chat_history().is_empty());
}

#[test]
fn first_participant_becomes_host() {
    let mut room = Room::new(RoomConfig { max_participants: 2, ..RoomConfig::default() });
    assert_eq!(room.enroll(person("a", "A")), Admission::Admitted { host_assigned: true });
    assert_eq!(room.enroll(person("b", "B")), Admission::Admitted { host_assigned: false });
    assert_eq!(room.enroll(person("c", "C")), Admission::Full);
    assert_eq!(room.config().host_id, Some("a".to_string()));
    let ids: Vec<&str> = room.participants().iter().map(|p| p.id.as_str()).collect();
    assert_eq!(ids, vec!["a", "b"]);
}

#[test]
fn test_kick_logic() {
    let mut room = Room::new(RoomConfig::default());
    room.enroll(person("host_123", "Host"));
    room.enroll(person("target_456", "Target"));
    assert!(room.kick(&"host_123".to_string(), &"target_456".to_string()));
    assert!(!room.participants().iter().any(|p| p.id == "target_456"));
}

#[test]
fn kick_by_non_host_is_ignored() {
    let mut room = Room::new(RoomConfig::default());
    room.enroll(person("host", "Host"));
    room.enroll(person("b", "B"));
    assert!(!room.kick(&"b".to_string(), &"host".to_string()));
    assert_eq!(room.participants().len(), 2);
}

#[test]
fn poll_without_id_gets_fresh_id() {
    let mut room = Room::new(RoomConfig::default());
    let stored = room.create_poll(color_poll(""), "generated".to_string());
    assert_eq!(stored.id, "generated");
    let kept = room.create_poll(color_poll("poll1"), "unused".to_string());
    assert_eq!(kept.id, "poll1");
    assert_eq!(room.polls().len(), 2);
}

#[test]
fn poll_voters_deduplicated_on_creation() {
    let mut room = Room::new(RoomConfig::default());
    let mut p = color_poll("p");
    p.voters = vec!["a".to_string(), "b".to_string(), "a".to_string()];
    let stored = room.create_poll(p, "x".to_string());
    assert_eq!(stored.voters, vec!["a".to_string(), "b".to_string()]);
}

#[test]
fn second_vote_changes_nothing() {
    let mut room = Room::new(RoomConfig::default());
    room.create_poll(color_poll("P"), "x".to_string());
    let a = "A".to_string();
    let p = "P".to_string();
    let updated = room.vote(&p, &a, 0).expect("first vote counts");
    assert_eq!(updated.options[0].votes, 1);
    assert_eq!(room.vote(&p, &a, 1), None);
    let poll = &room.polls()[0];
    assert_eq!(poll.options[0].votes, 1);
    assert_eq!(poll.options[1].votes, 0);
    assert_eq!(poll.voters, vec!["A".to_string()]);
}

#[test]
fn vote_on_unknown_poll_or_option_is_noop() {
    let mut room = Room::new(RoomConfig::default());
    room.create_poll(color_poll("P"), "x".to_string());
    let a = "A".to_string();
    assert_eq!(room.vote(&"Q".to_string(), &a, 0), None);
    assert_eq!(room.vote(&"P".to_string(), &a, 7), None);
    assert!(room.polls()[0].voters.is_empty());
    assert_eq!(room.vote(&"P".to_string(), &a, 1).unwrap().options[1].votes, 1);
}

#[test]
fn vote_count_saturates() {
    let mut room = Room::new(RoomConfig::default());
    let mut p = color_poll("P");
    p.options[0].votes = u32::MAX;
    room.create_poll(p, "x".to_string());
    let updated = room.vote(&"P".to_string(), &"A".to_string(), 0).unwrap();
    assert_eq!(updated.options[0].votes, u32::MAX);
    assert_eq!(updated.voters, vec!["A".to_string()]);
}

#[test]
fn draw_is_tagged_with_sender() {
    let mut room = Room::new(RoomConfig::default());
    let action = DrawAction {
        color: "#000000".to_string(),
        start_x_bits: 10.0f64.to_bits(),
        start_y_bits: 20.0f64.to_bits(),
        end_x_bits: 30.0f64.to_bits(),
        end_y_bits: 40.0f64.to_bits(),
        width_bits: 2.0f64.to_bits(),
        sender_id: "forged".to_string(),
    };
    let stored = room.record_draw(action, &"user1".to_string());
    assert_eq!(stored.sender_id, "user1");
    assert_eq!(f64::from_bits(stored.end_y_bits), 40.0);
    assert_eq!(room.whiteboard().len(), 1);
    assert_eq!(room.whiteboard()[0], stored);
}

#[test]
fn profile_changes() {
    let mut room = Room::new(RoomConfig::default());
    room.enroll(person("a", "Alice"));
    let a = "a".to_string();
    let p = room.update_participant(&a, ProfileChange::Rename("Al".to_string())).unwrap();
    assert_eq!(p.name, "Al");
    let p = room.update_participant(&a, ProfileChange::ToggleRaiseHand).unwrap();
    assert!(p.is_hand_raised);
    let p = room.update_participant(&a, ProfileChange::ToggleScreenShare).unwrap();
    assert!(p.is_sharing_screen);
    assert_eq!(room.participants()[0], p);
    assert_eq!(room.update_participant(&"zz".to_string(), ProfileChange::ToggleRaiseHand), None);
}

#[test]
fn toggles_flip_config_flags() {
    let mut room = Room::new(RoomConfig::default());
    assert!(room.toggle_lock().is_locked);
    assert!(room.toggle_recording().is_recording);
    assert!(room.toggle_lobby().is_lobby_enabled);
    assert!(!room.toggle_lock().is_locked);
    assert!(room.config().is_recording);
}

#[test]
fn breakout_rooms_and_locations() {
    let mut room = Room::new(RoomConfig::default());
    room.enroll(person("a", "A"));
    let list = room.create_breakout_room(BreakoutRoom { id: "room_1".to_string(), name: "Team A".to_string() });
    assert_eq!(list.len(), 1);
    assert_eq!(list[0].name, "Team A");
    let a = "a".to_string();
    assert_eq!(room.location_of(&a), None);
    room.move_participant(&a, Some("room_1".to_string()));
    assert_eq!(room.location_of(&a), Some("room_1".to_string()));
    room.move_participant(&a, None);
    assert_eq!(room.location_of(&a), None);
}

#[test]
fn knock_claim_is_one_shot() {
    let mut room = Room::new(RoomConfig::default());
    let d = "d".to_string();
    room.knock(person("d", "D"));
    assert!(room.decision_pending(&d));
    assert!(room.claim_decision(&d));
    assert!(!room.claim_decision(&d));
    assert!(!room.decision_pending(&d));
    let (p, a) = room.enroll_knocker(&d).unwrap();
    assert_eq!(p.name, "D");
    assert_eq!(a, Admission::Admitted { host_assigned: true });
    assert!(room.knocking_participants().is_empty());
    assert_eq!(room.enroll_knocker(&d), None);
    assert_eq!(room.participants().len(), 1);
}

#[test]
fn withdraw_reports_presence_once() {
    let mut room = Room::new(RoomConfig::default());
    let d = "d".to_string();
    room.knock(person("d", "D"));
    assert_eq!(room.knocking_participants(), vec![person("d", "D")]);
    assert_eq!(room.withdraw_knock(&d), Some(person("d", "D")));
    assert_eq!(room.withdraw_knock(&d), None);
}

#[test]
fn remove_participant_reports_presence() {
    let mut room = Room::new(RoomConfig::default());
    room.enroll(person("a", "A"));
    assert!(room.remove_participant(&"a".to_string()));
    assert!(!room.remove_participant(&"a".to_string()));
    assert!(room.participants().is_empty());
}

#[test]
fn room_updated_message_carries_config() {
    let config = RoomConfig::default();
    let msg = ServerMessage::RoomUpdated(config.clone());
    assert_eq!(msg, ServerMessage::RoomUpdated(config));
}
