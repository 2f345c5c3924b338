use meeting_room::client::{ClientState, Notice, RoomConnectionState};
use meeting_room::protocol::{ChatMessage, Participant, Poll, PollOption, RoomConfig, ServerMessage};

fn person(id: &str, name: &str, hand: bool) -> Participant {
    Participant { id: id.to_string(), name: name.to_string(), is_hand_raised: hand, is_sharing_screen: false }
}

#[test]
fn test_room_connection_state_equality() {
    assert_eq!(RoomConnectionState::Prejoin, RoomConnectionState::Prejoin);
    assert_ne!(RoomConnectionState::Prejoin, RoomConnectionState::Joined);
}

#[test]
fn welcome_joins_and_records_id() {
    let mut s = ClientState::new();
    assert_eq!(s.connection_state, RoomConnectionState::Prejoin);
    assert_eq!(s.apply(ServerMessage::Welcome { id: "me".to_string() }), None);
    assert_eq!(s.my_id, Some("me".to_string()));
    assert_eq!(s.connection_state, RoomConnectionState::Joined);
}

#[test]
fn recording_changes_are_announced() {
    let mut s = ClientState::new();
    let on = RoomConfig { is_recording: true, ..RoomConfig::default() };
    assert_eq!(s.apply(ServerMessage::RoomUpdated(on.clone())), Some(Notice::RecordingStarted));
    assert_eq!(s.apply(ServerMessage::RoomUpdated(on)), None);
    assert_eq!(s.apply(ServerMessage::RoomUpdated(RoomConfig::default())), Some(Notice::RecordingStopped));
}

#[test]
fn snapshot_then_deltas() {
    let mut s = ClientState::new();
    s.apply(ServerMessage::KnockingParticipant(person("d", "D", false)));
    s.apply(ServerMessage::KnockingParticipant(person("d", "D", false)));
    assert_eq!(s.knocking_participants.len(), 1);
    s.apply(ServerMessage::ParticipantList(vec![person("a", "A", false)]));
    s.apply(ServerMessage::ParticipantJoined(person("a", "A", false)));
    s.apply(ServerMessage::ParticipantJoined(person("d", "D", false)));
    assert_eq!(s.participants, vec![person("a", "A", false), person("d", "D", false)]);
    assert!(s.knocking_participants.is_empty());
    s.apply(ServerMessage::ParticipantLeft("a".to_string()));
    assert_eq!(s.participants, vec![person("d", "D", false)]);
}

#[test]
fn hand_raise_is_announced() {
    let mut s = ClientState::new();
    s.apply(ServerMessage::ParticipantList(vec![person("a", "Alice", false)]));
    assert_eq!(
        s.apply(ServerMessage::ParticipantUpdated(person("a", "Alice", true))),
        Some(Notice::HandRaised("Alice".to_string()))
    );
    assert_eq!(s.apply(ServerMessage::ParticipantUpdated(person("a", "Alice", true))), None);
    assert_eq!(s.apply(ServerMessage::ParticipantUpdated(person("zz", "Nobody", true))), None);
    assert_eq!(s.participants.len(), 1);
}

#[test]
fn typing_and_speaking_sets() {
    let mut s = ClientState::new();
    let typing = |id: &str, on: bool| ServerMessage::PeerTyping { user_id: id.to_string(), is_typing: on, room_id: None };
    s.apply(typing("u1", true));
    s.apply(typing("u1", true));
    s.apply(typing("u2", true));
    assert_eq!(s.typing_users, vec!["u1".to_string(), "u2".to_string()]);
    s.apply(typing("u1", false));
    assert_eq!(s.typing_users, vec!["u2".to_string()]);
    s.apply(ServerMessage::ParticipantLeft("u2".to_string()));
    assert!(s.typing_users.is_empty());
    s.apply(ServerMessage::PeerSpeaking { user_id: "u3".to_string(), speaking: true });
    assert_eq!(s.speaking_peers, vec!["u3".to_string()]);
    s.apply(ServerMessage::PeerSpeaking { user_id: "u3".to_string(), speaking: false });
    assert!(s.speaking_peers.is_empty());
}

#[test]
fn kicked_only_when_target_is_me() {
    let mut s = ClientState::new();
    s.apply(ServerMessage::Welcome { id: "me".to_string() });
    assert_eq!(s.apply(ServerMessage::Kicked("other".to_string())), None);
    assert_eq!(s.connection_state, RoomConnectionState::Joined);
    assert_eq!(s.apply(ServerMessage::Kicked("me".to_string())), Some(Notice::Kicked));
    assert_eq!(s.connection_state, RoomConnectionState::Prejoin);
}

#[test]
fn lobby_flow_and_meeting_end() {
    let mut s = ClientState::new();
    s.apply(ServerMessage::Knocking);
    assert_eq!(s.connection_state, RoomConnectionState::Lobby);
    assert_eq!(s.apply(ServerMessage::AccessDenied), Some(Notice::AccessDenied));
    assert_eq!(s.connection_state, RoomConnectionState::Prejoin);
    s.apply(ServerMessage::AccessGranted);
    assert_eq!(s.connection_state, RoomConnectionState::Joined);
    s.apply(ServerMessage::ParticipantList(vec![person("a", "A", false)]));
    assert_eq!(s.apply(ServerMessage::RoomEnded), Some(Notice::MeetingEnded));
    assert!(s.participants.is_empty());
    assert_eq!(s.connection_state, RoomConnectionState::Prejoin);
    assert_eq!(s.apply(ServerMessage::Error("Room is full".to_string())), Some(Notice::Error("Room is full".to_string())));
}

#[test]
fn chat_polls_and_media() {
    let mut s = ClientState::new();
    let msg = ChatMessage {
        user_id: "a".to_string(),
        content: "hi".to_string(),
        recipient_id: None,
        timestamp: 5,
        attachment: None,
    };
    s.apply(ServerMessage::ChatHistory(vec![msg.clone()]));
    s.apply(ServerMessage::Chat { message: msg.clone(), room_id: None });
    assert_eq!(s.messages.len(), 2);
    let poll = Poll {
        id: "p".to_string(),
        question: "Q".to_string(),
        options: vec![PollOption { id: 0, text: "Red".to_string(), votes: 0 }],
        voters: Vec::new(),
    };
    s.apply(ServerMessage::PollCreated(poll.clone()));
    let mut updated = poll.clone();
    updated.options[0].votes = 1;
    s.apply(ServerMessage::PollUpdated(updated.clone()));
    assert_eq!(s.polls, vec![updated]);
    s.apply(ServerMessage::VideoShared("https://youtu.be/test".to_string()));
    assert_eq!(s.shared_video_url, Some("https://youtu.be/test".to_string()));
    s.apply(ServerMessage::VideoStopped);
    assert_eq!(s.shared_video_url, None);
    s.apply(ServerMessage::Reaction { sender_id: "a".to_string(), emoji: "+1".to_string() });
    assert_eq!(s.last_reaction, Some(("a".to_string(), "+1".to_string())));
}
