use meeting_room::fanout::{deliver_decision, is_visible_to, Delivery};
use meeting_room::protocol::{ChatMessage, ClientMessage, Poll, PollOption, RoomConfig, ServerMessage};
use meeting_room::room::Room;
use meeting_room::session::{
    handle_command, handle_command_now, on_close, on_decision, on_knock_expired, on_open, Connection, Effect,
};

fn room_of(max: u32, lobby: bool) -> Room {
    Room::new(RoomConfig { max_participants: max, is_lobby_enabled: lobby, ..RoomConfig::default() })
}

fn join(room: &mut Room, name: &str, id: &str) -> (Connection, Vec<Effect>) {
    let mut conn = Connection::new();
    let out = handle_command(room, &mut conn, ClientMessage::Join(name.to_string()), id.to_string(), 0);
    (conn, out)
}

fn send(room: &mut Room, conn: &mut Connection, cmd: ClientMessage) -> Vec<Effect> {
    handle_command(room, conn, cmd, "fresh".to_string(), 42)
}

fn roster(room: &Room) -> Vec<String> {
    room.participants().iter().map(|p| p.id.clone()).collect()
}

fn broadcasts(effects: &[Effect]) -> Vec<ServerMessage> {
    effects
        .iter()
        .filter_map(|e| match e {
            Effect::Broadcast(m) => Some(m.clone()),
            _ => None,
        })
        .collect()
}

fn replies(effects: &[Effect]) -> Vec<ServerMessage> {
    effects
        .iter()
        .filter_map(|e| match e {
            Effect::Reply(m) => Some(m.clone()),
            _ => None,
        })
        .collect()
}

#[test]
fn capacity_two_scenario() {
    let mut room = room_of(2, false);
    let (a, out_a) = join(&mut room, "A", "A");
    assert_eq!(a.my_id, Some("A".to_string()));
    assert_eq!(out_a[0], Effect::Reply(ServerMessage::Welcome { id: "A".to_string() }));
    assert_eq!(room.config().host_id, Some("A".to_string()));
    assert_eq!(roster(&room), vec!["A"]);
    let (_b, _) = join(&mut room, "B", "B");
    assert_eq!(roster(&room), vec!["A", "B"]);
    assert_eq!(room.config().host_id, Some("A".to_string()));
    let (c, out_c) = join(&mut room, "C", "C");
    assert_eq!(out_c, vec![Effect::Reply(ServerMessage::Error("Room is full".to_string()))]);
    assert_eq!(c.my_id, None);
    assert_eq!(roster(&room), vec!["A", "B"]);
}

#[test]
fn welcome_sequence_contents() {
    let mut room = room_of(5, false);
    let (_a, out) = join(&mut room, "Alice", "a");
    let config = room.config().clone();
    assert_eq!(out[0], Effect::Reply(ServerMessage::Welcome { id: "a".to_string() }));
    assert_eq!(out[1], Effect::Broadcast(ServerMessage::RoomUpdated(config.clone())));
    assert_eq!(out[2], Effect::Reply(ServerMessage::RoomUpdated(config)));
    assert_eq!(out[3], Effect::Subscribe);
    match &out[4] {
        Effect::Broadcast(ServerMessage::ParticipantJoined(p)) => assert_eq!(p.name, "Alice"),
        other => panic!("unexpected {:?}", other),
    }
    match &out[5] {
        Effect::Reply(ServerMessage::ParticipantList(list)) => assert_eq!(list.len(), 1),
        other => panic!("unexpected {:?}", other),
    }
    assert_eq!(out.len(), 6);
}

#[test]
fn locked_room_rejects_join() {
    let mut room = Room::new(RoomConfig { is_locked: true, ..RoomConfig::default() });
    let (c, out) = join(&mut room, "X", "x");
    assert_eq!(out, vec![Effect::Reply(ServerMessage::Error("Room is locked".to_string()))]);
    assert_eq!(c.my_id, None);
    assert!(room.participants().is_empty());
}

#[test]
fn second_join_on_same_connection_is_ignored() {
    let mut room = room_of(5, false);
    let (mut a, _) = join(&mut room, "A", "a");
    let out = handle_command(&mut room, &mut a, ClientMessage::Join("again".to_string()), "b".to_string(), 0);
    assert!(out.is_empty());
    assert_eq!(roster(&room), vec!["a"]);
}

#[test]
fn commands_before_join_do_nothing() {
    let mut room = room_of(5, false);
    let mut conn = Connection::new();
    assert!(send(&mut room, &mut conn, ClientMessage::ToggleRoomLock).is_empty());
    assert!(!room.config().is_locked);
}

#[test]
fn lobby_deny_scenario() {
    let mut room = room_of(5, false);
    let (mut host, _) = join(&mut room, "Host", "H");
    room.toggle_lobby();
    let (mut d, out_d) = join(&mut room, "D", "D");
    assert_eq!(out_d[0], Effect::Reply(ServerMessage::Knocking));
    assert_eq!(out_d[1], Effect::Broadcast(ServerMessage::KnockingParticipant(room.knocking_participants()[0].clone())));
    assert_eq!(out_d[2], Effect::StartKnockTimer("D".to_string()));
    assert_eq!(d.knocking_id, Some("D".to_string()));
    assert_eq!(room.knocking_participants().len(), 1);
    assert_eq!(room.knocking_participants()[0].name, "D");
    let out = send(&mut room, &mut host, ClientMessage::DenyAccess("D".to_string()));
    assert_eq!(
        out,
        vec![
            Effect::Broadcast(ServerMessage::KnockingParticipantLeft("D".to_string())),
            Effect::Decide { target: "D".to_string(), granted: false },
        ]
    );
    let out = on_decision(&mut room, &mut d, false);
    assert_eq!(out, vec![Effect::Reply(ServerMessage::AccessDenied)]);
    assert!(room.knocking_participants().is_empty());
    assert_eq!(roster(&room), vec!["H"]);
    assert!(on_knock_expired(&mut room, &"D".to_string()).is_empty());
}

#[test]
fn lobby_grant_then_timeout() {
    let mut room = room_of(5, false);
    let (mut host, _) = join(&mut room, "Host", "H");
    room.toggle_lobby();
    let (mut d, _) = join(&mut room, "D", "D");
    let out = send(&mut room, &mut host, ClientMessage::GrantAccess("D".to_string()));
    assert_eq!(out, vec![Effect::Decide { target: "D".to_string(), granted: true }]);
    assert!(on_knock_expired(&mut room, &"D".to_string()).is_empty());
    let out = on_decision(&mut room, &mut d, true);
    assert_eq!(out[0], Effect::Reply(ServerMessage::Welcome { id: "D".to_string() }));
    assert_eq!(d.my_id, Some("D".to_string()));
    assert_eq!(roster(&room), vec!["H", "D"]);
    assert!(room.knocking_participants().is_empty());
    assert!(send(&mut room, &mut host, ClientMessage::GrantAccess("D".to_string())).is_empty());
}

#[test]
fn lobby_timeout_then_grant() {
    let mut room = room_of(5, false);
    let (mut host, _) = join(&mut room, "Host", "H");
    room.toggle_lobby();
    let (mut d, _) = join(&mut room, "D", "D");
    let out = on_knock_expired(&mut room, &"D".to_string());
    assert_eq!(out.len(), 2);
    assert!(send(&mut room, &mut host, ClientMessage::GrantAccess("D".to_string())).is_empty());
    assert_eq!(on_decision(&mut room, &mut d, false), vec![Effect::Reply(ServerMessage::AccessDenied)]);
    assert_eq!(roster(&room), vec!["H"]);
}

#[test]
fn non_host_cannot_decide_or_kick() {
    let mut room = room_of(5, false);
    let (_host, _) = join(&mut room, "Host", "H");
    let (mut b, _) = join(&mut room, "B", "B");
    room.toggle_lobby();
    let (_d, _) = join(&mut room, "D", "D");
    assert!(send(&mut room, &mut b, ClientMessage::DenyAccess("D".to_string())).is_empty());
    assert!(room.decision_pending(&"D".to_string()));
    assert!(send(&mut room, &mut b, ClientMessage::KickParticipant("H".to_string())).is_empty());
    assert_eq!(roster(&room), vec!["H", "B"]);
}

#[test]
fn host_kick_broadcasts_and_closes_target() {
    let mut room = room_of(5, false);
    let (mut host, _) = join(&mut room, "Host", "H");
    let (_b, _) = join(&mut room, "B", "B");
    let out = send(&mut room, &mut host, ClientMessage::KickParticipant("B".to_string()));
    assert_eq!(
        broadcasts(&out),
        vec![ServerMessage::Kicked("B".to_string()), ServerMessage::ParticipantLeft("B".to_string())]
    );
    assert_eq!(roster(&room), vec!["H"]);
    let kicked = ServerMessage::Kicked("B".to_string());
    assert_eq!(deliver_decision(&kicked, &"B".to_string(), &None), Delivery::ForwardAndClose);
    assert_eq!(deliver_decision(&kicked, &"H".to_string(), &None), Delivery::Forward);
}

#[test]
fn breakout_chat_scenario() {
    let mut room = room_of(5, false);
    let (mut a, _) = join(&mut room, "A", "A");
    let (_b, _) = join(&mut room, "B", "B");
    let (mut c, _) = join(&mut room, "C", "C");
    send(&mut room, &mut a, ClientMessage::CreateBreakoutRoom("X".to_string()));
    let x = room.breakout_rooms()[0].id.clone();
    send(&mut room, &mut c, ClientMessage::JoinBreakoutRoom(Some(x.clone())));
    assert_eq!(c.my_room_id, Some(x));
    let out = send(
        &mut room,
        &mut a,
        ClientMessage::Chat { content: "hi".to_string(), recipient_id: None, attachment: None },
    );
    let msgs = broadcasts(&out);
    assert_eq!(msgs.len(), 1);
    assert_eq!(room.chat_history().len(), 1);
    assert_eq!(room.delivery_for(&msgs[0], &"B".to_string()), Delivery::Forward);
    assert_eq!(room.delivery_for(&msgs[0], &"C".to_string()), Delivery::Skip);
    assert_eq!(room.delivery_for(&msgs[0], &"A".to_string()), Delivery::Forward);
}

#[test]
fn private_message_visibility() {
    let msg = ServerMessage::Chat {
        message: ChatMessage {
            user_id: "a".to_string(),
            content: "secret".to_string(),
            recipient_id: Some("b".to_string()),
            timestamp: 1,
            attachment: None,
        },
        room_id: None,
    };
    assert!(is_visible_to(&msg, &"a".to_string(), &None));
    assert!(is_visible_to(&msg, &"b".to_string(), &None));
    assert!(!is_visible_to(&msg, &"c".to_string(), &None));
    assert!(!is_visible_to(&msg, &"b".to_string(), &Some("x".to_string())));
}

#[test]
fn test_typing_broadcast() {
    let mut room = room_of(5, false);
    let (mut u, _) = join(&mut room, "User", "user1");
    let out = send(&mut room, &mut u, ClientMessage::Typing(true));
    match &broadcasts(&out)[0] {
        ServerMessage::PeerTyping { user_id, is_typing, room_id: _ } => {
            assert_eq!(user_id, "user1");
            assert!(is_typing);
        },
        _ => panic!("Wrong message type"),
    }
    let typing = broadcasts(&out)[0].clone();
    assert!(!is_visible_to(&typing, &"other".to_string(), &Some("x".to_string())));
}

#[test]
fn test_breakout_room_creation() {
    let mut room = room_of(5, false);
    let (mut u, _) = join(&mut room, "User", "u");
    let out = handle_command(&mut room, &mut u, ClientMessage::CreateBreakoutRoom("Team A".to_string()), "room_1".to_string(), 0);
    if let ServerMessage::BreakoutRoomsList(list) = &broadcasts(&out)[0] {
        assert_eq!(list.len(), 1);
        assert_eq!(list[0].name, "Team A");
        assert_eq!(list[0].id, "room_1");
    } else {
        panic!("Wrong message");
    }
}

#[test]
fn poll_vote_scenario() {
    let mut room = room_of(5, false);
    let (mut a, _) = join(&mut room, "A", "A");
    let poll = Poll {
        id: "P".to_string(),
        question: "Color?".to_string(),
        options: vec![
            PollOption { id: 0, text: "Red".to_string(), votes: 0 },
            PollOption { id: 1, text: "Blue".to_string(), votes: 0 },
        ],
        voters: Vec::new(),
    };
    let out = send(&mut room, &mut a, ClientMessage::CreatePoll(poll));
    assert_eq!(broadcasts(&out).len(), 1);
    let out = send(&mut room, &mut a, ClientMessage::Vote { poll_id: "P".to_string(), option_id: 0 });
    assert_eq!(broadcasts(&out).len(), 1);
    let out = send(&mut room, &mut a, ClientMessage::Vote { poll_id: "P".to_string(), option_id: 1 });
    assert!(out.is_empty());
    let p = &room.polls()[0];
    assert_eq!(p.options[0].votes, 1);
    assert_eq!(p.options[1].votes, 0);
    assert_eq!(p.voters, vec!["A".to_string()]);
}

#[test]
fn chat_timestamp_and_sender_come_from_server() {
    let mut room = room_of(5, false);
    let (mut a, _) = join(&mut room, "A", "A");
    let out = send(
        &mut room,
        &mut a,
        ClientMessage::Chat { content: "x".to_string(), recipient_id: Some("B".to_string()), attachment: None },
    );
    match &broadcasts(&out)[0] {
        ServerMessage::Chat { message, room_id } => {
            assert_eq!(message.user_id, "A");
            assert_eq!(message.timestamp, 42);
            assert_eq!(room_id, &None);
        },
        _ => panic!("Wrong message"),
    }
    assert!(room.chat_history().is_empty());
}

#[test]
fn open_sends_config_history_and_rooms() {
    let mut room = room_of(5, false);
    assert_eq!(on_open(&room), vec![Effect::Reply(ServerMessage::RoomUpdated(room.config().clone()))]);
    let (mut a, _) = join(&mut room, "A", "A");
    send(&mut room, &mut a, ClientMessage::Chat { content: "x".to_string(), recipient_id: None, attachment: None });
    send(&mut room, &mut a, ClientMessage::CreateBreakoutRoom("R".to_string()));
    let out = replies(&on_open(&room));
    assert_eq!(out.len(), 3);
    assert!(matches!(out[1], ServerMessage::ChatHistory(ref h) if h.len() == 1));
    assert!(matches!(out[2], ServerMessage::BreakoutRoomsList(ref r) if r.len() == 1));
}

#[test]
fn close_removes_participant_or_request() {
    let mut room = room_of(5, false);
    let (a, _) = join(&mut room, "A", "A");
    assert_eq!(on_close(&mut room, &a), vec![Effect::Broadcast(ServerMessage::ParticipantLeft("A".to_string()))]);
    assert!(room.participants().is_empty());
    room.toggle_lobby();
    let (d, _) = join(&mut room, "D", "D");
    assert_eq!(
        on_close(&mut room, &d),
        vec![Effect::Broadcast(ServerMessage::KnockingParticipantLeft("D".to_string()))]
    );
    assert!(on_close(&mut room, &d).is_empty());
    assert!(on_knock_expired(&mut room, &"D".to_string()).is_empty());
}

#[test]
fn end_meeting_only_by_host() {
    let mut room = room_of(5, false);
    let (mut h, _) = join(&mut room, "H", "H");
    let (mut b, _) = join(&mut room, "B", "B");
    assert!(send(&mut room, &mut b, ClientMessage::EndMeeting).is_empty());
    assert_eq!(send(&mut room, &mut h, ClientMessage::EndMeeting), vec![Effect::Broadcast(ServerMessage::RoomEnded)]);
}

#[test]
fn generated_ids_are_uuids() {
    let mut room = room_of(5, false);
    let mut conn = Connection::new();
    handle_command_now(&mut room, &mut conn, ClientMessage::Join("A".to_string()));
    let id = conn.my_id.clone().unwrap();
    assert_eq!(id.len(), 36);
    assert_eq!(room.participants()[0].id, id);
    let out = handle_command_now(&mut room, &mut conn, ClientMessage::CreateBreakoutRoom("R".to_string()));
    assert_eq!(broadcasts(&out).len(), 1);
    assert_eq!(room.breakout_rooms()[0].id.len(), 36);
    assert_ne!(room.breakout_rooms()[0].id, id);
}

#[test]
fn media_and_reaction_events() {
    let mut room = room_of(5, false);
    let (mut a, _) = join(&mut room, "A", "A");
    assert_eq!(
        send(&mut room, &mut a, ClientMessage::StartShareVideo("https://youtu.be/test".to_string())),
        vec![Effect::Broadcast(ServerMessage::VideoShared("https://youtu.be/test".to_string()))]
    );
    assert_eq!(send(&mut room, &mut a, ClientMessage::StopShareVideo), vec![Effect::Broadcast(ServerMessage::VideoStopped)]);
    assert_eq!(
        send(&mut room, &mut a, ClientMessage::Speaking(true)),
        vec![Effect::Broadcast(ServerMessage::PeerSpeaking { user_id: "A".to_string(), speaking: true })]
    );
    assert_eq!(
        send(&mut room, &mut a, ClientMessage::Reaction("+1".to_string())),
        vec![Effect::Broadcast(ServerMessage::Reaction { sender_id: "A".to_string(), emoji: "+1".to_string() })]
    );
}
