//! The per-connection session state machine. Each function takes the room,
//! the connection's own state and one event (a client command, a host
//! decision, an expiry, a disconnect) and returns the effects for the
//! connection's driver to perform: private replies, broadcasts on the shared
//! stream, subscribing, starting the lobby timer, and handing a decision to
//! a waiting connection.

use vstd::prelude::*;
use crate::protocol::{
    views, opt_view, clone_opt, ChatMessage, ChatMessageView, BreakoutRoom, BreakoutRoomView, ClientMessage,
    Participant, ParticipantView, ServerMessage, ServerMessageView,
};
use crate::room::{Admission, ProfileChange, Room, RoomView};
use crate::fresh::{new_id, now_millis};

verus! {

/// What one connection knows about itself.
#[derive(Debug, PartialEq)]
pub struct Connection {
    /// The participant id once admitted.
    pub my_id: Option<String>,
    /// The participant id while waiting in the lobby.
    pub knocking_id: Option<String>,
    /// The breakout room the participant is in; `None` for the main room.
    pub my_room_id: Option<String>,
}

/// The mathematical value of a `Connection`.
pub struct ConnectionView {
    pub my_id: Option<Seq<char>>,
    pub knocking_id: Option<Seq<char>>,
    pub my_room_id: Option<Seq<char>>,
}

impl View for Connection {
    type V = ConnectionView;

    open spec fn view(&self) -> ConnectionView {
        ConnectionView {
            my_id: opt_view(self.my_id),
            knocking_id: opt_view(self.knocking_id),
            my_room_id: opt_view(self.my_room_id),
        }
    }
}

impl Connection {
    /// A freshly opened connection: not joined, not waiting, in the main room.
    pub fn new() -> (r: Connection)
        ensures
            r@ == (ConnectionView { my_id: None, knocking_id: None, my_room_id: None }),
    {
        Connection { my_id: None, knocking_id: None, my_room_id: None }
    }
}

/// An action the connection's driver performs.
#[derive(Debug, PartialEq)]
pub enum Effect {
    /// Send privately to this connection's client.
    Reply(ServerMessage),
    /// Publish on the shared stream.
    Broadcast(ServerMessage),
    /// Start forwarding the shared stream, filtered, to this client.
    Subscribe,
    /// Start the lobby expiry timer of the waiting request with this id.
    StartKnockTimer(String),
    /// Hand a decision to the connection waiting under `target`.
    Decide { target: String, granted: bool },
}

/// The mathematical value of an `Effect`.
pub enum EffectView {
    Reply(ServerMessageView),
    Broadcast(ServerMessageView),
    Subscribe,
    StartKnockTimer(Seq<char>),
    Decide { target: Seq<char>, granted: bool },
}

impl View for Effect {
    type V = EffectView;

    open spec fn view(&self) -> EffectView {
        match self {
            Effect::Reply(m) => EffectView::Reply(m@),
            Effect::Broadcast(m) => EffectView::Broadcast(m@),
            Effect::Subscribe => EffectView::Subscribe,
            Effect::StartKnockTimer(id) => EffectView::StartKnockTimer(id@),
            Effect::Decide { target, granted } => EffectView::Decide { target: target@, granted: *granted },
        }
    }
}

/// The text of the rejection of a join while the room is locked.
pub open spec fn locked_text() -> Seq<char> {
    "Room is locked"@
}

/// The text of the rejection of a join while the roster is full.
pub open spec fn full_text() -> Seq<char> {
    "Room is full"@
}

/// What a connection is sent when it opens: the configuration, then the chat
/// history and the breakout rooms where there are any.
pub open spec fn open_effects(room: RoomView) -> Seq<EffectView> {
    seq![EffectView::Reply(ServerMessageView::RoomUpdated(room.config))]
        + (if room.chat_history.len() > 0 {
            seq![EffectView::Reply(ServerMessageView::ChatHistory(room.chat_history))]
        } else {
            Seq::empty()
        })
        + (if room.breakout_rooms.len() > 0 {
            seq![EffectView::Reply(ServerMessageView::BreakoutRoomsList(room.breakout_rooms))]
        } else {
            Seq::empty()
        })
}

/// What follows a successful admission of `me` into `room` (the room after
/// admission): the welcome, the new configuration where `me` became host,
/// the subscription, the join event, and a snapshot of the roster, the lobby
/// and the whiteboard.
pub open spec fn welcome_effects(room: RoomView, me: ParticipantView, host_assigned: bool) -> Seq<EffectView> {
    seq![EffectView::Reply(ServerMessageView::Welcome { id: me.id })]
        + (if host_assigned {
            seq![
                EffectView::Broadcast(ServerMessageView::RoomUpdated(room.config)),
                EffectView::Reply(ServerMessageView::RoomUpdated(room.config)),
            ]
        } else {
            Seq::empty()
        })
        + seq![
            EffectView::Subscribe,
            EffectView::Broadcast(ServerMessageView::ParticipantJoined(me)),
            EffectView::Reply(ServerMessageView::ParticipantList(room.participants)),
        ]
        + room.knocking_participants().map_values(
            |p: ParticipantView| EffectView::Reply(ServerMessageView::KnockingParticipant(p)),
        )
        + (if room.whiteboard.len() > 0 {
            seq![EffectView::Reply(ServerMessageView::WhiteboardHistory(room.whiteboard))]
        } else {
            Seq::empty()
        })
}

/// Admission of `me` through the roster check, for a connection in state `conn`.
pub open spec fn enroll_step(room: RoomView, conn: ConnectionView, me: ParticipantView) -> (RoomView, ConnectionView, Seq<EffectView>) {
    let (r, a) = room.enroll(me);
    match a {
        Admission::Full => (r, conn, seq![EffectView::Reply(ServerMessageView::Error(full_text()))]),
        Admission::Admitted { host_assigned } => (
            r,
            ConnectionView { my_id: Some(me.id), ..conn },
            welcome_effects(r, me, host_assigned),
        ),
    }
}

/// A join request under the fresh id `fresh_id`: ignored when the connection
/// already joined or waits; refused when the room is locked; parked in the
/// lobby when the lobby is on; otherwise admitted unless the room is full.
pub open spec fn join_step(room: RoomView, conn: ConnectionView, name: Seq<char>, fresh_id: Seq<char>) -> (RoomView, ConnectionView, Seq<EffectView>) {
    let me = ParticipantView { id: fresh_id, name, is_hand_raised: false, is_sharing_screen: false };
    if conn.my_id is Some || conn.knocking_id is Some {
        (room, conn, Seq::empty())
    } else if room.config.is_locked {
        (room, conn, seq![EffectView::Reply(ServerMessageView::Error(locked_text()))])
    } else if room.config.is_lobby_enabled {
        (
            room.knock(me),
            ConnectionView { knocking_id: Some(fresh_id), ..conn },
            seq![
                EffectView::Reply(ServerMessageView::Knocking),
                EffectView::Broadcast(ServerMessageView::KnockingParticipant(me)),
                EffectView::StartKnockTimer(fresh_id),
            ],
        )
    } else {
        enroll_step(room, conn, me)
    }
}

/// A refusal of the waiting request `id`, by the host or by expiry. Only the
/// first decision on the request acts: it removes the request, tells the room
/// that it left, and hands the refusal to the waiting connection.
pub open spec fn refuse_step(room: RoomView, id: Seq<char>) -> (RoomView, Seq<EffectView>) {
    let (r1, claimed) = room.claim_decision(id);
    if claimed {
        let (r2, removed) = r1.withdraw_knock(id);
        (
            r2,
            (if removed is Some {
                seq![EffectView::Broadcast(ServerMessageView::KnockingParticipantLeft(id))]
            } else {
                Seq::empty()
            }) + seq![EffectView::Decide { target: id, granted: false }],
        )
    } else {
        (room, Seq::empty())
    }
}

/// A grant of the waiting request `id` by the host: the first decision on the
/// request hands the grant to the waiting connection.
pub open spec fn grant_step(room: RoomView, id: Seq<char>) -> (RoomView, Seq<EffectView>) {
    let (r1, claimed) = room.claim_decision(id);
    if claimed {
        (r1, seq![EffectView::Decide { target: id, granted: true }])
    } else {
        (room, Seq::empty())
    }
}

/// A decision reaching the waiting connection itself.
pub open spec fn decision_step(room: RoomView, conn: ConnectionView, granted: bool) -> (RoomView, ConnectionView, Seq<EffectView>) {
    match conn.knocking_id {
        None => (room, conn, Seq::empty()),
        Some(id) => {
            let c = ConnectionView { knocking_id: None, ..conn };
            if !granted {
                (room, c, seq![EffectView::Reply(ServerMessageView::AccessDenied)])
            } else {
                let (r1, out) = room.enroll_knocker(id);
                match out {
                    None => (r1, c, seq![EffectView::Reply(ServerMessageView::AccessDenied)]),
                    Some((me, Admission::Full)) => (r1, c, seq![EffectView::Reply(ServerMessageView::Error(full_text()))]),
                    Some((me, Admission::Admitted { host_assigned })) => (
                        r1,
                        ConnectionView { my_id: Some(id), ..c },
                        welcome_effects(r1, me, host_assigned),
                    ),
                }
            }
        },
    }
}

/// The end of a connection: an admitted participant leaves the roster and the
/// room is told; a waiting one leaves the lobby and the room is told, unless
/// a decision or the timer removed the request first.
pub open spec fn close_step(room: RoomView, conn: ConnectionView) -> (RoomView, Seq<EffectView>) {
    match conn.my_id {
        Some(id) => (
            room.remove_participant(id).0,
            seq![EffectView::Broadcast(ServerMessageView::ParticipantLeft(id))],
        ),
        None => match conn.knocking_id {
            Some(id) => {
                let (r, removed) = room.withdraw_knock(id);
                (
                    r,
                    if removed is Some {
                        seq![EffectView::Broadcast(ServerMessageView::KnockingParticipantLeft(id))]
                    } else {
                        Seq::empty()
                    },
                )
            },
            None => (room, Seq::empty()),
        },
    }
}

/// One broadcast, or nothing.
pub open spec fn broadcast_if(present: bool, msg: ServerMessageView) -> Seq<EffectView> {
    if present {
        seq![EffectView::Broadcast(msg)]
    } else {
        Seq::empty()
    }
}

/// A profile change of participant `uid`, announced where the entry exists.
pub open spec fn profile_step(room: RoomView, uid: Seq<char>, change: ProfileChange) -> (RoomView, Seq<EffectView>) {
    let (r, p) = room.update_participant(uid, change);
    match p {
        Some(p) => (r, seq![EffectView::Broadcast(ServerMessageView::ParticipantUpdated(p))]),
        None => (r, Seq::empty()),
    }
}

/// A command of admitted participant `uid`.
pub open spec fn member_step(room: RoomView, conn: ConnectionView, uid: Seq<char>, cmd: ClientMessage, fresh_id: Seq<char>, now: u64) -> (RoomView, ConnectionView, Seq<EffectView>) {
    match cmd {
        ClientMessage::Join(_) => (room, conn, Seq::empty()),
        ClientMessage::KickParticipant(target) => {
            let (r, permitted) = room.kick(uid, target@);
            (r, conn, if permitted {
                seq![
                    EffectView::Broadcast(ServerMessageView::Kicked(target@)),
                    EffectView::Broadcast(ServerMessageView::ParticipantLeft(target@)),
                ]
            } else {
                Seq::empty()
            })
        },
        ClientMessage::GrantAccess(target) => {
            if room.is_host(uid) {
                let (r, e) = grant_step(room, target@);
                (r, conn, e)
            } else {
                (room, conn, Seq::empty())
            }
        },
        ClientMessage::DenyAccess(target) => {
            if room.is_host(uid) {
                let (r, e) = refuse_step(room, target@);
                (r, conn, e)
            } else {
                (room, conn, Seq::empty())
            }
        },
        ClientMessage::ToggleLobby => {
            let c = crate::protocol::RoomConfigView { is_lobby_enabled: !room.config.is_lobby_enabled, ..room.config };
            (room.with_config(c), conn, seq![EffectView::Broadcast(ServerMessageView::RoomUpdated(c))])
        },
        ClientMessage::ToggleRoomLock => {
            let c = crate::protocol::RoomConfigView { is_locked: !room.config.is_locked, ..room.config };
            (room.with_config(c), conn, seq![EffectView::Broadcast(ServerMessageView::RoomUpdated(c))])
        },
        ClientMessage::ToggleRecording => {
            let c = crate::protocol::RoomConfigView { is_recording: !room.config.is_recording, ..room.config };
            (room.with_config(c), conn, seq![EffectView::Broadcast(ServerMessageView::RoomUpdated(c))])
        },
        ClientMessage::Chat { content, recipient_id, attachment } => {
            let msg = ChatMessageView {
                user_id: uid,
                content: content@,
                recipient_id: opt_view(recipient_id),
                timestamp: now,
                attachment: match attachment {
                    Some(a) => Some(a@),
                    None => None,
                },
            };
            (
                room.record_chat(msg, conn.my_room_id).0,
                conn,
                seq![EffectView::Broadcast(ServerMessageView::Chat { message: msg, room_id: conn.my_room_id })],
            )
        },
        ClientMessage::CreatePoll(poll) => {
            let p = RoomView::stored_poll(poll@, fresh_id);
            (room.create_poll(p), conn, seq![EffectView::Broadcast(ServerMessageView::PollCreated(p))])
        },
        ClientMessage::Vote { poll_id, option_id } => {
            let (r, p) = room.vote(poll_id@, uid, option_id);
            (r, conn, match p {
                Some(p) => seq![EffectView::Broadcast(ServerMessageView::PollUpdated(p))],
                None => Seq::empty(),
            })
        },
        ClientMessage::Draw(action) => {
            let (r, a) = room.record_draw(action@, uid);
            (r, conn, seq![EffectView::Broadcast(ServerMessageView::Draw(a))])
        },
        ClientMessage::Reaction(emoji) => (
            room,
            conn,
            seq![EffectView::Broadcast(ServerMessageView::Reaction { sender_id: uid, emoji: emoji@ })],
        ),
        ClientMessage::UpdateProfile(name) => {
            let (r, e) = profile_step(room, uid, ProfileChange::Rename(name));
            (r, conn, e)
        },
        ClientMessage::ToggleRaiseHand => {
            let (r, e) = profile_step(room, uid, ProfileChange::ToggleRaiseHand);
            (r, conn, e)
        },
        ClientMessage::ToggleScreenShare => {
            let (r, e) = profile_step(room, uid, ProfileChange::ToggleScreenShare);
            (r, conn, e)
        },
        ClientMessage::Typing(is_typing) => (
            room,
            conn,
            seq![EffectView::Broadcast(ServerMessageView::PeerTyping { user_id: uid, is_typing, room_id: conn.my_room_id })],
        ),
        ClientMessage::CreateBreakoutRoom(name) => {
            let r = room.create_breakout_room(BreakoutRoomView { id: fresh_id, name: name@ });
            (r, conn, seq![EffectView::Broadcast(ServerMessageView::BreakoutRoomsList(r.breakout_rooms))])
        },
        ClientMessage::JoinBreakoutRoom(target) => (
            room.move_participant(uid, opt_view(target)),
            ConnectionView { my_room_id: opt_view(target), ..conn },
            Seq::empty(),
        ),
        ClientMessage::EndMeeting => (
            room,
            conn,
            if room.is_host(uid) {
                seq![EffectView::Broadcast(ServerMessageView::RoomEnded)]
            } else {
                Seq::empty()
            },
        ),
        ClientMessage::StartShareVideo(url) => (
            room,
            conn,
            seq![EffectView::Broadcast(ServerMessageView::VideoShared(url@))],
        ),
        ClientMessage::StopShareVideo => (room, conn, seq![EffectView::Broadcast(ServerMessageView::VideoStopped)]),
        ClientMessage::Speaking(speaking) => (
            room,
            conn,
            seq![EffectView::Broadcast(ServerMessageView::PeerSpeaking { user_id: uid, speaking })],
        ),
    }
}

/// One client command. Before admission only a join acts; `fresh_id` is the
/// id a join, a poll without id or a breakout room gets, and `now` the
/// timestamp of a chat message.
pub open spec fn command_step(room: RoomView, conn: ConnectionView, cmd: ClientMessage, fresh_id: Seq<char>, now: u64) -> (RoomView, ConnectionView, Seq<EffectView>) {
    match cmd {
        ClientMessage::Join(name) => join_step(room, conn, name@, fresh_id),
        _ => match conn.my_id {
            Some(uid) => member_step(room, conn, uid, cmd, fresh_id, now),
            None => (room, conn, Seq::empty()),
        },
    }
}

fn emit(v: &mut Vec<Effect>, e: Effect)
    ensures
        views(final(v)@) == views(old(v)@).push(e@),
{
    let ghost pre = views(v@);
    v.push(e);
    assert(views(v@) =~= pre.push(e@));
}

/// What a connection is sent as soon as it opens.
pub fn on_open(room: &Room) -> (r: Vec<Effect>)
    ensures
        views(r@) == open_effects(room@),
{
    let mut r: Vec<Effect> = Vec::new();
    emit(&mut r, Effect::Reply(ServerMessage::RoomUpdated(room.config().clone())));
    let history = room.chat_history();
    if history.len() > 0 {
        let h = history.clone();
        assert(views(h@) =~= views(history@));
        emit(&mut r, Effect::Reply(ServerMessage::ChatHistory(h)));
    }
    let rooms = room.breakout_rooms();
    if rooms.len() > 0 {
        let b = rooms.clone();
        assert(views(b@) =~= views(rooms@));
        emit(&mut r, Effect::Reply(ServerMessage::BreakoutRoomsList(b)));
    }
    assert(views(r@) =~= open_effects(room@));
    r
}

fn welcome(room: &Room, me: Participant, host_assigned: bool) -> (r: Vec<Effect>)
    ensures
        views(r@) == welcome_effects(room@, me@, host_assigned),
{
    let ghost w = room@;
    let ghost mv = me@;
    let mut r: Vec<Effect> = Vec::new();
    emit(&mut r, Effect::Reply(ServerMessage::Welcome { id: me.id.clone() }));
    let ghost part1 = views(r@);
    if host_assigned {
        emit(&mut r, Effect::Broadcast(ServerMessage::RoomUpdated(room.config().clone())));
        emit(&mut r, Effect::Reply(ServerMessage::RoomUpdated(room.config().clone())));
    }
    let ghost part2 = views(r@);
    emit(&mut r, Effect::Subscribe);
    emit(&mut r, Effect::Broadcast(ServerMessage::ParticipantJoined(me)));
    let roster = room.participants().clone();
    assert(views(roster@) =~= w.participants);
    emit(&mut r, Effect::Reply(ServerMessage::ParticipantList(roster)));
    let ghost part3 = views(r@);
    let waiting = room.knocking_participants();
    let ghost knock_effects = w.knocking_participants().map_values(
        |p: ParticipantView| EffectView::Reply(ServerMessageView::KnockingParticipant(p)),
    );
    assert(knock_effects.len() == waiting@.len());
    assert forall|j: int| 0 <= j < waiting@.len() implies knock_effects[j] == EffectView::Reply(
        ServerMessageView::KnockingParticipant(#[trigger] waiting@[j]@),
    ) by {
        assert(views(waiting@)[j] == waiting@[j]@);
    }
    let mut i: usize = 0;
    while i < waiting.len()
        invariant
            i <= waiting@.len(),
            views(waiting@) == w.knocking_participants(),
            knock_effects.len() == waiting@.len(),
            forall|j: int| 0 <= j < waiting@.len() ==> knock_effects[j] == EffectView::Reply(
                ServerMessageView::KnockingParticipant(#[trigger] waiting@[j]@),
            ),
            views(r@) =~= part3 + knock_effects.subrange(0, i as int),
        decreases waiting@.len() - i,
    {
        emit(&mut r, Effect::Reply(ServerMessage::KnockingParticipant(waiting[i].clone())));
        assert(knock_effects.subrange(0, i + 1) =~= knock_effects.subrange(0, i as int).push(knock_effects[i as int]));
        i += 1;
    }
    assert(knock_effects.subrange(0, i as int) =~= knock_effects);
    let ghost part4 = views(r@);
    let board = room.whiteboard();
    if board.len() > 0 {
        let b = board.clone();
        assert(views(b@) =~= views(board@));
        emit(&mut r, Effect::Reply(ServerMessage::WhiteboardHistory(b)));
    }
    assert(views(r@) =~= welcome_effects(w, mv, host_assigned));
    r
}

fn enroll_exec(room: &mut Room, conn: &mut Connection, me: Participant) -> (r: Vec<Effect>)
    ensures
        (final(room)@, final(conn)@, views(r@)) == enroll_step(old(room)@, old(conn)@, me@),
{
    let copy = me.clone();
    match room.enroll(me) {
        Admission::Full => {
            let mut r: Vec<Effect> = Vec::new();
            emit(&mut r, Effect::Reply(ServerMessage::Error(String::from_str("Room is full"))));
            assert(views(r@) =~= seq![EffectView::Reply(ServerMessageView::Error(full_text()))]);
            r
        },
        Admission::Admitted { host_assigned } => {
            conn.my_id = Some(copy.id.clone());
            welcome(room, copy, host_assigned)
        },
    }
}

fn join_exec(room: &mut Room, conn: &mut Connection, name: String, fresh_id: String) -> (r: Vec<Effect>)
    ensures
        (final(room)@, final(conn)@, views(r@)) == join_step(old(room)@, old(conn)@, name@, fresh_id@),
{
    let mut r: Vec<Effect> = Vec::new();
    if conn.my_id.is_some() || conn.knocking_id.is_some() {
        assert(views(r@) =~= Seq::<EffectView>::empty());
        return r;
    }
    if room.config().is_locked {
        emit(&mut r, Effect::Reply(ServerMessage::Error(String::from_str("Room is locked"))));
        assert(views(r@) =~= seq![EffectView::Reply(ServerMessageView::Error(locked_text()))]);
        return r;
    }
    let me = Participant { id: fresh_id.clone(), name, is_hand_raised: false, is_sharing_screen: false };
    if room.config().is_lobby_enabled {
        let copy = me.clone();
        room.knock(me);
        conn.knocking_id = Some(fresh_id.clone());
        emit(&mut r, Effect::Reply(ServerMessage::Knocking));
        emit(&mut r, Effect::Broadcast(ServerMessage::KnockingParticipant(copy)));
        emit(&mut r, Effect::StartKnockTimer(fresh_id));
        assert(views(r@) =~= join_step(old(room)@, old(conn)@, name@, fresh_id@).2);
        return r;
    }
    enroll_exec(room, conn, me)
}

/// Refuses the waiting request `id`; only the first decision on it acts.
fn refuse_exec(room: &mut Room, id: &String) -> (r: Vec<Effect>)
    ensures
        (final(room)@, views(r@)) == refuse_step(old(room)@, id@),
{
    let mut r: Vec<Effect> = Vec::new();
    if room.claim_decision(id) {
        let removed = room.withdraw_knock(id);
        if removed.is_some() {
            emit(&mut r, Effect::Broadcast(ServerMessage::KnockingParticipantLeft(id.clone())));
        }
        emit(&mut r, Effect::Decide { target: id.clone(), granted: false });
    }
    assert(views(r@) =~= refuse_step(old(room)@, id@).1);
    r
}

/// The lobby timer of the waiting request `id` ran out: the request is
/// refused unless a decision claimed it first.
pub fn on_knock_expired(room: &mut Room, id: &String) -> (r: Vec<Effect>)
    ensures
        (final(room)@, views(r@)) == refuse_step(old(room)@, id@),
{
    refuse_exec(room, id)
}

/// A host decision reaches the connection that waits in the lobby.
pub fn on_decision(room: &mut Room, conn: &mut Connection, granted: bool) -> (r: Vec<Effect>)
    ensures
        (final(room)@, final(conn)@, views(r@)) == decision_step(old(room)@, old(conn)@, granted),
{
    let mut r: Vec<Effect> = Vec::new();
    let id = match &conn.knocking_id {
        Some(id) => id.clone(),
        None => {
            assert(views(r@) =~= Seq::<EffectView>::empty());
            return r;
        },
    };
    conn.knocking_id = None;
    if !granted {
        emit(&mut r, Effect::Reply(ServerMessage::AccessDenied));
        assert(views(r@) =~= seq![EffectView::Reply(ServerMessageView::AccessDenied)]);
        return r;
    }
    match room.enroll_knocker(&id) {
        None => {
            emit(&mut r, Effect::Reply(ServerMessage::AccessDenied));
            assert(views(r@) =~= seq![EffectView::Reply(ServerMessageView::AccessDenied)]);
            r
        },
        Some((_, Admission::Full)) => {
            emit(&mut r, Effect::Reply(ServerMessage::Error(String::from_str("Room is full"))));
            assert(views(r@) =~= seq![EffectView::Reply(ServerMessageView::Error(full_text()))]);
            r
        },
        Some((me, Admission::Admitted { host_assigned })) => {
            conn.my_id = Some(id);
            welcome(room, me, host_assigned)
        },
    }
}

/// The connection ended: its participant or its waiting request leaves.
pub fn on_close(room: &mut Room, conn: &Connection) -> (r: Vec<Effect>)
    ensures
        (final(room)@, views(r@)) == close_step(old(room)@, conn@),
{
    let mut r: Vec<Effect> = Vec::new();
    match &conn.my_id {
        Some(id) => {
            room.remove_participant(id);
            emit(&mut r, Effect::Broadcast(ServerMessage::ParticipantLeft(id.clone())));
        },
        None => match &conn.knocking_id {
            Some(id) => {
                if room.withdraw_knock(id).is_some() {
                    emit(&mut r, Effect::Broadcast(ServerMessage::KnockingParticipantLeft(id.clone())));
                }
            },
            None => {},
        },
    }
    assert(views(r@) =~= close_step(old(room)@, conn@).1);
    r
}

fn profile_exec(room: &mut Room, uid: &String, change: ProfileChange) -> (r: Vec<Effect>)
    ensures
        (final(room)@, views(r@)) == profile_step(old(room)@, uid@, change),
{
    let mut r: Vec<Effect> = Vec::new();
    match room.update_participant(uid, change) {
        Some(p) => emit(&mut r, Effect::Broadcast(ServerMessage::ParticipantUpdated(p))),
        None => {},
    }
    assert(views(r@) =~= profile_step(old(room)@, uid@, change).1);
    r
}

fn broadcast_one(msg: ServerMessage) -> (r: Vec<Effect>)
    ensures
        views(r@) == seq![EffectView::Broadcast(msg@)],
{
    let mut r: Vec<Effect> = Vec::new();
    emit(&mut r, Effect::Broadcast(msg));
    assert(views(r@) =~= seq![EffectView::Broadcast(msg@)]);
    r
}

fn nothing() -> (r: Vec<Effect>)
    ensures
        views(r@) == Seq::<EffectView>::empty(),
{
    let r: Vec<Effect> = Vec::new();
    assert(views(r@) =~= Seq::<EffectView>::empty());
    r
}

fn is_host_exec(room: &Room, uid: &String) -> (r: bool)
    ensures
        r == room@.is_host(uid@),
{
    match &room.config().host_id {
        Some(h) => *h == *uid,
        None => false,
    }
}

fn member_exec(
    room: &mut Room,
    conn: &mut Connection,
    uid: &String,
    cmd: ClientMessage,
    fresh_id: String,
    now: u64,
) -> (r: Vec<Effect>)
    ensures
        (final(room)@, final(conn)@, views(r@)) == member_step(old(room)@, old(conn)@, uid@, cmd, fresh_id@, now),
{
    let ghost c0 = cmd;
    match cmd {
        ClientMessage::Join(_) => nothing(),
        ClientMessage::KickParticipant(target) => {
            if room.kick(uid, &target) {
                let mut r: Vec<Effect> = Vec::new();
                emit(&mut r, Effect::Broadcast(ServerMessage::Kicked(target.clone())));
                emit(&mut r, Effect::Broadcast(ServerMessage::ParticipantLeft(target)));
                assert(views(r@) =~= member_step(old(room)@, old(conn)@, uid@, c0, fresh_id@, now).2);
                r
            } else {
                nothing()
            }
        },
        ClientMessage::GrantAccess(target) => {
            if is_host_exec(room, uid) {
                let mut r: Vec<Effect> = Vec::new();
                if room.claim_decision(&target) {
                    emit(&mut r, Effect::Decide { target, granted: true });
                }
                assert(views(r@) =~= member_step(old(room)@, old(conn)@, uid@, c0, fresh_id@, now).2);
                r
            } else {
                nothing()
            }
        },
        ClientMessage::DenyAccess(target) => {
            if is_host_exec(room, uid) {
                refuse_exec(room, &target)
            } else {
                nothing()
            }
        },
        ClientMessage::ToggleLobby => broadcast_one(ServerMessage::RoomUpdated(room.toggle_lobby())),
        ClientMessage::ToggleRoomLock => broadcast_one(ServerMessage::RoomUpdated(room.toggle_lock())),
        ClientMessage::ToggleRecording => broadcast_one(ServerMessage::RoomUpdated(room.toggle_recording())),
        ClientMessage::Chat { content, recipient_id, attachment } => {
            let msg = ChatMessage { user_id: uid.clone(), content, recipient_id, timestamp: now, attachment };
            let copy = msg.clone();
            room.record_chat(msg, &conn.my_room_id);
            broadcast_one(ServerMessage::Chat { message: copy, room_id: clone_opt(&conn.my_room_id) })
        },
        ClientMessage::CreatePoll(poll) => {
            let stored = room.create_poll(poll, fresh_id);
            broadcast_one(ServerMessage::PollCreated(stored))
        },
        ClientMessage::Vote { poll_id, option_id } => {
            match room.vote(&poll_id, uid, option_id) {
                Some(p) => broadcast_one(ServerMessage::PollUpdated(p)),
                None => nothing(),
            }
        },
        ClientMessage::Draw(action) => {
            let a = room.record_draw(action, uid);
            broadcast_one(ServerMessage::Draw(a))
        },
        ClientMessage::Reaction(emoji) => broadcast_one(ServerMessage::Reaction { sender_id: uid.clone(), emoji }),
        ClientMessage::UpdateProfile(name) => profile_exec(room, uid, ProfileChange::Rename(name)),
        ClientMessage::ToggleRaiseHand => profile_exec(room, uid, ProfileChange::ToggleRaiseHand),
        ClientMessage::ToggleScreenShare => profile_exec(room, uid, ProfileChange::ToggleScreenShare),
        ClientMessage::Typing(is_typing) => broadcast_one(
            ServerMessage::PeerTyping { user_id: uid.clone(), is_typing, room_id: clone_opt(&conn.my_room_id) },
        ),
        ClientMessage::CreateBreakoutRoom(name) => {
            let list = room.create_breakout_room(BreakoutRoom { id: fresh_id, name });
            broadcast_one(ServerMessage::BreakoutRoomsList(list))
        },
        ClientMessage::JoinBreakoutRoom(target) => {
            room.move_participant(uid, clone_opt(&target));
            conn.my_room_id = target;
            nothing()
        },
        ClientMessage::EndMeeting => {
            if is_host_exec(room, uid) {
                broadcast_one(ServerMessage::RoomEnded)
            } else {
                nothing()
            }
        },
        ClientMessage::StartShareVideo(url) => broadcast_one(ServerMessage::VideoShared(url)),
        ClientMessage::StopShareVideo => broadcast_one(ServerMessage::VideoStopped),
        ClientMessage::Speaking(speaking) => broadcast_one(
            ServerMessage::PeerSpeaking { user_id: uid.clone(), speaking },
        ),
    }
}

/// Handles one client command. `fresh_id` is the id given to a joining
/// participant, to a poll that arrives without id, and to a new breakout
/// room; `now` timestamps a chat message.
pub fn handle_command(room: &mut Room, conn: &mut Connection, cmd: ClientMessage, fresh_id: String, now: u64) -> (r: Vec<Effect>)
    ensures
        (final(room)@, final(conn)@, views(r@)) == command_step(old(room)@, old(conn)@, cmd, fresh_id@, now),
{
    match cmd {
        ClientMessage::Join(name) => join_exec(room, conn, name, fresh_id),
        _ => {
            match &conn.my_id {
                Some(uid) => {
                    let uid = uid.clone();
                    member_exec(room, conn, &uid, cmd, fresh_id, now)
                },
                None => nothing(),
            }
        },
    }
}

/// Handles one client command with a newly generated id and the current
/// time: the outcome is that of `handle_command` for some 36-character id
/// and some timestamp.
pub fn handle_command_now(room: &mut Room, conn: &mut Connection, cmd: ClientMessage) -> (r: Vec<Effect>)
    ensures
        exists|fresh_id: Seq<char>, now: u64|
            fresh_id.len() == 36 && (final(room)@, final(conn)@, views(r@)) == command_step(
                old(room)@,
                old(conn)@,
                cmd,
                fresh_id,
                now,
            ),
{
    let fresh_id = new_id();
    let now = now_millis();
    let ghost f = fresh_id@;
    let r = handle_command(room, conn, cmd, fresh_id, now);
    assert(f.len() == 36 && (room@, conn@, views(r@)) == command_step(old(room)@, old(conn)@, cmd, f, now));
    r
}

} // verus!
