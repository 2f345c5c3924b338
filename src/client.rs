//! The client's side of the session: folding the events it receives, private
//! snapshots and broadcast deltas alike, into its picture of the room.

use vstd::prelude::*;
use crate::keys::key_index;
use crate::protocol::{
    views, opt_view, BreakoutRoom, BreakoutRoomView, ChatMessage, ChatMessageView, DrawAction, DrawActionView,
    Participant, ParticipantView, Poll, PollView, RoomConfig, RoomConfigView, ServerMessage, ServerMessageView,
};
use crate::room::{find_participant, find_poll, participant_keys, poll_keys};

verus! {

/// Where the client stands in the join flow.
#[derive(Debug, Clone, Copy, PartialEq, Eq, Structural)]
pub enum RoomConnectionState {
    Prejoin,
    Lobby,
    Joined,
}

/// Something the client should tell its user.
#[derive(Debug, PartialEq)]
pub enum Notice {
    RecordingStarted,
    RecordingStopped,
    AccessDenied,
    Kicked,
    MeetingEnded,
    /// The participant with this name raised their hand.
    HandRaised(String),
    Error(String),
}

/// The mathematical value of a `Notice`.
pub enum NoticeView {
    RecordingStarted,
    RecordingStopped,
    AccessDenied,
    Kicked,
    MeetingEnded,
    HandRaised(Seq<char>),
    Error(Seq<char>),
}

impl View for Notice {
    type V = NoticeView;

    open spec fn view(&self) -> NoticeView {
        match self {
            Notice::RecordingStarted => NoticeView::RecordingStarted,
            Notice::RecordingStopped => NoticeView::RecordingStopped,
            Notice::AccessDenied => NoticeView::AccessDenied,
            Notice::Kicked => NoticeView::Kicked,
            Notice::MeetingEnded => NoticeView::MeetingEnded,
            Notice::HandRaised(name) => NoticeView::HandRaised(name@),
            Notice::Error(text) => NoticeView::Error(text@),
        }
    }
}

/// What a client knows of the room.
#[derive(Debug)]
pub struct ClientState {
    pub connection_state: RoomConnectionState,
    pub my_id: Option<String>,
    pub config: RoomConfig,
    pub is_connected: bool,
    pub messages: Vec<ChatMessage>,
    pub participants: Vec<Participant>,
    pub knocking_participants: Vec<Participant>,
    /// Ids of the peers currently typing, each once.
    pub typing_users: Vec<String>,
    /// Ids of the peers currently speaking, each once.
    pub speaking_peers: Vec<String>,
    pub breakout_rooms: Vec<BreakoutRoom>,
    pub polls: Vec<Poll>,
    pub whiteboard_history: Vec<DrawAction>,
    pub shared_video_url: Option<String>,
    /// The latest reaction: sender id and emoji.
    pub last_reaction: Option<(String, String)>,
}

/// The mathematical value of a `ClientState`.
pub struct ClientStateView {
    pub connection_state: RoomConnectionState,
    pub my_id: Option<Seq<char>>,
    pub config: RoomConfigView,
    pub is_connected: bool,
    pub messages: Seq<ChatMessageView>,
    pub participants: Seq<ParticipantView>,
    pub knocking_participants: Seq<ParticipantView>,
    pub typing_users: Seq<Seq<char>>,
    pub speaking_peers: Seq<Seq<char>>,
    pub breakout_rooms: Seq<BreakoutRoomView>,
    pub polls: Seq<PollView>,
    pub whiteboard_history: Seq<DrawActionView>,
    pub shared_video_url: Option<Seq<char>>,
    pub last_reaction: Option<(Seq<char>, Seq<char>)>,
}

impl View for ClientState {
    type V = ClientStateView;

    open spec fn view(&self) -> ClientStateView {
        ClientStateView {
            connection_state: self.connection_state,
            my_id: opt_view(self.my_id),
            config: self.config@,
            is_connected: self.is_connected,
            messages: views(self.messages@),
            participants: views(self.participants@),
            knocking_participants: views(self.knocking_participants@),
            typing_users: views(self.typing_users@),
            speaking_peers: views(self.speaking_peers@),
            breakout_rooms: views(self.breakout_rooms@),
            polls: views(self.polls@),
            whiteboard_history: views(self.whiteboard_history@),
            shared_video_url: opt_view(self.shared_video_url),
            last_reaction: match self.last_reaction {
                Some((a, b)) => Some((a@, b@)),
                None => None,
            },
        }
    }
}

/// The participants of `s` other than `id`.
pub open spec fn without_participant(s: Seq<ParticipantView>, id: Seq<char>) -> Seq<ParticipantView> {
    s.filter(|p: ParticipantView| p.id != id)
}

/// The ids of `s` other than `id`.
pub open spec fn without_id(s: Seq<Seq<char>>, id: Seq<char>) -> Seq<Seq<char>> {
    s.filter(|x: Seq<char>| x != id)
}

/// `s` with `id` added where it is missing.
pub open spec fn with_id(s: Seq<Seq<char>>, id: Seq<char>) -> Seq<Seq<char>> {
    if s.contains(id) {
        s
    } else {
        s.push(id)
    }
}

/// `s` with `p` appended unless a participant with its id is there already.
pub open spec fn with_participant(s: Seq<ParticipantView>, p: ParticipantView) -> Seq<ParticipantView> {
    if participant_keys(s).contains(p.id) {
        s
    } else {
        s.push(p)
    }
}

/// The client state after one event, and what to tell the user about it.
pub open spec fn apply_event(s: ClientStateView, msg: ServerMessageView) -> (ClientStateView, Option<NoticeView>) {
    match msg {
        ServerMessageView::Welcome { id } => (
            ClientStateView { my_id: Some(id), connection_state: RoomConnectionState::Joined, ..s },
            None,
        ),
        ServerMessageView::RoomUpdated(c) => (
            ClientStateView { config: c, ..s },
            if c.is_recording == s.config.is_recording {
                None
            } else if c.is_recording {
                Some(NoticeView::RecordingStarted)
            } else {
                Some(NoticeView::RecordingStopped)
            },
        ),
        ServerMessageView::Chat { message, .. } => (ClientStateView { messages: s.messages.push(message), ..s }, None),
        ServerMessageView::ChatHistory(h) => (ClientStateView { messages: h, ..s }, None),
        ServerMessageView::ParticipantJoined(p) => (
            ClientStateView {
                knocking_participants: without_participant(s.knocking_participants, p.id),
                participants: with_participant(s.participants, p),
                ..s
            },
            None,
        ),
        ServerMessageView::KnockingParticipantLeft(id) => (
            ClientStateView { knocking_participants: without_participant(s.knocking_participants, id), ..s },
            None,
        ),
        ServerMessageView::ParticipantLeft(id) => (
            ClientStateView {
                participants: without_participant(s.participants, id),
                typing_users: without_id(s.typing_users, id),
                ..s
            },
            None,
        ),
        ServerMessageView::ParticipantList(l) => (ClientStateView { participants: l, ..s }, None),
        ServerMessageView::Knocking => (ClientStateView { connection_state: RoomConnectionState::Lobby, ..s }, None),
        ServerMessageView::AccessGranted => (
            ClientStateView { connection_state: RoomConnectionState::Joined, ..s },
            None,
        ),
        ServerMessageView::AccessDenied => (
            ClientStateView { connection_state: RoomConnectionState::Prejoin, ..s },
            Some(NoticeView::AccessDenied),
        ),
        ServerMessageView::Kicked(target) => {
            if s.my_id == Some(target) {
                (ClientStateView { connection_state: RoomConnectionState::Prejoin, ..s }, Some(NoticeView::Kicked))
            } else {
                (s, None)
            }
        },
        ServerMessageView::RoomEnded => (
            ClientStateView {
                connection_state: RoomConnectionState::Prejoin,
                participants: Seq::empty(),
                is_connected: false,
                ..s
            },
            Some(NoticeView::MeetingEnded),
        ),
        ServerMessageView::KnockingParticipant(p) => (
            ClientStateView { knocking_participants: with_participant(s.knocking_participants, p), ..s },
            None,
        ),
        ServerMessageView::ParticipantUpdated(p) => {
            let i = key_index(participant_keys(s.participants), p.id);
            if i >= 0 {
                (
                    ClientStateView { participants: s.participants.update(i, p), ..s },
                    if p.is_hand_raised && !s.participants[i].is_hand_raised {
                        Some(NoticeView::HandRaised(p.name))
                    } else {
                        None
                    },
                )
            } else {
                (s, None)
            }
        },
        ServerMessageView::Reaction { sender_id, emoji } => (
            ClientStateView { last_reaction: Some((sender_id, emoji)), ..s },
            None,
        ),
        ServerMessageView::PeerTyping { user_id, is_typing, .. } => (
            ClientStateView {
                typing_users: if is_typing {
                    with_id(s.typing_users, user_id)
                } else {
                    without_id(s.typing_users, user_id)
                },
                ..s
            },
            None,
        ),
        ServerMessageView::BreakoutRoomsList(r) => (ClientStateView { breakout_rooms: r, ..s }, None),
        ServerMessageView::PollCreated(p) => (ClientStateView { polls: s.polls.push(p), ..s }, None),
        ServerMessageView::PollUpdated(p) => {
            let i = key_index(poll_keys(s.polls), p.id);
            (if i >= 0 {
                ClientStateView { polls: s.polls.update(i, p), ..s }
            } else {
                s
            }, None)
        },
        ServerMessageView::Draw(a) => (
            ClientStateView { whiteboard_history: s.whiteboard_history.push(a), ..s },
            None,
        ),
        ServerMessageView::WhiteboardHistory(h) => (ClientStateView { whiteboard_history: h, ..s }, None),
        ServerMessageView::VideoShared(url) => (ClientStateView { shared_video_url: Some(url), ..s }, None),
        ServerMessageView::VideoStopped => (ClientStateView { shared_video_url: None, ..s }, None),
        ServerMessageView::PeerSpeaking { user_id, speaking } => (
            ClientStateView {
                speaking_peers: if speaking {
                    with_id(s.speaking_peers, user_id)
                } else {
                    without_id(s.speaking_peers, user_id)
                },
                ..s
            },
            None,
        ),
        ServerMessageView::Error(text) => (s, Some(NoticeView::Error(text))),
    }
}

fn participants_without(v: &Vec<Participant>, id: &String) -> (r: Vec<Participant>)
    ensures
        views(r@) == without_participant(views(v@), id@),
{
    let mut r: Vec<Participant> = Vec::new();
    let mut i: usize = 0;
    while i < v.len()
        invariant
            i <= v@.len(),
            views(r@) == without_participant(views(v@).subrange(0, i as int), id@),
        decreases v@.len() - i,
    {
        let ghost pre = views(v@).subrange(0, i as int);
        let ghost next = views(v@).subrange(0, i + 1);
        proof {
            reveal(Seq::filter);
            assert(next.drop_last() =~= pre);
            assert(next.last() == v@[i as int]@);
        }
        if !(v[i].id == *id) {
            let ghost prev = views(r@);
            r.push(v[i].clone());
            assert(views(r@) =~= prev.push(v@[i as int]@));
        }
        i += 1;
    }
    assert(views(v@).subrange(0, i as int) =~= views(v@));
    r
}

fn ids_without(v: &Vec<String>, id: &String) -> (r: Vec<String>)
    ensures
        views(r@) == without_id(views(v@), id@),
{
    let mut r: Vec<String> = Vec::new();
    let mut i: usize = 0;
    while i < v.len()
        invariant
            i <= v@.len(),
            views(r@) == without_id(views(v@).subrange(0, i as int), id@),
        decreases v@.len() - i,
    {
        let ghost pre = views(v@).subrange(0, i as int);
        let ghost next = views(v@).subrange(0, i + 1);
        proof {
            reveal(Seq::filter);
            assert(next.drop_last() =~= pre);
            assert(next.last() == v@[i as int]@);
        }
        if !(v[i] == *id) {
            let ghost prev = views(r@);
            r.push(v[i].clone());
            assert(views(r@) =~= prev.push(v@[i as int]@));
        }
        i += 1;
    }
    assert(views(v@).subrange(0, i as int) =~= views(v@));
    r
}

fn contains_id(v: &Vec<String>, id: &String) -> (r: bool)
    ensures
        r == views(v@).contains(id@),
{
    let mut i: usize = 0;
    while i < v.len()
        invariant
            i <= v@.len(),
            forall|j: int| 0 <= j < i ==> views(v@)[j] != id@,
        decreases v@.len() - i,
    {
        assert(views(v@)[i as int] == v@[i as int]@);
        if v[i] == *id {
            return true;
        }
        i += 1;
    }
    false
}

fn add_id(v: &mut Vec<String>, id: String)
    ensures
        views(final(v)@) == with_id(views(old(v)@), id@),
{
    if !contains_id(v, &id) {
        let ghost prev = views(v@);
        let ghost iv = id@;
        v.push(id);
        assert(views(v@) =~= prev.push(iv));
    }
}

fn add_participant(v: &mut Vec<Participant>, p: Participant)
    ensures
        views(final(v)@) == with_participant(views(old(v)@), p@),
{
    let ghost keys = participant_keys(views(v@));
    match find_participant(v, &p.id) {
        Some(i) => {
            assert(keys[i as int] == p.id@);
        },
        None => {
            proof {
                crate::keys::lemma_key_index_range(keys, p.id@);
            }
            let ghost prev = views(v@);
            let ghost pv = p@;
            v.push(p);
            assert(views(v@) =~= prev.push(pv));
        },
    }
}

impl ClientState {
    /// A client that has not joined: default configuration, nothing known.
    pub fn new() -> (r: ClientState)
        ensures
            r.connection_state == RoomConnectionState::Prejoin,
            r@.my_id is None,
            r@.config == crate::protocol::default_config_view(),
            !r.is_connected,
            r@.messages.len() == 0,
            r@.participants.len() == 0,
            r@.knocking_participants.len() == 0,
            r@.typing_users.len() == 0,
            r@.speaking_peers.len() == 0,
            r@.breakout_rooms.len() == 0,
            r@.polls.len() == 0,
            r@.whiteboard_history.len() == 0,
            r@.shared_video_url is None,
            r@.last_reaction is None,
    {
        ClientState {
            connection_state: RoomConnectionState::Prejoin,
            my_id: None,
            config: RoomConfig::default(),
            is_connected: false,
            messages: Vec::new(),
            participants: Vec::new(),
            knocking_participants: Vec::new(),
            typing_users: Vec::new(),
            speaking_peers: Vec::new(),
            breakout_rooms: Vec::new(),
            polls: Vec::new(),
            whiteboard_history: Vec::new(),
            shared_video_url: None,
            last_reaction: None,
        }
    }

    /// Folds one event from the server into the state; returns what the user
    /// should be told, if anything.
    pub fn apply(&mut self, msg: ServerMessage) -> (r: Option<Notice>)
        ensures
            (final(self)@, match r {
                Some(n) => Some(n@),
                None => None,
            }) == apply_event(old(self)@, msg@),
    {
        let ghost s0 = self@;
        let ghost m = msg@;
        match msg {
            ServerMessage::Welcome { id } => {
                self.my_id = Some(id);
                self.connection_state = RoomConnectionState::Joined;
                None
            },
            ServerMessage::RoomUpdated(c) => {
                let was = self.config.is_recording;
                let now = c.is_recording;
                self.config = c;
                if now == was {
                    None
                } else if now {
                    Some(Notice::RecordingStarted)
                } else {
                    Some(Notice::RecordingStopped)
                }
            },
            ServerMessage::Chat { message, .. } => {
                let ghost mv = message@;
                self.messages.push(message);
                assert(self@.messages =~= s0.messages.push(mv));
                None
            },
            ServerMessage::ChatHistory(h) => {
                self.messages = h;
                None
            },
            ServerMessage::ParticipantJoined(p) => {
                self.knocking_participants = participants_without(&self.knocking_participants, &p.id);
                add_participant(&mut self.participants, p);
                None
            },
            ServerMessage::KnockingParticipantLeft(id) => {
                self.knocking_participants = participants_without(&self.knocking_participants, &id);
                None
            },
            ServerMessage::ParticipantLeft(id) => {
                self.participants = participants_without(&self.participants, &id);
                self.typing_users = ids_without(&self.typing_users, &id);
                None
            },
            ServerMessage::ParticipantList(l) => {
                self.participants = l;
                None
            },
            ServerMessage::Knocking => {
                self.connection_state = RoomConnectionState::Lobby;
                None
            },
            ServerMessage::AccessGranted => {
                self.connection_state = RoomConnectionState::Joined;
                None
            },
            ServerMessage::AccessDenied => {
                self.connection_state = RoomConnectionState::Prejoin;
                Some(Notice::AccessDenied)
            },
            ServerMessage::Kicked(target) => {
                let mine = match &self.my_id {
                    Some(me) => *me == target,
                    None => false,
                };
                if mine {
                    self.connection_state = RoomConnectionState::Prejoin;
                    Some(Notice::Kicked)
                } else {
                    None
                }
            },
            ServerMessage::RoomEnded => {
                self.connection_state = RoomConnectionState::Prejoin;
                self.participants = Vec::new();
                self.is_connected = false;
                assert(self@.participants =~= Seq::<ParticipantView>::empty());
                Some(Notice::MeetingEnded)
            },
            ServerMessage::KnockingParticipant(p) => {
                add_participant(&mut self.knocking_participants, p);
                None
            },
            ServerMessage::ParticipantUpdated(p) => {
                match find_participant(&self.participants, &p.id) {
                    Some(i) => {
                        let raised = p.is_hand_raised && !self.participants[i].is_hand_raised;
                        let name = p.name.clone();
                        let ghost pv = p@;
                        self.participants.set(i, p);
                        assert(self@.participants =~= s0.participants.update(i as int, pv));
                        if raised {
                            Some(Notice::HandRaised(name))
                        } else {
                            None
                        }
                    },
                    None => None,
                }
            },
            ServerMessage::Reaction { sender_id, emoji } => {
                self.last_reaction = Some((sender_id, emoji));
                None
            },
            ServerMessage::PeerTyping { user_id, is_typing, .. } => {
                if is_typing {
                    add_id(&mut self.typing_users, user_id);
                } else {
                    self.typing_users = ids_without(&self.typing_users, &user_id);
                }
                None
            },
            ServerMessage::BreakoutRoomsList(r) => {
                self.breakout_rooms = r;
                None
            },
            ServerMessage::PollCreated(p) => {
                let ghost pv = p@;
                self.polls.push(p);
                assert(self@.polls =~= s0.polls.push(pv));
                None
            },
            ServerMessage::PollUpdated(p) => {
                match find_poll(&self.polls, &p.id) {
                    Some(i) => {
                        let ghost pv = p@;
                        self.polls.set(i, p);
                        assert(self@.polls =~= s0.polls.update(i as int, pv));
                    },
                    None => {},
                }
                None
            },
            ServerMessage::Draw(a) => {
                let ghost av = a@;
                self.whiteboard_history.push(a);
                assert(self@.whiteboard_history =~= s0.whiteboard_history.push(av));
                None
            },
            ServerMessage::WhiteboardHistory(h) => {
                self.whiteboard_history = h;
                None
            },
            ServerMessage::VideoShared(url) => {
                self.shared_video_url = Some(url);
                None
            },
            ServerMessage::VideoStopped => {
                self.shared_video_url = None;
                None
            },
            ServerMessage::PeerSpeaking { user_id, speaking } => {
                if speaking {
                    add_id(&mut self.speaking_peers, user_id);
                } else {
                    self.speaking_peers = ids_without(&self.speaking_peers, &user_id);
                }
                None
            },
            ServerMessage::Error(text) => Some(Notice::Error(text)),
        }
    }
}

} // verus!
