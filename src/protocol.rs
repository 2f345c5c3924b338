//! Messages exchanged with clients and the records they carry.

use vstd::prelude::*;

verus! {

/// The views of a sequence of values, element by element.
pub open spec fn views<T: View>(s: Seq<T>) -> Seq<T::V> {
    s.map_values(|x: T| x@)
}

/// The view of an optional string.
pub open spec fn opt_view(o: Option<String>) -> Option<Seq<char>> {
    match o {
        Some(s) => Some(s@),
        None => None,
    }
}

/// The view of an optional value.
pub open spec fn opt_views<T: View>(o: Option<T>) -> Option<T::V> {
    match o {
        Some(x) => Some(x@),
        None => None,
    }
}

/// A copy of an optional string.
pub fn clone_opt(o: &Option<String>) -> (r: Option<String>)
    ensures
        opt_view(r) == opt_view(*o),
{
    match o {
        Some(s) => Some(s.clone()),
        None => None,
    }
}

/// A file sent inline with a chat message.
#[derive(Debug, PartialEq)]
pub struct FileAttachment {
    pub filename: String,
    pub mime_type: String,
    pub size: u64,
    pub content_base64: String,
}

/// The mathematical value of a `FileAttachment`.
pub struct FileAttachmentView {
    pub filename: Seq<char>,
    pub mime_type: Seq<char>,
    pub size: u64,
    pub content_base64: Seq<char>,
}

impl View for FileAttachment {
    type V = FileAttachmentView;

    open spec fn view(&self) -> FileAttachmentView {
        FileAttachmentView {
            filename: self.filename@,
            mime_type: self.mime_type@,
            size: self.size,
            content_base64: self.content_base64@,
        }
    }
}

impl Clone for FileAttachment {
    fn clone(&self) -> (r: FileAttachment)
        ensures
            r@ == self@,
    {
        FileAttachment {
            filename: self.filename.clone(),
            mime_type: self.mime_type.clone(),
            size: self.size,
            content_base64: self.content_base64.clone(),
        }
    }
}

/// Configuration of the room; `host_id` names the participant with elevated authority.
#[derive(Debug, PartialEq)]
pub struct RoomConfig {
    pub room_name: String,
    pub is_locked: bool,
    pub is_recording: bool,
    pub is_lobby_enabled: bool,
    pub max_participants: u32,
    pub host_id: Option<String>,
}

/// The mathematical value of a `RoomConfig`.
pub struct RoomConfigView {
    pub room_name: Seq<char>,
    pub is_locked: bool,
    pub is_recording: bool,
    pub is_lobby_enabled: bool,
    pub max_participants: u32,
    pub host_id: Option<Seq<char>>,
}

impl View for RoomConfig {
    type V = RoomConfigView;

    open spec fn view(&self) -> RoomConfigView {
        RoomConfigView {
            room_name: self.room_name@,
            is_locked: self.is_locked,
            is_recording: self.is_recording,
            is_lobby_enabled: self.is_lobby_enabled,
            max_participants: self.max_participants,
            host_id: opt_view(self.host_id),
        }
    }
}

impl Clone for RoomConfig {
    fn clone(&self) -> (r: RoomConfig)
        ensures
            r@ == self@,
    {
        RoomConfig {
            room_name: self.room_name.clone(),
            is_locked: self.is_locked,
            is_recording: self.is_recording,
            is_lobby_enabled: self.is_lobby_enabled,
            max_participants: self.max_participants,
            host_id: clone_opt(&self.host_id),
        }
    }
}

/// An identity a client may present.
#[derive(Debug, PartialEq)]
pub struct UserIdentity {
    pub id: String,
    pub display_name: String,
    pub email: Option<String>,
}

/// The mathematical value of a `UserIdentity`.
pub struct UserIdentityView {
    pub id: Seq<char>,
    pub display_name: Seq<char>,
    pub email: Option<Seq<char>>,
}

impl View for UserIdentity {
    type V = UserIdentityView;

    open spec fn view(&self) -> UserIdentityView {
        UserIdentityView {
            id: self.id@,
            display_name: self.display_name@,
            email: opt_view(self.email),
        }
    }
}

impl Clone for UserIdentity {
    fn clone(&self) -> (r: UserIdentity)
        ensures
            r@ == self@,
    {
        UserIdentity {
            id: self.id.clone(),
            display_name: self.display_name.clone(),
            email: clone_opt(&self.email),
        }
    }
}

/// One whiteboard stroke. Coordinates and width are carried as the bit patterns of
/// IEEE-754 binary64 values (`f64::to_bits`); the session core never interprets them.
#[derive(Debug, PartialEq)]
pub struct DrawAction {
    pub color: String,
    pub start_x_bits: u64,
    pub start_y_bits: u64,
    pub end_x_bits: u64,
    pub end_y_bits: u64,
    pub width_bits: u64,
    pub sender_id: String,
}

/// The mathematical value of a `DrawAction`.
pub struct DrawActionView {
    pub color: Seq<char>,
    pub start_x_bits: u64,
    pub start_y_bits: u64,
    pub end_x_bits: u64,
    pub end_y_bits: u64,
    pub width_bits: u64,
    pub sender_id: Seq<char>,
}

impl View for DrawAction {
    type V = DrawActionView;

    open spec fn view(&self) -> DrawActionView {
        DrawActionView {
            color: self.color@,
            start_x_bits: self.start_x_bits,
            start_y_bits: self.start_y_bits,
            end_x_bits: self.end_x_bits,
            end_y_bits: self.end_y_bits,
            width_bits: self.width_bits,
            sender_id: self.sender_id@,
        }
    }
}

impl Clone for DrawAction {
    fn clone(&self) -> (r: DrawAction)
        ensures
            r@ == self@,
    {
        DrawAction {
            color: self.color.clone(),
            start_x_bits: self.start_x_bits,
            start_y_bits: self.start_y_bits,
            end_x_bits: self.end_x_bits,
            end_y_bits: self.end_y_bits,
            width_bits: self.width_bits,
            sender_id: self.sender_id.clone(),
        }
    }
}

/// A chat message; `recipient_id` is set for a private message.
#[derive(Debug, PartialEq)]
pub struct ChatMessage {
    pub user_id: String,
    pub content: String,
    pub recipient_id: Option<String>,
    pub timestamp: u64,
    pub attachment: Option<FileAttachment>,
}

/// The mathematical value of a `ChatMessage`.
pub struct ChatMessageView {
    pub user_id: Seq<char>,
    pub content: Seq<char>,
    pub recipient_id: Option<Seq<char>>,
    pub timestamp: u64,
    pub attachment: Option<FileAttachmentView>,
}

impl View for ChatMessage {
    type V = ChatMessageView;

    open spec fn view(&self) -> ChatMessageView {
        ChatMessageView {
            user_id: self.user_id@,
            content: self.content@,
            recipient_id: opt_view(self.recipient_id),
            timestamp: self.timestamp,
            attachment: match self.attachment { Some(a) => Some(a@), None => None },
        }
    }
}

impl Clone for ChatMessage {
    fn clone(&self) -> (r: ChatMessage)
        ensures
            r@ == self@,
    {
        ChatMessage {
            user_id: self.user_id.clone(),
            content: self.content.clone(),
            recipient_id: clone_opt(&self.recipient_id),
            timestamp: self.timestamp,
            attachment: self.attachment.clone(),
        }
    }
}

/// A participant of the room as other clients see it.
#[derive(Debug, PartialEq)]
pub struct Participant {
    pub id: String,
    pub name: String,
    pub is_hand_raised: bool,
    pub is_sharing_screen: bool,
}

/// The mathematical value of a `Participant`.
pub struct ParticipantView {
    pub id: Seq<char>,
    pub name: Seq<char>,
    pub is_hand_raised: bool,
    pub is_sharing_screen: bool,
}

impl View for Participant {
    type V = ParticipantView;

    open spec fn view(&self) -> ParticipantView {
        ParticipantView {
            id: self.id@,
            name: self.name@,
            is_hand_raised: self.is_hand_raised,
            is_sharing_screen: self.is_sharing_screen,
        }
    }
}

impl Clone for Participant {
    fn clone(&self) -> (r: Participant)
        ensures
            r@ == self@,
    {
        Participant {
            id: self.id.clone(),
            name: self.name.clone(),
            is_hand_raised: self.is_hand_raised,
            is_sharing_screen: self.is_sharing_screen,
        }
    }
}

/// One answer of a poll with its vote count.
#[derive(Debug, PartialEq)]
pub struct PollOption {
    pub id: u32,
    pub text: String,
    pub votes: u32,
}

/// The mathematical value of a `PollOption`.
pub struct PollOptionView {
    pub id: u32,
    pub text: Seq<char>,
    pub votes: u32,
}

impl View for PollOption {
    type V = PollOptionView;

    open spec fn view(&self) -> PollOptionView {
        PollOptionView {
            id: self.id,
            text: self.text@,
            votes: self.votes,
        }
    }
}

impl Clone for PollOption {
    fn clone(&self) -> (r: PollOption)
        ensures
            r@ == self@,
    {
        PollOption {
            id: self.id,
            text: self.text.clone(),
            votes: self.votes,
        }
    }
}

/// A poll; `voters` lists each participant that has voted, once.
#[derive(Debug, PartialEq)]
pub struct Poll {
    pub id: String,
    pub question: String,
    pub options: Vec<PollOption>,
    pub voters: Vec<String>,
}

/// The mathematical value of a `Poll`.
pub struct PollView {
    pub id: Seq<char>,
    pub question: Seq<char>,
    pub options: Seq<PollOptionView>,
    pub voters: Seq<Seq<char>>,
}

impl View for Poll {
    type V = PollView;

    open spec fn view(&self) -> PollView {
        PollView {
            id: self.id@,
            question: self.question@,
            options: views(self.options@),
            voters: views(self.voters@),
        }
    }
}

impl Clone for Poll {
    fn clone(&self) -> (r: Poll)
        ensures
            r@ == self@,
    {
        let r = Poll {
            id: self.id.clone(),
            question: self.question.clone(),
            options: self.options.clone(),
            voters: self.voters.clone(),
        };
        assert(views(r.options@) =~= views(self.options@));
        assert(views(r.voters@) =~= views(self.voters@));
        r
    }
}

/// A breakout sub-room.
#[derive(Debug, PartialEq)]
pub struct BreakoutRoom {
    pub id: String,
    pub name: String,
}

/// The mathematical value of a `BreakoutRoom`.
pub struct BreakoutRoomView {
    pub id: Seq<char>,
    pub name: Seq<char>,
}

impl View for BreakoutRoom {
    type V = BreakoutRoomView;

    open spec fn view(&self) -> BreakoutRoomView {
        BreakoutRoomView {
            id: self.id@,
            name: self.name@,
        }
    }
}

impl Clone for BreakoutRoom {
    fn clone(&self) -> (r: BreakoutRoom)
        ensures
            r@ == self@,
    {
        BreakoutRoom {
            id: self.id.clone(),
            name: self.name.clone(),
        }
    }
}

impl Default for RoomConfig {
    fn default() -> (r: RoomConfig)
        ensures
            r@ == default_config_view(),
    {
        RoomConfig {
            room_name: String::from_str("Default Room"),
            is_locked: false,
            is_recording: false,
            is_lobby_enabled: false,
            max_participants: 100,
            host_id: None,
        }
    }
}

/// The configuration of a room that was never configured.
pub open spec fn default_config_view() -> RoomConfigView {
    RoomConfigView {
        room_name: "Default Room"@,
        is_locked: false,
        is_recording: false,
        is_lobby_enabled: false,
        max_participants: 100,
        host_id: None,
    }
}

/// A command sent by a client.
#[derive(Debug, PartialEq)]
pub enum ClientMessage {
    CreatePoll(Poll),
    Vote { poll_id: String, option_id: u32 },
    Join(String),
    Chat { content: String, recipient_id: Option<String>, attachment: Option<FileAttachment> },
    ToggleRoomLock,
    ToggleRecording,
    UpdateProfile(String),
    Reaction(String),
    ToggleRaiseHand,
    ToggleScreenShare,
    ToggleLobby,
    GrantAccess(String),
    DenyAccess(String),
    KickParticipant(String),
    EndMeeting,
    CreateBreakoutRoom(String),
    JoinBreakoutRoom(Option<String>),
    Draw(DrawAction),
    Typing(bool),
    StartShareVideo(String),
    StopShareVideo,
    Speaking(bool),
}


/// An event sent by the server to a client.
#[derive(Debug, PartialEq)]
pub enum ServerMessage {
    Chat { message: ChatMessage, room_id: Option<String> },
    PeerTyping { user_id: String, is_typing: bool, room_id: Option<String> },
    Kicked(String),
    BreakoutRoomsList(Vec<BreakoutRoom>),
    ParticipantJoined(Participant),
    ParticipantLeft(String),
    ParticipantList(Vec<Participant>),
    KnockingParticipant(Participant),
    KnockingParticipantLeft(String),
    RoomUpdated(RoomConfig),
    ParticipantUpdated(Participant),
    Reaction { sender_id: String, emoji: String },
    PollCreated(Poll),
    PollUpdated(Poll),
    Draw(DrawAction),
    WhiteboardHistory(Vec<DrawAction>),
    ChatHistory(Vec<ChatMessage>),
    Welcome { id: String },
    Knocking,
    AccessGranted,
    AccessDenied,
    RoomEnded,
    VideoShared(String),
    VideoStopped,
    PeerSpeaking { user_id: String, speaking: bool },
    Error(String),
}

/// The mathematical value of a `ServerMessage`.
pub enum ServerMessageView {
    Chat { message: ChatMessageView, room_id: Option<Seq<char>> },
    PeerTyping { user_id: Seq<char>, is_typing: bool, room_id: Option<Seq<char>> },
    Kicked(Seq<char>),
    BreakoutRoomsList(Seq<BreakoutRoomView>),
    ParticipantJoined(ParticipantView),
    ParticipantLeft(Seq<char>),
    ParticipantList(Seq<ParticipantView>),
    KnockingParticipant(ParticipantView),
    KnockingParticipantLeft(Seq<char>),
    RoomUpdated(RoomConfigView),
    ParticipantUpdated(ParticipantView),
    Reaction { sender_id: Seq<char>, emoji: Seq<char> },
    PollCreated(PollView),
    PollUpdated(PollView),
    Draw(DrawActionView),
    WhiteboardHistory(Seq<DrawActionView>),
    ChatHistory(Seq<ChatMessageView>),
    Welcome { id: Seq<char> },
    Knocking,
    AccessGranted,
    AccessDenied,
    RoomEnded,
    VideoShared(Seq<char>),
    VideoStopped,
    PeerSpeaking { user_id: Seq<char>, speaking: bool },
    Error(Seq<char>),
}

impl View for ServerMessage {
    type V = ServerMessageView;

    open spec fn view(&self) -> ServerMessageView {
        match self {
            ServerMessage::Chat { message, room_id } => ServerMessageView::Chat { message: message@, room_id: opt_view(*room_id) },
            ServerMessage::PeerTyping { user_id, is_typing, room_id } => ServerMessageView::PeerTyping { user_id: user_id@, is_typing: *is_typing, room_id: opt_view(*room_id) },
            ServerMessage::Kicked(id) => ServerMessageView::Kicked(id@),
            ServerMessage::BreakoutRoomsList(v) => ServerMessageView::BreakoutRoomsList(views(v@)),
            ServerMessage::ParticipantJoined(p) => ServerMessageView::ParticipantJoined(p@),
            ServerMessage::ParticipantLeft(id) => ServerMessageView::ParticipantLeft(id@),
            ServerMessage::ParticipantList(v) => ServerMessageView::ParticipantList(views(v@)),
            ServerMessage::KnockingParticipant(p) => ServerMessageView::KnockingParticipant(p@),
            ServerMessage::KnockingParticipantLeft(id) => ServerMessageView::KnockingParticipantLeft(id@),
            ServerMessage::RoomUpdated(c) => ServerMessageView::RoomUpdated(c@),
            ServerMessage::ParticipantUpdated(p) => ServerMessageView::ParticipantUpdated(p@),
            ServerMessage::Reaction { sender_id, emoji } => ServerMessageView::Reaction { sender_id: sender_id@, emoji: emoji@ },
            ServerMessage::PollCreated(p) => ServerMessageView::PollCreated(p@),
            ServerMessage::PollUpdated(p) => ServerMessageView::PollUpdated(p@),
            ServerMessage::Draw(a) => ServerMessageView::Draw(a@),
            ServerMessage::WhiteboardHistory(v) => ServerMessageView::WhiteboardHistory(views(v@)),
            ServerMessage::ChatHistory(v) => ServerMessageView::ChatHistory(views(v@)),
            ServerMessage::Welcome { id } => ServerMessageView::Welcome { id: id@ },
            ServerMessage::Knocking => ServerMessageView::Knocking,
            ServerMessage::AccessGranted => ServerMessageView::AccessGranted,
            ServerMessage::AccessDenied => ServerMessageView::AccessDenied,
            ServerMessage::RoomEnded => ServerMessageView::RoomEnded,
            ServerMessage::VideoShared(url) => ServerMessageView::VideoShared(url@),
            ServerMessage::VideoStopped => ServerMessageView::VideoStopped,
            ServerMessage::PeerSpeaking { user_id, speaking } => ServerMessageView::PeerSpeaking { user_id: user_id@, speaking: *speaking },
            ServerMessage::Error(text) => ServerMessageView::Error(text@),
        }
    }
}

impl Clone for ServerMessage {
    fn clone(&self) -> (r: ServerMessage)
        ensures
            r@ == self@,
    {
        match self {
            ServerMessage::Chat { message, room_id } => ServerMessage::Chat { message: message.clone(), room_id: clone_opt(room_id) },
            ServerMessage::PeerTyping { user_id, is_typing, room_id } => ServerMessage::PeerTyping { user_id: user_id.clone(), is_typing: *is_typing, room_id: clone_opt(room_id) },
            ServerMessage::Kicked(id) => ServerMessage::Kicked(id.clone()),
            ServerMessage::BreakoutRoomsList(v) => {
                let c = v.clone();
                assert(views(c@) =~= views(v@));
                ServerMessage::BreakoutRoomsList(c)
            },
            ServerMessage::ParticipantJoined(p) => ServerMessage::ParticipantJoined(p.clone()),
            ServerMessage::ParticipantLeft(id) => ServerMessage::ParticipantLeft(id.clone()),
            ServerMessage::ParticipantList(v) => {
                let c = v.clone();
                assert(views(c@) =~= views(v@));
                ServerMessage::ParticipantList(c)
            },
            ServerMessage::KnockingParticipant(p) => ServerMessage::KnockingParticipant(p.clone()),
            ServerMessage::KnockingParticipantLeft(id) => ServerMessage::KnockingParticipantLeft(id.clone()),
            ServerMessage::RoomUpdated(c) => ServerMessage::RoomUpdated(c.clone()),
            ServerMessage::ParticipantUpdated(p) => ServerMessage::ParticipantUpdated(p.clone()),
            ServerMessage::Reaction { sender_id, emoji } => ServerMessage::Reaction { sender_id: sender_id.clone(), emoji: emoji.clone() },
            ServerMessage::PollCreated(p) => ServerMessage::PollCreated(p.clone()),
            ServerMessage::PollUpdated(p) => ServerMessage::PollUpdated(p.clone()),
            ServerMessage::Draw(a) => ServerMessage::Draw(a.clone()),
            ServerMessage::WhiteboardHistory(v) => {
                let c = v.clone();
                assert(views(c@) =~= views(v@));
                ServerMessage::WhiteboardHistory(c)
            },
            ServerMessage::ChatHistory(v) => {
                let c = v.clone();
                assert(views(c@) =~= views(v@));
                ServerMessage::ChatHistory(c)
            },
            ServerMessage::Welcome { id } => ServerMessage::Welcome { id: id.clone() },
            ServerMessage::Knocking => ServerMessage::Knocking,
            ServerMessage::AccessGranted => ServerMessage::AccessGranted,
            ServerMessage::AccessDenied => ServerMessage::AccessDenied,
            ServerMessage::RoomEnded => ServerMessage::RoomEnded,
            ServerMessage::VideoShared(url) => ServerMessage::VideoShared(url.clone()),
            ServerMessage::VideoStopped => ServerMessage::VideoStopped,
            ServerMessage::PeerSpeaking { user_id, speaking } => ServerMessage::PeerSpeaking { user_id: user_id.clone(), speaking: *speaking },
            ServerMessage::Error(text) => ServerMessage::Error(text.clone()),
        }
    }
}

} // verus!
