//! The room state store: configuration, roster, waiting room, chat history,
//! polls, whiteboard, breakout rooms and participant locations, each changed
//! only through one atomic operation.

use vstd::prelude::*;
use crate::keys::{key_index, unique_keys, upsert, remove_at, lemma_key_index_found, lemma_key_index_absent, lemma_key_index_range, lemma_upsert_unique, lemma_remove_unique};
use crate::protocol::{
    views, opt_view, opt_views, clone_opt, BreakoutRoom, BreakoutRoomView, ChatMessage, ChatMessageView, DrawAction,
    DrawActionView, Participant, ParticipantView, Poll, PollOption, PollOptionView, PollView, RoomConfig,
    RoomConfigView,
};

verus! {

/// A pending join request and its one-shot decision slot.
#[derive(Debug, PartialEq)]
pub struct KnockingRequest {
    pub participant: Participant,
    /// Whether no decision (grant, deny or expiry) has claimed the request yet.
    pub decision_open: bool,
}

/// The mathematical value of a `KnockingRequest`.
pub struct KnockingRequestView {
    pub participant: ParticipantView,
    pub decision_open: bool,
}

impl View for KnockingRequest {
    type V = KnockingRequestView;

    open spec fn view(&self) -> KnockingRequestView {
        KnockingRequestView { participant: self.participant@, decision_open: self.decision_open }
    }
}

/// Where a participant currently is: a breakout room, or the main room (`None`).
#[derive(Debug, PartialEq)]
pub struct Location {
    pub participant_id: String,
    pub room_id: Option<String>,
}

/// The mathematical value of a `Location`.
pub struct LocationView {
    pub participant_id: Seq<char>,
    pub room_id: Option<Seq<char>>,
}

impl View for Location {
    type V = LocationView;

    open spec fn view(&self) -> LocationView {
        LocationView { participant_id: self.participant_id@, room_id: opt_view(self.room_id) }
    }
}

pub open spec fn participant_keys(s: Seq<ParticipantView>) -> Seq<Seq<char>> {
    s.map_values(|p: ParticipantView| p.id)
}

pub open spec fn knocking_keys(s: Seq<KnockingRequestView>) -> Seq<Seq<char>> {
    s.map_values(|k: KnockingRequestView| k.participant.id)
}

pub open spec fn poll_keys(s: Seq<PollView>) -> Seq<Seq<char>> {
    s.map_values(|p: PollView| p.id)
}

pub open spec fn breakout_keys(s: Seq<BreakoutRoomView>) -> Seq<Seq<char>> {
    s.map_values(|b: BreakoutRoomView| b.id)
}

pub open spec fn location_keys(s: Seq<LocationView>) -> Seq<Seq<char>> {
    s.map_values(|l: LocationView| l.participant_id)
}

/// The collections of a room, changed by operations that keep them well formed.
struct Store {
    config: RoomConfig,
    participants: Vec<Participant>,
    knocking: Vec<KnockingRequest>,
    chat_history: Vec<ChatMessage>,
    polls: Vec<Poll>,
    whiteboard: Vec<DrawAction>,
    breakout_rooms: Vec<BreakoutRoom>,
    locations: Vec<Location>,
}

/// The mathematical value of a `Room`.
pub struct RoomView {
    pub config: RoomConfigView,
    pub participants: Seq<ParticipantView>,
    pub knocking: Seq<KnockingRequestView>,
    pub chat_history: Seq<ChatMessageView>,
    pub polls: Seq<PollView>,
    pub whiteboard: Seq<DrawActionView>,
    pub breakout_rooms: Seq<BreakoutRoomView>,
    pub locations: Seq<LocationView>,
}

impl View for Store {
    type V = RoomView;

    closed spec fn view(&self) -> RoomView {
        RoomView {
            config: self.config@,
            participants: views(self.participants@),
            knocking: views(self.knocking@),
            chat_history: views(self.chat_history@),
            polls: views(self.polls@),
            whiteboard: views(self.whiteboard@),
            breakout_rooms: views(self.breakout_rooms@),
            locations: views(self.locations@),
        }
    }
}

/// The result of an attempt to add a participant to the roster.
#[derive(Debug, Clone, Copy, PartialEq, Eq, Structural)]
pub enum Admission {
    /// Added; `host_assigned` says whether the newcomer became the host.
    Admitted { host_assigned: bool },
    /// The roster already holds `max_participants` participants.
    Full,
}

/// A change a participant makes to their own roster entry.
#[derive(Debug)]
pub enum ProfileChange {
    Rename(String),
    ToggleRaiseHand,
    ToggleScreenShare,
}

impl ProfileChange {
    /// The roster entry after the change.
    pub open spec fn apply(&self, p: ParticipantView) -> ParticipantView {
        match self {
            ProfileChange::Rename(name) => ParticipantView { name: name@, ..p },
            ProfileChange::ToggleRaiseHand => ParticipantView { is_hand_raised: !p.is_hand_raised, ..p },
            ProfileChange::ToggleScreenShare => ParticipantView { is_sharing_screen: !p.is_sharing_screen, ..p },
        }
    }
}

pub open spec fn option_keys(s: Seq<PollOptionView>) -> Seq<u32> {
    s.map_values(|o: PollOptionView| o.id)
}

/// A vote count after one more vote; it stays put at the largest `u32`.
pub open spec fn bump(votes: u32) -> u32 {
    if votes < u32::MAX {
        (votes + 1) as u32
    } else {
        votes
    }
}

/// `s` with every repeated element after its first occurrence left out.
pub open spec fn dedup(s: Seq<Seq<char>>) -> Seq<Seq<char>>
    decreases s.len(),
{
    if s.len() == 0 {
        s
    } else {
        let d = dedup(s.drop_last());
        if d.contains(s.last()) {
            d
        } else {
            d.push(s.last())
        }
    }
}

/// The main room has no breakout room id.
pub open spec fn main_room() -> Option<Seq<char>> {
    None
}

impl RoomView {
    /// Keys are unique in every keyed collection, the roster respects the
    /// capacity, and nobody appears twice among a poll's voters.
    pub open spec fn wf(self) -> bool {
        &&& unique_keys(participant_keys(self.participants))
        &&& unique_keys(knocking_keys(self.knocking))
        &&& unique_keys(poll_keys(self.polls))
        &&& unique_keys(breakout_keys(self.breakout_rooms))
        &&& unique_keys(location_keys(self.locations))
        &&& self.participants.len() <= self.config.max_participants
        &&& forall|i: int| 0 <= i < self.polls.len() ==> unique_keys(#[trigger] self.polls[i].voters)
    }

    /// A room with the given configuration and nothing else.
    pub open spec fn fresh(config: RoomConfigView) -> RoomView {
        RoomView {
            config,
            participants: Seq::empty(),
            knocking: Seq::empty(),
            chat_history: Seq::empty(),
            polls: Seq::empty(),
            whiteboard: Seq::empty(),
            breakout_rooms: Seq::empty(),
            locations: Seq::empty(),
        }
    }

    pub open spec fn participant_index(self, id: Seq<char>) -> int {
        key_index(participant_keys(self.participants), id)
    }

    pub open spec fn knock_index(self, id: Seq<char>) -> int {
        key_index(knocking_keys(self.knocking), id)
    }

    pub open spec fn poll_index(self, id: Seq<char>) -> int {
        key_index(poll_keys(self.polls), id)
    }

    pub open spec fn breakout_index(self, id: Seq<char>) -> int {
        key_index(breakout_keys(self.breakout_rooms), id)
    }

    pub open spec fn location_index(self, id: Seq<char>) -> int {
        key_index(location_keys(self.locations), id)
    }

    pub open spec fn has_participant(self, id: Seq<char>) -> bool {
        self.participant_index(id) >= 0
    }

    pub open spec fn is_knocking(self, id: Seq<char>) -> bool {
        self.knock_index(id) >= 0
    }

    /// The room with another configuration.
    pub open spec fn with_config(self, config: RoomConfigView) -> RoomView {
        RoomView { config, ..self }
    }

    /// The sub-room a participant is in; the main room where none is recorded.
    pub open spec fn location_of(self, id: Seq<char>) -> Option<Seq<char>> {
        let i = self.location_index(id);
        if i >= 0 {
            self.locations[i].room_id
        } else {
            main_room()
        }
    }

    /// Admission of `p`: refused when the roster is full; otherwise `p` joins
    /// the roster in the main room and becomes host if there is none.
    pub open spec fn enroll(self, p: ParticipantView) -> (RoomView, Admission) {
        if self.participants.len() >= self.config.max_participants {
            (self, Admission::Full)
        } else {
            let assign = self.config.host_id is None;
            let config = if assign {
                RoomConfigView { host_id: Some(p.id), ..self.config }
            } else {
                self.config
            };
            (
                RoomView {
                    config,
                    participants: upsert(self.participants, self.participant_index(p.id), p),
                    locations: upsert(
                        self.locations,
                        self.location_index(p.id),
                        LocationView { participant_id: p.id, room_id: main_room() },
                    ),
                    ..self
                },
                Admission::Admitted { host_assigned: assign },
            )
        }
    }

    /// `p` waits in the lobby with an open decision slot.
    pub open spec fn knock(self, p: ParticipantView) -> RoomView {
        RoomView {
            knocking: upsert(
                self.knocking,
                self.knock_index(p.id),
                KnockingRequestView { participant: p, decision_open: true },
            ),
            ..self
        }
    }

    /// The first decision on a waiting request claims its slot; any later one
    /// finds it taken and changes nothing.
    pub open spec fn claim_decision(self, id: Seq<char>) -> (RoomView, bool) {
        let i = self.knock_index(id);
        if i >= 0 && self.knocking[i].decision_open {
            (
                RoomView {
                    knocking: self.knocking.update(i, KnockingRequestView { decision_open: false, ..self.knocking[i] }),
                    ..self
                },
                true,
            )
        } else {
            (self, false)
        }
    }

    /// The request leaves the lobby; reports the waiting participant if it was there.
    pub open spec fn withdraw_knock(self, id: Seq<char>) -> (RoomView, Option<ParticipantView>) {
        let i = self.knock_index(id);
        if i >= 0 {
            (RoomView { knocking: self.knocking.remove(i), ..self }, Some(self.knocking[i].participant))
        } else {
            (self, None)
        }
    }

    /// A granted request leaves the lobby and goes through admission.
    pub open spec fn enroll_knocker(self, id: Seq<char>) -> (RoomView, Option<(ParticipantView, Admission)>) {
        let (r, p) = self.withdraw_knock(id);
        match p {
            Some(p) => {
                let (r2, a) = r.enroll(p);
                (r2, Some((p, a)))
            },
            None => (self, None),
        }
    }

    /// A participant leaves the roster and its location record is dropped.
    pub open spec fn remove_participant(self, id: Seq<char>) -> (RoomView, bool) {
        (
            RoomView {
                participants: remove_at(self.participants, self.participant_index(id)),
                locations: remove_at(self.locations, self.location_index(id)),
                ..self
            },
            self.has_participant(id),
        )
    }

    /// Whether `by` is the current host.
    pub open spec fn is_host(self, by: Seq<char>) -> bool {
        self.config.host_id == Some(by)
    }

    /// A kick is carried out only when the host asks for it.
    pub open spec fn kick(self, by: Seq<char>, target: Seq<char>) -> (RoomView, bool) {
        if self.is_host(by) {
            (self.remove_participant(target).0, true)
        } else {
            (self, false)
        }
    }

    /// Whether a message sent from `room` is kept in the shared history.
    pub open spec fn is_persisted(msg: ChatMessageView, room: Option<Seq<char>>) -> bool {
        msg.recipient_id is None && room is None
    }

    /// Public main-room messages are appended to the history.
    pub open spec fn record_chat(self, msg: ChatMessageView, room: Option<Seq<char>>) -> (RoomView, bool) {
        if Self::is_persisted(msg, room) {
            (RoomView { chat_history: self.chat_history.push(msg), ..self }, true)
        } else {
            (self, false)
        }
    }

    /// The poll as stored: a fresh id where the client gave none, and each voter once.
    pub open spec fn stored_poll(poll: PollView, fresh_id: Seq<char>) -> PollView {
        PollView {
            id: if poll.id.len() == 0 { fresh_id } else { poll.id },
            voters: dedup(poll.voters),
            ..poll
        }
    }

    /// The poll is stored under its id, replacing one with the same id.
    pub open spec fn create_poll(self, poll: PollView) -> RoomView {
        RoomView { polls: upsert(self.polls, self.poll_index(poll.id), poll), ..self }
    }

    /// A first vote of `voter` on an existing option of an existing poll
    /// records the voter and adds one to that option; anything else changes nothing.
    pub open spec fn vote(self, poll_id: Seq<char>, voter: Seq<char>, option_id: u32) -> (RoomView, Option<PollView>) {
        let pi = self.poll_index(poll_id);
        if pi < 0 {
            (self, None)
        } else {
            let poll = self.polls[pi];
            let oi = key_index(option_keys(poll.options), option_id);
            if poll.voters.contains(voter) || oi < 0 {
                (self, None)
            } else {
                let o = poll.options[oi];
                let updated = PollView {
                    options: poll.options.update(oi, PollOptionView { votes: bump(o.votes), ..o }),
                    voters: poll.voters.push(voter),
                    ..poll
                };
                (RoomView { polls: self.polls.update(pi, updated), ..self }, Some(updated))
            }
        }
    }

    /// The stroke, tagged with its sender, is appended to the whiteboard.
    pub open spec fn record_draw(self, action: DrawActionView, sender: Seq<char>) -> (RoomView, DrawActionView) {
        let a = DrawActionView { sender_id: sender, ..action };
        (RoomView { whiteboard: self.whiteboard.push(a), ..self }, a)
    }

    /// A participant's own roster entry after a profile change.
    pub open spec fn update_participant(self, id: Seq<char>, change: ProfileChange) -> (RoomView, Option<ParticipantView>) {
        let i = self.participant_index(id);
        if i >= 0 {
            let p = change.apply(self.participants[i]);
            (RoomView { participants: self.participants.update(i, p), ..self }, Some(p))
        } else {
            (self, None)
        }
    }

    /// A breakout room is registered under its id.
    pub open spec fn create_breakout_room(self, room: BreakoutRoomView) -> RoomView {
        RoomView { breakout_rooms: upsert(self.breakout_rooms, self.breakout_index(room.id), room), ..self }
    }

    /// A participant's location is set (`None`: the main room).
    pub open spec fn move_participant(self, id: Seq<char>, room: Option<Seq<char>>) -> RoomView {
        RoomView {
            locations: upsert(
                self.locations,
                self.location_index(id),
                LocationView { participant_id: id, room_id: room },
            ),
            ..self
        }
    }

    /// The participants waiting in the lobby, in order of arrival.
    pub open spec fn knocking_participants(self) -> Seq<ParticipantView> {
        self.knocking.map_values(|k: KnockingRequestView| k.participant)
    }
}

/// The position of the first record keyed `id`.
pub(crate) fn find_participant(v: &Vec<Participant>, id: &String) -> (r: Option<usize>)
    ensures
        match r {
            Some(i) => i as int == key_index(participant_keys(views(v@)), id@),
            None => key_index(participant_keys(views(v@)), id@) == -1,
        },
{
    let mut i: usize = 0;
    while i < v.len()
        invariant
            i <= v@.len(),
            forall|j: int| 0 <= j < i ==> participant_keys(views(v@))[j] != id@,
        decreases v@.len() - i,
    {
        assert(participant_keys(views(v@))[i as int] == v@[i as int]@.id);
        if v[i].id == *id {
            proof {
                lemma_key_index_found(participant_keys(views(v@)), id@, i as int);
            }
            return Some(i);
        }
        i += 1;
    }
    proof {
        lemma_key_index_absent(participant_keys(views(v@)), id@);
    }
    None
}

/// The position of the first record keyed `id`.
fn find_knocking(v: &Vec<KnockingRequest>, id: &String) -> (r: Option<usize>)
    ensures
        match r {
            Some(i) => i as int == key_index(knocking_keys(views(v@)), id@),
            None => key_index(knocking_keys(views(v@)), id@) == -1,
        },
{
    let mut i: usize = 0;
    while i < v.len()
        invariant
            i <= v@.len(),
            forall|j: int| 0 <= j < i ==> knocking_keys(views(v@))[j] != id@,
        decreases v@.len() - i,
    {
        assert(knocking_keys(views(v@))[i as int] == v@[i as int]@.participant.id);
        if v[i].participant.id == *id {
            proof {
                lemma_key_index_found(knocking_keys(views(v@)), id@, i as int);
            }
            return Some(i);
        }
        i += 1;
    }
    proof {
        lemma_key_index_absent(knocking_keys(views(v@)), id@);
    }
    None
}

/// The position of the first record keyed `id`.
pub(crate) fn find_poll(v: &Vec<Poll>, id: &String) -> (r: Option<usize>)
    ensures
        match r {
            Some(i) => i as int == key_index(poll_keys(views(v@)), id@),
            None => key_index(poll_keys(views(v@)), id@) == -1,
        },
{
    let mut i: usize = 0;
    while i < v.len()
        invariant
            i <= v@.len(),
            forall|j: int| 0 <= j < i ==> poll_keys(views(v@))[j] != id@,
        decreases v@.len() - i,
    {
        assert(poll_keys(views(v@))[i as int] == v@[i as int]@.id);
        if v[i].id == *id {
            proof {
                lemma_key_index_found(poll_keys(views(v@)), id@, i as int);
            }
            return Some(i);
        }
        i += 1;
    }
    proof {
        lemma_key_index_absent(poll_keys(views(v@)), id@);
    }
    None
}

/// The position of the first record keyed `id`.
fn find_breakout_room(v: &Vec<BreakoutRoom>, id: &String) -> (r: Option<usize>)
    ensures
        match r {
            Some(i) => i as int == key_index(breakout_keys(views(v@)), id@),
            None => key_index(breakout_keys(views(v@)), id@) == -1,
        },
{
    let mut i: usize = 0;
    while i < v.len()
        invariant
            i <= v@.len(),
            forall|j: int| 0 <= j < i ==> breakout_keys(views(v@))[j] != id@,
        decreases v@.len() - i,
    {
        assert(breakout_keys(views(v@))[i as int] == v@[i as int]@.id);
        if v[i].id == *id {
            proof {
                lemma_key_index_found(breakout_keys(views(v@)), id@, i as int);
            }
            return Some(i);
        }
        i += 1;
    }
    proof {
        lemma_key_index_absent(breakout_keys(views(v@)), id@);
    }
    None
}

/// The position of the first record keyed `id`.
fn find_location(v: &Vec<Location>, id: &String) -> (r: Option<usize>)
    ensures
        match r {
            Some(i) => i as int == key_index(location_keys(views(v@)), id@),
            None => key_index(location_keys(views(v@)), id@) == -1,
        },
{
    let mut i: usize = 0;
    while i < v.len()
        invariant
            i <= v@.len(),
            forall|j: int| 0 <= j < i ==> location_keys(views(v@))[j] != id@,
        decreases v@.len() - i,
    {
        assert(location_keys(views(v@))[i as int] == v@[i as int]@.participant_id);
        if v[i].participant_id == *id {
            proof {
                lemma_key_index_found(location_keys(views(v@)), id@, i as int);
            }
            return Some(i);
        }
        i += 1;
    }
    proof {
        lemma_key_index_absent(location_keys(views(v@)), id@);
    }
    None
}

/// The position of the first record keyed `id`.
fn find_option(v: &Vec<PollOption>, id: u32) -> (r: Option<usize>)
    ensures
        match r {
            Some(i) => i as int == key_index(option_keys(views(v@)), id),
            None => key_index(option_keys(views(v@)), id) == -1,
        },
{
    let mut i: usize = 0;
    while i < v.len()
        invariant
            i <= v@.len(),
            forall|j: int| 0 <= j < i ==> option_keys(views(v@))[j] != id,
        decreases v@.len() - i,
    {
        assert(option_keys(views(v@))[i as int] == v@[i as int]@.id);
        if v[i].id == id {
            proof {
                lemma_key_index_found(option_keys(views(v@)), id, i as int);
            }
            return Some(i);
        }
        i += 1;
    }
    proof {
        lemma_key_index_absent(option_keys(views(v@)), id);
    }
    None
}

impl Clone for KnockingRequest {
    fn clone(&self) -> (r: KnockingRequest)
        ensures
            r@ == self@,
    {
        KnockingRequest { participant: self.participant.clone(), decision_open: self.decision_open }
    }
}

impl Clone for Location {
    fn clone(&self) -> (r: Location)
        ensures
            r@ == self@,
    {
        Location { participant_id: self.participant_id.clone(), room_id: clone_opt(&self.room_id) }
    }
}

impl Store {
    /// Empty collections under the given configuration.
    fn new(config: RoomConfig) -> (r: Store)
        ensures
            r@ == RoomView::fresh(config@),
            r@.wf(),
    {
        let r = Store {
            config,
            participants: Vec::new(),
            knocking: Vec::new(),
            chat_history: Vec::new(),
            polls: Vec::new(),
            whiteboard: Vec::new(),
            breakout_rooms: Vec::new(),
            locations: Vec::new(),
        };
        assert(r@.participants =~= Seq::empty());
        assert(r@.knocking =~= Seq::empty());
        assert(r@.chat_history =~= Seq::empty());
        assert(r@.polls =~= Seq::empty());
        assert(r@.whiteboard =~= Seq::empty());
        assert(r@.breakout_rooms =~= Seq::empty());
        assert(r@.locations =~= Seq::empty());
        r
    }

    pub fn config(&self) -> (r: &RoomConfig)
        ensures
            r@ == self@.config,
    {
        &self.config
    }

    /// The roster, in order of arrival.
    pub fn participants(&self) -> (r: &Vec<Participant>)
        ensures
            views(r@) == self@.participants,
    {
        &self.participants
    }

    /// The public chat history of the main room.
    pub fn chat_history(&self) -> (r: &Vec<ChatMessage>)
        ensures
            views(r@) == self@.chat_history,
    {
        &self.chat_history
    }

    pub fn polls(&self) -> (r: &Vec<Poll>)
        ensures
            views(r@) == self@.polls,
    {
        &self.polls
    }

    /// Every stroke drawn so far, oldest first.
    pub fn whiteboard(&self) -> (r: &Vec<DrawAction>)
        ensures
            views(r@) == self@.whiteboard,
    {
        &self.whiteboard
    }

    pub fn breakout_rooms(&self) -> (r: &Vec<BreakoutRoom>)
        ensures
            views(r@) == self@.breakout_rooms,
    {
        &self.breakout_rooms
    }

    /// The participants waiting in the lobby, in order of arrival.
    pub fn knocking_participants(&self) -> (r: Vec<Participant>)
        ensures
            views(r@) == self@.knocking_participants(),
    {
        let mut r: Vec<Participant> = Vec::new();
        let mut i: usize = 0;
        while i < self.knocking.len()
            invariant
                i <= self.knocking@.len(),
                views(r@) =~= self@.knocking_participants().subrange(0, i as int),
            decreases self.knocking@.len() - i,
        {
            let ghost prev = views(r@);
            r.push(self.knocking[i].participant.clone());
            assert(views(r@) =~= prev.push(self@.knocking_participants()[i as int]));
            assert(self@.knocking_participants().subrange(0, i + 1) =~= prev.push(
                self@.knocking_participants()[i as int],
            ));
            i += 1;
        }
        assert(self@.knocking_participants().subrange(0, i as int) =~= self@.knocking_participants());
        r
    }

    /// Whether the waiting request of `id` still has an open decision slot.
    pub fn decision_pending(&self, id: &String) -> (r: bool)
        ensures
            r == (self@.is_knocking(id@) && self@.knocking[self@.knock_index(id@)].decision_open),
    {
        match find_knocking(&self.knocking, id) {
            Some(i) => self.knocking[i].decision_open,
            None => false,
        }
    }

    /// The sub-room `id` is in; `None` for the main room.
    pub fn location_of(&self, id: &String) -> (r: Option<String>)
        ensures
            opt_view(r) == self@.location_of(id@),
    {
        match find_location(&self.locations, id) {
            Some(i) => clone_opt(&self.locations[i].room_id),
            None => None,
        }
    }

    /// Flips the lock flag and returns the new configuration.
    pub fn toggle_lock(&mut self) -> (r: RoomConfig)
        requires
            old(self)@.wf(),
        ensures
            final(self)@ == old(self)@.with_config(
                RoomConfigView { is_locked: !old(self)@.config.is_locked, ..old(self)@.config },
            ),
            r@ == final(self)@.config,
            final(self)@.wf(),
    {
        self.config.is_locked = !self.config.is_locked;
        self.config.clone()
    }

    /// Flips the recording flag and returns the new configuration.
    pub fn toggle_recording(&mut self) -> (r: RoomConfig)
        requires
            old(self)@.wf(),
        ensures
            final(self)@ == old(self)@.with_config(
                RoomConfigView { is_recording: !old(self)@.config.is_recording, ..old(self)@.config },
            ),
            r@ == final(self)@.config,
            final(self)@.wf(),
    {
        self.config.is_recording = !self.config.is_recording;
        self.config.clone()
    }

    /// Flips the lobby flag and returns the new configuration.
    pub fn toggle_lobby(&mut self) -> (r: RoomConfig)
        requires
            old(self)@.wf(),
        ensures
            final(self)@ == old(self)@.with_config(
                RoomConfigView { is_lobby_enabled: !old(self)@.config.is_lobby_enabled, ..old(self)@.config },
            ),
            r@ == final(self)@.config,
            final(self)@.wf(),
    {
        self.config.is_lobby_enabled = !self.config.is_lobby_enabled;
        self.config.clone()
    }
}

impl Store {
    /// Adds `p` to the roster unless the room is full; the first participant
    /// while there is no host becomes the host.
    pub fn enroll(&mut self, p: Participant) -> (r: Admission)
        requires
            old(self)@.wf(),
        ensures
            (final(self)@, r) == old(self)@.enroll(p@),
            final(self)@.wf(),
    {
        if self.participants.len() >= self.config.max_participants as usize {
            return Admission::Full;
        }
        let ghost before = self@;
        let assign = self.config.host_id.is_none();
        if assign {
            self.config.host_id = Some(p.id.clone());
        }
        let loc = Location { participant_id: p.id.clone(), room_id: None };
        let li = find_location(&self.locations, &p.id);
        match li {
            Some(i) => self.locations.set(i, loc),
            None => self.locations.push(loc),
        }
        let pi = find_participant(&self.participants, &p.id);
        let ghost pv = p@;
        match pi {
            Some(i) => self.participants.set(i, p),
            None => self.participants.push(p),
        }
        proof {
            let li = before.location_index(pv.id);
            let pi = before.participant_index(pv.id);
            let lv = LocationView { participant_id: pv.id, room_id: main_room() };
            assert(self@.locations =~= upsert(before.locations, li, lv));
            assert(self@.participants =~= upsert(before.participants, pi, pv));
            assert(location_keys(self@.locations) =~= upsert(location_keys(before.locations), li, pv.id));
            assert(participant_keys(self@.participants) =~= upsert(participant_keys(before.participants), pi, pv.id));
            lemma_upsert_unique(location_keys(before.locations), pv.id);
            lemma_upsert_unique(participant_keys(before.participants), pv.id);
            lemma_key_index_range(participant_keys(before.participants), pv.id);
            assert(self@ == before.enroll(pv).0);
        }
        Admission::Admitted { host_assigned: assign }
    }

    /// Parks `p` in the lobby with an open decision slot.
    pub fn knock(&mut self, p: Participant)
        requires
            old(self)@.wf(),
        ensures
            final(self)@ == old(self)@.knock(p@),
            final(self)@.wf(),
    {
        let ghost before = self@;
        let ghost pv = p@;
        let ki = find_knocking(&self.knocking, &p.id);
        let req = KnockingRequest { participant: p, decision_open: true };
        match ki {
            Some(i) => self.knocking.set(i, req),
            None => self.knocking.push(req),
        }
        proof {
            let ki = before.knock_index(pv.id);
            let kv = KnockingRequestView { participant: pv, decision_open: true };
            assert(self@.knocking =~= upsert(before.knocking, ki, kv));
            assert(knocking_keys(self@.knocking) =~= upsert(knocking_keys(before.knocking), ki, pv.id));
            lemma_upsert_unique(knocking_keys(before.knocking), pv.id);
        }
    }

    /// Claims the decision slot of the waiting request `id`: true for the
    /// first claim, false when the slot is taken or there is no such request.
    pub fn claim_decision(&mut self, id: &String) -> (r: bool)
        requires
            old(self)@.wf(),
        ensures
            (final(self)@, r) == old(self)@.claim_decision(id@),
            final(self)@.wf(),
    {
        let ghost before = self@;
        match find_knocking(&self.knocking, id) {
            Some(i) => {
                if self.knocking[i].decision_open {
                    let mut req = self.knocking[i].clone();
                    req.decision_open = false;
                    self.knocking.set(i, req);
                    proof {
                        assert(self@.knocking =~= before.knocking.update(
                            i as int,
                            KnockingRequestView { decision_open: false, ..before.knocking[i as int] },
                        ));
                        assert(knocking_keys(self@.knocking) =~= knocking_keys(before.knocking));
                    }
                    true
                } else {
                    false
                }
            },
            None => false,
        }
    }

    /// Removes the waiting request `id` and returns its participant, if it was there.
    pub fn withdraw_knock(&mut self, id: &String) -> (r: Option<Participant>)
        requires
            old(self)@.wf(),
        ensures
            (final(self)@, opt_views(r)) == old(self)@.withdraw_knock(id@),
            final(self)@.wf(),
    {
        let ghost before = self@;
        match find_knocking(&self.knocking, id) {
            Some(i) => {
                let req = self.knocking.remove(i);
                proof {
                    assert(self@.knocking =~= before.knocking.remove(i as int));
                    assert(knocking_keys(self@.knocking) =~= remove_at(knocking_keys(before.knocking), i as int));
                    lemma_remove_unique(knocking_keys(before.knocking), i as int);
                }
                Some(req.participant)
            },
            None => None,
        }
    }

    /// Moves the granted request `id` from the lobby through admission.
    /// `None` when no such request waits.
    pub fn enroll_knocker(&mut self, id: &String) -> (r: Option<(Participant, Admission)>)
        requires
            old(self)@.wf(),
        ensures
            (final(self)@, match r {
                Some((p, a)) => Some((p@, a)),
                None => None,
            }) == old(self)@.enroll_knocker(id@),
            final(self)@.wf(),
    {
        match self.withdraw_knock(id) {
            Some(p) => {
                let copy = p.clone();
                let a = self.enroll(p);
                Some((copy, a))
            },
            None => None,
        }
    }

    /// Removes `id` from the roster and drops its location; true if it was there.
    pub fn remove_participant(&mut self, id: &String) -> (r: bool)
        requires
            old(self)@.wf(),
        ensures
            (final(self)@, r) == old(self)@.remove_participant(id@),
            final(self)@.wf(),
    {
        let ghost before = self@;
        let found = match find_participant(&self.participants, id) {
            Some(i) => {
                self.participants.remove(i);
                true
            },
            None => false,
        };
        match find_location(&self.locations, id) {
            Some(i) => {
                self.locations.remove(i);
            },
            None => {},
        }
        proof {
            let pi = before.participant_index(id@);
            let li = before.location_index(id@);
            lemma_key_index_range(participant_keys(before.participants), id@);
            lemma_key_index_range(location_keys(before.locations), id@);
            assert(self@.participants =~= remove_at(before.participants, pi));
            assert(self@.locations =~= remove_at(before.locations, li));
            assert(participant_keys(self@.participants) =~= remove_at(participant_keys(before.participants), pi));
            assert(location_keys(self@.locations) =~= remove_at(location_keys(before.locations), li));
            lemma_remove_unique(participant_keys(before.participants), pi);
            lemma_remove_unique(location_keys(before.locations), li);
        }
        found
    }

    /// Removes `target` when `by` is the host; returns whether the kick was permitted.
    pub fn kick(&mut self, by: &String, target: &String) -> (r: bool)
        requires
            old(self)@.wf(),
        ensures
            (final(self)@, r) == old(self)@.kick(by@, target@),
            final(self)@.wf(),
    {
        let permitted = match &self.config.host_id {
            Some(h) => *h == *by,
            None => false,
        };
        if permitted {
            self.remove_participant(target);
        }
        permitted
    }
}

/// Each voter once, in order of first appearance.
fn dedup_voters(v: &Vec<String>) -> (r: Vec<String>)
    ensures
        views(r@) == dedup(views(v@)),
{
    let mut r: Vec<String> = Vec::new();
    let mut i: usize = 0;
    while i < v.len()
        invariant
            i <= v@.len(),
            views(r@) == dedup(views(v@).subrange(0, i as int)),
        decreases v@.len() - i,
    {
        let ghost pre = views(v@).subrange(0, i as int);
        let ghost next = views(v@).subrange(0, i + 1);
        assert(next.drop_last() =~= pre);
        assert(next.last() == v@[i as int]@);
        let mut seen = false;
        let mut j: usize = 0;
        while j < r.len()
            invariant
                i < v@.len(),
                j <= r@.len(),
                views(r@) == dedup(pre),
                seen == (exists|k: int| 0 <= k < j && views(r@)[k] == v@[i as int]@),
            decreases r@.len() - j,
        {
            assert(views(r@)[j as int] == r@[j as int]@);
            if r[j] == v[i] {
                seen = true;
            }
            j += 1;
        }
        assert(seen == dedup(pre).contains(next.last()));
        if !seen {
            let ghost prev = views(r@);
            r.push(v[i].clone());
            assert(views(r@) =~= prev.push(next.last()));
        }
        i += 1;
    }
    assert(views(v@).subrange(0, v@.len() as int) =~= views(v@));
    r
}

/// Removing repeats leaves no key twice.
proof fn lemma_dedup_unique(s: Seq<Seq<char>>)
    ensures
        unique_keys(dedup(s)),
    decreases s.len(),
{
    if s.len() > 0 {
        lemma_dedup_unique(s.drop_last());
        let d = dedup(s.drop_last());
        if !d.contains(s.last()) {
            let e = d.push(s.last());
            assert forall|i: int, j: int| 0 <= i < e.len() && 0 <= j < e.len() && i != j implies e[i] != e[j] by {
                if i < d.len() && j < d.len() {
                } else if i == d.len() {
                    assert(d[j] != s.last());
                } else {
                    assert(d[i] != s.last());
                }
            }
        }
    }
}

impl Store {
    /// Appends a public main-room message to the history; returns whether it was kept.
    pub fn record_chat(&mut self, msg: ChatMessage, room: &Option<String>) -> (r: bool)
        requires
            old(self)@.wf(),
        ensures
            (final(self)@, r) == old(self)@.record_chat(msg@, opt_view(*room)),
            final(self)@.wf(),
    {
        let ghost before = self@;
        if msg.recipient_id.is_none() && room.is_none() {
            let ghost mv = msg@;
            self.chat_history.push(msg);
            assert(self@.chat_history =~= before.chat_history.push(mv));
            true
        } else {
            false
        }
    }

    /// Stores a poll, with `fresh_id` as its id where the client gave none and
    /// each voter once; returns the poll as stored.
    pub fn create_poll(&mut self, poll: Poll, fresh_id: String) -> (r: Poll)
        requires
            old(self)@.wf(),
        ensures
            r@ == RoomView::stored_poll(poll@, fresh_id@),
            final(self)@ == old(self)@.create_poll(r@),
            final(self)@.wf(),
    {
        let ghost before = self@;
        let voters = dedup_voters(&poll.voters);
        let id = if poll.id.as_str().is_empty() { fresh_id } else { poll.id };
        let stored = Poll { id, question: poll.question, options: poll.options, voters };
        let copy = stored.clone();
        let ghost sv = stored@;
        let pi = find_poll(&self.polls, &stored.id);
        match pi {
            Some(i) => self.polls.set(i, stored),
            None => self.polls.push(stored),
        }
        proof {
            let pi = before.poll_index(sv.id);
            lemma_key_index_range(poll_keys(before.polls), sv.id);
            assert(self@.polls =~= upsert(before.polls, pi, sv));
            assert(poll_keys(self@.polls) =~= upsert(poll_keys(before.polls), pi, sv.id));
            lemma_upsert_unique(poll_keys(before.polls), sv.id);
            lemma_dedup_unique(views(poll.voters@));
            assert forall|i: int| 0 <= i < self@.polls.len() implies unique_keys(#[trigger] self@.polls[i].voters) by {
                if i < before.polls.len() && i != pi {
                    assert(self@.polls[i] == before.polls[i]);
                }
            }
        }
        copy
    }

    /// Records the first vote of `voter` on option `option_id` of poll
    /// `poll_id` and returns the updated poll; `None`, and no change, for a
    /// repeated vote, an unknown poll or an unknown option.
    pub fn vote(&mut self, poll_id: &String, voter: &String, option_id: u32) -> (r: Option<Poll>)
        requires
            old(self)@.wf(),
        ensures
            (final(self)@, opt_views(r)) == old(self)@.vote(poll_id@, voter@, option_id),
            final(self)@.wf(),
    {
        let ghost before = self@;
        let pi = match find_poll(&self.polls, poll_id) {
            Some(i) => i,
            None => return None,
        };
        let mut already = false;
        let mut j: usize = 0;
        while j < self.polls[pi].voters.len()
            invariant
                self@ == before,
                pi < self.polls@.len(),
                pi as int == before.poll_index(poll_id@),
                j <= self.polls@[pi as int].voters@.len(),
                already == (exists|k: int| 0 <= k < j && before.polls[pi as int].voters[k] == voter@),
            decreases self.polls@[pi as int].voters@.len() - j,
        {
            assert(before.polls[pi as int].voters[j as int] == self.polls@[pi as int].voters@[j as int]@);
            if self.polls[pi].voters[j] == *voter {
                already = true;
            }
            j += 1;
        }
        assert(already == before.polls[pi as int].voters.contains(voter@));
        if already {
            return None;
        }
        let oi = match find_option(&self.polls[pi].options, option_id) {
            Some(i) => i,
            None => return None,
        };
        assert(views(self.polls@[pi as int].options@) == before.polls[pi as int].options);
        let mut poll = self.polls[pi].clone();
        let mut opt = poll.options[oi].clone();
        opt.votes = if opt.votes < u32::MAX { opt.votes + 1 } else { opt.votes };
        let ghost old_opts = views(poll.options@);
        let ghost old_voters = views(poll.voters@);
        poll.options.set(oi, opt);
        poll.voters.push(voter.clone());
        assert(views(poll.options@) =~= old_opts.update(oi as int, opt@));
        assert(views(poll.voters@) =~= old_voters.push(voter@));
        let copy = poll.clone();
        let ghost pv = poll@;
        self.polls.set(pi, poll);
        proof {
            assert(self@.polls =~= before.polls.update(pi as int, pv));
            assert(poll_keys(self@.polls) =~= poll_keys(before.polls));
            let vs = before.polls[pi as int].voters;
            assert(!vs.contains(voter@));
            assert(unique_keys(vs.push(voter@))) by {
                let e = vs.push(voter@);
                assert forall|a: int, b: int| 0 <= a < e.len() && 0 <= b < e.len() && a != b implies e[a] != e[b] by {
                    if a < vs.len() && b < vs.len() {
                    } else if a == vs.len() {
                        assert(vs[b] != voter@);
                    } else {
                        assert(vs[a] != voter@);
                    }
                }
            }
            assert forall|i: int| 0 <= i < self@.polls.len() implies unique_keys(#[trigger] self@.polls[i].voters) by {
                if i != pi {
                    assert(self@.polls[i] == before.polls[i]);
                }
            }
        }
        Some(copy)
    }

    /// Tags the stroke with its sender, appends it, and returns it.
    pub fn record_draw(&mut self, action: DrawAction, sender: &String) -> (r: DrawAction)
        requires
            old(self)@.wf(),
        ensures
            (final(self)@, r@) == old(self)@.record_draw(action@, sender@),
            final(self)@.wf(),
    {
        let ghost before = self@;
        let mut a = action;
        a.sender_id = sender.clone();
        let copy = a.clone();
        let ghost av = a@;
        self.whiteboard.push(a);
        assert(self@.whiteboard =~= before.whiteboard.push(av));
        copy
    }

    /// Applies a change to the roster entry of `id` and returns the new entry.
    pub fn update_participant(&mut self, id: &String, change: ProfileChange) -> (r: Option<Participant>)
        requires
            old(self)@.wf(),
        ensures
            (final(self)@, opt_views(r)) == old(self)@.update_participant(id@, change),
            final(self)@.wf(),
    {
        let ghost before = self@;
        let ghost ch = change;
        match find_participant(&self.participants, id) {
            Some(i) => {
                let mut p = self.participants[i].clone();
                match change {
                    ProfileChange::Rename(name) => p.name = name,
                    ProfileChange::ToggleRaiseHand => p.is_hand_raised = !p.is_hand_raised,
                    ProfileChange::ToggleScreenShare => p.is_sharing_screen = !p.is_sharing_screen,
                }
                let copy = p.clone();
                let ghost pv = p@;
                self.participants.set(i, p);
                proof {
                    assert(pv == ch.apply(before.participants[i as int]));
                    assert(self@.participants =~= before.participants.update(i as int, pv));
                    assert(participant_keys(self@.participants) =~= participant_keys(before.participants));
                }
                Some(copy)
            },
            None => None,
        }
    }

    /// Registers a breakout room and returns the list of all of them.
    pub fn create_breakout_room(&mut self, room: BreakoutRoom) -> (r: Vec<BreakoutRoom>)
        requires
            old(self)@.wf(),
        ensures
            final(self)@ == old(self)@.create_breakout_room(room@),
            views(r@) == final(self)@.breakout_rooms,
            final(self)@.wf(),
    {
        let ghost before = self@;
        let ghost rv = room@;
        match find_breakout_room(&self.breakout_rooms, &room.id) {
            Some(i) => self.breakout_rooms.set(i, room),
            None => self.breakout_rooms.push(room),
        }
        proof {
            let bi = before.breakout_index(rv.id);
            assert(self@.breakout_rooms =~= upsert(before.breakout_rooms, bi, rv));
            assert(breakout_keys(self@.breakout_rooms) =~= upsert(breakout_keys(before.breakout_rooms), bi, rv.id));
            lemma_upsert_unique(breakout_keys(before.breakout_rooms), rv.id);
        }
        let r = self.breakout_rooms.clone();
        assert(views(r@) =~= self@.breakout_rooms);
        r
    }

    /// Records that `id` is now in breakout room `room` (`None`: the main room).
    pub fn move_participant(&mut self, id: &String, room: Option<String>)
        requires
            old(self)@.wf(),
        ensures
            final(self)@ == old(self)@.move_participant(id@, opt_view(room)),
            final(self)@.wf(),
    {
        let ghost before = self@;
        let ghost lv = LocationView { participant_id: id@, room_id: opt_view(room) };
        let loc = Location { participant_id: id.clone(), room_id: room };
        match find_location(&self.locations, id) {
            Some(i) => self.locations.set(i, loc),
            None => self.locations.push(loc),
        }
        proof {
            let li = before.location_index(id@);
            assert(self@.locations =~= upsert(before.locations, li, lv));
            assert(location_keys(self@.locations) =~= upsert(location_keys(before.locations), li, id@));
            lemma_upsert_unique(location_keys(before.locations), id@);
        }
    }
}

/// The room: the single source of truth for everything the session shares.
/// It is always well formed (`RoomView::wf`).
pub struct Room {
    store: Store,
}

impl View for Room {
    type V = RoomView;

    closed spec fn view(&self) -> RoomView {
        self.store@
    }
}

impl Room {
    #[verifier::type_invariant]
    spec fn well_formed(&self) -> bool {
        self.store@.wf()
    }

    /// A room with the given configuration and empty collections.
    pub fn new(config: RoomConfig) -> (r: Room)
        ensures
            r@ == RoomView::fresh(config@),
            r@.wf(),
    {
        Room { store: Store::new(config) }
    }

    /// Moves the collections out, leaving empty ones behind until they are put back.
    fn take_store(&mut self) -> (s: Store)
        ensures
            s@ == old(self)@,
            s@.wf(),
    {
        proof {
            use_type_invariant(&*self);
        }
        let mut s = Store::new(RoomConfig {
            room_name: String::new(),
            is_locked: false,
            is_recording: false,
            is_lobby_enabled: false,
            max_participants: 0,
            host_id: None,
        });
        std::mem::swap(&mut self.store, &mut s);
        s
    }

    /// Replaces the configuration and clears every collection: a new meeting
    /// starts in the same room.
    pub fn reset(&mut self, config: RoomConfig)
        ensures
            final(self)@ == RoomView::fresh(config@),
            final(self)@.wf(),
    {
        self.store = Store::new(config);
    }

    pub fn config(&self) -> (r: &RoomConfig)
        ensures
            r@ == self@.config,
    {
        self.store.config()
    }

    /// The roster, in order of arrival.
    pub fn participants(&self) -> (r: &Vec<Participant>)
        ensures
            views(r@) == self@.participants,
    {
        self.store.participants()
    }

    /// The public chat history of the main room.
    pub fn chat_history(&self) -> (r: &Vec<ChatMessage>)
        ensures
            views(r@) == self@.chat_history,
    {
        self.store.chat_history()
    }

    pub fn polls(&self) -> (r: &Vec<Poll>)
        ensures
            views(r@) == self@.polls,
    {
        self.store.polls()
    }

    /// Every stroke drawn so far, oldest first.
    pub fn whiteboard(&self) -> (r: &Vec<DrawAction>)
        ensures
            views(r@) == self@.whiteboard,
    {
        self.store.whiteboard()
    }

    pub fn breakout_rooms(&self) -> (r: &Vec<BreakoutRoom>)
        ensures
            views(r@) == self@.breakout_rooms,
    {
        self.store.breakout_rooms()
    }

    /// The participants waiting in the lobby, in order of arrival.
    pub fn knocking_participants(&self) -> (r: Vec<Participant>)
        ensures
            views(r@) == self@.knocking_participants(),
    {
        self.store.knocking_participants()
    }

    /// Whether the waiting request of `id` still has an open decision slot.
    pub fn decision_pending(&self, id: &String) -> (r: bool)
        ensures
            r == (self@.is_knocking(id@) && self@.knocking[self@.knock_index(id@)].decision_open),
    {
        self.store.decision_pending(id)
    }

    /// The sub-room `id` is in; `None` for the main room.
    pub fn location_of(&self, id: &String) -> (r: Option<String>)
        ensures
            opt_view(r) == self@.location_of(id@),
    {
        self.store.location_of(id)
    }

    /// Flips the lock flag and returns the new configuration.
    pub fn toggle_lock(&mut self) -> (r: RoomConfig)
        ensures
            final(self)@ == old(self)@.with_config(
                RoomConfigView { is_locked: !old(self)@.config.is_locked, ..old(self)@.config },
            ),
            r@ == final(self)@.config,
            final(self)@.wf(),
    {
        let mut s = self.take_store();
        let r = s.toggle_lock();
        self.store = s;
        r
    }

    /// Flips the recording flag and returns the new configuration.
    pub fn toggle_recording(&mut self) -> (r: RoomConfig)
        ensures
            final(self)@ == old(self)@.with_config(
                RoomConfigView { is_recording: !old(self)@.config.is_recording, ..old(self)@.config },
            ),
            r@ == final(self)@.config,
            final(self)@.wf(),
    {
        let mut s = self.take_store();
        let r = s.toggle_recording();
        self.store = s;
        r
    }

    /// Flips the lobby flag and returns the new configuration.
    pub fn toggle_lobby(&mut self) -> (r: RoomConfig)
        ensures
            final(self)@ == old(self)@.with_config(
                RoomConfigView { is_lobby_enabled: !old(self)@.config.is_lobby_enabled, ..old(self)@.config },
            ),
            r@ == final(self)@.config,
            final(self)@.wf(),
    {
        let mut s = self.take_store();
        let r = s.toggle_lobby();
        self.store = s;
        r
    }

    /// Adds `p` to the roster unless the room is full; the first participant
    /// while there is no host becomes the host.
    pub fn enroll(&mut self, p: Participant) -> (r: Admission)
        ensures
            (final(self)@, r) == old(self)@.enroll(p@),
            final(self)@.wf(),
    {
        let mut s = self.take_store();
        let r = s.enroll(p);
        self.store = s;
        r
    }

    /// Parks `p` in the lobby with an open decision slot.
    pub fn knock(&mut self, p: Participant)
        ensures
            final(self)@ == old(self)@.knock(p@),
            final(self)@.wf(),
    {
        let mut s = self.take_store();
        s.knock(p);
        self.store = s;
    }

    /// Claims the decision slot of the waiting request `id`: true for the
    /// first claim, false when the slot is taken or there is no such request.
    pub fn claim_decision(&mut self, id: &String) -> (r: bool)
        ensures
            (final(self)@, r) == old(self)@.claim_decision(id@),
            final(self)@.wf(),
    {
        let mut s = self.take_store();
        let r = s.claim_decision(id);
        self.store = s;
        r
    }

    /// Removes the waiting request `id` and returns its participant, if it was there.
    pub fn withdraw_knock(&mut self, id: &String) -> (r: Option<Participant>)
        ensures
            (final(self)@, opt_views(r)) == old(self)@.withdraw_knock(id@),
            final(self)@.wf(),
    {
        let mut s = self.take_store();
        let r = s.withdraw_knock(id);
        self.store = s;
        r
    }

    /// Moves the granted request `id` from the lobby through admission.
    /// `None` when no such request waits.
    pub fn enroll_knocker(&mut self, id: &String) -> (r: Option<(Participant, Admission)>)
        ensures
            (final(self)@, match r {
                Some((p, a)) => Some((p@, a)),
                None => None,
            }) == old(self)@.enroll_knocker(id@),
            final(self)@.wf(),
    {
        let mut s = self.take_store();
        let r = s.enroll_knocker(id);
        self.store = s;
        r
    }

    /// Removes `id` from the roster and drops its location; true if it was there.
    pub fn remove_participant(&mut self, id: &String) -> (r: bool)
        ensures
            (final(self)@, r) == old(self)@.remove_participant(id@),
            final(self)@.wf(),
    {
        let mut s = self.take_store();
        let r = s.remove_participant(id);
        self.store = s;
        r
    }

    /// Removes `target` when `by` is the host; returns whether the kick was permitted.
    pub fn kick(&mut self, by: &String, target: &String) -> (r: bool)
        ensures
            (final(self)@, r) == old(self)@.kick(by@, target@),
            final(self)@.wf(),
    {
        let mut s = self.take_store();
        let r = s.kick(by, target);
        self.store = s;
        r
    }

    /// Appends a public main-room message to the history; returns whether it was kept.
    pub fn record_chat(&mut self, msg: ChatMessage, room: &Option<String>) -> (r: bool)
        ensures
            (final(self)@, r) == old(self)@.record_chat(msg@, opt_view(*room)),
            final(self)@.wf(),
    {
        let mut s = self.take_store();
        let r = s.record_chat(msg, room);
        self.store = s;
        r
    }

    /// Stores a poll, with `fresh_id` as its id where the client gave none and
    /// each voter once; returns the poll as stored.
    pub fn create_poll(&mut self, poll: Poll, fresh_id: String) -> (r: Poll)
        ensures
            r@ == RoomView::stored_poll(poll@, fresh_id@),
            final(self)@ == old(self)@.create_poll(r@),
            final(self)@.wf(),
    {
        let mut s = self.take_store();
        let r = s.create_poll(poll, fresh_id);
        self.store = s;
        r
    }

    /// Records the first vote of `voter` on option `option_id` of poll
    /// `poll_id` and returns the updated poll; `None`, and no change, for a
    /// repeated vote, an unknown poll or an unknown option.
    pub fn vote(&mut self, poll_id: &String, voter: &String, option_id: u32) -> (r: Option<Poll>)
        ensures
            (final(self)@, opt_views(r)) == old(self)@.vote(poll_id@, voter@, option_id),
            final(self)@.wf(),
    {
        let mut s = self.take_store();
        let r = s.vote(poll_id, voter, option_id);
        self.store = s;
        r
    }

    /// Tags the stroke with its sender, appends it, and returns it.
    pub fn record_draw(&mut self, action: DrawAction, sender: &String) -> (r: DrawAction)
        ensures
            (final(self)@, r@) == old(self)@.record_draw(action@, sender@),
            final(self)@.wf(),
    {
        let mut s = self.take_store();
        let r = s.record_draw(action, sender);
        self.store = s;
        r
    }

    /// Applies a change to the roster entry of `id` and returns the new entry.
    pub fn update_participant(&mut self, id: &String, change: ProfileChange) -> (r: Option<Participant>)
        ensures
            (final(self)@, opt_views(r)) == old(self)@.update_participant(id@, change),
            final(self)@.wf(),
    {
        let mut s = self.take_store();
        let r = s.update_participant(id, change);
        self.store = s;
        r
    }

    /// Registers a breakout room and returns the list of all of them.
    pub fn create_breakout_room(&mut self, room: BreakoutRoom) -> (r: Vec<BreakoutRoom>)
        ensures
            final(self)@ == old(self)@.create_breakout_room(room@),
            views(r@) == final(self)@.breakout_rooms,
            final(self)@.wf(),
    {
        let mut s = self.take_store();
        let r = s.create_breakout_room(room);
        self.store = s;
        r
    }

    /// Records that `id` is now in breakout room `room` (`None`: the main room).
    pub fn move_participant(&mut self, id: &String, room: Option<String>)
        ensures
            final(self)@ == old(self)@.move_participant(id@, opt_view(room)),
            final(self)@.wf(),
    {
        let mut s = self.take_store();
        s.move_participant(id, room);
        self.store = s;
    }
}

} // verus!
