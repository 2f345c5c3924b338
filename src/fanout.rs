//! Per-subscriber filtering of the shared event stream.

use vstd::prelude::*;
use crate::protocol::{opt_view, ServerMessage, ServerMessageView};
use crate::room::{Room, RoomView};

verus! {

/// Whether a subscriber `me`, currently in sub-room `loc` (`None`: the main
/// room), may see `msg`. Chat and typing events are scoped to the sub-room
/// they were sent from, and a private chat message reaches only its
/// recipient and its sender; every other event reaches everyone.
pub open spec fn visible_to(msg: ServerMessageView, me: Seq<char>, loc: Option<Seq<char>>) -> bool {
    match msg {
        ServerMessageView::Chat { message, room_id } => {
            &&& room_id == loc
            &&& match message.recipient_id {
                Some(target) => target == me || message.user_id == me,
                None => true,
            }
        },
        ServerMessageView::PeerTyping { room_id, .. } => room_id == loc,
        _ => true,
    }
}

/// What a subscriber's delivery path does with one event of the stream.
#[derive(Debug, Clone, Copy, PartialEq, Eq, Structural)]
pub enum Delivery {
    /// Not for this subscriber.
    Skip,
    /// Forward to the subscriber.
    Forward,
    /// Forward, then close the connection: the subscriber was kicked.
    ForwardAndClose,
}

/// The delivery decision for subscriber `me` in sub-room `loc`.
pub open spec fn delivery(msg: ServerMessageView, me: Seq<char>, loc: Option<Seq<char>>) -> Delivery {
    if !visible_to(msg, me, loc) {
        Delivery::Skip
    } else if msg == ServerMessageView::Kicked(me) {
        Delivery::ForwardAndClose
    } else {
        Delivery::Forward
    }
}

fn same_text(a: &String, b: &String) -> (r: bool)
    ensures
        r == (a@ == b@),
{
    *a == *b
}

fn same_room(a: &Option<String>, b: &Option<String>) -> (r: bool)
    ensures
        r == (opt_view(*a) == opt_view(*b)),
{
    match (a, b) {
        (Some(x), Some(y)) => same_text(x, y),
        (None, None) => true,
        _ => false,
    }
}

/// Whether subscriber `me` in sub-room `loc` may see `msg`.
pub fn is_visible_to(msg: &ServerMessage, me: &String, loc: &Option<String>) -> (r: bool)
    ensures
        r == visible_to(msg@, me@, opt_view(*loc)),
{
    match msg {
        ServerMessage::Chat { message, room_id } => {
            if !same_room(room_id, loc) {
                false
            } else {
                match &message.recipient_id {
                    Some(target) => same_text(target, me) || same_text(&message.user_id, me),
                    None => true,
                }
            }
        },
        ServerMessage::PeerTyping { room_id, .. } => same_room(room_id, loc),
        _ => true,
    }
}

/// The delivery decision for subscriber `me` in sub-room `loc`.
pub fn deliver_decision(msg: &ServerMessage, me: &String, loc: &Option<String>) -> (r: Delivery)
    ensures
        r == delivery(msg@, me@, opt_view(*loc)),
{
    if !is_visible_to(msg, me, loc) {
        Delivery::Skip
    } else {
        match msg {
            ServerMessage::Kicked(target) => {
                if same_text(target, me) {
                    Delivery::ForwardAndClose
                } else {
                    Delivery::Forward
                }
            },
            _ => Delivery::Forward,
        }
    }
}

impl Room {
    /// The delivery decision for subscriber `me`, with its location read
    /// from the room at the moment the event is handled.
    pub fn delivery_for(&self, msg: &ServerMessage, me: &String) -> (r: Delivery)
        ensures
            r == delivery(msg@, me@, self@.location_of(me@)),
    {
        let loc = self.location_of(me);
        deliver_decision(msg, me, &loc)
    }
}

} // verus!
