//! Properties of the session that span several operations.

use vstd::prelude::*;
use crate::keys::{key_index, remove_at, unique_keys, lemma_key_index_absent, lemma_key_index_range, lemma_removed_absent};
use crate::protocol::{ClientMessage, ParticipantView, PollOptionView, PollView, RoomConfigView, ServerMessageView};
use crate::room::{bump, knocking_keys, option_keys, participant_keys, poll_keys, RoomView};
use crate::session::{close_step, command_step, decision_step, full_text, grant_step, join_step, refuse_step, welcome_effects, ConnectionView, EffectView};

verus! {

/// A kick command from anyone but the current host leaves the roster as it was.
pub proof fn lemma_kick_requires_host(
    room: RoomView,
    conn: ConnectionView,
    cmd: ClientMessage,
    fresh_id: Seq<char>,
    now: u64,
)
    requires
        cmd is KickParticipant,
        !(conn.my_id matches Some(uid) && room.is_host(uid)),
    ensures
        command_step(room, conn, cmd, fresh_id, now).0.participants == room.participants,
{
}

/// A grant that claims a waiting request first is the only decision that
/// acts on it: the expiry timer firing afterwards, or a second decision, does
/// nothing; once the grant reaches the waiting connection the requester is in
/// the roster exactly once and no longer in the lobby, and a late expiry
/// still does nothing.
pub proof fn lemma_grant_then_timeout(room: RoomView, conn: ConnectionView, id: Seq<char>)
    requires
        room.wf(),
        room.is_knocking(id),
        room.knocking[room.knock_index(id)].decision_open,
        !room.has_participant(id),
        room.participants.len() < room.config.max_participants,
        conn.knocking_id == Some(id),
        conn.my_id is None,
    ensures
        ({
            let (r1, e1) = grant_step(room, id);
            let p = room.knocking[room.knock_index(id)].participant;
            let (r2, c2, e2) = decision_step(r1, conn, true);
            &&& e1 == seq![EffectView::Decide { target: id, granted: true }]
            &&& refuse_step(r1, id) == (r1, Seq::<EffectView>::empty())
            &&& grant_step(r1, id) == (r1, Seq::<EffectView>::empty())
            &&& p.id == id
            &&& r2.participants == room.participants.push(p)
            &&& r2.knocking == room.knocking.remove(room.knock_index(id))
            &&& !r2.is_knocking(id)
            &&& c2.my_id == Some(id)
            &&& c2.knocking_id is None
            &&& refuse_step(r2, id) == (r2, Seq::<EffectView>::empty())
        }),
{
    let i = room.knock_index(id);
    lemma_key_index_range(knocking_keys(room.knocking), id);
    lemma_key_index_range(participant_keys(room.participants), id);
    let (r1, claimed) = room.claim_decision(id);
    assert(claimed);
    assert(knocking_keys(r1.knocking) =~= knocking_keys(room.knocking));
    assert(r1.knock_index(id) == i);
    assert(!r1.knocking[i].decision_open);
    let (w, p) = r1.withdraw_knock(id);
    assert(w.knocking == r1.knocking.remove(i));
    assert(w.knocking =~= room.knocking.remove(i));
    assert(knocking_keys(w.knocking) =~= remove_at(knocking_keys(room.knocking), i));
    lemma_removed_absent(knocking_keys(room.knocking), id);
    let pv = room.knocking[i].participant;
    assert(knocking_keys(room.knocking)[i] == pv.id);
    assert(w.participant_index(pv.id) == -1);
    let (r2, c2, e2) = decision_step(r1, conn, true);
    assert(r2.participants =~= room.participants.push(pv));
}

/// When the expiry timer claims a waiting request first, the request leaves
/// the lobby without joining the roster, and a grant or refusal arriving
/// afterwards does nothing.
pub proof fn lemma_timeout_then_grant(room: RoomView, id: Seq<char>)
    requires
        room.wf(),
        room.is_knocking(id),
        room.knocking[room.knock_index(id)].decision_open,
    ensures
        ({
            let (r1, e1) = refuse_step(room, id);
            &&& e1 == seq![
                EffectView::Broadcast(crate::protocol::ServerMessageView::KnockingParticipantLeft(id)),
                EffectView::Decide { target: id, granted: false },
            ]
            &&& !r1.is_knocking(id)
            &&& r1.participants == room.participants
            &&& grant_step(r1, id) == (r1, Seq::<EffectView>::empty())
            &&& refuse_step(r1, id) == (r1, Seq::<EffectView>::empty())
        }),
{
    let i = room.knock_index(id);
    lemma_key_index_range(knocking_keys(room.knocking), id);
    let (r1, claimed) = room.claim_decision(id);
    assert(knocking_keys(r1.knocking) =~= knocking_keys(room.knocking));
    let (w, p) = r1.withdraw_knock(id);
    assert(knocking_keys(w.knocking) =~= remove_at(knocking_keys(room.knocking), i));
    lemma_removed_absent(knocking_keys(room.knocking), id);
    let (r, e) = refuse_step(room, id);
    assert(e =~= seq![
        EffectView::Broadcast(crate::protocol::ServerMessageView::KnockingParticipantLeft(id)),
        EffectView::Decide { target: id, granted: false },
    ]);
}

/// The sum of the vote counts of a poll's options.
pub open spec fn total_votes(options: Seq<PollOptionView>) -> int
    decreases options.len(),
{
    if options.len() == 0 {
        0
    } else {
        total_votes(options.drop_last()) + options.last().votes
    }
}

/// The room after `voter` sends one vote command on poll `poll_id` for each
/// option id of `option_ids`, in order.
pub open spec fn vote_all(room: RoomView, poll_id: Seq<char>, voter: Seq<char>, option_ids: Seq<u32>) -> RoomView
    decreases option_ids.len(),
{
    if option_ids.len() == 0 {
        room
    } else {
        vote_all(room, poll_id, voter, option_ids.drop_last()).vote(poll_id, voter, option_ids.last()).0
    }
}

proof fn lemma_total_update(s: Seq<PollOptionView>, i: int, x: PollOptionView)
    requires
        0 <= i < s.len(),
    ensures
        total_votes(s.update(i, x)) == total_votes(s) - s[i].votes + x.votes,
    decreases s.len(),
{
    let u = s.update(i, x);
    if i < s.len() - 1 {
        assert(u.drop_last() =~= s.drop_last().update(i, x));
        lemma_total_update(s.drop_last(), i, x);
    } else {
        assert(u.drop_last() =~= s.drop_last());
    }
}

/// After an accepted vote the voter is recorded, so any further vote of the
/// same voter on the same poll changes nothing.
proof fn lemma_vote_then_nothing(room: RoomView, poll_id: Seq<char>, voter: Seq<char>, first: u32, later: u32)
    requires
        room.vote(poll_id, voter, first).1 is Some,
    ensures
        ({
            let r1 = room.vote(poll_id, voter, first).0;
            r1.vote(poll_id, voter, later) == (r1, None::<PollView>)
        }),
{
    let pi = room.poll_index(poll_id);
    let r1 = room.vote(poll_id, voter, first).0;
    assert(poll_keys(r1.polls) =~= poll_keys(room.polls));
    assert(r1.poll_index(poll_id) == pi);
    assert(r1.polls[pi].voters.last() == voter);
}

/// Sending several votes changes the room as the first accepted vote did, or
/// not at all.
proof fn lemma_vote_all(room: RoomView, poll_id: Seq<char>, voter: Seq<char>, option_ids: Seq<u32>)
    ensures
        vote_all(room, poll_id, voter, option_ids) == room || exists|o: u32|
            #[trigger] room.vote(poll_id, voter, o).1 is Some && vote_all(room, poll_id, voter, option_ids)
                == room.vote(poll_id, voter, o).0,
    decreases option_ids.len(),
{
    if option_ids.len() > 0 {
        lemma_vote_all(room, poll_id, voter, option_ids.drop_last());
        let prev = vote_all(room, poll_id, voter, option_ids.drop_last());
        if prev != room {
            let o = choose|o: u32|
                #[trigger] room.vote(poll_id, voter, o).1 is Some && prev == room.vote(poll_id, voter, o).0;
            lemma_vote_then_nothing(room, poll_id, voter, o, option_ids.last());
        } else {
            let l = option_ids.last();
            if room.vote(poll_id, voter, l).1 is Some {
                assert(vote_all(room, poll_id, voter, option_ids) == room.vote(poll_id, voter, l).0);
            } else {
                assert(room.vote(poll_id, voter, l).0 == room);
            }
        }
    }
}

/// However many vote commands a participant sends on a poll, it ends up among
/// the poll's voters at most once and the poll's total count grows by at most one.
pub proof fn lemma_one_vote_per_participant(room: RoomView, poll_id: Seq<char>, voter: Seq<char>, option_ids: Seq<u32>)
    requires
        room.poll_index(poll_id) >= 0,
    ensures
        ({
            let pi = room.poll_index(poll_id);
            let after = vote_all(room, poll_id, voter, option_ids);
            let poll_before = room.polls[pi];
            let poll_after = after.polls[pi];
            &&& after.poll_index(poll_id) == pi
            &&& poll_after.voters == poll_before.voters || (!poll_before.voters.contains(voter) && poll_after.voters == poll_before.voters.push(voter))
            &&& total_votes(poll_after.options) <= total_votes(poll_before.options) + 1
        }),
{
    lemma_vote_all(room, poll_id, voter, option_ids);
    let after = vote_all(room, poll_id, voter, option_ids);
    let pi = room.poll_index(poll_id);
    if after != room {
        let o = choose|o: u32|
            #[trigger] room.vote(poll_id, voter, o).1 is Some && after == room.vote(poll_id, voter, o).0;
        let poll_before = room.polls[pi];
        let oi = key_index(option_keys(poll_before.options), o);
        lemma_key_index_range(option_keys(poll_before.options), o);
        assert(poll_keys(after.polls) =~= poll_keys(room.polls));
        let opt = poll_before.options[oi];
        lemma_total_update(poll_before.options, oi, PollOptionView { votes: bump(opt.votes), ..opt });
    }
}

/// A connection that has just opened.
pub open spec fn new_connection() -> ConnectionView {
    ConnectionView { my_id: None, knocking_id: None, my_room_id: None }
}

/// The room, and what each joiner was sent, after one join request per name,
/// each from a new connection, the `k`-th under the fresh id `ids[k]`.
pub open spec fn join_all(room: RoomView, names: Seq<Seq<char>>, ids: Seq<Seq<char>>) -> (RoomView, Seq<Seq<EffectView>>)
    decreases names.len(),
{
    if names.len() == 0 {
        (room, Seq::empty())
    } else {
        let (r, out) = join_all(room, names.drop_last(), ids);
        let (r2, _c, e) = join_step(r, new_connection(), names.last(), ids[names.len() - 1]);
        (r2, out.push(e))
    }
}

pub open spec fn min(a: int, b: int) -> int {
    if a < b {
        a
    } else {
        b
    }
}

/// In a room of capacity `N` without lock and lobby, a run of joins admits the
/// first `N` joiners, in order, and no more: each later joiner is told that
/// the room is full.
pub proof fn lemma_capacity(config: RoomConfigView, names: Seq<Seq<char>>, ids: Seq<Seq<char>>)
    requires
        !config.is_locked,
        !config.is_lobby_enabled,
        ids.len() == names.len(),
        unique_keys(ids),
    ensures
        ({
            let n = config.max_participants as int;
            let (r, out) = join_all(RoomView::fresh(config), names, ids);
            &&& r.participants.len() == min(names.len() as int, n)
            &&& r.participants.len() <= n
            &&& participant_keys(r.participants) == ids.subrange(0, min(names.len() as int, n))
            &&& out.len() == names.len()
            &&& forall|k: int| 0 <= k < min(names.len() as int, n) ==> (#[trigger] out[k])[0]
                == EffectView::Reply(ServerMessageView::Welcome { id: ids[k] })
            &&& forall|k: int| n <= k < names.len() ==> #[trigger] out[k]
                == seq![EffectView::Reply(ServerMessageView::Error(full_text()))]
        }),
{
    lemma_capacity_run(config, names, ids);
}

proof fn lemma_capacity_run(config: RoomConfigView, names: Seq<Seq<char>>, ids: Seq<Seq<char>>)
    requires
        !config.is_locked,
        !config.is_lobby_enabled,
        ids.len() >= names.len(),
        unique_keys(ids),
    ensures
        ({
            let n = config.max_participants as int;
            let m = min(names.len() as int, n);
            let (r, out) = join_all(RoomView::fresh(config), names, ids);
            &&& r.config.max_participants == config.max_participants
            &&& !r.config.is_locked
            &&& !r.config.is_lobby_enabled
            &&& r.participants.len() == m
            &&& participant_keys(r.participants) == ids.subrange(0, m)
            &&& out.len() == names.len()
            &&& forall|k: int| 0 <= k < m ==> (#[trigger] out[k])[0]
                == EffectView::Reply(ServerMessageView::Welcome { id: ids[k] })
            &&& forall|k: int| n <= k < names.len() ==> #[trigger] out[k]
                == seq![EffectView::Reply(ServerMessageView::Error(full_text()))]
        }),
    decreases names.len(),
{
    let n = config.max_participants as int;
    if names.len() == 0 {
        assert(participant_keys(Seq::<ParticipantView>::empty()) =~= ids.subrange(0, 0));
    } else {
        let j = names.len() - 1;
        lemma_capacity_run(config, names.drop_last(), ids);
        let (r, out) = join_all(RoomView::fresh(config), names.drop_last(), ids);
        let id = ids[j];
        let me = ParticipantView { id, name: names.last(), is_hand_raised: false, is_sharing_screen: false };
        let (r2, c2, e) = join_step(r, new_connection(), names.last(), id);
        assert(join_all(RoomView::fresh(config), names, ids) == (r2, out.push(e)));
        if j < n {
            let keys = participant_keys(r.participants);
            assert(keys == ids.subrange(0, j));
            assert forall|x: int| 0 <= x < keys.len() implies keys[x] != id by {
                assert(keys[x] == ids[x]);
            }
            lemma_key_index_absent(keys, id);
            assert(r.participant_index(id) == -1);
            let (r3, a) = r.enroll(me);
            assert(r3.participants == r.participants.push(me));
            assert(participant_keys(r3.participants) =~= ids.subrange(0, j + 1));
            let ad = a->host_assigned;
            let w = welcome_effects(r3, me, ad);
            assert(w[0] == EffectView::Reply(ServerMessageView::Welcome { id }));
            assert(out.push(e)[j] == e);
        } else {
            assert(out.push(e)[j] == e);
        }
        assert forall|k: int| 0 <= k < j implies out.push(e)[k] == out[k] by {}
    }
}

/// A waiting request is removed, and its departure announced, exactly once,
/// whichever of disconnect and lobby expiry comes first: the later of the two
/// finds nothing left to do.
pub proof fn lemma_knock_withdrawn_once(room: RoomView, conn: ConnectionView, id: Seq<char>)
    requires
        room.wf(),
        room.is_knocking(id),
        room.knocking[room.knock_index(id)].decision_open,
        conn.knocking_id == Some(id),
        conn.my_id is None,
    ensures
        ({
            let (closed, on_close) = close_step(room, conn);
            &&& on_close == seq![EffectView::Broadcast(ServerMessageView::KnockingParticipantLeft(id))]
            &&& !closed.is_knocking(id)
            &&& refuse_step(closed, id) == (closed, Seq::<EffectView>::empty())
        }),
        ({
            let (expired, on_expiry) = refuse_step(room, id);
            &&& !expired.is_knocking(id)
            &&& close_step(expired, conn) == (expired, Seq::<EffectView>::empty())
        }),
{
    let i = room.knock_index(id);
    lemma_key_index_range(knocking_keys(room.knocking), id);
    lemma_removed_absent(knocking_keys(room.knocking), id);
    let (closed, e) = close_step(room, conn);
    assert(knocking_keys(closed.knocking) =~= remove_at(knocking_keys(room.knocking), i));
    lemma_timeout_then_grant(room, id);
    let (r1, claimed) = room.claim_decision(id);
    assert(knocking_keys(r1.knocking) =~= knocking_keys(room.knocking));
}

} // verus!
