//! Properties of the relay server that hold across its operations.
use vstd::prelude::*;
use crate::protocol::{ClientMessageView, GameInfoView, ServerMessageView};
use crate::relay::{
    create_room_outcome, create_room_step, deliver, disconnect_step, join_room_step, leave_step,
    message_outcome, no_deliveries, no_such_room, register_step, relay_binary_step, relay_step,
    send_all, send_to_connected, set_nickname_step, update_game_info_step, with_member,
    without_member, wrong_password, DeliveryView, PeerView, RelayView, RoomView, has_key,
    nickname_of, with_nickname, member_list, without_nickname, room_of, heartbeat_step,
    list_rooms_outcome,
};
use crate::protocol::MemberInfoView;
use crate::text::trimmed;
use vstd::utf8::encode_utf8;

verus! {

/// No two entries of `ns` are keyed alike.
pub open spec fn keys_distinct(ns: Seq<(Seq<char>, Seq<char>)>) -> bool {
    forall|i: int, j: int|
        0 <= i < ns.len() && 0 <= j < ns.len() && i != j ==> (#[trigger] ns[i]).0 != (
        #[trigger] ns[j]).0
}

/// A room as its maps kept it: no member twice, one nickname per peer, and the
/// host among the members.
pub open spec fn room_well_formed(r: RoomView) -> bool {
    &&& r.members.no_duplicates()
    &&& keys_distinct(r.nicknames)
    &&& r.members.contains(r.host_id)
}

/// Every room is well formed.
pub open spec fn rooms_well_formed(s: RelayView) -> bool {
    forall|r: Seq<char>| #[trigger] s.rooms.contains_key(r) ==> room_well_formed(s.rooms[r])
}

proof fn lemma_without_member_from(ms: Seq<Seq<char>>, p: Seq<char>, x: Seq<char>)
    requires
        without_member(ms, p).contains(x),
    ensures
        ms.contains(x),
        x != p,
    decreases ms.len(),
{
    let rest = without_member(ms.drop_last(), p);
    let j = choose|j: int| 0 <= j < without_member(ms, p).len() && without_member(ms, p)[j] == x;
    if ms.last() != p && j == rest.len() {
        assert(ms[ms.len() - 1] == x);
    } else {
        assert(rest[j] == x);
        lemma_without_member_from(ms.drop_last(), p, x);
        let k = choose|k: int| 0 <= k < ms.drop_last().len() && ms.drop_last()[k] == x;
        assert(ms[k] == x);
    }
}

proof fn lemma_without_member_no_duplicates(ms: Seq<Seq<char>>, p: Seq<char>)
    requires
        ms.no_duplicates(),
    ensures
        without_member(ms, p).no_duplicates(),
    decreases ms.len(),
{
    if ms.len() > 0 {
        let d = ms.drop_last();
        assert(d.no_duplicates());
        lemma_without_member_no_duplicates(d, p);
        let rest = without_member(d, p);
        if ms.last() != p {
            if rest.contains(ms.last()) {
                lemma_without_member_from(d, p, ms.last());
                let k = choose|k: int| 0 <= k < d.len() && d[k] == ms.last();
                assert(ms[k] == ms[ms.len() - 1]);
            }
            let w = rest.push(ms.last());
            assert forall|i: int, j: int| 0 <= i < w.len() && 0 <= j < w.len() && i != j implies w[i]
                != w[j] by {
                if i == rest.len() {
                    assert(!rest.contains(ms.last()));
                    assert(rest[j] == w[j]);
                } else if j == rest.len() {
                    assert(!rest.contains(ms.last()));
                    assert(rest[i] == w[i]);
                }
            }
        }
    }
}

proof fn lemma_without_nickname_from(ns: Seq<(Seq<char>, Seq<char>)>, p: Seq<char>, i: int)
    requires
        0 <= i < without_nickname(ns, p).len(),
    ensures
        exists|k: int| 0 <= k < ns.len() && ns[k] == without_nickname(ns, p)[i],
        without_nickname(ns, p)[i].0 != p,
    decreases ns.len(),
{
    let rest = without_nickname(ns.drop_last(), p);
    if ns.last().0 != p && i == rest.len() {
        assert(ns[ns.len() - 1] == without_nickname(ns, p)[i]);
    } else {
        lemma_without_nickname_from(ns.drop_last(), p, i);
        let k = choose|k: int| 0 <= k < ns.drop_last().len() && ns.drop_last()[k] == rest[i];
        assert(ns[k] == rest[i]);
    }
}

proof fn lemma_without_nickname_distinct(ns: Seq<(Seq<char>, Seq<char>)>, p: Seq<char>)
    requires
        keys_distinct(ns),
    ensures
        keys_distinct(without_nickname(ns, p)),
    decreases ns.len(),
{
    if ns.len() > 0 {
        let d = ns.drop_last();
        assert(keys_distinct(d)) by {
            assert forall|i: int, j: int| 0 <= i < d.len() && 0 <= j < d.len() && i != j implies (
            #[trigger] d[i]).0 != (#[trigger] d[j]).0 by {
                assert(d[i] == ns[i] && d[j] == ns[j]);
            }
        }
        lemma_without_nickname_distinct(d, p);
        let rest = without_nickname(d, p);
        if ns.last().0 != p {
            let w = rest.push(ns.last());
            assert forall|i: int, j: int| 0 <= i < w.len() && 0 <= j < w.len() && i != j implies (
            #[trigger] w[i]).0 != (#[trigger] w[j]).0 by {
                if i == rest.len() || j == rest.len() {
                    let o = if i == rest.len() { j } else { i };
                    lemma_without_nickname_from(d, p, o);
                    let k = choose|k: int| 0 <= k < d.len() && d[k] == rest[o];
                    assert(ns[k] == d[k]);
                    assert(w[o] == rest[o]);
                }
            }
        }
    }
}

proof fn lemma_with_member_well_formed(r: RoomView, p: Seq<char>)
    requires
        r.members.no_duplicates(),
        r.members.contains(r.host_id),
    ensures
        with_member(r.members, p).no_duplicates(),
        with_member(r.members, p).contains(r.host_id),
{
    if !r.members.contains(p) {
        let w = r.members.push(p);
        let k = choose|k: int| 0 <= k < r.members.len() && r.members[k] == r.host_id;
        assert(w[k] == r.host_id);
        assert forall|i: int, j: int| 0 <= i < w.len() && 0 <= j < w.len() && i != j implies w[i]
            != w[j] by {
            if i == r.members.len() {
                assert(w[j] == r.members[j]);
            } else if j == r.members.len() {
                assert(w[i] == r.members[i]);
            }
        }
    }
}

proof fn lemma_with_nickname_distinct(ns: Seq<(Seq<char>, Seq<char>)>, p: Seq<char>, n: Seq<char>)
    requires
        keys_distinct(ns),
    ensures
        keys_distinct(with_nickname(ns, p, n)),
{
    let w = with_nickname(ns, p, n);
    if has_key(ns, p) {
        assert forall|i: int| 0 <= i < ns.len() implies (#[trigger] w[i]).0 == ns[i].0 by {}
        assert forall|i: int, j: int| 0 <= i < w.len() && 0 <= j < w.len() && i != j implies (
        #[trigger] w[i]).0 != (#[trigger] w[j]).0 by {
            assert(w[i].0 == ns[i].0 && w[j].0 == ns[j].0);
        }
    } else {
        assert forall|i: int, j: int| 0 <= i < w.len() && 0 <= j < w.len() && i != j implies (
        #[trigger] w[i]).0 != (#[trigger] w[j]).0 by {
            if i == ns.len() {
                assert(w[j] == ns[j]);
            } else if j == ns.len() {
                assert(w[i] == ns[i]);
            } else {
                assert(w[i] == ns[i] && w[j] == ns[j]);
            }
        }
    }
}

proof fn lemma_send_all_skips(ms: Seq<Seq<char>>, p: Seq<char>, m: ServerMessageView)
    ensures
        forall|i: int|
            0 <= i < send_all(ms, Some(p), m).len() ==> (#[trigger] send_all(ms, Some(p), m)[i]).to
                != p,
    decreases ms.len(),
{
    if ms.len() > 0 {
        lemma_send_all_skips(ms.drop_last(), p, m);
    }
}

proof fn lemma_send_to_connected_skips(
    ms: Seq<Seq<char>>,
    p: Seq<char>,
    peers: Map<Seq<char>, PeerView>,
    m: ServerMessageView,
)
    ensures
        forall|i: int|
            0 <= i < send_to_connected(ms, p, peers, m).len() ==> (#[trigger] send_to_connected(
                ms,
                p,
                peers,
                m,
            )[i]).to != p && peers.contains_key(send_to_connected(ms, p, peers, m)[i].to),
    decreases ms.len(),
{
    if ms.len() > 0 {
        lemma_send_to_connected_skips(ms.drop_last(), p, peers, m);
    }
}

proof fn lemma_without_member_keeps(ms: Seq<Seq<char>>, p: Seq<char>, h: Seq<char>)
    requires
        h != p,
        ms.contains(h),
    ensures
        without_member(ms, p).contains(h),
    decreases ms.len(),
{
    if ms.last() == h {
        assert(without_member(ms, p).last() == h);
    } else {
        let k = choose|k: int| 0 <= k < ms.len() && ms[k] == h;
        assert(ms.drop_last()[k] == h);
        lemma_without_member_keeps(ms.drop_last(), p, h);
        let rest = without_member(ms.drop_last(), p);
        let j = choose|j: int| 0 <= j < rest.len() && rest[j] == h;
        if ms.last() != p {
            assert(without_member(ms, p)[j] == h);
        }
    }
}

proof fn lemma_without_member_omits(ms: Seq<Seq<char>>, p: Seq<char>)
    ensures
        !without_member(ms, p).contains(p),
    decreases ms.len(),
{
    if ms.len() > 0 {
        lemma_without_member_omits(ms.drop_last(), p);
        let rest = without_member(ms.drop_last(), p);
        if ms.last() != p {
            assert forall|j: int| 0 <= j < rest.len() + 1 implies rest.push(ms.last())[j] != p by {
                if j < rest.len() {
                    assert(rest.push(ms.last())[j] == rest[j]);
                }
            }
        }
    }
}

/// Relayed game traffic and tunnel notices never go back to their sender.
pub proof fn lemma_relay_never_echoes(s: RelayView, p: Seq<char>, m: ServerMessageView)
    ensures
        forall|i: int| 0 <= i < relay_step(s, p, m).len() ==> (#[trigger] relay_step(s, p, m)[i]).to
            != p,
{
    match crate::relay::room_of(s, p) {
        Some(r) => {
            if s.rooms.contains_key(r) {
                lemma_send_all_skips(s.rooms[r].members, p, m);
            }
        },
        None => {},
    }
}

/// Game bytes from a binary frame reach only connected peers other than their sender.
pub proof fn lemma_binary_relay_reaches_only_other_connected_peers(
    s: RelayView,
    p: Seq<char>,
    connection_id: Seq<char>,
    payload: Seq<u8>,
)
    ensures
        forall|i: int|
            0 <= i < relay_binary_step(s, p, connection_id, payload).len() ==> (#[trigger] relay_binary_step(
                s,
                p,
                connection_id,
                payload,
            )[i]).to != p && s.peers.contains_key(
                relay_binary_step(s, p, connection_id, payload)[i].to,
            ),
{
    match crate::relay::room_of(s, p) {
        Some(r) => {
            if s.rooms.contains_key(r) {
                lemma_send_to_connected_skips(
                    s.rooms[r].members,
                    p,
                    s.peers,
                    ServerMessageView::GameData { connection_id, from_peer: p, data: payload },
                );
            }
        },
        None => {},
    }
}

/// Whatever a client message does, every room stays well formed: no member
/// twice, one nickname per peer, and its host among its members.
pub proof fn lemma_message_keeps_rooms_well_formed(
    pre: RelayView,
    post: RelayView,
    out: Seq<DeliveryView>,
    p: Seq<char>,
    msg: ClientMessageView,
)
    requires
        rooms_well_formed(pre),
        message_outcome(pre, post, out, p, msg),
    ensures
        rooms_well_formed(post),
{
    match msg {
        ClientMessageView::SetNickname { nickname } => {
            match crate::relay::room_of(pre, p) {
                Some(r) => {
                    if pre.rooms.contains_key(r) {
                        lemma_with_nickname_distinct(pre.rooms[r].nicknames, p, trimmed(nickname));
                    }
                },
                None => {},
            }
        },
        ClientMessageView::CreateRoom { password, game_info } => {
            if pre.peers.contains_key(p) {
                let rid = choose|rid: Seq<char>|
                    crate::relay::is_room_code(rid) && !pre.rooms.contains_key(rid) && (post, out)
                        == #[trigger] create_room_step(pre, p, password, game_info, rid);
                assert(post.rooms[rid].members[0] == p);
            }
        },
        ClientMessageView::JoinRoom { room_id, password } => {
            if pre.peers.contains_key(p) && pre.rooms.contains_key(room_id) && pre.rooms[room_id].password
                == password {
                let room = pre.rooms[room_id];
                lemma_with_member_well_formed(room, p);
                lemma_with_nickname_distinct(room.nicknames, p, pre.peers[p].nickname);
            }
        },
        ClientMessageView::LeaveRoom => {
            lemma_leave_keeps_rooms_well_formed(pre, p);
        },
        _ => {},
    }
}

proof fn lemma_leave_keeps_rooms_well_formed(pre: RelayView, p: Seq<char>)
    requires
        rooms_well_formed(pre),
    ensures
        rooms_well_formed(leave_step(pre, p).0),
{
    match crate::relay::room_of(pre, p) {
        Some(r) => {
            if pre.rooms.contains_key(r) {
                let room = pre.rooms[r];
                if room.host_id != p {
                    assert(room_well_formed(room));
                    lemma_without_member_keeps(room.members, p, room.host_id);
                    lemma_without_member_no_duplicates(room.members, p);
                    lemma_without_nickname_distinct(room.nicknames, p);
                }
            }
        },
        None => {},
    }
}

/// A server without rooms, as `RelayServer::new` starts, is well formed.
pub proof fn lemma_no_rooms_well_formed(s: RelayView)
    requires
        s.rooms == Map::<Seq<char>, RoomView>::empty(),
    ensures
        rooms_well_formed(s),
{
}

/// A new connection and a disconnect keep every room well formed.
pub proof fn lemma_connections_keep_rooms_well_formed(pre: RelayView, p: Seq<char>)
    requires
        rooms_well_formed(pre),
    ensures
        rooms_well_formed(register_step(pre, p)),
        rooms_well_formed(disconnect_step(pre, p).0),
{
    lemma_leave_keeps_rooms_well_formed(pre, p);
}

/// A join with an unknown room id or a wrong password changes nothing and is
/// answered with exactly one error, to the peer that asked.
pub proof fn lemma_refused_join(s: RelayView, p: Seq<char>, rid: Seq<char>, password: Seq<char>)
    requires
        s.peers.contains_key(p),
        !s.rooms.contains_key(rid) || s.rooms[rid].password != password,
    ensures
        join_room_step(s, p, rid, password).0 == s,
        join_room_step(s, p, rid, password).1 == seq![
            deliver(
                p,
                ServerMessageView::Error {
                    message: if !s.rooms.contains_key(rid) {
                        no_such_room()
                    } else {
                        wrong_password()
                    },
                },
            ),
        ],
{
}

/// A successful join puts the peer in the room, and a leave takes it out again
/// and clears its room.
pub proof fn lemma_join_then_leave(s: RelayView, p: Seq<char>, rid: Seq<char>, password: Seq<char>)
    requires
        s.peers.contains_key(p),
        s.rooms.contains_key(rid),
        s.rooms[rid].password == password,
    ensures
        join_room_step(s, p, rid, password).0.rooms[rid].members.contains(p),
        join_room_step(s, p, rid, password).0.peers[p].room_id == Some(rid),
        ({
            let s2 = leave_step(join_room_step(s, p, rid, password).0, p).0;
            &&& s2.peers[p].room_id is None
            &&& s2.rooms.contains_key(rid) ==> !s2.rooms[rid].members.contains(p)
        }),
{
    let s1 = join_room_step(s, p, rid, password).0;
    let ms = s.rooms[rid].members;
    if !ms.contains(p) {
        assert(ms.push(p)[ms.len() as int] == p);
    }
    lemma_without_member_omits(s1.rooms[rid].members, p);
}

/// A peer in no room that creates a room and then leaves it gets the room
/// table back as it was, and is again in no room; nobody is told anything on leaving.
pub proof fn lemma_create_then_leave_restores(
    s: RelayView,
    p: Seq<char>,
    password: Seq<char>,
    game_info: GameInfoView,
    rid: Seq<char>,
)
    requires
        s.peers.contains_key(p),
        s.peers[p].room_id is None,
        !s.rooms.contains_key(rid),
    ensures
        leave_step(create_room_step(s, p, password, game_info, rid).0, p).0 == s,
        leave_step(create_room_step(s, p, password, game_info, rid).0, p).1 == no_deliveries(),
{
    let s1 = create_room_step(s, p, password, game_info, rid).0;
    let room = s1.rooms[rid];
    assert(room.members == seq![p]);
    assert(room.members.drop_last() =~= Seq::<Seq<char>>::empty());
    assert(without_member(Seq::<Seq<char>>::empty(), p) == Seq::<Seq<char>>::empty());
    assert(without_member(room.members, p) =~= Seq::<Seq<char>>::empty());
    let s2 = leave_step(s1, p).0;
    assert(s2.rooms =~= s.rooms);
    assert(s2.peers =~= s.peers) by {
        assert(s.peers[p] == PeerView { nickname: s.peers[p].nickname, room_id: None });
    }
}

proof fn lemma_nickname_of_updated(
    ns: Seq<(Seq<char>, Seq<char>)>,
    p: Seq<char>,
    n: Seq<char>,
)
    requires
        has_key(ns, p),
    ensures
        nickname_of(with_nickname(ns, p, n), p) == Some(n),
    decreases ns.len(),
{
    let m = with_nickname(ns, p, n);
    assert(m[0] == (if ns[0].0 == p { (p, n) } else { ns[0] }));
    if ns[0].0 != p {
        let i = choose|i: int| 0 <= i < ns.len() && (#[trigger] ns[i]).0 == p;
        assert(ns.drop_first()[i - 1] == ns[i]);
        assert(has_key(ns.drop_first(), p));
        lemma_nickname_of_updated(ns.drop_first(), p, n);
        assert(m.drop_first() =~= with_nickname(ns.drop_first(), p, n));
    }
}

proof fn lemma_nickname_of_pushed(ns: Seq<(Seq<char>, Seq<char>)>, p: Seq<char>, n: Seq<char>)
    requires
        !has_key(ns, p),
    ensures
        nickname_of(ns.push((p, n)), p) == Some(n),
    decreases ns.len(),
{
    if ns.len() > 0 {
        assert(ns[0].0 != p);
        assert(!has_key(ns.drop_first(), p)) by {
            if has_key(ns.drop_first(), p) {
                let i = choose|i: int| 0 <= i < ns.drop_first().len() && (#[trigger] ns.drop_first()[i]).0 == p;
                assert(ns[i + 1] == ns.drop_first()[i]);
            }
        }
        lemma_nickname_of_pushed(ns.drop_first(), p, n);
        assert(ns.push((p, n)).drop_first() =~= ns.drop_first().push((p, n)));
    }
}

/// Setting a nickname `p` takes in `with_nickname` is what `p` is then called.
pub proof fn lemma_nickname_is_recorded(ns: Seq<(Seq<char>, Seq<char>)>, p: Seq<char>, n: Seq<char>)
    ensures
        nickname_of(with_nickname(ns, p, n), p) == Some(n),
{
    if has_key(ns, p) {
        lemma_nickname_of_updated(ns, p, n);
    } else {
        lemma_nickname_of_pushed(ns, p, n);
    }
}

/// A valid nickname set by a peer in a room becomes its name in that room, and
/// every member of the room is sent the new member list.
pub proof fn lemma_nickname_reaches_room(s: RelayView, p: Seq<char>, nickname: Seq<char>)
    requires
        s.peers.contains_key(p),
        s.peers[p].room_id matches Some(r) && s.rooms.contains_key(r),
        trimmed(nickname).len() > 0,
        encode_utf8(trimmed(nickname)).len() <= 32,
    ensures
        ({
            let r = s.peers[p].room_id->0;
            let (post, out) = set_nickname_step(s, p, nickname);
            &&& post.peers[p].nickname == trimmed(nickname)
            &&& nickname_of(post.rooms[r].nicknames, p) == Some(trimmed(nickname))
            &&& out == send_all(
                post.rooms[r].members,
                None,
                ServerMessageView::MemberList { members: member_list(post.rooms[r]) },
            )
        }),
{
    let r = s.peers[p].room_id->0;
    lemma_nickname_is_recorded(s.rooms[r].nicknames, p, trimmed(nickname));
}

// ── What the relay's messages say and to whom ──────────

/// Every entry of a member list is marked host exactly when it is `h`.
pub open spec fn marks_host(members: Seq<MemberInfoView>, h: Seq<char>) -> bool {
    forall|j: int|
        0 <= j < members.len() ==> (#[trigger] members[j]).is_host == (members[j].peer_id == h)
}

/// Every member list among `out` (a `MemberList` or a `RoomJoined`) marks
/// exactly `h` as host.
pub open spec fn lists_mark_host(out: Seq<DeliveryView>, h: Seq<char>) -> bool {
    forall|i: int|
        0 <= i < out.len() ==> match (#[trigger] out[i]).message {
            ServerMessageView::MemberList { members } => marks_host(members, h),
            ServerMessageView::RoomJoined { members, .. } => marks_host(members, h),
            _ => true,
        }
}

proof fn lemma_send_all_carries(ms: Seq<Seq<char>>, skip: Option<Seq<char>>, m: ServerMessageView)
    ensures
        forall|i: int|
            0 <= i < send_all(ms, skip, m).len() ==> (#[trigger] send_all(ms, skip, m)[i]).message
                == m,
    decreases ms.len(),
{
    if ms.len() > 0 {
        lemma_send_all_carries(ms.drop_last(), skip, m);
    }
}

proof fn lemma_send_all_reaches(
    ms: Seq<Seq<char>>,
    skip: Option<Seq<char>>,
    m: ServerMessageView,
    q: Seq<char>,
)
    requires
        ms.contains(q),
        skip != Some(q),
    ensures
        exists|i: int|
            0 <= i < send_all(ms, skip, m).len() && #[trigger] send_all(ms, skip, m)[i] == deliver(
                q,
                m,
            ),
    decreases ms.len(),
{
    let out = send_all(ms, skip, m);
    let rest = send_all(ms.drop_last(), skip, m);
    if ms.last() == q {
        assert(out[out.len() - 1] == deliver(q, m));
    } else {
        let k = choose|k: int| 0 <= k < ms.len() && ms[k] == q;
        assert(ms.drop_last()[k] == q);
        lemma_send_all_reaches(ms.drop_last(), skip, m, q);
        let i = choose|i: int| 0 <= i < rest.len() && #[trigger] rest[i] == deliver(q, m);
        assert(out[i] == deliver(q, m));
    }
}

proof fn lemma_member_list_marks_host(r: RoomView)
    ensures
        marks_host(member_list(r), r.host_id),
{
}

proof fn lemma_sent_list_marks_host(ms: Seq<Seq<char>>, skip: Option<Seq<char>>, r: RoomView)
    ensures
        lists_mark_host(
            send_all(ms, skip, ServerMessageView::MemberList { members: member_list(r) }),
            r.host_id,
        ),
{
    lemma_send_all_carries(ms, skip, ServerMessageView::MemberList { members: member_list(r) });
}

proof fn lemma_no_list_sent(ms: Seq<Seq<char>>, skip: Option<Seq<char>>, m: ServerMessageView, h: Seq<
    char,
>)
    requires
        !(m is MemberList),
        !(m is RoomJoined),
    ensures
        lists_mark_host(send_all(ms, skip, m), h),
{
    lemma_send_all_carries(ms, skip, m);
}

/// In every member list the relay sends, an entry is marked host exactly when
/// its peer is the room's host: on a join (the room joined), a leave or a
/// nickname change (the sender's room), and a new room (whose host is the sender).
pub proof fn lemma_member_lists_mark_the_host(
    pre: RelayView,
    post: RelayView,
    out: Seq<DeliveryView>,
    p: Seq<char>,
    msg: ClientMessageView,
)
    requires
        message_outcome(pre, post, out, p, msg),
    ensures
        msg is JoinRoom && pre.rooms.contains_key(msg->room_id) ==> lists_mark_host(
            out,
            pre.rooms[msg->room_id].host_id,
        ),
        (msg is LeaveRoom || msg is SetNickname) && room_of(pre, p) is Some
            && pre.rooms.contains_key(room_of(pre, p)->0) ==> lists_mark_host(
            out,
            pre.rooms[room_of(pre, p)->0].host_id,
        ),
        msg is CreateRoom ==> lists_mark_host(out, p),
{
    match msg {
        ClientMessageView::JoinRoom { room_id, password } => {
            if pre.peers.contains_key(p) && pre.rooms.contains_key(room_id)
                && pre.rooms[room_id].password == password {
                let room = pre.rooms[room_id];
                let nick = pre.peers[p].nickname;
                let room2 = post.rooms[room_id];
                let a = send_all(
                    room2.members,
                    Some(p),
                    ServerMessageView::PeerJoined { peer_id: p, nickname: nick },
                );
                lemma_no_list_sent(
                    room2.members,
                    Some(p),
                    ServerMessageView::PeerJoined { peer_id: p, nickname: nick },
                    room.host_id,
                );
                lemma_member_list_marks_host(room2);
                assert forall|i: int| 0 <= i < out.len() implies match (#[trigger] out[i]).message {
                    ServerMessageView::MemberList { members } => marks_host(members, room.host_id),
                    ServerMessageView::RoomJoined { members, .. } => marks_host(members, room.host_id),
                    _ => true,
                } by {
                    if i < a.len() {
                        assert(out[i] == a[i]);
                    }
                }
            }
        },
        ClientMessageView::SetNickname { nickname } => {
            match room_of(pre, p) {
                Some(r) => {
                    if pre.rooms.contains_key(r) && out.len() > 0 {
                        lemma_sent_list_marks_host(post.rooms[r].members, None, post.rooms[r]);
                    }
                },
                None => {},
            }
        },
        ClientMessageView::LeaveRoom => {
            match room_of(pre, p) {
                Some(r) => {
                    if pre.rooms.contains_key(r) {
                        let room = pre.rooms[r];
                        let room1 = RoomView {
                            password: room.password,
                            host_id: room.host_id,
                            game_info: room.game_info,
                            members: without_member(room.members, p),
                            nicknames: without_nickname(room.nicknames, p),
                        };
                        if room.host_id == p {
                            lemma_no_list_sent(
                                room1.members,
                                None,
                                ServerMessageView::RoomClosed,
                                room.host_id,
                            );
                        } else {
                            let a = send_all(
                                room1.members,
                                Some(p),
                                ServerMessageView::PeerLeft { peer_id: p },
                            );
                            let b = send_all(
                                room1.members,
                                None,
                                ServerMessageView::MemberList { members: member_list(room1) },
                            );
                            lemma_no_list_sent(
                                room1.members,
                                Some(p),
                                ServerMessageView::PeerLeft { peer_id: p },
                                room.host_id,
                            );
                            lemma_sent_list_marks_host(room1.members, None, room1);
                            assert forall|i: int| 0 <= i < out.len() implies match (
                            #[trigger] out[i]).message {
                                ServerMessageView::MemberList { members } => marks_host(
                                    members,
                                    room.host_id,
                                ),
                                ServerMessageView::RoomJoined { members, .. } => marks_host(
                                    members,
                                    room.host_id,
                                ),
                                _ => true,
                            } by {
                                if i < a.len() {
                                    assert(out[i] == a[i]);
                                } else {
                                    assert(out[i] == b[i - a.len()]);
                                }
                            }
                        }
                    }
                },
                None => {},
            }
        },
        ClientMessageView::CreateRoom { password, game_info } => {
            if pre.peers.contains_key(p) {
                let rid = choose|rid: Seq<char>|
                    crate::relay::is_room_code(rid) && !pre.rooms.contains_key(rid) && (post, out)
                        == #[trigger] create_room_step(pre, p, password, game_info, rid);
                assert forall|i: int| 0 <= i < out.len() implies match (#[trigger] out[i]).message {
                    ServerMessageView::MemberList { members } => marks_host(members, p),
                    ServerMessageView::RoomJoined { members, .. } => marks_host(members, p),
                    _ => true,
                } by {
                    if i == 1 {
                        let members = seq![
                            MemberInfoView { peer_id: p, nickname: pre.peers[p].nickname, is_host: true },
                        ];
                        assert(members[0].is_host == (members[0].peer_id == p));
                    }
                }
            }
        },
        _ => {},
    }
}

/// When a member who is not the host leaves (or disconnects), the room stays,
/// and every remaining member is told who left and is sent the new member list,
/// which no longer names the leaver.
pub proof fn lemma_remaining_members_hear_of_a_leave(s: RelayView, p: Seq<char>, q: Seq<char>)
    requires
        room_of(s, p) is Some,
        s.rooms.contains_key(room_of(s, p)->0),
        s.rooms[room_of(s, p)->0].host_id != p,
        s.rooms[room_of(s, p)->0].members.contains(q),
        q != p,
    ensures
        ({
            let r = room_of(s, p)->0;
            let (post, out) = leave_step(s, p);
            &&& post.rooms.contains_key(r)
            &&& post.rooms[r].members.contains(q)
            &&& !post.rooms[r].members.contains(p)
            &&& exists|i: int|
                0 <= i < out.len() && #[trigger] out[i] == deliver(
                    q,
                    ServerMessageView::PeerLeft { peer_id: p },
                )
            &&& exists|i: int|
                0 <= i < out.len() && #[trigger] out[i] == deliver(
                    q,
                    ServerMessageView::MemberList { members: member_list(post.rooms[r]) },
                )
            &&& forall|j: int|
                0 <= j < member_list(post.rooms[r]).len() ==> (#[trigger] member_list(
                    post.rooms[r],
                )[j]).peer_id != p
        }),
{
    let r = room_of(s, p)->0;
    let room = s.rooms[r];
    let ms = without_member(room.members, p);
    let room1 = RoomView {
        password: room.password,
        host_id: room.host_id,
        game_info: room.game_info,
        members: ms,
        nicknames: without_nickname(room.nicknames, p),
    };
    lemma_without_member_keeps(room.members, p, q);
    lemma_without_member_omits(room.members, p);
    assert(ms.len() > 0);
    let (post, out) = leave_step(s, p);
    assert(post.rooms[r] == room1);
    let a = send_all(ms, Some(p), ServerMessageView::PeerLeft { peer_id: p });
    let b = send_all(ms, None, ServerMessageView::MemberList { members: member_list(room1) });
    assert(out == a + b);
    lemma_send_all_reaches(ms, Some(p), ServerMessageView::PeerLeft { peer_id: p }, q);
    let i = choose|i: int|
        0 <= i < a.len() && #[trigger] a[i] == deliver(q, ServerMessageView::PeerLeft { peer_id: p });
    assert(out[i] == a[i]);
    lemma_send_all_reaches(ms, None, ServerMessageView::MemberList { members: member_list(room1) }, q);
    let k = choose|k: int|
        0 <= k < b.len() && #[trigger] b[k] == deliver(
            q,
            ServerMessageView::MemberList { members: member_list(room1) },
        );
    assert(out[a.len() + k] == b[k]);
    assert forall|j: int| 0 <= j < member_list(room1).len() implies (#[trigger] member_list(
        room1,
    )[j]).peer_id != p by {
        lemma_without_nickname_from(room.nicknames, p, j);
    }
}

/// Tunnel traffic (game data, new and closed connections) from a peer in a
/// room changes nothing and reaches every other member of that room, naming
/// the sender.
pub proof fn lemma_tunnel_traffic_reaches_other_members(
    pre: RelayView,
    post: RelayView,
    out: Seq<DeliveryView>,
    p: Seq<char>,
    msg: ClientMessageView,
    q: Seq<char>,
)
    requires
        message_outcome(pre, post, out, p, msg),
        msg is GameData || msg is NewConnection || msg is CloseConnection,
        room_of(pre, p) is Some,
        pre.rooms.contains_key(room_of(pre, p)->0),
        pre.rooms[room_of(pre, p)->0].members.contains(q),
        q != p,
    ensures
        post == pre,
        msg matches ClientMessageView::GameData { connection_id, data } ==> exists|i: int|
            0 <= i < out.len() && #[trigger] out[i] == deliver(
                q,
                ServerMessageView::GameData { connection_id, from_peer: p, data },
            ),
        msg matches ClientMessageView::NewConnection { connection_id } ==> exists|i: int|
            0 <= i < out.len() && #[trigger] out[i] == deliver(
                q,
                ServerMessageView::NewConnection { connection_id, from_peer: p },
            ),
        msg matches ClientMessageView::CloseConnection { connection_id } ==> exists|i: int|
            0 <= i < out.len() && #[trigger] out[i] == deliver(
                q,
                ServerMessageView::CloseConnection { connection_id, from_peer: p },
            ),
{
    let ms = pre.rooms[room_of(pre, p)->0].members;
    match msg {
        ClientMessageView::GameData { connection_id, data } => {
            lemma_send_all_reaches(
                ms,
                Some(p),
                ServerMessageView::GameData { connection_id, from_peer: p, data },
                q,
            );
        },
        ClientMessageView::NewConnection { connection_id } => {
            lemma_send_all_reaches(
                ms,
                Some(p),
                ServerMessageView::NewConnection { connection_id, from_peer: p },
                q,
            );
        },
        ClientMessageView::CloseConnection { connection_id } => {
            lemma_send_all_reaches(
                ms,
                Some(p),
                ServerMessageView::CloseConnection { connection_id, from_peer: p },
                q,
            );
        },
        _ => {},
    }
}

/// The host's `UpdateGameInfo` with `g` stores `g` as its room's game, changes
/// nothing else, and tells every other member; from anyone else it changes
/// nothing and sends nothing.
pub proof fn lemma_host_updates_the_game(
    pre: RelayView,
    post: RelayView,
    out: Seq<DeliveryView>,
    p: Seq<char>,
    g: GameInfoView,
    q: Seq<char>,
)
    requires
        message_outcome(pre, post, out, p, ClientMessageView::UpdateGameInfo { game_info: g }),
    ensures
        ({
            let r = room_of(pre, p)->0;
            if room_of(pre, p) is Some && pre.rooms.contains_key(r) && pre.rooms[r].host_id == p {
                &&& post.peers == pre.peers
                &&& post.rooms == pre.rooms.insert(r, RoomView { game_info: g, ..pre.rooms[r] })
                &&& (pre.rooms[r].members.contains(q) && q != p ==> exists|i: int|
                    0 <= i < out.len() && #[trigger] out[i] == deliver(
                        q,
                        ServerMessageView::GameInfoUpdated { game_info: g },
                    ))
            } else {
                post == pre && out == no_deliveries()
            }
        }),
{
    let r = room_of(pre, p)->0;
    if room_of(pre, p) is Some && pre.rooms.contains_key(r) && pre.rooms[r].host_id == p {
        assert(post.rooms =~= pre.rooms.insert(r, RoomView { game_info: g, ..pre.rooms[r] }));
        if pre.rooms[r].members.contains(q) && q != p {
            lemma_send_all_reaches(
                pre.rooms[r].members,
                Some(p),
                ServerMessageView::GameInfoUpdated { game_info: g },
                q,
            );
        }
    }
}

/// A successful join: the joiner is in the room under its nickname, each
/// earlier member other than the joiner hears `PeerJoined`, and the joiner is
/// sent the room's game, `is_host: false`, and the new member list, in which it
/// appears under its nickname.
pub proof fn lemma_join_announces_the_joiner(
    s: RelayView,
    p: Seq<char>,
    rid: Seq<char>,
    password: Seq<char>,
    q: Seq<char>,
)
    requires
        s.peers.contains_key(p),
        s.rooms.contains_key(rid),
        s.rooms[rid].password == password,
    ensures
        ({
            let (post, out) = join_room_step(s, p, rid, password);
            let nick = s.peers[p].nickname;
            let list = member_list(post.rooms[rid]);
            &&& post.rooms[rid].members.contains(p)
            &&& post.rooms[rid].host_id == s.rooms[rid].host_id
            &&& post.rooms[rid].game_info == s.rooms[rid].game_info
            &&& exists|j: int|
                0 <= j < list.len() && #[trigger] list[j] == MemberInfoView {
                    peer_id: p,
                    nickname: nick,
                    is_host: p == s.rooms[rid].host_id,
                }
            &&& out.last() == deliver(
                p,
                ServerMessageView::RoomJoined {
                    game_info: s.rooms[rid].game_info,
                    is_host: false,
                    members: list,
                },
            )
            &&& (s.rooms[rid].members.contains(q) && q != p ==> exists|i: int|
                0 <= i < out.len() && #[trigger] out[i] == deliver(
                    q,
                    ServerMessageView::PeerJoined { peer_id: p, nickname: nick },
                ))
        }),
{
    let (post, out) = join_room_step(s, p, rid, password);
    let nick = s.peers[p].nickname;
    let room = s.rooms[rid];
    let ns = room.nicknames;
    let ms = with_member(room.members, p);
    if !room.members.contains(p) {
        assert(ms[room.members.len() as int] == p);
    }
    let w = with_nickname(ns, p, nick);
    let j = if has_key(ns, p) {
        choose|i: int| 0 <= i < ns.len() && (#[trigger] ns[i]).0 == p
    } else {
        ns.len() as int
    };
    assert(w[j] == (p, nick));
    let list = member_list(post.rooms[rid]);
    assert(list[j] == MemberInfoView { peer_id: p, nickname: nick, is_host: p == room.host_id });
    if room.members.contains(q) && q != p {
        let k = choose|k: int| 0 <= k < room.members.len() && room.members[k] == q;
        if !room.members.contains(p) {
            assert(ms[k] == q);
        }
        let m = ServerMessageView::PeerJoined { peer_id: p, nickname: nick };
        lemma_send_all_reaches(ms, Some(p), m, q);
        let a = send_all(ms, Some(p), m);
        let i = choose|i: int| 0 <= i < a.len() && #[trigger] a[i] == deliver(q, m);
        assert(out[i] == a[i]);
    }
}

/// A host that leaves (or disconnects) closes its room: the room is gone, the
/// host is in no room, and every other member is told the room closed.
pub proof fn lemma_host_leaving_closes_the_room(s: RelayView, p: Seq<char>, q: Seq<char>)
    requires
        room_of(s, p) is Some,
        s.rooms.contains_key(room_of(s, p)->0),
        s.rooms[room_of(s, p)->0].host_id == p,
    ensures
        ({
            let r = room_of(s, p)->0;
            let (post, out) = leave_step(s, p);
            &&& !post.rooms.contains_key(r)
            &&& post.peers[p].room_id is None
            &&& (s.rooms[r].members.contains(q) && q != p ==> exists|i: int|
                0 <= i < out.len() && #[trigger] out[i] == deliver(q, ServerMessageView::RoomClosed))
            &&& forall|i: int| 0 <= i < out.len() ==> (#[trigger] out[i]).message
                == ServerMessageView::RoomClosed
        }),
{
    let r = room_of(s, p)->0;
    let ms = without_member(s.rooms[r].members, p);
    lemma_send_all_carries(ms, None, ServerMessageView::RoomClosed);
    if s.rooms[r].members.contains(q) && q != p {
        lemma_without_member_keeps(s.rooms[r].members, p, q);
        lemma_send_all_reaches(ms, None, ServerMessageView::RoomClosed, q);
    }
}

/// A valid nickname set by a peer in a room reaches every member of the room
/// (the sender too) in the new member list, where the peer has that nickname.
pub proof fn lemma_every_member_gets_the_new_nickname(
    s: RelayView,
    p: Seq<char>,
    nickname: Seq<char>,
    q: Seq<char>,
)
    requires
        s.peers.contains_key(p),
        s.peers[p].room_id is Some,
        s.rooms.contains_key(s.peers[p].room_id->0),
        s.rooms[s.peers[p].room_id->0].members.contains(q),
        trimmed(nickname).len() > 0,
        encode_utf8(trimmed(nickname)).len() <= 32,
    ensures
        ({
            let r = s.peers[p].room_id->0;
            let (post, out) = set_nickname_step(s, p, nickname);
            &&& post.rooms[r].members == s.rooms[r].members
            &&& nickname_of(post.rooms[r].nicknames, p) == Some(trimmed(nickname))
            &&& exists|i: int|
                0 <= i < out.len() && #[trigger] out[i] == deliver(
                    q,
                    ServerMessageView::MemberList { members: member_list(post.rooms[r]) },
                )
        }),
{
    let r = s.peers[p].room_id->0;
    let (post, out) = set_nickname_step(s, p, nickname);
    lemma_nickname_is_recorded(s.rooms[r].nicknames, p, trimmed(nickname));
    lemma_send_all_reaches(
        s.rooms[r].members,
        None,
        ServerMessageView::MemberList { members: member_list(post.rooms[r]) },
        q,
    );
}

/// A heartbeat from a connected peer is answered to that peer alone, and
/// nothing else is sent.
pub proof fn lemma_heartbeat_is_acknowledged(s: RelayView, p: Seq<char>)
    ensures
        s.peers.contains_key(p) ==> heartbeat_step(s, p) == seq![
            deliver(p, ServerMessageView::HeartbeatAck),
        ],
        !s.peers.contains_key(p) ==> heartbeat_step(s, p).len() == 0,
{
}

/// The lobby listing describes each room as it is: its motd, its number of
/// members, whether it has a password, and its host's nickname.
pub proof fn lemma_listing_describes_each_room(
    s: RelayView,
    out: Seq<DeliveryView>,
    p: Seq<char>,
    k: Seq<char>,
)
    requires
        list_rooms_outcome(s, out, p),
        s.peers.contains_key(p),
        s.rooms.contains_key(k),
    ensures
        out[0].message is RoomList,
        exists|i: int|
            0 <= i < out[0].message->rooms.len() && (#[trigger] out[0].message->rooms[i]).room_id
                == k && out[0].message->rooms[i].game_motd == s.rooms[k].game_info.motd
                && out[0].message->rooms[i].player_count == s.rooms[k].members.len() as usize
                && out[0].message->rooms[i].has_password == (s.rooms[k].password.len() > 0)
                && out[0].message->rooms[i].host_name == match nickname_of(
                s.rooms[k].nicknames,
                s.rooms[k].host_id,
            ) {
                Some(n) => n,
                None => "Unknown"@,
            },
{
    let ls = out[0].message->rooms;
    let i = choose|i: int| 0 <= i < ls.len() && (#[trigger] ls[i]).room_id == k;
    assert(ls[i] == crate::relay::listing_of(k, s.rooms[k]));
}

/// A connected peer's `CreateRoom` adds exactly one room, under a room code
/// that named no room, with the peer as host and only member and the given
/// password and game; the peer is now in it and is told its code, then that it
/// joined as host. From a peer that is not connected nothing happens.
pub proof fn lemma_create_room_makes_a_new_room(
    pre: RelayView,
    post: RelayView,
    out: Seq<DeliveryView>,
    p: Seq<char>,
    password: Seq<char>,
    game_info: GameInfoView,
)
    requires
        message_outcome(pre, post, out, p, ClientMessageView::CreateRoom { password, game_info }),
    ensures
        !pre.peers.contains_key(p) ==> post == pre && out.len() == 0,
        pre.peers.contains_key(p) ==> exists|rid: Seq<char>|
            {
                &&& crate::relay::is_room_code(rid)
                &&& !pre.rooms.contains_key(rid)
                &&& #[trigger] post.rooms.contains_key(rid)
                &&& post.rooms == pre.rooms.insert(rid, post.rooms[rid])
                &&& post.rooms[rid].host_id == p
                &&& post.rooms[rid].members == seq![p]
                &&& post.rooms[rid].password == password
                &&& post.rooms[rid].game_info == game_info
                &&& post.peers[p].room_id == Some(rid)
                &&& out.len() == 2
                &&& out[0] == deliver(p, ServerMessageView::RoomCreated { room_id: rid })
                &&& out[1].to == p
                &&& out[1].message matches ServerMessageView::RoomJoined { game_info: g, is_host: h, .. }
                    && g == game_info && h
            },
{
    if pre.peers.contains_key(p) {
        let rid = choose|rid: Seq<char>|
            crate::relay::is_room_code(rid) && !pre.rooms.contains_key(rid) && (post, out)
                == #[trigger] create_room_step(pre, p, password, game_info, rid);
        assert(post.rooms.contains_key(rid));
    }
}

} // verus!
