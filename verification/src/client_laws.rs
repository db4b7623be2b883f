//! Properties of the proxy client that hold across its operations.
use vstd::prelude::*;
use crate::client::{
    disconnected, log_after, logged, not_connected_error, others, out_of_room, send_outcome,
    server_address, server_message_step, ClientActionView, ProxyView,
};
use crate::events::ProxyEventView;
use crate::protocol::{ClientMessage, ClientMessageView, GameInfoView, ServerMessageView};

verus! {

/// Recording an event appends it to the log; a log of more than 200 events
/// first loses its oldest 100. So a log of `n <= 200` events grows to `n + 1`, a
/// longer one shrinks to `n - 99`, the newest event is always the one just
/// recorded, and a log within 201 events stays within 201.
pub proof fn lemma_event_log_recording(log: Seq<ProxyEventView>, e: ProxyEventView)
    ensures
        log_after(log, e).len() == if log.len() <= 200 {
            log.len() + 1
        } else {
            (log.len() - 99) as nat
        },
        log_after(log, e).last() == e,
        log_after(log, e).drop_last() == if log.len() <= 200 {
            log
        } else {
            log.skip(100)
        },
        log.len() <= 201 ==> log_after(log, e).len() <= 201,
{
    assert(log_after(log, e).drop_last() =~= if log.len() <= 200 {
        log
    } else {
        log.skip(100)
    });
}

/// Whatever the relay server sends, a client whose event log is within bound
/// keeps it within bound.
pub proof fn lemma_server_message_keeps_log_bounded(v: ProxyView, m: ServerMessageView)
    requires
        v.event_log.len() <= 201,
    ensures
        server_message_step(v, m).0.event_log.len() <= 201,
{
}

/// After a member list or a room join, the peer count is the number of other
/// members, and the member list is the one the server sent.
pub proof fn lemma_peer_count_follows_members(v: ProxyView, m: ServerMessageView)
    ensures
        m matches ServerMessageView::MemberList { members } ==> server_message_step(v, m).0.members
            == members && server_message_step(v, m).0.peer_count == others(members.len()),
        m matches ServerMessageView::RoomJoined { members, .. } ==> server_message_step(
            v,
            m,
        ).0.members == members && server_message_step(v, m).0.peer_count == others(members.len()),
{
}

/// A closed room leaves the client in no room, without members or tunnel, and
/// the runtime stops the tunnel and forgets its connections before reporting it.
pub proof fn lemma_room_closed_resets(v: ProxyView)
    ensures
        server_message_step(v, ServerMessageView::RoomClosed).0 == logged(
            out_of_room(v),
            ProxyEventView::RoomClosed,
        ),
        server_message_step(v, ServerMessageView::RoomClosed).0.room_id is None,
        server_message_step(v, ServerMessageView::RoomClosed).0.tunnel_port is None,
        server_message_step(v, ServerMessageView::RoomClosed).0.members.len() == 0,
        server_message_step(v, ServerMessageView::RoomClosed).1 == seq![
            ClientActionView::CancelTunnel,
            ClientActionView::ClearConnections,
            ClientActionView::Emit(ProxyEventView::RoomClosed),
        ],
{
}

/// After the user disconnects, every request is refused with the
/// not-connected error until the client connects again.
pub proof fn lemma_disconnect_refuses_requests(
    v: ProxyView,
    e: ProxyEventView,
    m: ClientMessageView,
    r: Result<ClientMessage, String>,
)
    requires
        send_outcome(logged(disconnected(v), e), m, r),
    ensures
        r matches Err(x) && x@ == not_connected_error(),
{
}

/// Normalising a server address twice changes nothing more than once.
pub proof fn lemma_server_address_idempotent(url: Seq<char>)
    ensures
        server_address(server_address(url)) == server_address(url),
{
    let p = "ws://"@;
    if !(p.is_prefix_of(url) || "wss://"@.is_prefix_of(url)) {
        assert((p + url).subrange(0, p.len() as int) =~= p);
    }
}

/// Tunnel traffic from the server drives the client's connections and changes
/// nothing else: game bytes become exactly one `Forward` of those bytes to
/// their connection; a closed connection is removed; a new connection is opened
/// to the LAN game only by a host that has one; a game update replaces the game.
pub proof fn lemma_tunnel_messages_drive_connections(
    v: ProxyView,
    connection_id: Seq<char>,
    from_peer: Seq<char>,
    data: Seq<u8>,
    g: GameInfoView,
)
    ensures
        server_message_step(v, ServerMessageView::GameData { connection_id, from_peer, data }) == (
            v,
            seq![ClientActionView::Forward { connection_id, data }],
        ),
        server_message_step(v, ServerMessageView::CloseConnection { connection_id, from_peer })
            == (v, seq![ClientActionView::RemoveConnection { connection_id }]),
        server_message_step(v, ServerMessageView::NewConnection { connection_id, from_peer }).0
            == v,
        server_message_step(v, ServerMessageView::NewConnection { connection_id, from_peer }).1
            == if v.is_host && v.lan_game is Some {
            seq![ClientActionView::OpenHostConnection { connection_id, port: v.lan_game->0.port }]
        } else {
            Seq::<ClientActionView>::empty()
        },
        server_message_step(v, ServerMessageView::GameInfoUpdated { game_info: g }).0 == (
        ProxyView { lan_game: Some(g), ..v }),
        server_message_step(v, ServerMessageView::GameInfoUpdated { game_info: g }).1.len() == 0,
{
}

/// Joining a room as a guest starts the guest tunnel for the room's game; a
/// host starts none. Either way the client records whether it hosts and the
/// member list, reports the join, and counts the other members.
pub proof fn lemma_joining_starts_the_guest_tunnel(
    v: ProxyView,
    game_info: GameInfoView,
    is_host: bool,
    members: Seq<crate::protocol::MemberInfoView>,
)
    ensures
        ({
            let (post, actions) = server_message_step(
                v,
                ServerMessageView::RoomJoined { game_info, is_host, members },
            );
            &&& post.is_host == is_host
            &&& post.members == members
            &&& post.peer_count == others(members.len())
            &&& post.event_log.last() == (ProxyEventView::RoomJoined { game_info, is_host })
            &&& actions[0] == ClientActionView::Emit(ProxyEventView::RoomJoined { game_info, is_host })
            &&& (is_host ==> actions.len() == 1)
            &&& (!is_host ==> actions.len() == 2 && actions[1] == (ClientActionView::StartGuestTunnel {
                game_info,
            }))
        }),
{
}

/// A new room's code becomes the client's room; an error from the server is
/// logged and reported; a peer joining adds one to the peer count.
pub proof fn lemma_room_notices_update_the_client(
    v: ProxyView,
    room_id: Seq<char>,
    message: Seq<char>,
    peer_id: Seq<char>,
    nickname: Seq<char>,
)
    requires
        v.peer_count < usize::MAX,
    ensures
        server_message_step(v, ServerMessageView::RoomCreated { room_id }).0.room_id == Some(room_id),
        server_message_step(v, ServerMessageView::Error { message }).0 == logged(
            v,
            ProxyEventView::Error { message },
        ),
        server_message_step(v, ServerMessageView::Error { message }).1 == seq![
            ClientActionView::Emit(ProxyEventView::Error { message }),
        ],
        server_message_step(v, ServerMessageView::PeerJoined { peer_id, nickname }).0.peer_count
            == v.peer_count + 1,
{
}

} // verus!
