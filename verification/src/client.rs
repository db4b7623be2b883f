//! The proxy client's state: what it knows of the server, its room, its LAN
//! game and its tunnel, and how each event changes it and what to do next.
use vstd::prelude::*;
use vstd::string::StringSliceAdditionalSpecFns;
use vstd::utf8::{decode_utf8, encode_utf8, is_char_boundary};
use crate::events::{events_view, GameInfo, ProxyEvent, ProxyEventView};
use crate::frame::{decode_client_frame, encode_relay_frame, frame_bytes, frame_split, utf8_lossy};
use crate::lan::{lan_broadcast_game, lan_broadcast_out_of_order, parse_lan_broadcast};
use crate::protocol::{
    duplicate_listings, duplicate_members, listings_view, members_view, ClientMessage,
    ClientMessageView, GameInfoView, MemberInfo, MemberInfoView, RoomListing, RoomListingView,
    ServerMessage, ServerMessageView,
};
use crate::relay::opt_str_view;
use crate::text::{concat, decimal, decimal_string};

verus! {

/// What the user interface can ask for at any time.
#[derive(Debug, Clone)]
pub struct StatusInfo {
    pub connected: bool,
    pub room_id: Option<String>,
    pub is_host: bool,
    pub peer_count: usize,
    pub lan_game: Option<GameInfo>,
    pub tunnel_port: Option<u16>,
    pub scanning: bool,
    pub members: Vec<MemberInfo>,
    pub room_list: Vec<RoomListing>,
}

pub struct StatusInfoView {
    pub connected: bool,
    pub room_id: Option<Seq<char>>,
    pub is_host: bool,
    pub peer_count: usize,
    pub lan_game: Option<GameInfoView>,
    pub tunnel_port: Option<u16>,
    pub scanning: bool,
    pub members: Seq<MemberInfoView>,
    pub room_list: Seq<RoomListingView>,
}

pub open spec fn opt_game_view(g: Option<GameInfo>) -> Option<GameInfoView> {
    match g {
        Some(x) => Some(x@),
        None => None,
    }
}

impl View for StatusInfo {
    type V = StatusInfoView;

    open spec fn view(&self) -> StatusInfoView {
        StatusInfoView {
            connected: self.connected,
            room_id: opt_str_view(self.room_id),
            is_host: self.is_host,
            peer_count: self.peer_count,
            lan_game: opt_game_view(self.lan_game),
            tunnel_port: self.tunnel_port,
            scanning: self.scanning,
            members: members_view(self.members@),
            room_list: listings_view(self.room_list@),
        }
    }
}

/// Something the client's runtime has to do.
pub enum ClientAction {
    /// Report an event to the user interface.
    Emit(ProxyEvent),
    /// Stop the guest tunnel's listener, if one runs.
    CancelTunnel,
    /// Stop the LAN scan, if one runs.
    CancelScan,
    /// Forget every tunnelled connection.
    ClearConnections,
    /// Forget one tunnelled connection.
    RemoveConnection { connection_id: String },
    /// Hand game bytes to a tunnelled connection, if it is known.
    Forward { connection_id: String, data: Vec<u8> },
    /// As host: connect to the local game for a new tunnelled connection.
    OpenHostConnection { connection_id: String, port: u16 },
    /// As guest: open a local listener for the room's game.
    StartGuestTunnel { game_info: GameInfo },
    /// As guest: announce the tunnelled game on the LAN.
    AnnounceGame { port: u16, motd: String },
}

pub enum ClientActionView {
    Emit(ProxyEventView),
    CancelTunnel,
    CancelScan,
    ClearConnections,
    RemoveConnection { connection_id: Seq<char> },
    Forward { connection_id: Seq<char>, data: Seq<u8> },
    OpenHostConnection { connection_id: Seq<char>, port: u16 },
    StartGuestTunnel { game_info: GameInfoView },
    AnnounceGame { port: u16, motd: Seq<char> },
}

impl View for ClientAction {
    type V = ClientActionView;

    open spec fn view(&self) -> ClientActionView {
        match self {
            ClientAction::Emit(e) => ClientActionView::Emit(e@),
            ClientAction::CancelTunnel => ClientActionView::CancelTunnel,
            ClientAction::CancelScan => ClientActionView::CancelScan,
            ClientAction::ClearConnections => ClientActionView::ClearConnections,
            ClientAction::RemoveConnection { connection_id } => ClientActionView::RemoveConnection {
                connection_id: connection_id@,
            },
            ClientAction::Forward { connection_id, data } => ClientActionView::Forward {
                connection_id: connection_id@,
                data: data@,
            },
            ClientAction::OpenHostConnection { connection_id, port } =>
                ClientActionView::OpenHostConnection { connection_id: connection_id@, port: *port },
            ClientAction::StartGuestTunnel { game_info } => ClientActionView::StartGuestTunnel {
                game_info: game_info@,
            },
            ClientAction::AnnounceGame { port, motd } => ClientActionView::AnnounceGame {
                port: *port,
                motd: motd@,
            },
        }
    }
}

pub open spec fn actions_view(v: Seq<ClientAction>) -> Seq<ClientActionView> {
    v.map_values(|a: ClientAction| a@)
}

pub struct ProxyView {
    /// Whether a WebSocket writer is installed.
    pub link_open: bool,
    pub connected: bool,
    pub room_id: Option<Seq<char>>,
    pub is_host: bool,
    pub peer_count: usize,
    pub lan_game: Option<GameInfoView>,
    pub tunnel_port: Option<u16>,
    pub scanning: bool,
    pub event_log: Seq<ProxyEventView>,
    pub members: Seq<MemberInfoView>,
    pub room_list: Seq<RoomListingView>,
}

/// The proxy client's state.
pub struct ProxyState {
    link_open: bool,
    connected: bool,
    room_id: Option<String>,
    is_host: bool,
    peer_count: usize,
    lan_game: Option<GameInfo>,
    tunnel_port: Option<u16>,
    scanning: bool,
    event_log: Vec<ProxyEvent>,
    members: Vec<MemberInfo>,
    room_list: Vec<RoomListing>,
}

impl View for ProxyState {
    type V = ProxyView;

    closed spec fn view(&self) -> ProxyView {
        ProxyView {
            link_open: self.link_open,
            connected: self.connected,
            room_id: opt_str_view(self.room_id),
            is_host: self.is_host,
            peer_count: self.peer_count,
            lan_game: opt_game_view(self.lan_game),
            tunnel_port: self.tunnel_port,
            scanning: self.scanning,
            event_log: events_view(self.event_log@),
            members: members_view(self.members@),
            room_list: listings_view(self.room_list@),
        }
    }
}

// ── Specification of the transitions ─────────────────

/// The event log after `e` is recorded: once it holds more than 200 events,
/// the oldest 100 are dropped first.
pub open spec fn log_after(log: Seq<ProxyEventView>, e: ProxyEventView) -> Seq<ProxyEventView> {
    if log.len() > 200 {
        log.skip(100).push(e)
    } else {
        log.push(e)
    }
}

/// `v` with `e` recorded in its event log.
pub open spec fn logged(v: ProxyView, e: ProxyEventView) -> ProxyView {
    ProxyView { event_log: log_after(v.event_log, e), ..v }
}

pub open spec fn emit(e: ProxyEventView) -> ClientActionView {
    ClientActionView::Emit(e)
}

pub open spec fn not_connected_error() -> Seq<char> {
    "未连接到服务器"@
}

/// What sending `m` gives: the message to put on the WebSocket, or the error
/// for a client without a WebSocket writer.
pub open spec fn send_outcome(v: ProxyView, m: ClientMessageView, r: Result<ClientMessage, String>) -> bool {
    if v.link_open {
        r matches Ok(x) && x@ == m
    } else {
        r matches Err(e) && e@ == not_connected_error()
    }
}

/// The WebSocket address for what the user typed: kept when it names the
/// `ws` or `wss` scheme, else taken as `host:port` under `ws://`.
pub open spec fn server_address(url: Seq<char>) -> Seq<char> {
    if "ws://"@.is_prefix_of(url) || "wss://"@.is_prefix_of(url) {
        url
    } else {
        "ws://"@ + url
    }
}

/// The state after the user disconnects.
pub open spec fn disconnected(v: ProxyView) -> ProxyView {
    ProxyView {
        link_open: false,
        connected: false,
        room_id: None,
        is_host: false,
        peer_count: 0,
        lan_game: None,
        tunnel_port: None,
        members: Seq::empty(),
        ..v
    }
}

/// The state once the client left or lost its room.
pub open spec fn out_of_room(v: ProxyView) -> ProxyView {
    ProxyView {
        room_id: None,
        is_host: false,
        peer_count: 0,
        members: Seq::empty(),
        tunnel_port: None,
        ..v
    }
}

/// `n - 1`, but never below zero.
pub open spec fn others(n: nat) -> usize {
    if n == 0 {
        0
    } else {
        (n - 1) as usize
    }
}

/// The text shown when a peer joins: its nickname and the first eight bytes of its id.
pub open spec fn peer_joined_text(peer_id: Seq<char>, nickname: Seq<char>) -> Seq<char> {
    nickname + " ("@ + decode_utf8(encode_utf8(peer_id).subrange(0, 8)) + ")"@
}

/// Whether the client can take `m` in state `v`: a joining peer's id must be
/// cut at its eighth byte, and the peer count must have room to grow.
pub open spec fn accepts_server_message(v: ProxyView, m: ServerMessageView) -> bool {
    match m {
        ServerMessageView::PeerJoined { peer_id, nickname } => is_char_boundary(
            encode_utf8(peer_id),
            8,
        ) && v.peer_count < usize::MAX,
        _ => true,
    }
}

/// What a message from the relay server does to the client, and what the
/// runtime has to do about it.
pub open spec fn server_message_step(v: ProxyView, m: ServerMessageView) -> (
    ProxyView,
    Seq<ClientActionView>,
) {
    match m {
        ServerMessageView::RoomCreated { room_id } => {
            let e = ProxyEventView::RoomCreated { room_id };
            (logged(ProxyView { room_id: Some(room_id), ..v }, e), seq![emit(e)])
        },
        ServerMessageView::RoomJoined { game_info, is_host, members } => {
            let e = ProxyEventView::RoomJoined { game_info, is_host };
            let v1 = ProxyView { is_host, peer_count: others(members.len()), members, ..v };
            (
                logged(v1, e),
                if is_host {
                    seq![emit(e)]
                } else {
                    seq![emit(e), ClientActionView::StartGuestTunnel { game_info }]
                },
            )
        },
        ServerMessageView::Error { message } => {
            let e = ProxyEventView::Error { message };
            (logged(v, e), seq![emit(e)])
        },
        ServerMessageView::PeerJoined { peer_id, nickname } => {
            let e = ProxyEventView::PeerJoined { peer_id: peer_joined_text(peer_id, nickname) };
            (logged(ProxyView { peer_count: (v.peer_count + 1) as usize, ..v }, e), seq![emit(e)])
        },
        ServerMessageView::PeerLeft { peer_id } => {
            let e = ProxyEventView::PeerLeft { peer_id };
            (logged(ProxyView { peer_count: others(v.peer_count as nat), ..v }, e), seq![emit(e)])
        },
        ServerMessageView::MemberList { members } => {
            let e = ProxyEventView::StatusUpdate {
                status: "members_updated"@,
                detail: "Member list updated"@,
            };
            (
                logged(ProxyView { peer_count: others(members.len()), members, ..v }, e),
                seq![emit(e)],
            )
        },
        ServerMessageView::RoomList { rooms } => {
            let e = ProxyEventView::StatusUpdate {
                status: "rooms_updated"@,
                detail: "Room list updated"@,
            };
            (logged(ProxyView { room_list: rooms, ..v }, e), seq![emit(e)])
        },
        ServerMessageView::GameData { connection_id, from_peer, data } => (
            v,
            seq![ClientActionView::Forward { connection_id, data }],
        ),
        ServerMessageView::NewConnection { connection_id, from_peer } => (
            v,
            if v.is_host && v.lan_game is Some {
                seq![
                    ClientActionView::OpenHostConnection {
                        connection_id,
                        port: v.lan_game->0.port,
                    },
                ]
            } else {
                Seq::empty()
            },
        ),
        ServerMessageView::CloseConnection { connection_id, from_peer } => (
            v,
            seq![ClientActionView::RemoveConnection { connection_id }],
        ),
        ServerMessageView::GameInfoUpdated { game_info } => (
            ProxyView { lan_game: Some(game_info), ..v },
            Seq::empty(),
        ),
        ServerMessageView::HeartbeatAck => (v, Seq::empty()),
        ServerMessageView::RoomClosed => (
            logged(out_of_room(v), ProxyEventView::RoomClosed),
            seq![
                ClientActionView::CancelTunnel,
                ClientActionView::ClearConnections,
                emit(ProxyEventView::RoomClosed),
            ],
        ),
    }
}

// ── The client state machine ──────────────────────────

fn starts_with(s: &Vec<char>, p: &str) -> (b: bool)
    ensures
        b == p@.is_prefix_of(s@),
{
    let pc = crate::text::chars_of(p);
    if pc.len() > s.len() {
        return false;
    }
    let mut i: usize = 0;
    while i < pc.len()
        invariant
            pc@ == p@,
            pc@.len() <= s@.len(),
            i <= pc@.len(),
            forall|j: int| 0 <= j < i ==> s@[j] == pc@[j],
        decreases pc@.len() - i,
    {
        if s[i] != pc[i] {
            assert(s@.subrange(0, pc@.len() as int)[i as int] != pc@[i as int]);
            return false;
        }
        i = i + 1;
    }
    assert(pc@ =~= s@.subrange(0, pc@.len() as int));
    true
}

/// The WebSocket address for what the user typed.
pub fn websocket_url(url: &str) -> (r: String)
    ensures
        r@ == server_address(url@),
{
    let cs = crate::text::chars_of(url);
    if starts_with(&cs, "ws://") || starts_with(&cs, "wss://") {
        url.to_owned()
    } else {
        concat("ws://", url)
    }
}

/// The error text for a failed connection attempt.
pub fn connection_failed_message(reason: &str) -> (m: String)
    ensures
        m@ == "连接失败: "@ + reason@,
{
    concat("连接失败: ", reason)
}

/// The error text for a LAN scan that could not bind its port.
pub fn scan_bind_failed_message(reason: &str) -> (m: String)
    ensures
        m@ == "无法绑定 UDP 4445 端口: "@ + reason@ + "。请确保没有其他 Minecraft 实例正在运行。"@,
{
    let mut m = concat("无法绑定 UDP 4445 端口: ", reason);
    m.append("。请确保没有其他 Minecraft 实例正在运行。");
    m
}

/// A fresh random id for a tunnelled connection: 36 characters.
pub fn new_connection_id() -> (id: String)
    ensures
        id@.len() == 36,
{
    crate::tables::uuid_text(&uuid::Uuid::new_v4())
}

fn saturating_pred(n: usize) -> (r: usize)
    ensures
        r == others(n as nat),
{
    if n == 0 {
        0
    } else {
        n - 1
    }
}

impl ProxyState {
    /// A client that is not connected, in no room, with nothing logged.
    pub fn new() -> (s: ProxyState)
        ensures
            s@ == (ProxyView {
                link_open: false,
                connected: false,
                room_id: None,
                is_host: false,
                peer_count: 0,
                lan_game: None,
                tunnel_port: None,
                scanning: false,
                event_log: Seq::empty(),
                members: Seq::empty(),
                room_list: Seq::empty(),
            }),
    {
        let s = ProxyState {
            link_open: false,
            connected: false,
            room_id: None,
            is_host: false,
            peer_count: 0,
            lan_game: None,
            tunnel_port: None,
            scanning: false,
            event_log: Vec::new(),
            members: Vec::new(),
            room_list: Vec::new(),
        };
        assert(s@.event_log =~= Seq::<ProxyEventView>::empty());
        assert(s@.members =~= Seq::<MemberInfoView>::empty());
        assert(s@.room_list =~= Seq::<RoomListingView>::empty());
        s
    }

    /// Records `e` in the event log and asks the runtime to report it: once the
    /// log holds more than 200 events its oldest 100 are dropped first, so the
    /// log never grows past 201 events.
    pub fn record(&mut self, e: ProxyEvent, actions: &mut Vec<ClientAction>)
        ensures
            final(self)@ == logged(old(self)@, e@),
            actions_view(final(actions)@) == actions_view(old(actions)@).push(emit(e@)),
    {
        let ghost log0 = events_view(self.event_log@);
        if self.event_log.len() > 200 {
            let rest = self.event_log.split_off(100);
            self.event_log = rest;
            assert(events_view(self.event_log@) =~= log0.skip(100));
        }
        let ghost log1 = events_view(self.event_log@);
        self.event_log.push(e.duplicate());
        assert(events_view(self.event_log@) =~= log1.push(e@));
        let ghost acts = actions_view(actions@);
        actions.push(ClientAction::Emit(e));
        assert(actions_view(actions@) =~= acts.push(emit(e@)));
    }

    /// The events recorded so far, oldest first.
    pub fn get_event_log(&self) -> (r: Vec<ProxyEvent>)
        ensures
            events_view(r@) == self@.event_log,
    {
        let mut r: Vec<ProxyEvent> = Vec::new();
        let mut i: usize = 0;
        while i < self.event_log.len()
            invariant
                i <= self.event_log@.len(),
                r@.len() == i,
                forall|j: int| 0 <= j < i ==> (#[trigger] r@[j])@ == self.event_log@[j]@,
            decreases self.event_log@.len() - i,
        {
            r.push(self.event_log[i].duplicate());
            i = i + 1;
        }
        assert(events_view(r@) =~= self@.event_log);
        r
    }

    /// Forgets every recorded event.
    pub fn clear_event_log(&mut self)
        ensures
            final(self)@ == (ProxyView { event_log: Seq::empty(), ..old(self)@ }),
    {
        self.event_log.clear();
        assert(events_view(self.event_log@) =~= Seq::<ProxyEventView>::empty());
    }

    /// `m` if the client has a WebSocket writer to send it on, else the error.
    pub fn send_ws(&self, m: ClientMessage) -> (r: Result<ClientMessage, String>)
        ensures
            send_outcome(self@, m@, r),
    {
        if self.link_open {
            Ok(m)
        } else {
            Err("未连接到服务器".to_owned())
        }
    }

    /// The frame for game bytes of a tunnelled connection, if the client has a
    /// WebSocket writer to send it on.
    pub fn send_binary(&self, connection_id: &str, data: &[u8]) -> (r: Result<Vec<u8>, String>)
        ensures
            self@.link_open ==> (r matches Ok(f) && f@ == frame_bytes(connection_id.spec_bytes(), data@)),
            !self@.link_open ==> (r matches Err(e) && e@ == not_connected_error()),
    {
        if self.link_open {
            Ok(encode_relay_frame(connection_id, data))
        } else {
            Err("未连接到服务器".to_owned())
        }
    }

    /// The address to open for `server_url`, or the error for a client that is
    /// already connected.
    pub fn connect(&self, server_url: &str) -> (r: Result<String, String>)
        ensures
            self@.connected ==> (r matches Err(e) && e@ == "已经连接到服务器"@),
            !self@.connected ==> (r matches Ok(u) && u@ == server_address(server_url@)),
    {
        if self.connected {
            Err("已经连接到服务器".to_owned())
        } else {
            Ok(websocket_url(server_url))
        }
    }

    /// The WebSocket is open: the client is connected.
    pub fn link_established(&mut self) -> (actions: Vec<ClientAction>)
        ensures
            final(self)@ == logged(
                ProxyView { link_open: true, connected: true, ..old(self)@ },
                ProxyEventView::Connected,
            ),
            actions_view(actions@) == seq![emit(ProxyEventView::Connected)],
    {
        let mut actions: Vec<ClientAction> = Vec::new();
        self.link_open = true;
        self.connected = true;
        self.record(ProxyEvent::Connected, &mut actions);
        assert(actions_view(actions@) =~= seq![emit(ProxyEventView::Connected)]);
        actions
    }

    /// The server closed the WebSocket.
    pub fn link_closed(&mut self) -> (actions: Vec<ClientAction>)
        ensures
            final(self)@ == logged(
                ProxyView { link_open: false, connected: false, ..old(self)@ },
                ProxyEventView::Disconnected { reason: "连接断开"@ },
            ),
            actions_view(actions@) == seq![
                emit(ProxyEventView::Disconnected { reason: "连接断开"@ }),
            ],
    {
        let mut actions: Vec<ClientAction> = Vec::new();
        self.connected = false;
        self.link_open = false;
        self.record(ProxyEvent::Disconnected { reason: "连接断开".to_owned() }, &mut actions);
        assert(actions_view(actions@) =~= seq![
            emit(ProxyEventView::Disconnected { reason: "连接断开"@ }),
        ]);
        actions
    }

    /// The user disconnects: the client forgets its link, room, game and tunnel.
    pub fn disconnect(&mut self) -> (actions: Vec<ClientAction>)
        ensures
            final(self)@ == logged(
                disconnected(old(self)@),
                ProxyEventView::Disconnected { reason: "主动断开"@ },
            ),
            actions_view(actions@) == seq![
                ClientActionView::CancelTunnel,
                ClientActionView::ClearConnections,
                emit(ProxyEventView::Disconnected { reason: "主动断开"@ }),
            ],
    {
        let mut actions: Vec<ClientAction> = Vec::new();
        self.connected = false;
        self.link_open = false;
        self.room_id = None;
        self.is_host = false;
        self.peer_count = 0;
        self.lan_game = None;
        self.members = Vec::new();
        actions.push(ClientAction::CancelTunnel);
        self.tunnel_port = None;
        actions.push(ClientAction::ClearConnections);
        assert(self@ == disconnected(old(self)@)) by {
            assert(members_view(self.members@) =~= Seq::<MemberInfoView>::empty());
        }
        self.record(ProxyEvent::Disconnected { reason: "主动断开".to_owned() }, &mut actions);
        assert(actions_view(actions@) =~= seq![
            ClientActionView::CancelTunnel,
            ClientActionView::ClearConnections,
            emit(ProxyEventView::Disconnected { reason: "主动断开"@ }),
        ]);
        actions
    }

    /// The message that sets the nickname.
    pub fn set_nickname(&self, nickname: String) -> (r: Result<ClientMessage, String>)
        ensures
            send_outcome(self@, ClientMessageView::SetNickname { nickname: nickname@ }, r),
    {
        self.send_ws(ClientMessage::SetNickname { nickname })
    }

    /// The message that creates a room for the LAN game found, or why there is none.
    pub fn create_room(&self, password: String) -> (r: Result<ClientMessage, String>)
        ensures
            match self@.lan_game {
                None => r matches Err(e) && e@ == "请先开启局域网游戏并扫描"@,
                Some(g) => send_outcome(
                    self@,
                    ClientMessageView::CreateRoom { password: password@, game_info: g },
                    r,
                ),
            },
    {
        match &self.lan_game {
            None => Err("请先开启局域网游戏并扫描".to_owned()),
            Some(game) => self.send_ws(
                ClientMessage::CreateRoom {
                    password,
                    game_info: crate::protocol::GameInfo {
                        motd: game.motd.clone(),
                        port: game.port,
                    },
                },
            ),
        }
    }

    /// The room was requested: the host's side of the tunnel is ready.
    pub fn host_tunnel_started(&mut self) -> (actions: Vec<ClientAction>)
        ensures
            final(self)@ == logged(old(self)@, hosting_event()),
            actions_view(actions@) == seq![emit(hosting_event())],
    {
        let mut actions: Vec<ClientAction> = Vec::new();
        self.record(
            ProxyEvent::StatusUpdate {
                status: "hosting".to_owned(),
                detail: "主机隧道已就绪，等待连接...".to_owned(),
            },
            &mut actions,
        );
        assert(actions_view(actions@) =~= seq![emit(hosting_event())]);
        actions
    }

    /// The message that joins a room.
    pub fn join_room(&self, room_id: String, password: String) -> (r: Result<ClientMessage, String>)
        ensures
            send_outcome(
                self@,
                ClientMessageView::JoinRoom { room_id: room_id@, password: password@ },
                r,
            ),
    {
        self.send_ws(ClientMessage::JoinRoom { room_id, password })
    }

    /// The message that leaves the room.
    pub fn leave_room(&self) -> (r: Result<ClientMessage, String>)
        ensures
            send_outcome(self@, ClientMessageView::LeaveRoom, r),
    {
        self.send_ws(ClientMessage::LeaveRoom)
    }

    /// The leave request went out: the client is in no room.
    pub fn room_left(&mut self) -> (actions: Vec<ClientAction>)
        ensures
            final(self)@ == out_of_room(old(self)@),
            actions_view(actions@) == seq![
                ClientActionView::CancelTunnel,
                ClientActionView::ClearConnections,
            ],
    {
        let mut actions: Vec<ClientAction> = Vec::new();
        self.room_id = None;
        self.is_host = false;
        self.peer_count = 0;
        self.members = Vec::new();
        actions.push(ClientAction::CancelTunnel);
        self.tunnel_port = None;
        actions.push(ClientAction::ClearConnections);
        assert(members_view(self.members@) =~= Seq::<MemberInfoView>::empty());
        assert(self@ == out_of_room(old(self)@));
        assert(actions_view(actions@) =~= seq![
            ClientActionView::CancelTunnel,
            ClientActionView::ClearConnections,
        ]);
        actions
    }

    /// The message that asks for the room lobby.
    pub fn list_rooms(&self) -> (r: Result<ClientMessage, String>)
        ensures
            send_outcome(self@, ClientMessageView::ListRooms, r),
    {
        self.send_ws(ClientMessage::ListRooms)
    }

    /// What the keep-alive task does next: stop (`None`) once the client is no
    /// longer connected, else send a heartbeat.
    pub fn heartbeat(&self) -> (r: Option<Result<ClientMessage, String>>)
        ensures
            !self@.connected ==> r is None,
            self@.connected ==> (r matches Some(x) && send_outcome(
                self@,
                ClientMessageView::Heartbeat,
                x,
            )),
    {
        if !self.connected {
            None
        } else {
            Some(self.send_ws(ClientMessage::Heartbeat))
        }
    }

    /// The message that announces a new tunnelled connection.
    pub fn new_connection(&self, connection_id: String) -> (r: Result<ClientMessage, String>)
        ensures
            send_outcome(
                self@,
                ClientMessageView::NewConnection { connection_id: connection_id@ },
                r,
            ),
    {
        self.send_ws(ClientMessage::NewConnection { connection_id })
    }

    /// The message that ends a tunnelled connection.
    pub fn close_connection(&self, connection_id: String) -> (r: Result<ClientMessage, String>)
        ensures
            send_outcome(
                self@,
                ClientMessageView::CloseConnection { connection_id: connection_id@ },
                r,
            ),
    {
        self.send_ws(ClientMessage::CloseConnection { connection_id })
    }

    /// Starts a LAN scan: `false` when one already runs (nothing to do).
    pub fn start_lan_scan(&mut self) -> (start: bool)
        ensures
            start == !old(self)@.scanning,
            final(self)@ == (ProxyView { scanning: true, ..old(self)@ }),
    {
        if self.scanning {
            return false;
        }
        self.scanning = true;
        true
    }

    /// Stops the LAN scan.
    pub fn stop_lan_scan(&mut self) -> (actions: Vec<ClientAction>)
        ensures
            final(self)@ == (ProxyView { scanning: false, ..old(self)@ }),
            actions_view(actions@) == seq![ClientActionView::CancelScan],
    {
        let mut actions: Vec<ClientAction> = Vec::new();
        actions.push(ClientAction::CancelScan);
        self.scanning = false;
        assert(actions_view(actions@) =~= seq![ClientActionView::CancelScan]);
        actions
    }

    /// The scan could not bind its UDP port.
    pub fn scan_bind_failed(&mut self, reason: &str) -> (actions: Vec<ClientAction>)
        ensures
            final(self)@ == (ProxyView {
                scanning: false,
                ..logged(old(self)@, ProxyEventView::Error { message: "无法绑定 UDP 4445 端口: "@ + reason@ + "。请确保没有其他 Minecraft 实例正在运行。"@ })
            }),
            actions_view(actions@) == seq![
                emit(ProxyEventView::Error { message: "无法绑定 UDP 4445 端口: "@ + reason@ + "。请确保没有其他 Minecraft 实例正在运行。"@ }),
            ],
    {
        let mut actions: Vec<ClientAction> = Vec::new();
        let message = scan_bind_failed_message(reason);
        let ghost e = ProxyEventView::Error { message: message@ };
        self.record(ProxyEvent::Error { message }, &mut actions);
        self.scanning = false;
        assert(actions_view(actions@) =~= seq![emit(e)]);
        actions
    }

    /// The scan is listening.
    pub fn scan_started(&mut self) -> (actions: Vec<ClientAction>)
        ensures
            final(self)@ == logged(old(self)@, scanning_event()),
            actions_view(actions@) == seq![emit(scanning_event())],
    {
        let mut actions: Vec<ClientAction> = Vec::new();
        self.record(
            ProxyEvent::StatusUpdate {
                status: "scanning".to_owned(),
                detail: "正在扫描局域网游戏...".to_owned(),
            },
            &mut actions,
        );
        assert(actions_view(actions@) =~= seq![emit(scanning_event())]);
        actions
    }

    /// A LAN announcement arrived: a game it names becomes the client's LAN game.
    pub fn lan_broadcast_received(&mut self, data: &str) -> (actions: Vec<ClientAction>)
        requires
            !lan_broadcast_out_of_order(data@),
        ensures
            match lan_broadcast_game(data@) {
                Some(g) => {
                    let e = ProxyEventView::LanGameFound { motd: g.motd, port: g.port };
                    &&& final(self)@ == logged(ProxyView { lan_game: Some(g), ..old(self)@ }, e)
                    &&& actions_view(actions@) == seq![emit(e)]
                },
                None => final(self)@ == old(self)@ && actions@.len() == 0,
            },
    {
        let mut actions: Vec<ClientAction> = Vec::new();
        match parse_lan_broadcast(data) {
            Some(game) => {
                let e = ProxyEvent::LanGameFound { motd: game.motd.clone(), port: game.port };
                self.lan_game = Some(game);
                let ghost ev = e@;
                self.record(e, &mut actions);
                assert(actions_view(actions@) =~= seq![emit(ev)]);
            },
            None => {},
        }
        actions
    }

    /// Sets the LAN game by hand (the debug API's `set_lan_game`).
    pub fn set_lan_game(&mut self, game: GameInfo)
        ensures
            final(self)@ == (ProxyView { lan_game: Some(game@), ..old(self)@ }),
    {
        self.lan_game = Some(game);
    }

    /// The scan ended.
    pub fn scan_finished(&mut self)
        ensures
            final(self)@ == (ProxyView { scanning: false, ..old(self)@ }),
    {
        self.scanning = false;
    }

    /// The guest's local listener is bound to `port` for the room's game.
    pub fn guest_tunnel_ready(&mut self, port: u16, game_info: &GameInfo) -> (actions: Vec<
        ClientAction,
    >)
        ensures
            final(self)@ == logged(
                logged(
                    ProxyView { tunnel_port: Some(port), ..old(self)@ },
                    ProxyEventView::TunnelActive { local_port: port },
                ),
                tunneling_event(port),
            ),
            actions_view(actions@) == seq![
                emit(ProxyEventView::TunnelActive { local_port: port }),
                ClientActionView::AnnounceGame { port, motd: game_info@.motd },
                emit(tunneling_event(port)),
            ],
    {
        let mut actions: Vec<ClientAction> = Vec::new();
        self.tunnel_port = Some(port);
        self.record(ProxyEvent::TunnelActive { local_port: port }, &mut actions);
        let ghost a1 = actions_view(actions@);
        actions.push(ClientAction::AnnounceGame { port, motd: game_info.motd.clone() });
        assert(actions_view(actions@) =~= a1.push(
            ClientActionView::AnnounceGame { port, motd: game_info@.motd },
        ));
        let detail = concat("本地代理端口: ", decimal_string(port as u64).as_str());
        self.record(ProxyEvent::StatusUpdate { status: "tunneling".to_owned(), detail }, &mut actions);
        assert(actions_view(actions@) =~= seq![
            emit(ProxyEventView::TunnelActive { local_port: port }),
            ClientActionView::AnnounceGame { port, motd: game_info@.motd },
            emit(tunneling_event(port)),
        ]);
        actions
    }

    /// Whether the client can take `msg` now (see `handle_server_message`).
    pub fn accepts(&self, msg: &ServerMessage) -> (b: bool)
        ensures
            b == accepts_server_message(self@, msg@),
    {
        match msg {
            ServerMessage::PeerJoined { peer_id, .. } => peer_id.as_str().is_char_boundary(8)
                && self.peer_count < usize::MAX,
            _ => true,
        }
    }

    /// A message from the relay server.
    pub fn handle_server_message(&mut self, msg: ServerMessage) -> (actions: Vec<ClientAction>)
        requires
            accepts_server_message(old(self)@, msg@),
        ensures
            (final(self)@, actions_view(actions@)) == server_message_step(old(self)@, msg@),
    {
        let ghost pre = self@;
        let ghost m = msg@;
        let mut actions: Vec<ClientAction> = Vec::new();
        assert(actions_view(actions@) =~= Seq::<ClientActionView>::empty());
        match msg {
            ServerMessage::RoomCreated { room_id } => {
                self.room_id = Some(room_id.clone());
                self.record(ProxyEvent::RoomCreated { room_id }, &mut actions);
            },
            ServerMessage::RoomJoined { game_info, is_host, members } => {
                self.is_host = is_host;
                self.peer_count = saturating_pred(members.len());
                self.members = members;
                let gi = GameInfo { motd: game_info.motd.clone(), port: game_info.port };
                self.record(ProxyEvent::RoomJoined { game_info: gi.duplicate(), is_host }, &mut actions);
                if !is_host {
                    let ghost a1 = actions_view(actions@);
                    let ghost g = gi@;
                    actions.push(ClientAction::StartGuestTunnel { game_info: gi });
                    assert(actions_view(actions@) =~= a1.push(
                        ClientActionView::StartGuestTunnel { game_info: g },
                    ));
                }
            },
            ServerMessage::Error { message } => {
                self.record(ProxyEvent::Error { message }, &mut actions);
            },
            ServerMessage::PeerJoined { peer_id, nickname } => {
                self.peer_count = self.peer_count + 1;
                let (head, _) = peer_id.as_str().split_at(8);
                proof {
                    vstd::utf8::encode_utf8_decode_utf8(head@);
                }
                let mut text = nickname.clone();
                text.append(" (");
                text.append(head);
                text.append(")");
                assert(text@ == peer_joined_text(peer_id@, nickname@));
                self.record(ProxyEvent::PeerJoined { peer_id: text }, &mut actions);
            },
            ServerMessage::PeerLeft { peer_id } => {
                self.peer_count = saturating_pred(self.peer_count);
                self.record(ProxyEvent::PeerLeft { peer_id }, &mut actions);
            },
            ServerMessage::MemberList { members } => {
                self.peer_count = saturating_pred(members.len());
                self.members = members;
                self.record(
                    ProxyEvent::StatusUpdate {
                        status: "members_updated".to_owned(),
                        detail: "Member list updated".to_owned(),
                    },
                    &mut actions,
                );
            },
            ServerMessage::RoomList { rooms } => {
                self.room_list = rooms;
                self.record(
                    ProxyEvent::StatusUpdate {
                        status: "rooms_updated".to_owned(),
                        detail: "Room list updated".to_owned(),
                    },
                    &mut actions,
                );
            },
            ServerMessage::GameData { connection_id, data, .. } => {
                let a = ClientAction::Forward { connection_id, data };
                let ghost av = a@;
                actions.push(a);
                assert(actions_view(actions@) =~= seq![av]);
            },
            ServerMessage::NewConnection { connection_id, .. } => {
                if self.is_host {
                    match &self.lan_game {
                        Some(game) => {
                            let a = ClientAction::OpenHostConnection { connection_id, port: game.port };
                            let ghost av = a@;
                            actions.push(a);
                            assert(actions_view(actions@) =~= seq![av]);
                        },
                        None => {},
                    }
                }
            },
            ServerMessage::CloseConnection { connection_id, .. } => {
                let a = ClientAction::RemoveConnection { connection_id };
                let ghost av = a@;
                actions.push(a);
                assert(actions_view(actions@) =~= seq![av]);
            },
            ServerMessage::GameInfoUpdated { game_info } => {
                self.lan_game = Some(GameInfo { motd: game_info.motd, port: game_info.port });
            },
            ServerMessage::HeartbeatAck => {},
            ServerMessage::RoomClosed => {
                self.room_id = None;
                self.is_host = false;
                self.peer_count = 0;
                self.members = Vec::new();
                actions.push(ClientAction::CancelTunnel);
                self.tunnel_port = None;
                actions.push(ClientAction::ClearConnections);
                assert(members_view(self.members@) =~= Seq::<MemberInfoView>::empty());
                assert(self@ == out_of_room(pre));
                self.record(ProxyEvent::RoomClosed, &mut actions);
                assert(actions_view(actions@) =~= seq![
                    ClientActionView::CancelTunnel,
                    ClientActionView::ClearConnections,
                    emit(ProxyEventView::RoomClosed),
                ]);
            },
        }
        assert(actions_view(actions@) =~= server_message_step(pre, m).1);
        actions
    }

    /// A binary frame from the relay server: game bytes for a tunnelled connection.
    pub fn handle_binary_data(&self, data: &[u8]) -> (actions: Vec<ClientAction>)
        ensures
            match frame_split(data@, 2) {
                None => actions@.len() == 0,
                Some((id, payload)) => actions@.len() == 1 && match actions@[0]@ {
                    ClientActionView::Forward { connection_id, data } => connection_id
                        == utf8_lossy(id) && (vstd::utf8::valid_utf8(id) ==> connection_id
                        == decode_utf8(id)) && data == payload,
                    _ => false,
                },
            },
    {
        let mut actions: Vec<ClientAction> = Vec::new();
        match decode_client_frame(data) {
            Some((connection_id, payload)) => {
                actions.push(ClientAction::Forward { connection_id, data: payload });
            },
            None => {},
        }
        actions
    }

    /// What the user interface shows.
    pub fn get_status(&self) -> (st: StatusInfo)
        ensures
            st@ == (StatusInfoView {
                connected: self@.connected,
                room_id: self@.room_id,
                is_host: self@.is_host,
                peer_count: self@.peer_count,
                lan_game: self@.lan_game,
                tunnel_port: self@.tunnel_port,
                scanning: self@.scanning,
                members: self@.members,
                room_list: self@.room_list,
            }),
    {
        StatusInfo {
            connected: self.connected,
            room_id: crate::relay::duplicate_opt_str(&self.room_id),
            is_host: self.is_host,
            peer_count: self.peer_count,
            lan_game: match &self.lan_game {
                Some(g) => Some(g.duplicate()),
                None => None,
            },
            tunnel_port: self.tunnel_port,
            scanning: self.scanning,
            members: duplicate_members(&self.members),
            room_list: duplicate_listings(&self.room_list),
        }
    }
}

pub open spec fn hosting_event() -> ProxyEventView {
    ProxyEventView::StatusUpdate { status: "hosting"@, detail: "主机隧道已就绪，等待连接..."@ }
}

pub open spec fn scanning_event() -> ProxyEventView {
    ProxyEventView::StatusUpdate { status: "scanning"@, detail: "正在扫描局域网游戏..."@ }
}

pub open spec fn tunneling_event(port: u16) -> ProxyEventView {
    ProxyEventView::StatusUpdate {
        status: "tunneling"@,
        detail: "本地代理端口: "@ + decimal(port as nat),
    }
}

} // verus!
