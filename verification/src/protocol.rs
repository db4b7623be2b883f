//! The messages that clients and the relay server exchange, with their
//! mathematical models.
use vstd::prelude::*;

verus! {

/// A game announced on the host's LAN, as the relay server knows it.
#[derive(Debug, Clone)]
pub struct GameInfo {
    pub motd: String,
    pub port: u16,
}

pub struct GameInfoView {
    pub motd: Seq<char>,
    pub port: u16,
}

impl View for GameInfo {
    type V = GameInfoView;

    open spec fn view(&self) -> GameInfoView {
        GameInfoView { motd: self.motd@, port: self.port }
    }
}

impl GameInfo {
    pub fn duplicate(&self) -> (r: GameInfo)
        ensures
            r@ == self@,
    {
        GameInfo { motd: self.motd.clone(), port: self.port }
    }
}

/// One member of a room.
#[derive(Debug, Clone)]
pub struct MemberInfo {
    pub peer_id: String,
    pub nickname: String,
    pub is_host: bool,
}

pub struct MemberInfoView {
    pub peer_id: Seq<char>,
    pub nickname: Seq<char>,
    pub is_host: bool,
}

impl View for MemberInfo {
    type V = MemberInfoView;

    open spec fn view(&self) -> MemberInfoView {
        MemberInfoView { peer_id: self.peer_id@, nickname: self.nickname@, is_host: self.is_host }
    }
}

impl MemberInfo {
    pub fn duplicate(&self) -> (r: MemberInfo)
        ensures
            r@ == self@,
    {
        MemberInfo {
            peer_id: self.peer_id.clone(),
            nickname: self.nickname.clone(),
            is_host: self.is_host,
        }
    }
}

/// One entry of the room lobby.
#[derive(Debug, Clone)]
pub struct RoomListing {
    pub room_id: String,
    pub host_name: String,
    pub game_motd: String,
    pub player_count: usize,
    pub has_password: bool,
}

pub struct RoomListingView {
    pub room_id: Seq<char>,
    pub host_name: Seq<char>,
    pub game_motd: Seq<char>,
    pub player_count: usize,
    pub has_password: bool,
}

impl View for RoomListing {
    type V = RoomListingView;

    open spec fn view(&self) -> RoomListingView {
        RoomListingView {
            room_id: self.room_id@,
            host_name: self.host_name@,
            game_motd: self.game_motd@,
            player_count: self.player_count,
            has_password: self.has_password,
        }
    }
}

impl RoomListing {
    pub fn duplicate(&self) -> (r: RoomListing)
        ensures
            r@ == self@,
    {
        RoomListing {
            room_id: self.room_id.clone(),
            host_name: self.host_name.clone(),
            game_motd: self.game_motd.clone(),
            player_count: self.player_count,
            has_password: self.has_password,
        }
    }
}

pub open spec fn members_view(v: Seq<MemberInfo>) -> Seq<MemberInfoView> {
    v.map_values(|m: MemberInfo| m@)
}

pub open spec fn listings_view(v: Seq<RoomListing>) -> Seq<RoomListingView> {
    v.map_values(|r: RoomListing| r@)
}

pub fn duplicate_members(v: &Vec<MemberInfo>) -> (r: Vec<MemberInfo>)
    ensures
        members_view(r@) == members_view(v@),
{
    let mut r: Vec<MemberInfo> = Vec::new();
    let mut i: usize = 0;
    while i < v.len()
        invariant
            i <= v@.len(),
            r@.len() == i,
            forall|j: int| 0 <= j < i ==> (#[trigger] r@[j])@ == v@[j]@,
        decreases v@.len() - i,
    {
        r.push(v[i].duplicate());
        i = i + 1;
    }
    assert(members_view(r@) =~= members_view(v@));
    r
}

pub fn duplicate_listings(v: &Vec<RoomListing>) -> (r: Vec<RoomListing>)
    ensures
        listings_view(r@) == listings_view(v@),
{
    let mut r: Vec<RoomListing> = Vec::new();
    let mut i: usize = 0;
    while i < v.len()
        invariant
            i <= v@.len(),
            r@.len() == i,
            forall|j: int| 0 <= j < i ==> (#[trigger] r@[j])@ == v@[j]@,
        decreases v@.len() - i,
    {
        r.push(v[i].duplicate());
        i = i + 1;
    }
    assert(listings_view(r@) =~= listings_view(v@));
    r
}

pub fn duplicate_bytes(v: &Vec<u8>) -> (r: Vec<u8>)
    ensures
        r@ == v@,
{
    let mut r: Vec<u8> = Vec::new();
    let mut i: usize = 0;
    while i < v.len()
        invariant
            i <= v@.len(),
            r@ == v@.take(i as int),
        decreases v@.len() - i,
    {
        r.push(v[i]);
        assert(r@ =~= v@.take(i + 1));
        i = i + 1;
    }
    assert(v@.take(i as int) =~= v@);
    r
}

/// What a client sends to the relay server.
#[derive(Debug, Clone)]
pub enum ClientMessage {
    SetNickname { nickname: String },
    CreateRoom { password: String, game_info: GameInfo },
    JoinRoom { room_id: String, password: String },
    LeaveRoom,
    ListRooms,
    GameData { connection_id: String, data: Vec<u8> },
    NewConnection { connection_id: String },
    CloseConnection { connection_id: String },
    UpdateGameInfo { game_info: GameInfo },
    Heartbeat,
}

pub enum ClientMessageView {
    SetNickname { nickname: Seq<char> },
    CreateRoom { password: Seq<char>, game_info: GameInfoView },
    JoinRoom { room_id: Seq<char>, password: Seq<char> },
    LeaveRoom,
    ListRooms,
    GameData { connection_id: Seq<char>, data: Seq<u8> },
    NewConnection { connection_id: Seq<char> },
    CloseConnection { connection_id: Seq<char> },
    UpdateGameInfo { game_info: GameInfoView },
    Heartbeat,
}

impl View for ClientMessage {
    type V = ClientMessageView;

    open spec fn view(&self) -> ClientMessageView {
        match self {
            ClientMessage::SetNickname { nickname } => ClientMessageView::SetNickname {
                nickname: nickname@,
            },
            ClientMessage::CreateRoom { password, game_info } => ClientMessageView::CreateRoom {
                password: password@,
                game_info: game_info@,
            },
            ClientMessage::JoinRoom { room_id, password } => ClientMessageView::JoinRoom {
                room_id: room_id@,
                password: password@,
            },
            ClientMessage::LeaveRoom => ClientMessageView::LeaveRoom,
            ClientMessage::ListRooms => ClientMessageView::ListRooms,
            ClientMessage::GameData { connection_id, data } => ClientMessageView::GameData {
                connection_id: connection_id@,
                data: data@,
            },
            ClientMessage::NewConnection { connection_id } => ClientMessageView::NewConnection {
                connection_id: connection_id@,
            },
            ClientMessage::CloseConnection { connection_id } => ClientMessageView::CloseConnection {
                connection_id: connection_id@,
            },
            ClientMessage::UpdateGameInfo { game_info } => ClientMessageView::UpdateGameInfo {
                game_info: game_info@,
            },
            ClientMessage::Heartbeat => ClientMessageView::Heartbeat,
        }
    }
}

/// What the relay server sends to a client.
#[derive(Debug, Clone)]
pub enum ServerMessage {
    RoomCreated { room_id: String },
    RoomJoined { game_info: GameInfo, is_host: bool, members: Vec<MemberInfo> },
    Error { message: String },
    PeerJoined { peer_id: String, nickname: String },
    PeerLeft { peer_id: String },
    MemberList { members: Vec<MemberInfo> },
    RoomList { rooms: Vec<RoomListing> },
    GameData { connection_id: String, from_peer: String, data: Vec<u8> },
    NewConnection { connection_id: String, from_peer: String },
    CloseConnection { connection_id: String, from_peer: String },
    GameInfoUpdated { game_info: GameInfo },
    HeartbeatAck,
    RoomClosed,
}

pub enum ServerMessageView {
    RoomCreated { room_id: Seq<char> },
    RoomJoined { game_info: GameInfoView, is_host: bool, members: Seq<MemberInfoView> },
    Error { message: Seq<char> },
    PeerJoined { peer_id: Seq<char>, nickname: Seq<char> },
    PeerLeft { peer_id: Seq<char> },
    MemberList { members: Seq<MemberInfoView> },
    RoomList { rooms: Seq<RoomListingView> },
    GameData { connection_id: Seq<char>, from_peer: Seq<char>, data: Seq<u8> },
    NewConnection { connection_id: Seq<char>, from_peer: Seq<char> },
    CloseConnection { connection_id: Seq<char>, from_peer: Seq<char> },
    GameInfoUpdated { game_info: GameInfoView },
    HeartbeatAck,
    RoomClosed,
}

impl View for ServerMessage {
    type V = ServerMessageView;

    open spec fn view(&self) -> ServerMessageView {
        match self {
            ServerMessage::RoomCreated { room_id } => ServerMessageView::RoomCreated {
                room_id: room_id@,
            },
            ServerMessage::RoomJoined { game_info, is_host, members } =>
                ServerMessageView::RoomJoined {
                game_info: game_info@,
                is_host: *is_host,
                members: members_view(members@),
            },
            ServerMessage::Error { message } => ServerMessageView::Error { message: message@ },
            ServerMessage::PeerJoined { peer_id, nickname } => ServerMessageView::PeerJoined {
                peer_id: peer_id@,
                nickname: nickname@,
            },
            ServerMessage::PeerLeft { peer_id } => ServerMessageView::PeerLeft {
                peer_id: peer_id@,
            },
            ServerMessage::MemberList { members } => ServerMessageView::MemberList {
                members: members_view(members@),
            },
            ServerMessage::RoomList { rooms } => ServerMessageView::RoomList {
                rooms: listings_view(rooms@),
            },
            ServerMessage::GameData { connection_id, from_peer, data } =>
                ServerMessageView::GameData {
                connection_id: connection_id@,
                from_peer: from_peer@,
                data: data@,
            },
            ServerMessage::NewConnection { connection_id, from_peer } =>
                ServerMessageView::NewConnection {
                connection_id: connection_id@,
                from_peer: from_peer@,
            },
            ServerMessage::CloseConnection { connection_id, from_peer } =>
                ServerMessageView::CloseConnection {
                connection_id: connection_id@,
                from_peer: from_peer@,
            },
            ServerMessage::GameInfoUpdated { game_info } => ServerMessageView::GameInfoUpdated {
                game_info: game_info@,
            },
            ServerMessage::HeartbeatAck => ServerMessageView::HeartbeatAck,
            ServerMessage::RoomClosed => ServerMessageView::RoomClosed,
        }
    }
}

impl ServerMessage {
    pub fn duplicate(&self) -> (r: ServerMessage)
        ensures
            r@ == self@,
    {
        match self {
            ServerMessage::RoomCreated { room_id } => ServerMessage::RoomCreated {
                room_id: room_id.clone(),
            },
            ServerMessage::RoomJoined { game_info, is_host, members } => ServerMessage::RoomJoined {
                game_info: game_info.duplicate(),
                is_host: *is_host,
                members: duplicate_members(members),
            },
            ServerMessage::Error { message } => ServerMessage::Error { message: message.clone() },
            ServerMessage::PeerJoined { peer_id, nickname } => ServerMessage::PeerJoined {
                peer_id: peer_id.clone(),
                nickname: nickname.clone(),
            },
            ServerMessage::PeerLeft { peer_id } => ServerMessage::PeerLeft {
                peer_id: peer_id.clone(),
            },
            ServerMessage::MemberList { members } => ServerMessage::MemberList {
                members: duplicate_members(members),
            },
            ServerMessage::RoomList { rooms } => ServerMessage::RoomList {
                rooms: duplicate_listings(rooms),
            },
            ServerMessage::GameData { connection_id, from_peer, data } => ServerMessage::GameData {
                connection_id: connection_id.clone(),
                from_peer: from_peer.clone(),
                data: duplicate_bytes(data),
            },
            ServerMessage::NewConnection { connection_id, from_peer } =>
                ServerMessage::NewConnection {
                connection_id: connection_id.clone(),
                from_peer: from_peer.clone(),
            },
            ServerMessage::CloseConnection { connection_id, from_peer } =>
                ServerMessage::CloseConnection {
                connection_id: connection_id.clone(),
                from_peer: from_peer.clone(),
            },
            ServerMessage::GameInfoUpdated { game_info } => ServerMessage::GameInfoUpdated {
                game_info: game_info.duplicate(),
            },
            ServerMessage::HeartbeatAck => ServerMessage::HeartbeatAck,
            ServerMessage::RoomClosed => ServerMessage::RoomClosed,
        }
    }
}

} // verus!
