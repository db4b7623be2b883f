//! What the proxy client reports to its user interface.
use vstd::prelude::*;
use crate::protocol::GameInfoView;

verus! {

/// A LAN game: its message of the day and the port it listens on.
#[derive(Debug, Clone)]
pub struct GameInfo {
    pub motd: String,
    pub port: u16,
}

impl View for GameInfo {
    type V = GameInfoView;

    open spec fn view(&self) -> GameInfoView {
        GameInfoView { motd: self.motd@, port: self.port }
    }
}

impl GameInfo {
    pub fn duplicate(&self) -> (r: GameInfo)
        ensures
            r@ == self@,
    {
        GameInfo { motd: self.motd.clone(), port: self.port }
    }
}

/// An event for the user interface.
#[derive(Debug, Clone)]
pub enum ProxyEvent {
    Connected,
    Disconnected { reason: String },
    RoomCreated { room_id: String },
    RoomJoined { game_info: GameInfo, is_host: bool },
    PeerJoined { peer_id: String },
    PeerLeft { peer_id: String },
    LanGameFound { motd: String, port: u16 },
    Error { message: String },
    RoomClosed,
    TunnelActive { local_port: u16 },
    StatusUpdate { status: String, detail: String },
}

pub enum ProxyEventView {
    Connected,
    Disconnected { reason: Seq<char> },
    RoomCreated { room_id: Seq<char> },
    RoomJoined { game_info: GameInfoView, is_host: bool },
    PeerJoined { peer_id: Seq<char> },
    PeerLeft { peer_id: Seq<char> },
    LanGameFound { motd: Seq<char>, port: u16 },
    Error { message: Seq<char> },
    RoomClosed,
    TunnelActive { local_port: u16 },
    StatusUpdate { status: Seq<char>, detail: Seq<char> },
}

impl View for ProxyEvent {
    type V = ProxyEventView;

    open spec fn view(&self) -> ProxyEventView {
        match self {
            ProxyEvent::Connected => ProxyEventView::Connected,
            ProxyEvent::Disconnected { reason } => ProxyEventView::Disconnected { reason: reason@ },
            ProxyEvent::RoomCreated { room_id } => ProxyEventView::RoomCreated { room_id: room_id@ },
            ProxyEvent::RoomJoined { game_info, is_host } => ProxyEventView::RoomJoined {
                game_info: game_info@,
                is_host: *is_host,
            },
            ProxyEvent::PeerJoined { peer_id } => ProxyEventView::PeerJoined { peer_id: peer_id@ },
            ProxyEvent::PeerLeft { peer_id } => ProxyEventView::PeerLeft { peer_id: peer_id@ },
            ProxyEvent::LanGameFound { motd, port } => ProxyEventView::LanGameFound {
                motd: motd@,
                port: *port,
            },
            ProxyEvent::Error { message } => ProxyEventView::Error { message: message@ },
            ProxyEvent::RoomClosed => ProxyEventView::RoomClosed,
            ProxyEvent::TunnelActive { local_port } => ProxyEventView::TunnelActive {
                local_port: *local_port,
            },
            ProxyEvent::StatusUpdate { status, detail } => ProxyEventView::StatusUpdate {
                status: status@,
                detail: detail@,
            },
        }
    }
}

impl ProxyEvent {
    pub fn duplicate(&self) -> (r: ProxyEvent)
        ensures
            r@ == self@,
    {
        match self {
            ProxyEvent::Connected => ProxyEvent::Connected,
            ProxyEvent::Disconnected { reason } => ProxyEvent::Disconnected { reason: reason.clone() },
            ProxyEvent::RoomCreated { room_id } => ProxyEvent::RoomCreated { room_id: room_id.clone() },
            ProxyEvent::RoomJoined { game_info, is_host } => ProxyEvent::RoomJoined {
                game_info: game_info.duplicate(),
                is_host: *is_host,
            },
            ProxyEvent::PeerJoined { peer_id } => ProxyEvent::PeerJoined { peer_id: peer_id.clone() },
            ProxyEvent::PeerLeft { peer_id } => ProxyEvent::PeerLeft { peer_id: peer_id.clone() },
            ProxyEvent::LanGameFound { motd, port } => ProxyEvent::LanGameFound {
                motd: motd.clone(),
                port: *port,
            },
            ProxyEvent::Error { message } => ProxyEvent::Error { message: message.clone() },
            ProxyEvent::RoomClosed => ProxyEvent::RoomClosed,
            ProxyEvent::TunnelActive { local_port } => ProxyEvent::TunnelActive {
                local_port: *local_port,
            },
            ProxyEvent::StatusUpdate { status, detail } => ProxyEvent::StatusUpdate {
                status: status.clone(),
                detail: detail.clone(),
            },
        }
    }
}

pub open spec fn events_view(v: Seq<ProxyEvent>) -> Seq<ProxyEventView> {
    v.map_values(|e: ProxyEvent| e@)
}

} // verus!
