use mcproxy::client::{websocket_url, ClientAction, ProxyState};
use mcproxy::frame::encode_relay_frame;
use mcproxy::protocol::{ClientMessage, GameInfo as WireGame, MemberInfo, ServerMessage};
use mcproxy::ProxyEvent;

fn member(id: &str, host: bool) -> MemberInfo {
    MemberInfo { peer_id: id.to_string(), nickname: format!("n-{}", id), is_host: host }
}

fn connected() -> ProxyState {
    let mut s = ProxyState::new();
    let actions = s.link_established();
    assert!(matches!(actions[..], [ClientAction::Emit(ProxyEvent::Connected)]));
    s
}

#[test]
fn requests_need_a_connection() {
    let s = ProxyState::new();
    assert_eq!(s.list_rooms().unwrap_err(), "未连接到服务器");
    assert_eq!(s.join_room("123456".to_string(), String::new()).unwrap_err(), "未连接到服务器");
    assert!(s.send_binary("c", &[1]).is_err());
    assert!(s.heartbeat().is_none());
    let s = connected();
    assert!(matches!(s.list_rooms(), Ok(ClientMessage::ListRooms)));
    assert_eq!(s.send_binary("c", &[1]).unwrap(), encode_relay_frame("c", &[1]));
    assert!(matches!(s.heartbeat(), Some(Ok(ClientMessage::Heartbeat))));
}

#[test]
fn connect_normalises_the_address() {
    let s = ProxyState::new();
    assert_eq!(s.connect("example.org:9800").unwrap(), "ws://example.org:9800");
    assert_eq!(s.connect("wss://relay.example").unwrap(), "wss://relay.example");
    assert_eq!(websocket_url("ws://a:1").as_str(), "ws://a:1");
    assert_eq!(websocket_url("wsx://a").as_str(), "ws://wsx://a");
    let s = connected();
    assert_eq!(s.connect("x").unwrap_err(), "已经连接到服务器");
}

#[test]
fn create_room_needs_a_lan_game() {
    let mut s = connected();
    assert_eq!(s.create_room("pw".to_string()).unwrap_err(), "请先开启局域网游戏并扫描");
    s.lan_broadcast_received("[MOTD]Survival[/MOTD][AD]25565[/AD]");
    match s.create_room("pw".to_string()).unwrap() {
        ClientMessage::CreateRoom { password, game_info } => {
            assert_eq!(password, "pw");
            assert_eq!(game_info.motd, "Survival");
            assert_eq!(game_info.port, 25565);
        }
        other => panic!("unexpected {:?}", other),
    }
    let actions = s.host_tunnel_started();
    assert!(matches!(&actions[..], [ClientAction::Emit(ProxyEvent::StatusUpdate { status, .. })] if status == "hosting"));
}

#[test]
fn joining_as_guest_starts_the_tunnel() {
    let mut s = connected();
    let actions = s.handle_server_message(ServerMessage::RoomJoined {
        game_info: WireGame { motd: "W".to_string(), port: 25565 },
        is_host: false,
        members: vec![member("a", true), member("b", false), member("c", false)],
    });
    assert_eq!(actions.len(), 2);
    assert!(matches!(&actions[1], ClientAction::StartGuestTunnel { game_info } if game_info.port == 25565));
    let st = s.get_status();
    assert_eq!(st.peer_count, 2);
    assert_eq!(st.members.len(), 3);
    assert!(!st.is_host);
    let actions = s.guest_tunnel_ready(40000, &mcproxy::GameInfo { motd: "W".to_string(), port: 25565 });
    assert_eq!(actions.len(), 3);
    assert!(matches!(&actions[0], ClientAction::Emit(ProxyEvent::TunnelActive { local_port: 40000 })));
    assert!(matches!(&actions[1], ClientAction::AnnounceGame { port: 40000, motd } if motd == "W"));
    assert!(matches!(&actions[2], ClientAction::Emit(ProxyEvent::StatusUpdate { detail, .. }) if detail == "本地代理端口: 40000"));
    assert_eq!(s.get_status().tunnel_port, Some(40000));
}

#[test]
fn peer_events_and_counts() {
    let mut s = connected();
    s.handle_server_message(ServerMessage::MemberList { members: vec![member("a", true)] });
    assert_eq!(s.get_status().peer_count, 0);
    let msg = ServerMessage::PeerJoined {
        peer_id: "0123456789abcdef".to_string(),
        nickname: "Steve".to_string(),
    };
    assert!(s.accepts(&msg));
    let actions = s.handle_server_message(msg);
    assert!(matches!(&actions[..], [ClientAction::Emit(ProxyEvent::PeerJoined { peer_id })] if peer_id == "Steve (01234567)"));
    assert_eq!(s.get_status().peer_count, 1);
    s.handle_server_message(ServerMessage::PeerLeft { peer_id: "x".to_string() });
    s.handle_server_message(ServerMessage::PeerLeft { peer_id: "y".to_string() });
    assert_eq!(s.get_status().peer_count, 0);
    let short = ServerMessage::PeerJoined { peer_id: "abc".to_string(), nickname: "n".to_string() };
    assert!(!s.accepts(&short));
    let split = ServerMessage::PeerJoined { peer_id: "abcdefgé".to_string(), nickname: "n".to_string() };
    assert!(!s.accepts(&split));
}

#[test]
fn room_closed_resets_the_room() {
    let mut s = connected();
    s.handle_server_message(ServerMessage::RoomCreated { room_id: "123456".to_string() });
    s.handle_server_message(ServerMessage::RoomJoined {
        game_info: WireGame { motd: "W".to_string(), port: 1 },
        is_host: true,
        members: vec![member("a", true)],
    });
    assert_eq!(s.get_status().room_id.as_deref(), Some("123456"));
    let actions = s.handle_server_message(ServerMessage::RoomClosed);
    assert!(matches!(
        &actions[..],
        [ClientAction::CancelTunnel, ClientAction::ClearConnections, ClientAction::Emit(ProxyEvent::RoomClosed)]
    ));
    let st = s.get_status();
    assert!(st.room_id.is_none());
    assert!(!st.is_host);
    assert!(st.members.is_empty());
    assert!(st.tunnel_port.is_none());
}

#[test]
fn host_opens_connections_for_its_game() {
    let mut s = connected();
    let none = s.handle_server_message(ServerMessage::NewConnection {
        connection_id: "c1".to_string(),
        from_peer: "p".to_string(),
    });
    assert!(none.is_empty());
    s.lan_broadcast_received("[MOTD]W[/MOTD][AD]25565[/AD]");
    s.handle_server_message(ServerMessage::RoomJoined {
        game_info: WireGame { motd: "W".to_string(), port: 25565 },
        is_host: true,
        members: vec![member("a", true)],
    });
    let actions = s.handle_server_message(ServerMessage::NewConnection {
        connection_id: "c1".to_string(),
        from_peer: "p".to_string(),
    });
    assert!(matches!(&actions[..], [ClientAction::OpenHostConnection { connection_id, port: 25565 }] if connection_id == "c1"));
    let actions = s.handle_binary_data(&encode_relay_frame("c1", &[5, 6]));
    assert!(matches!(&actions[..], [ClientAction::Forward { connection_id, data }] if connection_id == "c1" && data == &vec![5, 6]));
    assert!(s.handle_binary_data(&[0]).is_empty());
}

#[test]
fn event_log_is_bounded() {
    let mut s = connected();
    for i in 0..250u32 {
        s.handle_server_message(ServerMessage::Error { message: i.to_string() });
    }
    let log = s.get_event_log();
    assert!(log.len() <= 201);
    assert!(matches!(log.last(), Some(ProxyEvent::Error { message }) if message == "249"));
    s.clear_event_log();
    assert!(s.get_event_log().is_empty());
}

#[test]
fn disconnect_forgets_everything() {
    let mut s = connected();
    s.lan_broadcast_received("[MOTD]W[/MOTD][AD]1[/AD]");
    let actions = s.disconnect();
    assert_eq!(actions.len(), 3);
    assert!(matches!(&actions[2], ClientAction::Emit(ProxyEvent::Disconnected { reason }) if reason == "主动断开"));
    let st = s.get_status();
    assert!(!st.connected);
    assert!(st.lan_game.is_none());
    assert_eq!(s.set_nickname("x".to_string()).unwrap_err(), "未连接到服务器");
    let mut s = connected();
    let actions = s.link_closed();
    assert!(matches!(&actions[..], [ClientAction::Emit(ProxyEvent::Disconnected { reason })] if reason == "连接断开"));
}

#[test]
fn scanning_flags() {
    let mut s = ProxyState::new();
    assert!(s.start_lan_scan());
    assert!(!s.start_lan_scan());
    assert!(s.get_status().scanning);
    let actions = s.scan_bind_failed("in use");
    assert!(matches!(&actions[..], [ClientAction::Emit(ProxyEvent::Error { message })]
        if message == "无法绑定 UDP 4445 端口: in use。请确保没有其他 Minecraft 实例正在运行。"));
    assert!(!s.get_status().scanning);
    assert!(s.start_lan_scan());
    let actions = s.stop_lan_scan();
    assert!(matches!(&actions[..], [ClientAction::CancelScan]));
    assert!(!s.get_status().scanning);
}

#[test]
fn server_address_normalises_once() {
    for url in ["relay.example:9800", "ws://a", "wss://b", ""] {
        let once = websocket_url(url);
        assert_eq!(websocket_url(&once), once);
    }
    assert_eq!(websocket_url("").as_str(), "ws://");
}

#[test]
fn connection_failure_text() {
    assert_eq!(
        mcproxy::client::connection_failed_message("refused").as_str(),
        "连接失败: refused"
    );
    let id = mcproxy::client::new_connection_id();
    assert_eq!(id.len(), 36);
    assert_ne!(id, mcproxy::client::new_connection_id());
}

#[test]
fn event_log_drops_its_oldest_hundred() {
    let mut s = ProxyState::new();
    let mut actions = Vec::new();
    for i in 0..201 {
        s.record(ProxyEvent::Error { message: format!("e{}", i) }, &mut actions);
    }
    assert_eq!(s.get_event_log().len(), 201);
    assert_eq!(actions.len(), 201);
    s.record(ProxyEvent::Error { message: "last".to_string() }, &mut actions);
    let log = s.get_event_log();
    assert_eq!(log.len(), 102);
    assert!(matches!(&log[0], ProxyEvent::Error { message } if message == "e100"));
    assert!(matches!(&log[101], ProxyEvent::Error { message } if message == "last"));
    assert!(matches!(actions.last(), Some(ClientAction::Emit(ProxyEvent::Error { .. }))));
}
