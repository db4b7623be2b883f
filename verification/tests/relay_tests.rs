use mcproxy::protocol::{ClientMessage, GameInfo, ServerMessage};
use mcproxy::relay::{generate_room_id, room_id_from_number, Delivery, RelayServer};

fn game(motd: &str, port: u16) -> GameInfo {
    GameInfo { motd: motd.to_string(), port }
}

fn to(out: &[Delivery], peer: &str) -> Vec<ServerMessage> {
    out.iter().filter(|d| d.to == peer).map(|d| d.message.clone()).collect()
}

fn host_room(s: &mut RelayServer, host: &str, password: &str) -> String {
    let out = s.handle_client_message(
        &host.to_string(),
        ClientMessage::CreateRoom { password: password.to_string(), game_info: game("World", 25565) },
    );
    assert_eq!(out.len(), 2);
    match &out[0].message {
        ServerMessage::RoomCreated { room_id } => room_id.clone(),
        other => panic!("unexpected {:?}", other),
    }
}

#[test]
fn room_codes_have_six_digits() {
    assert_eq!(room_id_from_number(1_234_567_890), "567890");
    assert_eq!(room_id_from_number(7), "000007");
    let id = generate_room_id();
    assert_eq!(id.len(), 6);
    assert!(id.chars().all(|c| c.is_ascii_digit()));
}

#[test]
fn new_peer_gets_default_nickname() {
    let mut s = RelayServer::new();
    let id = s.connect_peer();
    assert_eq!(id.len(), 36);
    s.register_peer("abcdef".to_string());
    let out = s.handle_client_message(
        &"abcdef".to_string(),
        ClientMessage::CreateRoom { password: String::new(), game_info: game("W", 1) },
    );
    match &out[1].message {
        ServerMessage::RoomJoined { members, is_host, .. } => {
            assert!(*is_host);
            assert_eq!(members.len(), 1);
            assert_eq!(members[0].nickname, "Player_abcd");
            assert!(members[0].is_host);
        }
        other => panic!("unexpected {:?}", other),
    }
}

#[test]
fn create_join_relay_and_leave() {
    let mut s = RelayServer::new();
    s.register_peer("host-1".to_string());
    s.register_peer("guest-1".to_string());
    let room = host_room(&mut s, "host-1", "pw");
    assert_eq!(room.len(), 6);

    // Wrong password, then unknown room.
    let out = s.handle_client_message(
        &"guest-1".to_string(),
        ClientMessage::JoinRoom { room_id: room.clone(), password: "nope".to_string() },
    );
    assert_eq!(out.len(), 1);
    assert_eq!(out[0].to, "guest-1");
    assert!(matches!(&out[0].message, ServerMessage::Error { message } if message == "密码错误"));
    let out = s.handle_client_message(
        &"guest-1".to_string(),
        ClientMessage::JoinRoom { room_id: "x".to_string(), password: "pw".to_string() },
    );
    assert!(matches!(&out[0].message, ServerMessage::Error { message } if message == "房间不存在"));

    // Join.
    let out = s.handle_client_message(
        &"guest-1".to_string(),
        ClientMessage::JoinRoom { room_id: room.clone(), password: "pw".to_string() },
    );
    let host_msgs = to(&out, "host-1");
    assert_eq!(host_msgs.len(), 1);
    assert!(matches!(&host_msgs[0], ServerMessage::PeerJoined { peer_id, nickname }
        if peer_id == "guest-1" && nickname == "Player_gues"));
    let guest_msgs = to(&out, "guest-1");
    assert_eq!(guest_msgs.len(), 1);
    match &guest_msgs[0] {
        ServerMessage::RoomJoined { game_info, is_host, members } => {
            assert_eq!(game_info.motd, "World");
            assert!(!is_host);
            assert_eq!(members.len(), 2);
        }
        other => panic!("unexpected {:?}", other),
    }

    // Game data goes to the other member only.
    let out = s.handle_client_message(
        &"guest-1".to_string(),
        ClientMessage::GameData { connection_id: "c1".to_string(), data: vec![1, 2] },
    );
    assert_eq!(out.len(), 1);
    assert_eq!(out[0].to, "host-1");
    assert!(matches!(&out[0].message, ServerMessage::GameData { connection_id, from_peer, data }
        if connection_id == "c1" && from_peer == "guest-1" && data == &vec![1, 2]));
    let out = s.relay_binary_data(&"host-1".to_string(), "c1".to_string(), vec![9]);
    assert_eq!(out.len(), 1);
    assert_eq!(out[0].to, "guest-1");

    // The guest leaves: the host hears of it and gets the new member list.
    let out = s.handle_client_message(&"guest-1".to_string(), ClientMessage::LeaveRoom);
    let host_msgs = to(&out, "host-1");
    assert_eq!(host_msgs.len(), 2);
    assert!(matches!(&host_msgs[0], ServerMessage::PeerLeft { peer_id } if peer_id == "guest-1"));
    assert!(matches!(&host_msgs[1], ServerMessage::MemberList { members } if members.len() == 1));

    // Nothing is relayed to a peer in no room.
    let out = s.handle_client_message(
        &"guest-1".to_string(),
        ClientMessage::NewConnection { connection_id: "c2".to_string() },
    );
    assert!(out.is_empty());
}

#[test]
fn host_leaving_closes_the_room() {
    let mut s = RelayServer::new();
    s.register_peer("host-1".to_string());
    s.register_peer("guest-1".to_string());
    let room = host_room(&mut s, "host-1", "");
    s.handle_client_message(
        &"guest-1".to_string(),
        ClientMessage::JoinRoom { room_id: room.clone(), password: String::new() },
    );
    let out = s.disconnect_peer(&"host-1".to_string());
    assert_eq!(out.len(), 1);
    assert_eq!(out[0].to, "guest-1");
    assert!(matches!(out[0].message, ServerMessage::RoomClosed));
    let out = s.handle_client_message(&"guest-1".to_string(), ClientMessage::ListRooms);
    assert!(matches!(&out[0].message, ServerMessage::RoomList { rooms } if rooms.is_empty()));
}

#[test]
fn lobby_lists_every_room() {
    let mut s = RelayServer::new();
    s.register_peer("host-a".to_string());
    s.register_peer("host-b".to_string());
    s.register_peer("viewer".to_string());
    s.handle_client_message(
        &"host-a".to_string(),
        ClientMessage::SetNickname { nickname: "  Alice  ".to_string() },
    );
    let a = host_room(&mut s, "host-a", "secret");
    let b = host_room(&mut s, "host-b", "");
    assert_ne!(a, b);
    let out = s.handle_client_message(&"viewer".to_string(), ClientMessage::ListRooms);
    assert_eq!(out.len(), 1);
    assert_eq!(out[0].to, "viewer");
    match &out[0].message {
        ServerMessage::RoomList { rooms } => {
            assert_eq!(rooms.len(), 2);
            let ra = rooms.iter().find(|r| r.room_id == a).unwrap();
            assert_eq!(ra.host_name, "Alice");
            assert!(ra.has_password);
            assert_eq!(ra.player_count, 1);
            assert_eq!(ra.game_motd, "World");
            let rb = rooms.iter().find(|r| r.room_id == b).unwrap();
            assert_eq!(rb.host_name, "Player_host");
            assert!(!rb.has_password);
        }
        other => panic!("unexpected {:?}", other),
    }
    // An unknown peer gets nothing.
    assert!(s.handle_client_message(&"ghost".to_string(), ClientMessage::ListRooms).is_empty());
}

#[test]
fn nicknames_are_trimmed_and_bounded() {
    let mut s = RelayServer::new();
    s.register_peer("host-1".to_string());
    host_room(&mut s, "host-1", "");
    let out = s.handle_client_message(
        &"host-1".to_string(),
        ClientMessage::SetNickname { nickname: "  Steve \n".to_string() },
    );
    assert_eq!(out.len(), 1);
    assert!(matches!(&out[0].message, ServerMessage::MemberList { members }
        if members.len() == 1 && members[0].nickname == "Steve" && members[0].is_host));
    // Empty after trimming, or over 32 bytes: ignored.
    assert!(s
        .handle_client_message(&"host-1".to_string(), ClientMessage::SetNickname { nickname: "   ".to_string() })
        .is_empty());
    let long = "é".repeat(17);
    assert_eq!(long.len(), 34);
    assert!(s
        .handle_client_message(&"host-1".to_string(), ClientMessage::SetNickname { nickname: long })
        .is_empty());
    let ok = "a".repeat(32);
    assert_eq!(
        s.handle_client_message(&"host-1".to_string(), ClientMessage::SetNickname { nickname: ok }).len(),
        1
    );
}

#[test]
fn only_the_host_updates_the_game() {
    let mut s = RelayServer::new();
    s.register_peer("host-1".to_string());
    s.register_peer("guest-1".to_string());
    let room = host_room(&mut s, "host-1", "");
    s.handle_client_message(
        &"guest-1".to_string(),
        ClientMessage::JoinRoom { room_id: room, password: String::new() },
    );
    let out = s.handle_client_message(
        &"guest-1".to_string(),
        ClientMessage::UpdateGameInfo { game_info: game("Hacked", 1) },
    );
    assert!(out.is_empty());
    let out = s.handle_client_message(
        &"host-1".to_string(),
        ClientMessage::UpdateGameInfo { game_info: game("New", 2) },
    );
    assert_eq!(out.len(), 1);
    assert_eq!(out[0].to, "guest-1");
    assert!(matches!(&out[0].message, ServerMessage::GameInfoUpdated { game_info }
        if game_info.motd == "New" && game_info.port == 2));
    let out = s.handle_client_message(&"guest-1".to_string(), ClientMessage::Heartbeat);
    assert_eq!(out.len(), 1);
    assert!(matches!(out[0].message, ServerMessage::HeartbeatAck));
}

#[test]
fn create_then_leave_restores_the_lobby() {
    let mut s = RelayServer::new();
    s.register_peer("host-1".to_string());
    host_room(&mut s, "host-1", "");
    let out = s.handle_client_message(&"host-1".to_string(), ClientMessage::LeaveRoom);
    assert!(out.is_empty());
    let out = s.handle_client_message(&"host-1".to_string(), ClientMessage::ListRooms);
    assert!(matches!(&out[0].message, ServerMessage::RoomList { rooms } if rooms.is_empty()));
}

#[test]
fn a_free_room_code_is_found() {
    let mut s = RelayServer::new();
    assert!(s.has_free_room_code());
    s.register_peer("host-1".to_string());
    let rid = host_room(&mut s, "host-1", "");
    assert_eq!(rid.len(), 6);
    assert!(s.has_free_room_code());
    let out = s.create_room(&"nobody".to_string(), String::new(), game("W", 1));
    assert!(out.is_empty());
}
