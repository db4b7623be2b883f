use mcproxy::lan::{lan_announcement, lan_broadcast_in_order, parse_lan_broadcast};

#[test]
fn parses_a_minecraft_announcement() {
    let g = parse_lan_broadcast("[MOTD]A Minecraft Server[/MOTD][AD]25565[/AD]").unwrap();
    assert_eq!(g.motd, "A Minecraft Server");
    assert_eq!(g.port, 25565);
}

#[test]
fn missing_marker_or_bad_port_gives_nothing() {
    assert!(parse_lan_broadcast("[MOTD]x[/MOTD][AD]25565").is_none());
    assert!(parse_lan_broadcast("hello").is_none());
    assert!(parse_lan_broadcast("[MOTD]x[/MOTD][AD]70000[/AD]").is_none());
    assert!(parse_lan_broadcast("[MOTD]x[/MOTD][AD]port[/AD]").is_none());
}

#[test]
fn non_ascii_motd_survives() {
    let g = parse_lan_broadcast("[MOTD]我的世界 §a服务器[/MOTD][AD]+1234[/AD]").unwrap();
    assert_eq!(g.motd, "我的世界 §a服务器");
    assert_eq!(g.port, 1234);
}

#[test]
fn out_of_order_markers_are_detected() {
    assert!(!lan_broadcast_in_order("[/MOTD][MOTD]x[AD]1[/AD]"));
    assert!(!lan_broadcast_in_order("[MOTD]x[/MOTD][/AD]1[AD]"));
    assert!(lan_broadcast_in_order("[MOTD]x[/MOTD][AD]1[/AD]"));
    assert!(lan_broadcast_in_order("no markers"));
}

#[test]
fn announcement_reads_back() {
    let text = lan_announcement("Survival [1.20]", 54321);
    assert_eq!(text, "[MOTD]Survival [1.20][/MOTD][AD]54321[/AD]");
    assert!(lan_broadcast_in_order(&text));
    let g = parse_lan_broadcast(&text).unwrap();
    assert_eq!(g.motd, "Survival [1.20]");
    assert_eq!(g.port, 54321);
}
