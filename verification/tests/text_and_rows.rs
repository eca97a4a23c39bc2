use prodtunnel::model::{AuthMethod, PortForward, PortForwardInput, Tunnel, TunnelInput, attach_forwards, forwards_for};
use prodtunnel::rows::{forward_to_row, id_key, row_to_forward, row_to_tunnel, tunnel_to_row, ForwardRow, TunnelRow};
use prodtunnel::text::{concat_text, decimal, same_text, starts_with_text, text_before};
use prodtunnel::default_socks_enabled;
use prodtunnel::ids::{id_from_random, new_id};

const ID_A: u128 = 0x67e55044_10b1_426f_9247_bb680e5fe0c8;
const ID_B: u128 = 0x00000000_0000_0000_0000_000000000001;

fn input(name: &str, auth: AuthMethod, jump: Option<u128>) -> TunnelInput {
    TunnelInput {
        name: name.to_string(),
        host: "bastion.example.com".to_string(),
        port: 2222,
        username: "alice".to_string(),
        auth,
        local_socks_port: 1080,
        auto_connect: true,
        jump_tunnel_id: jump,
        socks_enabled: false,
    }
}

#[test]
fn decimal_writes_ports() {
    assert_eq!(decimal(0), "0");
    assert_eq!(decimal(7), "7");
    assert_eq!(decimal(22), "22");
    assert_eq!(decimal(1080), "1080");
    assert_eq!(decimal(65535), "65535");
}

#[test]
fn text_helpers() {
    assert!(same_text("abc", "abc"));
    assert!(!same_text("abc", "abd"));
    assert!(!same_text("ab", "abc"));
    assert!(same_text("", ""));
    assert_eq!(concat_text("host", ":22"), "host:22");
    assert!(starts_with_text("tunnel:xyz", "tunnel:"));
    assert!(!starts_with_text("tun", "tunnel:"));
    assert!(text_before("a", "b"));
    assert!(text_before("ab", "abc"));
    assert!(!text_before("abc", "ab"));
    assert!(!text_before("same", "same"));
    assert!(text_before("Zebra", "apple"));
    assert!(text_before("z", "é"));
}

#[test]
fn socks_is_on_by_default() {
    assert!(default_socks_enabled());
}

#[test]
fn auth_kinds_and_paths() {
    assert_eq!(AuthMethod::Password.kind(), "password");
    assert_eq!(AuthMethod::Agent.kind(), "agent");
    let key = AuthMethod::PrivateKey { path: "C:\\keys\\id_ed25519".to_string() };
    assert_eq!(key.kind(), "private_key");
    assert_eq!(key.key_path(), Some("C:\\keys\\id_ed25519"));
    assert_eq!(AuthMethod::Password.key_path(), None);
    assert_eq!(AuthMethod::Agent.key_path(), None);
}

#[test]
fn auth_read_back_from_row() {
    match AuthMethod::from_row("private_key", Some("/k".to_string())) {
        AuthMethod::PrivateKey { path } => assert_eq!(path, "/k"),
        other => panic!("unexpected {:?}", other),
    }
    match AuthMethod::from_row("private_key", None) {
        AuthMethod::PrivateKey { path } => assert_eq!(path, ""),
        other => panic!("unexpected {:?}", other),
    }
    assert!(matches!(AuthMethod::from_row("agent", None), AuthMethod::Agent));
    assert!(matches!(AuthMethod::from_row("password", Some("/ignored".to_string())), AuthMethod::Password));
    assert!(matches!(AuthMethod::from_row("kerberos", None), AuthMethod::Password));
}

#[test]
fn auth_round_trip_through_kind_and_path() {
    for auth in [AuthMethod::Password, AuthMethod::Agent, AuthMethod::PrivateKey { path: "/home/a/.ssh/id".to_string() }] {
        let back = AuthMethod::from_row(auth.kind(), auth.key_path().map(|p| p.to_string()));
        assert_eq!(format!("{:?}", back), format!("{:?}", auth));
    }
}

#[test]
fn tunnel_from_input_keeps_fields() {
    let t = Tunnel::from_input(ID_A, input("prod", AuthMethod::Agent, Some(ID_B)));
    assert_eq!(t.id, ID_A);
    assert_eq!(t.name, "prod");
    assert_eq!(t.host, "bastion.example.com");
    assert_eq!(t.port, 2222);
    assert_eq!(t.username, "alice");
    assert_eq!(t.local_socks_port, 1080);
    assert!(t.auto_connect);
    assert!(t.forwards.is_empty());
    assert_eq!(t.jump_tunnel_id, Some(ID_B));
    assert!(!t.socks_enabled);
}

#[test]
fn created_tunnels_get_fresh_ids() {
    let a = Tunnel::create(input("a", AuthMethod::Password, None)).unwrap();
    let b = Tunnel::create(input("b", AuthMethod::Password, None)).unwrap();
    assert_ne!(a.id, 0);
    assert_ne!(a.id, b.id);
    assert_eq!(a.name, "a");
    assert_eq!(a.port, 2222);
    let f = PortForward::create(a.id, PortForwardInput { remote_host: "db".to_string(), remote_port: 5432, local_port: 15432 }).unwrap();
    assert_ne!(f.id, 0);
    assert_eq!(f.tunnel_id, a.id);
    assert_eq!(f.remote_host, "db");
    assert_eq!(f.remote_port, 5432);
    assert_eq!(f.local_port, 15432);
}

#[test]
fn editing_a_forward_keeps_its_tunnel() {
    let existing = PortForward { id: 9, tunnel_id: ID_A, remote_host: "old".to_string(), remote_port: 1, local_port: 2 };
    let edited = PortForward::edited(9, Some(existing), PortForwardInput { remote_host: "new".to_string(), remote_port: 80, local_port: 8080 }).unwrap();
    assert_eq!(edited.id, 9);
    assert_eq!(edited.tunnel_id, ID_A);
    assert_eq!(edited.remote_host, "new");
    assert_eq!(edited.remote_port, 80);
    assert_eq!(edited.local_port, 8080);
}

#[test]
fn editing_a_missing_forward_is_refused() {
    let r = PortForward::edited(9, None, PortForwardInput { remote_host: "new".to_string(), remote_port: 80, local_port: 8080 });
    assert_eq!(r.unwrap_err(), "port forward not found");
}

fn fwd(id: u128, tunnel_id: u128, port: u16) -> PortForward {
    PortForward { id, tunnel_id, remote_host: format!("h{}", id), remote_port: port, local_port: port + 1 }
}

#[test]
fn forwards_are_grouped_by_tunnel_in_order() {
    let all = vec![fwd(1, ID_A, 10), fwd(2, ID_B, 20), fwd(3, ID_A, 30), fwd(4, 77, 40)];
    let mine = forwards_for(&all, ID_A);
    assert_eq!(mine.iter().map(|f| f.id).collect::<Vec<_>>(), vec![1, 3]);
    let mut tunnels = vec![
        Tunnel::from_input(ID_A, input("a", AuthMethod::Password, None)),
        Tunnel::from_input(ID_B, input("b", AuthMethod::Password, None)),
        Tunnel::from_input(5, input("c", AuthMethod::Password, None)),
    ];
    attach_forwards(&mut tunnels, &all);
    assert_eq!(tunnels[0].forwards.iter().map(|f| f.id).collect::<Vec<_>>(), vec![1, 3]);
    assert_eq!(tunnels[1].forwards.iter().map(|f| f.id).collect::<Vec<_>>(), vec![2]);
    assert!(tunnels[2].forwards.is_empty());
    assert_eq!(tunnels[1].name, "b");
}

#[test]
fn ids_are_stored_as_hyphenated_text() {
    assert_eq!(id_key(ID_A), "67e55044-10b1-426f-9247-bb680e5fe0c8");
    assert_eq!(id_key(0), "00000000-0000-0000-0000-000000000000");
}

#[test]
fn tunnel_row_round_trip() {
    let mut t = Tunnel::from_input(ID_A, input("prod", AuthMethod::PrivateKey { path: "/id".to_string() }, Some(ID_B)));
    t.forwards.push(fwd(1, ID_A, 10));
    let row = tunnel_to_row(&t);
    assert_eq!(row.id, "67e55044-10b1-426f-9247-bb680e5fe0c8");
    assert_eq!(row.auth_kind, "private_key");
    assert_eq!(row.auth_key_path.as_deref(), Some("/id"));
    assert_eq!(row.jump_tunnel_id.as_deref(), Some("00000000-0000-0000-0000-000000000001"));
    let back = row_to_tunnel(row);
    assert_eq!(back.id, ID_A);
    assert_eq!(back.name, "prod");
    assert_eq!(back.host, "bastion.example.com");
    assert_eq!(back.port, 2222);
    assert_eq!(back.username, "alice");
    assert!(matches!(back.auth, AuthMethod::PrivateKey { ref path } if path == "/id"));
    assert_eq!(back.local_socks_port, 1080);
    assert!(back.auto_connect);
    assert_eq!(back.jump_tunnel_id, Some(ID_B));
    assert!(!back.socks_enabled);
    assert!(back.forwards.is_empty());
}

#[test]
fn unreadable_ids_in_rows() {
    let row = TunnelRow {
        id: "not-a-uuid".to_string(),
        name: "n".to_string(),
        host: "h".to_string(),
        port: 22,
        username: "u".to_string(),
        auth_kind: "agent".to_string(),
        auth_key_path: None,
        local_socks_port: 1081,
        auto_connect: false,
        jump_tunnel_id: Some("garbage".to_string()),
        socks_enabled: true,
    };
    let t = row_to_tunnel(row);
    assert_eq!(t.id, 0);
    assert_eq!(t.jump_tunnel_id, None);
    assert!(matches!(t.auth, AuthMethod::Agent));
    let simple = TunnelRow {
        id: "67e5504410b1426f9247bb680e5fe0c8".to_string(),
        name: "n".to_string(),
        host: "h".to_string(),
        port: 22,
        username: "u".to_string(),
        auth_kind: "password".to_string(),
        auth_key_path: None,
        local_socks_port: 1081,
        auto_connect: false,
        jump_tunnel_id: None,
        socks_enabled: true,
    };
    assert_eq!(row_to_tunnel(simple).id, ID_A);
}

#[test]
fn forward_row_round_trip() {
    let f = fwd(ID_B, ID_A, 8080);
    let row = forward_to_row(&f);
    assert_eq!(row.id, "00000000-0000-0000-0000-000000000001");
    assert_eq!(row.tunnel_id, "67e55044-10b1-426f-9247-bb680e5fe0c8");
    let back = row_to_forward(row);
    assert_eq!(back.id, ID_B);
    assert_eq!(back.tunnel_id, ID_A);
    assert_eq!(back.remote_host, f.remote_host);
    assert_eq!(back.remote_port, 8080);
    assert_eq!(back.local_port, 8081);
    let bad = row_to_forward(ForwardRow { id: "x".to_string(), tunnel_id: "y".to_string(), remote_host: "r".to_string(), remote_port: 1, local_port: 2 });
    assert_eq!(bad.id, 0);
    assert_eq!(bad.tunnel_id, 0);
}

#[test]
fn random_ids_are_version_four_uuids() {
    assert_eq!(id_from_random(Some([0u8; 16])), Ok(0x00000000_0000_4000_8000_000000000000));
    assert_eq!(id_from_random(Some([0xffu8; 16])), Ok(0xffffffff_ffff_4fff_bfff_ffffffffffff));
    let bytes = [0x67, 0xe5, 0x50, 0x44, 0x10, 0xb1, 0x12, 0x6f, 0xd2, 0x47, 0xbb, 0x68, 0x0e, 0x5f, 0xe0, 0xc8];
    assert_eq!(id_from_random(Some(bytes)), Ok(0x67e55044_10b1_426f_9247_bb680e5fe0c8));
    assert_eq!(id_from_random(None), Err("could not obtain random bytes for a new identifier".to_string()));
}

#[test]
fn new_ids_are_fresh_and_not_nil() {
    let a = new_id().unwrap();
    let b = new_id().unwrap();
    assert_ne!(a, 0);
    assert_ne!(a, b);
    assert_eq!((a >> 76) & 0xf, 4);
    assert_eq!((a >> 62) & 0x3, 2);
}
