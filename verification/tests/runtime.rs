use prodtunnel::connect::{
    agent_next_try, authentication_outcome, jump_session, connect_all_outcome, forward_bind_error, forward_command_outcome, jump_route, password_to_send,
    session_wait_step, socks_bind_error, ChainStep, JumpChain, WaitStep,
};
use prodtunnel::counting::CountingStream;
use prodtunnel::events::{status_notification, StatsEvent, StatusEvent, TunnelStatus};
use prodtunnel::registry::HandleTable;
use prodtunnel::tray::{menu_action, tray_menu, tunnel_menu_id, MenuAction, MenuEntry, TrayTunnel};
use std::sync::atomic::{AtomicU64, Ordering};
use std::sync::Arc;

const ID_A: u128 = 0x67e55044_10b1_426f_9247_bb680e5fe0c8;

#[test]
fn handle_table_registers_and_takes_out() {
    let mut t: HandleTable<&str> = HandleTable::new();
    assert!(!t.contains(1));
    t.insert(1, "one");
    t.insert(2, "two");
    assert!(t.contains(1));
    assert_eq!(t.get(2), Some(&"two"));
    t.insert(1, "uno");
    assert_eq!(t.remove(1), Some("uno"));
    assert!(!t.contains(1));
    assert_eq!(t.remove(1), None);
    assert_eq!(t.get(1), None);
    assert!(t.contains(2));
}

#[test]
fn notifications_per_status() {
    assert_eq!(status_notification(true, TunnelStatus::Connected, None).as_deref(), Some("Connected"));
    assert_eq!(status_notification(true, TunnelStatus::Disconnected, None).as_deref(), Some("Disconnected"));
    assert_eq!(status_notification(true, TunnelStatus::Error, None).as_deref(), Some("Connection error"));
    assert_eq!(status_notification(true, TunnelStatus::Error, Some("auth failed".to_string())).as_deref(), Some("auth failed"));
    assert_eq!(status_notification(true, TunnelStatus::Connecting, None), None);
    assert_eq!(status_notification(false, TunnelStatus::Connected, None), None);
    assert_eq!(status_notification(false, TunnelStatus::Error, Some("x".to_string())), None);
}

#[test]
fn events_carry_their_values() {
    let e = StatusEvent { tunnel_id: 3, status: TunnelStatus::Error, message: Some("m".to_string()) };
    assert_eq!(e.status, TunnelStatus::Error);
    let s = StatsEvent { tunnel_id: 3, bytes_up: 10, bytes_down: 20, uptime_secs: 5 };
    assert_eq!(s.bytes_up + s.bytes_down, 30);
}

#[test]
fn menu_actions() {
    assert_eq!(menu_action("toggle-window"), MenuAction::ToggleWindow);
    assert_eq!(menu_action("exit"), MenuAction::Exit);
    assert_eq!(menu_action("tunnel:67e55044-10b1-426f-9247-bb680e5fe0c8"), MenuAction::ToggleTunnel(ID_A));
    assert_eq!(menu_action("tunnel:nope"), MenuAction::Nothing);
    assert_eq!(menu_action("tunnel"), MenuAction::Nothing);
    assert_eq!(menu_action("something"), MenuAction::Nothing);
}

#[test]
fn tunnel_menu_ids_round_trip() {
    let id = tunnel_menu_id(ID_A);
    assert_eq!(id, "tunnel:67e55044-10b1-426f-9247-bb680e5fe0c8");
    assert_eq!(menu_action(&id), MenuAction::ToggleTunnel(ID_A));
    assert_eq!(menu_action(&tunnel_menu_id(0)), MenuAction::ToggleTunnel(0));
}

fn describe(menu: &[MenuEntry]) -> Vec<String> {
    menu.iter()
        .map(|e| match e {
            MenuEntry::Item { id, label } => format!("item {} {}", id, label),
            MenuEntry::Check { id, label, checked } => format!("check {} {} {}", id, label, checked),
            MenuEntry::Separator => "sep".to_string(),
        })
        .collect()
}

#[test]
fn tray_menu_layouts() {
    assert_eq!(describe(&tray_menu(&vec![])), vec!["item toggle-window Show/Hide", "sep", "item exit Exit"]);
    let tunnels = vec![
        TrayTunnel { id: ID_A, name: "prod".to_string(), connected: true },
        TrayTunnel { id: 1, name: "dev".to_string(), connected: false },
    ];
    assert_eq!(
        describe(&tray_menu(&tunnels)),
        vec![
            "item toggle-window Show/Hide",
            "sep",
            "check tunnel:67e55044-10b1-426f-9247-bb680e5fe0c8 prod true",
            "check tunnel:00000000-0000-0000-0000-000000000001 dev false",
            "sep",
            "item exit Exit",
        ]
    );
}

#[test]
fn jump_chain_collects_unconnected_jumps() {
    let mut chain = JumpChain::new(1);
    assert_eq!(chain.current(), 1);
    assert_eq!(chain.advance(Some(2), false), Ok(ChainStep::Extended));
    assert_eq!(chain.current(), 2);
    assert_eq!(chain.advance(Some(3), false), Ok(ChainStep::Extended));
    assert_eq!(chain.advance(Some(4), true), Ok(ChainStep::Complete));
    assert_eq!(chain.connect_order(), vec![3, 2, 1]);
}

#[test]
fn jump_chain_without_jump_is_single() {
    let mut chain = JumpChain::new(9);
    assert_eq!(chain.advance(None, false), Ok(ChainStep::Complete));
    assert_eq!(chain.connect_order(), vec![9]);
}

#[test]
fn jump_chain_cycle_is_refused() {
    let mut chain = JumpChain::new(1);
    assert_eq!(chain.advance(Some(2), false), Ok(ChainStep::Extended));
    assert_eq!(chain.advance(Some(1), false), Err("jump tunnel chain has a cycle".to_string()));
    assert_eq!(chain.connect_order(), vec![2, 1]);
    let mut own = JumpChain::new(5);
    assert_eq!(own.advance(Some(5), false), Err("jump tunnel chain has a cycle".to_string()));
}

#[test]
fn waiting_for_a_session() {
    assert_eq!(session_wait_step(true, false, true), WaitStep::Ready);
    assert_eq!(session_wait_step(false, true, false), WaitStep::KeepWaiting);
    assert_eq!(
        session_wait_step(false, false, false),
        WaitStep::GiveUp("jump tunnel disconnected before it finished connecting".to_string())
    );
    assert_eq!(session_wait_step(false, true, true), WaitStep::GiveUp("timed out waiting for jump tunnel to connect".to_string()));
}

#[test]
fn forward_command_outcomes() {
    assert_eq!(forward_command_outcome(false, false, None), Ok(()));
    assert_eq!(forward_command_outcome(true, false, None), Ok(()));
    assert_eq!(forward_command_outcome(true, true, None), Ok(()));
    assert_eq!(forward_command_outcome(true, true, Some(Ok(()))), Ok(()));
    assert_eq!(forward_command_outcome(true, true, Some(Err("bind".to_string()))), Err("bind".to_string()));
}

#[test]
fn routes_and_passwords() {
    assert_eq!(jump_route(1, None), Ok(None));
    assert_eq!(jump_route(1, Some(2)), Ok(Some(2)));
    assert_eq!(jump_route(1, Some(1)), Err("tunnel cannot jump through itself".to_string()));
    assert_eq!(password_to_send(Some("pw".to_string())), Ok("pw".to_string()));
    assert_eq!(password_to_send(None), Err("no password stored for this tunnel".to_string()));
}

#[test]
fn bind_error_messages() {
    assert_eq!(socks_bind_error(1080, "address in use"), "failed to bind local SOCKS port 1080: address in use");
    assert_eq!(forward_bind_error(8080, "denied"), "failed to bind local forward port 8080: denied");
}

#[test]
fn connect_all_reports_every_failure() {
    assert_eq!(connect_all_outcome(&vec![]), Ok(()));
    assert_eq!(connect_all_outcome(&vec![("a".to_string(), Ok(()))]), Ok(()));
    let results = vec![
        ("prod".to_string(), Err("tunnel not found".to_string())),
        ("ok".to_string(), Ok(())),
        ("dev".to_string(), Err("jump tunnel chain has a cycle".to_string())),
    ];
    assert_eq!(connect_all_outcome(&results), Err("prod: tunnel not found; dev: jump tunnel chain has a cycle".to_string()));
    assert_eq!(connect_all_outcome(&vec![("x".to_string(), Err("e".to_string()))]), Err("x: e".to_string()));
}

#[test]
fn counting_stream_adds_reads() {
    let counter = Arc::new(AtomicU64::new(0));
    let mut s = CountingStream::new(vec![1u8, 2, 3], counter.clone());
    assert_eq!(s.record_read(0, 3), 3);
    assert_eq!(s.record_read(3, 3), 0);
    assert_eq!(s.record_read(3, 10), 7);
    assert_eq!(counter.load(Ordering::Relaxed), 10);
    s.inner_mut().push(4);
    assert_eq!(s.inner_mut().len(), 4);
}

#[test]
fn counting_stream_counts_into_the_shared_counter() {
    let counter = Arc::new(AtomicU64::new(5));
    let a = CountingStream::new(0u8, counter.clone());
    let b = CountingStream::new(1u8, counter.clone());
    a.record_read(0, 100);
    b.record_read(10, 30);
    assert_eq!(counter.load(Ordering::Relaxed), 125);
}

#[test]
fn agent_offers_public_keys_in_turn() {
    assert_eq!(agent_next_try(&vec![], 0), Err("ssh-agent has no loaded identities".to_string()));
    let kinds = vec![false, true, false, true];
    assert_eq!(agent_next_try(&kinds, 0), Ok(1));
    assert_eq!(agent_next_try(&kinds, 1), Ok(1));
    assert_eq!(agent_next_try(&kinds, 2), Ok(3));
    assert_eq!(agent_next_try(&kinds, 4), Err("ssh-agent did not have a key accepted by the server".to_string()));
    assert_eq!(agent_next_try(&vec![false, false], 0), Err("ssh-agent did not have a key accepted by the server".to_string()));
}

#[test]
fn jump_sessions_and_authentication_outcomes() {
    assert_eq!(jump_session(Some(7u8)), Ok(7));
    assert_eq!(jump_session::<u8>(None), Err("jump tunnel is not connected".to_string()));
    assert_eq!(authentication_outcome(true), Ok(()));
    assert_eq!(authentication_outcome(false), Err("authentication failed".to_string()));
}
