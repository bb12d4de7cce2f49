use trisig::corner::Corner;
use trisig::menu::{menu_command, AddressKind, MenuCommand, MenuOutcome};
use trisig::server::ServerInfo;
use trisig::settings::{Config, Opacity, OPAQUE_BITS};
use trisig::state::AppState;

#[test]
fn default_config() {
    let c = Config::default();
    assert_eq!(c.corner, "top-right");
    assert_eq!(c.monitor_index, None);
    assert_eq!(c.transparency, Opacity { bits: 1.0f64.to_bits() });
    assert_eq!(OPAQUE_BITS, 1.0f64.to_bits());
    assert!(!c.muted);
}

#[test]
fn first_start_uses_largest_display_top_right() {
    let s = AppState::from_config(&Config::default(), &vec![(1280, 800), (3840, 2160)]);
    assert_eq!(s.corner, Corner::TopRight);
    assert_eq!(s.monitor_index, 1);
    assert!(!s.muted);
    assert!(s.server_info.is_none());
}

#[test]
fn settings_round_trip() {
    let s = AppState {
        corner: Corner::BottomLeft,
        monitor_index: 1,
        server_info: None,
        transparency: Opacity { bits: 0.4f64.to_bits() },
        muted: true,
    };
    let c = s.to_config();
    assert_eq!(c.corner, "bottom-left");
    assert_eq!(c.monitor_index, Some(1));
    let t = AppState::from_config(&c, &vec![(100, 100), (50, 50)]);
    assert_eq!(t.corner, Corner::BottomLeft);
    assert_eq!(t.monitor_index, 1);
    assert_eq!(t.transparency, s.transparency);
    assert!(t.muted);
}

#[test]
fn unknown_stored_corner_starts_top_right() {
    let c = Config { corner: "centre".to_string(), monitor_index: Some(7), transparency: Opacity::opaque(), muted: false };
    let t = AppState::from_config(&c, &vec![(10, 10), (20, 20), (20, 20)]);
    assert_eq!(t.corner, Corner::TopRight);
    assert_eq!(t.monitor_index, 2);
}

#[test]
fn snapshot_reports_transparency_and_sound() {
    let s = AppState { corner: Corner::TopLeft, monitor_index: 0, server_info: None, transparency: Opacity { bits: 7 }, muted: true };
    let r = s.snapshot();
    assert_eq!(r.transparency, Opacity { bits: 7 });
    assert!(r.muted);
}

#[test]
fn menu_ids_are_decoded() {
    assert!(matches!(menu_command("quit"), MenuCommand::Quit));
    assert!(matches!(menu_command("mute:toggle"), MenuCommand::ToggleMute));
    assert!(matches!(menu_command("monitor:2"), MenuCommand::SelectMonitor(2)));
    assert!(matches!(menu_command("monitor:+2"), MenuCommand::SelectMonitor(2)));
    assert!(matches!(menu_command("monitor:x"), MenuCommand::Ignore));
    assert!(matches!(menu_command("info:lan"), MenuCommand::CopyAddress(AddressKind::Lan)));
    assert!(matches!(menu_command("info:local"), MenuCommand::CopyAddress(AddressKind::Local)));
    assert!(matches!(menu_command("info:down"), MenuCommand::Ignore));
    assert!(matches!(menu_command("transparency:0.8"), MenuCommand::SetTransparency(ref t) if t == "0.8"));
    assert!(matches!(menu_command("corner:bottom-right"), MenuCommand::MoveTo(Corner::BottomRight)));
    assert!(matches!(menu_command("corner:middle"), MenuCommand::Ignore));
    assert!(matches!(menu_command("quit "), MenuCommand::Ignore));
    assert!(matches!(menu_command(""), MenuCommand::Ignore));
}

#[test]
fn menu_ids_built_by_library_decode() {
    for c in Corner::all() {
        assert!(matches!(menu_command(&c.menu_id()), MenuCommand::MoveTo(k) if k == c));
    }
    for i in [0usize, 1, 9, 10, 123] {
        let id = trisig::monitor::monitor_item_id(i);
        assert!(matches!(menu_command(&id), MenuCommand::SelectMonitor(n) if n == i));
    }
}

fn state(info: Option<ServerInfo>) -> AppState {
    AppState { corner: Corner::TopRight, monitor_index: 0, server_info: info, transparency: Opacity::opaque(), muted: false }
}

#[test]
fn menu_outcomes() {
    let mut s = state(None);
    assert!(matches!(s.apply_menu(MenuCommand::Quit), MenuOutcome::Exit));
    assert!(matches!(s.apply_menu(MenuCommand::ToggleMute), MenuOutcome::MuteChanged(true)));
    assert!(s.muted);
    assert!(matches!(s.apply_menu(MenuCommand::ToggleMute), MenuOutcome::MuteChanged(false)));
    assert!(!s.muted);
    assert!(matches!(s.apply_menu(MenuCommand::SelectMonitor(3)), MenuOutcome::Relayout));
    assert_eq!(s.monitor_index, 3);
    assert!(matches!(s.apply_menu(MenuCommand::MoveTo(Corner::BottomLeft)), MenuOutcome::Relayout));
    assert_eq!(s.corner, Corner::BottomLeft);
    assert!(matches!(s.apply_menu(MenuCommand::CopyAddress(AddressKind::Lan)), MenuOutcome::Nothing));
    assert!(matches!(s.apply_menu(MenuCommand::SetTransparency("0.6".to_string())), MenuOutcome::TransparencyText(ref t) if t == "0.6"));
    assert!(matches!(s.apply_menu(MenuCommand::Ignore), MenuOutcome::Nothing));
}

#[test]
fn copy_address_outcomes() {
    let mut s = state(Some(ServerInfo::new(53789, Some("10.0.0.5".to_string()))));
    match s.apply_menu(MenuCommand::CopyAddress(AddressKind::Lan)) {
        MenuOutcome::CopyToClipboard(url) => assert_eq!(url, "http://10.0.0.5:53789"),
        other => panic!("unexpected {:?}", other),
    }
    match s.apply_menu(MenuCommand::CopyAddress(AddressKind::Local)) {
        MenuOutcome::CopyToClipboard(url) => assert_eq!(url, "http://127.0.0.1:53789"),
        other => panic!("unexpected {:?}", other),
    }
}
