use dropwire::cli::config::{apply_set, relay_line, DropwireConfig, DEFAULT_RELAY};
use dropwire::cli::{code_from_draws, config_action, generate_code, resolve_relay, tcp_relay_address, ConfigAction};
use dropwire::tui::{
    attempt_status, browser_key, dashboard_key, history_key, initial_view, next_drive, palette, receive_key, sort_listing, Browser,
    BrowserAction, BrowserPane, ConfigState, DashboardAction, DirEntry, EnterPlan, Key, ReceiveOutcome,
    ActiveView, SidebarItem, Theme,
};
use dropwire::types::CodePhrase;
use dropwire::wordlist::get_wordlist;

#[test]
fn get_relay_defaults() {
    let c = DropwireConfig::default();
    assert_eq!(c.get_relay(), DEFAULT_RELAY);
    assert_eq!(DEFAULT_RELAY, "ws://relay.dropwire.tyes.dev:9010");
    let c = DropwireConfig { relay: Some("ws://mine:9010".to_string()) };
    assert_eq!(c.get_relay(), "ws://mine:9010");
}

#[test]
fn command_line_relay_wins() {
    let c = DropwireConfig { relay: Some("ws://cfg:9010".to_string()) };
    assert_eq!(resolve_relay(Some("ws://flag:9010".to_string()), &c), "ws://flag:9010");
    assert_eq!(resolve_relay(None, &c), "ws://cfg:9010");
    assert_eq!(resolve_relay(None, &DropwireConfig::default()), DEFAULT_RELAY);
}

#[test]
fn config_set_only_knows_relay() {
    let mut c = DropwireConfig::default();
    assert!(!apply_set(&mut c, "theme", "x".to_string()));
    assert!(c.relay.is_none());
    assert!(apply_set(&mut c, "ReLaY", "ws://new:9010".to_string()));
    assert_eq!(c.relay.as_deref(), Some("ws://new:9010"));
}

#[test]
fn config_show_line() {
    assert_eq!(relay_line(&DropwireConfig::default()), "ws://relay.dropwire.tyes.dev:9010 (default)");
    assert_eq!(relay_line(&DropwireConfig { relay: Some("r".to_string()) }), "r");
}

#[test]
fn config_actions() {
    assert!(matches!(config_action("SHOW", None, None), ConfigAction::Show));
    match config_action("set", Some("relay".to_string()), Some("v".to_string())) {
        ConfigAction::Assign { key, value } => {
            assert_eq!(key, "relay");
            assert_eq!(value, "v");
        }
        _ => panic!("set with key and value"),
    }
    assert!(matches!(config_action("Set", Some("relay".to_string()), None), ConfigAction::MissingArgs));
    assert!(matches!(config_action("delete", None, None), ConfigAction::Unknown));
}

#[test]
fn tcp_relay_from_ws_url() {
    assert_eq!(tcp_relay_address("ws://relay.dropwire.tyes.dev:9010"), "relay.dropwire.tyes.dev:9009");
    assert_eq!(tcp_relay_address("ws://a:9010/ws://b:90100"), "a:9009/b:90090");
    assert_eq!(tcp_relay_address("host:1234"), "host:1234");
}

#[test]
fn generated_codes_are_valid_phrases() {
    for _ in 0..50 {
        let code = generate_code();
        assert!(CodePhrase::new(&code).is_ok(), "{}", code);
    }
}

#[test]
fn code_from_fixed_draws() {
    let list = get_wordlist();
    assert_eq!(code_from_draws(&list, 7, 0, 2047), "7-abandon-zoo");
}

#[test]
fn theme_names_roundtrip() {
    for t in [Theme::Cyberpunk, Theme::Matrix, Theme::Nord, Theme::Monochrome] {
        assert!(Theme::from_str(&t.to_string()) == t);
    }
    assert!(Theme::from_str("MATRIX") == Theme::Matrix);
    assert!(Theme::from_str("solarized") == Theme::Cyberpunk);
    assert_eq!(Theme::Nord.to_string(), "nord");
}

#[test]
fn config_state_defaults() {
    let c = ConfigState::default();
    assert_eq!(c.default_mode, "browser");
    assert_eq!(c.parallel_streams, "4");
    assert_eq!(c.chunk_size_kb, "1024");
    assert_eq!(c.theme, "cyberpunk");
    assert_eq!(c.selected_index, 0);
    assert!(!c.is_editing && !c.no_lan && c.relay.is_empty() && c.download_dir.is_empty());
}

#[test]
fn config_editor_keys() {
    let mut c = ConfigState::default();
    assert!(!c.on_key(Key::Enter));
    assert!(c.is_editing);
    assert!(!c.on_key(Key::Char('w')));
    assert!(!c.on_key(Key::Char('s')));
    assert!(!c.on_key(Key::Backspace));
    assert_eq!(c.relay, "w");
    assert!(!c.on_key(Key::Esc));
    assert!(!c.is_editing);
    c.on_key(Key::Down);
    c.on_key(Key::Enter);
    assert!(c.no_lan);
    c.on_key(Key::Down);
    c.on_key(Key::Down);
    c.on_key(Key::Enter);
    assert_eq!(c.default_mode, "receive");
    for _ in 0..10 {
        c.on_key(Key::Down);
    }
    assert_eq!(c.selected_index, 6);
    c.on_key(Key::Enter);
    assert_eq!(c.theme, "matrix");
    c.theme = "NORD".to_string();
    c.on_key(Key::Enter);
    assert_eq!(c.theme, "monochrome");
    c.on_key(Key::Enter);
    assert_eq!(c.theme, "cyberpunk");
    assert!(c.on_key(Key::Esc));
}

#[test]
fn config_settings_saved() {
    let mut c = ConfigState::default();
    c.download_dir = "   ".to_string();
    c.parallel_streams = "300".to_string();
    let s = c.settings();
    assert!(s.download_dir.is_none());
    assert_eq!(s.parallel_streams, None);
    assert_eq!(s.chunk_size_kb, Some(1024));
    c.download_dir = " /tmp ".to_string();
    c.parallel_streams = "8".to_string();
    let s = c.settings();
    assert_eq!(s.download_dir.as_deref(), Some(" /tmp "));
    assert_eq!(s.parallel_streams, Some(8));
}

#[test]
fn history_scrolling() {
    assert_eq!(history_key(0, 3, Key::Up), (0, false));
    assert_eq!(history_key(0, 3, Key::Down), (1, false));
    assert_eq!(history_key(2, 3, Key::Down), (2, false));
    assert_eq!(history_key(0, 0, Key::Down), (0, false));
    assert_eq!(history_key(1, 3, Key::Char('Q')), (1, true));
}

#[test]
fn receive_input_keys() {
    let mut code = String::new();
    assert!(matches!(receive_key(&mut code, Key::Enter), ReceiveOutcome::Stay));
    for ch in " 7-guitar-abandon ".chars() {
        receive_key(&mut code, Key::Char(ch));
    }
    receive_key(&mut code, Key::Char('x'));
    receive_key(&mut code, Key::Backspace);
    match receive_key(&mut code, Key::Enter) {
        ReceiveOutcome::Start(c) => assert_eq!(c, "7-guitar-abandon"),
        _ => panic!("a typed code starts the receive"),
    }
    assert!(matches!(receive_key(&mut code, Key::Esc), ReceiveOutcome::Back));
}

#[test]
fn browser_and_dashboard_key_maps() {
    assert!(browser_key(Key::Char('q')) == BrowserAction::Quit);
    assert!(browser_key(Key::Char('R')) == BrowserAction::OpenReceive);
    assert!(browser_key(Key::Char(' ')) == BrowserAction::ToggleSelect);
    assert!(browser_key(Key::Tab) == BrowserAction::SwitchPane);
    assert!(browser_key(Key::Char('Q')) == BrowserAction::Quit);
    assert!(matches!(dashboard_key(Key::Char('q')), DashboardAction::Quit));
    assert!(matches!(dashboard_key(Key::Esc), DashboardAction::Cancel));
    assert!(matches!(dashboard_key(Key::Up), DashboardAction::Nothing));
    assert!(matches!(dashboard_key(Key::Char('Q')), DashboardAction::Quit));
}

fn entry(path: &str, name: &str, is_dir: bool) -> DirEntry {
    DirEntry { path: path.to_string(), name: name.to_string(), is_dir }
}

#[test]
fn listing_puts_directories_first_then_names() {
    let sorted = sort_listing(vec![
        entry("/d/b.txt", "b.txt", false),
        entry("/d/zdir", "zdir", true),
        entry("/d/a.txt", "a.txt", false),
        entry("/d/adir", "adir", true),
    ]);
    let names: Vec<&str> = sorted.iter().map(|e| e.name.as_str()).collect();
    assert_eq!(names, vec!["adir", "zdir", "a.txt", "b.txt"]);
}

#[test]
fn browser_navigation_and_selection() {
    let mut b = Browser::new(vec![SidebarItem { name: "Root".to_string(), path: "/".to_string() }]);
    b.refresh(true, vec![entry("/d/f2", "f2", false), entry("/d/sub", "sub", true), entry("/d/f1", "f1", false)]);
    assert_eq!(b.files, vec!["..", "/d/sub", "/d/f1", "/d/f2"]);
    assert_eq!(b.selected_file_index, 0);
    assert!(b.get_selected_path().is_none());
    assert!(matches!(b.browser_enter(), EnterPlan::Parent));
    b.browser_up();
    assert_eq!(b.selected_file_index, 3);
    b.browser_down();
    assert_eq!(b.selected_file_index, 0);
    b.next_file();
    b.previous_file();
    assert_eq!(b.selected_file_index, 0);
    b.select_current();
    assert!(b.selected_files.is_empty());
    b.next_file();
    b.next_file();
    b.select_current();
    assert_eq!(b.selected_files, vec!["/d/f1"]);
    assert_eq!(b.selected_file_index, 3);
    assert_eq!(b.send_paths(), vec!["/d/f1"]);
    b.toggle_selected("/d/f1".to_string());
    assert!(b.selected_files.is_empty());
    assert_eq!(b.send_paths(), vec!["/d/f2"]);
    match b.browser_enter() {
        EnterPlan::Open(p) => assert_eq!(p, "/d/f2"),
        _ => panic!("a file entry is opened"),
    }
    b.switch_pane();
    assert!(b.pane == BrowserPane::Sidebar);
    match b.browser_enter() {
        EnterPlan::Jump(p) => assert_eq!(p, "/"),
        _ => panic!("the sidebar jumps"),
    }
    assert!(b.pane == BrowserPane::FileList);
}

#[test]
fn drive_cycling() {
    let drives = vec!["C:\\".to_string(), "D:\\".to_string()];
    assert_eq!(next_drive(&drives, "c:\\"), 1);
    assert_eq!(next_drive(&drives, "D:\\"), 0);
    assert_eq!(next_drive(&drives, "E:\\"), 0);
    assert_eq!(next_drive(&vec!["/".to_string()], "/"), 0);
}

#[test]
fn task_status_lines() {
    assert_eq!(attempt_status(true, 0), "Waiting for peer to connect...");
    assert_eq!(attempt_status(false, 0), "Connecting to peer...");
    assert_eq!(attempt_status(true, 3), "\u{26a0} Connection lost. Reconnecting... (Attempt 3)");
}

#[test]
fn theme_palettes_follow_the_theme_table() {
    assert_eq!(palette(Theme::Cyberpunk).primary, (0xFF, 0xB8, 0x00));
    assert_eq!(palette(Theme::Cyberpunk).secondary, (0xAA, 0x90, 0xB3));
    assert_eq!(palette(Theme::Matrix).primary, (0x00, 0xFF, 0x00));
    assert_eq!(palette(Theme::Matrix).secondary, (0x00, 0x96, 0x00));
    assert_eq!(palette(Theme::Nord).primary, (0x88, 0xC0, 0xD0));
    assert_eq!(palette(Theme::Nord).secondary, (0x81, 0xA1, 0xC1));
    assert_eq!(palette(Theme::Monochrome).primary, (0xFF, 0xFF, 0xFF));
    assert_eq!(palette(Theme::Monochrome).secondary, (0xCC, 0xCC, 0xCC));
}

#[test]
fn start_screen_follows_the_configured_mode() {
    assert!(initial_view("receive") == ActiveView::ReceiveInput);
    assert!(initial_view("browser") == ActiveView::FileBrowser);
    assert!(initial_view("Receive") == ActiveView::FileBrowser);
}
