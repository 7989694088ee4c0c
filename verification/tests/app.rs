use awsm::app::{
    effect_of, global_action, handle_normal_key, profile_picker_action, read_command,
    region_or_default, Action, App, Command, KeyRoute, Screen, ViewEffect,
};
use awsm::error::AwsmError;
use awsm::input::{KeyCode, KeyEvent, KeyModifiers};
use awsm::keys::{Focus, Mode, Service};
use awsm::ui::statusbar::StatusBar;
use awsm::profiles::{config_line_profile, credentials_line_profile, parse_profiles};

fn no_mods() -> KeyModifiers {
    KeyModifiers { shift: false, control: false, alt: false, super_key: false, hyper: false, meta: false }
}

fn key(code: KeyCode) -> KeyEvent {
    KeyEvent { code, modifiers: no_mods() }
}

fn ch(c: char) -> KeyEvent {
    key(KeyCode::Char(c))
}

fn ctrl(c: char) -> KeyEvent {
    let mut m = no_mods();
    m.control = true;
    KeyEvent { code: KeyCode::Char(c), modifiers: m }
}

fn names(v: &[&str]) -> Vec<String> {
    v.iter().map(|s| s.to_string()).collect()
}

#[test]
fn new_app_with_env_profile_starts_on_main() {
    let app = App::new(names(&["a", "b"]), Some("work".to_string()));
    assert_eq!(app.screen, Screen::Main);
    assert_eq!(app.profile, "work");
    assert!(app.running);
    assert_eq!(app.mode, Mode::Normal);
    assert_eq!(app.active_service, Service::S3);
    assert_eq!(app.focus, Focus::Sidebar);
    assert!(app.show_sidebar);
    assert!(!app.show_help);
    assert!(app.region.is_empty());
}

#[test]
fn new_app_with_one_profile_uses_it() {
    let app = App::new(names(&["only"]), None);
    assert_eq!(app.screen, Screen::Main);
    assert_eq!(app.profile, "only");
}

#[test]
fn new_app_without_profiles_uses_default() {
    let app = App::new(Vec::new(), None);
    assert_eq!(app.screen, Screen::Main);
    assert_eq!(app.profile, "default");
}

#[test]
fn new_app_with_several_profiles_opens_picker() {
    let app = App::new(names(&["a", "b", "c"]), None);
    assert_eq!(app.screen, Screen::ProfilePicker);
    assert_eq!(app.profile, "");
}

#[test]
fn profile_picker_moves_and_picks() {
    let mut app = App::new(names(&["a", "b", "c"]), None);
    app.update(profile_picker_action(&ch('j')));
    app.update(profile_picker_action(&key(KeyCode::Down)));
    app.update(profile_picker_action(&ch('j')));
    assert_eq!(app.profile_selected, 2);
    app.update(profile_picker_action(&ch('k')));
    assert_eq!(app.profile_selected, 1);
    app.update(profile_picker_action(&key(KeyCode::Enter)));
    assert_eq!(app.screen, Screen::Main);
    assert_eq!(app.profile, "b");
}

#[test]
fn profile_picker_quit_keys() {
    assert_eq!(profile_picker_action(&ch('q')), Action::Quit);
    assert_eq!(profile_picker_action(&ctrl('c')), Action::Quit);
    assert_eq!(profile_picker_action(&ch('x')), Action::NoOp);
}

#[test]
fn toggles_twice_restore_state() {
    let mut app = App::new(Vec::new(), None);
    app.update(Action::ToggleHelp);
    assert!(app.show_help);
    app.update(Action::ToggleHelp);
    assert!(!app.show_help);
    app.update(Action::ToggleFocus);
    assert_eq!(app.focus, Focus::Main);
    app.update(Action::ToggleFocus);
    assert_eq!(app.focus, Focus::Sidebar);
}

#[test]
fn hiding_sidebar_moves_focus_to_main() {
    let mut app = App::new(Vec::new(), None);
    assert_eq!(app.focus, Focus::Sidebar);
    app.update(Action::ToggleSidebar);
    assert!(!app.show_sidebar);
    assert_eq!(app.focus, Focus::Main);
    app.update(Action::ToggleSidebar);
    assert!(app.show_sidebar);
    assert_eq!(app.focus, Focus::Main);
}

#[test]
fn sidebar_selects_service() {
    let mut app = App::new(Vec::new(), None);
    app.update(Action::SidebarUp);
    assert_eq!(app.sidebar.selected, 0);
    app.update(Action::SidebarDown);
    app.update(Action::SidebarDown);
    app.update(Action::SelectService);
    assert_eq!(app.active_service, Service::Lambda);
    assert_eq!(app.focus, Focus::Main);
    for _ in 0..10 {
        app.update(Action::SidebarDown);
    }
    assert_eq!(app.sidebar.selected, 4);
    assert_eq!(app.sidebar.selected_service(), Some(Service::SecretsManager));
}

#[test]
fn quit_stops_the_app() {
    let mut app = App::new(Vec::new(), None);
    app.update(Action::Quit);
    assert!(!app.running);
}

#[test]
fn global_keys() {
    assert_eq!(global_action(&ctrl('c')), Some(Action::Quit));
    assert_eq!(global_action(&ch('?')), Some(Action::ToggleHelp));
    assert_eq!(global_action(&key(KeyCode::Tab)), Some(Action::ToggleFocus));
    assert_eq!(global_action(&ctrl('b')), Some(Action::ToggleSidebar));
    assert_eq!(global_action(&ch(':')), Some(Action::SetMode(Mode::Command)));
    assert_eq!(global_action(&ch('c')), None);
    assert_eq!(global_action(&ch('j')), None);
}

#[test]
fn normal_keys_depend_on_focus() {
    assert_eq!(handle_normal_key(&ch('j'), Focus::Sidebar), Action::SidebarDown);
    assert_eq!(handle_normal_key(&ch('j'), Focus::Main), Action::NoOp);
    assert_eq!(handle_normal_key(&key(KeyCode::Up), Focus::Sidebar), Action::SidebarUp);
    assert_eq!(handle_normal_key(&key(KeyCode::Enter), Focus::Sidebar), Action::SelectService);
    assert_eq!(handle_normal_key(&key(KeyCode::Esc), Focus::Main), Action::SetFocus(Focus::Sidebar));
    assert_eq!(handle_normal_key(&ctrl('c'), Focus::Main), Action::Quit);
}

#[test]
fn route_key_order() {
    let mut app = App::new(Vec::new(), None);
    assert_eq!(app.route_key(&ch('?')), KeyRoute::Global(Action::ToggleHelp));
    assert_eq!(app.route_key(&ch('j')), KeyRoute::Normal);
    app.focus = Focus::Main;
    assert_eq!(app.route_key(&ch('j')), KeyRoute::View);
    app.show_help = true;
    assert_eq!(app.route_key(&ch('j')), KeyRoute::Help);
    app.mode = Mode::Command;
    assert_eq!(app.route_key(&ch('j')), KeyRoute::Command);
}

#[test]
fn route_key_overlay_takes_global_keys() {
    let mut app = App::new(Vec::new(), None);
    app.focus = Focus::Main;
    app.active_service = Service::DynamoDB;
    app.dynamodb_view.index_picker_open = true;
    assert!(app.overlay_open());
    assert_eq!(app.route_key(&ch('?')), KeyRoute::View);
    app.active_service = Service::S3;
    assert!(!app.overlay_open());
    assert_eq!(app.route_key(&ch('?')), KeyRoute::Global(Action::ToggleHelp));
}

#[test]
fn help_key_scrolls_and_closes() {
    let mut app = App::new(Vec::new(), None);
    app.update(Action::ToggleHelp);
    app.help_key(&ch('j'));
    app.help_key(&ch('j'));
    assert_eq!(app.help_scroll, 2);
    app.help_key(&ch('k'));
    assert_eq!(app.help_scroll, 1);
    app.help_key(&key(KeyCode::Esc));
    assert!(!app.show_help);
}

#[test]
fn view_effects() {
    assert_eq!(effect_of(Service::S3, Action::ServiceEnter), ViewEffect::S3Enter);
    assert_eq!(effect_of(Service::DynamoDB, Action::DdbRunQuery), ViewEffect::DdbRunQuery);
    assert_eq!(effect_of(Service::CloudWatch, Action::Refresh), ViewEffect::CwRefresh);
    assert_eq!(effect_of(Service::Lambda, Action::ServiceBack), ViewEffect::Nothing);
    assert_eq!(effect_of(Service::Lambda, Action::NoOp), ViewEffect::Update(Action::NoOp));
    assert_eq!(effect_of(Service::S3, Action::Quit), ViewEffect::Update(Action::Quit));
}

#[test]
fn read_commands() {
    assert!(matches!(read_command("q"), Command::Quit));
    assert!(matches!(read_command("  quit "), Command::Quit));
    match read_command("region eu-west-1") {
        Command::Region(r) => assert_eq!(r, "eu-west-1"),
        other => panic!("unexpected {:?}", other),
    }
    match read_command("profile  dev ") {
        Command::Profile(p) => assert_eq!(p, "dev"),
        other => panic!("unexpected {:?}", other),
    }
    assert!(matches!(read_command("region   "), Command::Unknown));
    assert!(matches!(read_command("regionx"), Command::Unknown));
    assert!(matches!(read_command(""), Command::Unknown));
}

#[test]
fn command_line_typing_and_running() {
    let mut app = App::new(Vec::new(), None);
    app.update(Action::SetMode(Mode::Command));
    for c in "region us-west-2".chars() {
        assert!(matches!(app.command_key(&ch(c)), Command::Pending));
    }
    assert_eq!(app.command_input, "region us-west-2");
    app.command_key(&key(KeyCode::Backspace));
    assert_eq!(app.command_input, "region us-west-");
    app.command_key(&ch('1'));
    let c = app.command_key(&key(KeyCode::Enter));
    assert!(matches!(c, Command::Region(_)));
    assert_eq!(app.region, "us-west-1");
    assert_eq!(app.mode, Mode::Normal);
    assert!(app.command_input.is_empty());
    assert!(app.running);
}

#[test]
fn command_line_quit_and_escape() {
    let mut app = App::new(Vec::new(), None);
    app.update(Action::SetMode(Mode::Command));
    app.command_key(&ch('x'));
    app.command_key(&key(KeyCode::Esc));
    assert_eq!(app.mode, Mode::Normal);
    assert!(app.command_input.is_empty());
    app.update(Action::SetMode(Mode::Command));
    app.command_key(&key(KeyCode::Backspace));
    assert_eq!(app.mode, Mode::Normal);
    app.update(Action::SetMode(Mode::Command));
    app.command_key(&ch('q'));
    assert!(matches!(app.command_key(&key(KeyCode::Enter)), Command::Quit));
    assert!(!app.running);
}

#[test]
fn status_labels_and_region() {
    assert_eq!(StatusBar::mode_label(true, Mode::Normal), " INSERT ");
    assert_eq!(StatusBar::mode_label(false, Mode::Normal), " NORMAL ");
    assert_eq!(StatusBar::mode_label(false, Mode::Command), " COMMAND ");
    assert_eq!(StatusBar::region_display(""), "no region");
    assert_eq!(StatusBar::region_display("eu-central-1"), "eu-central-1");
    assert_eq!(region_or_default(None), "us-east-1");
    assert_eq!(region_or_default(Some("ap-south-1".to_string())), "ap-south-1");
}

#[test]
fn set_connected_clears_error() {
    let mut app = App::new(Vec::new(), None);
    app.aws_error = Some("boom".to_string());
    app.set_connected("eu-west-2".to_string());
    assert_eq!(app.region, "eu-west-2");
    assert!(app.aws_error.is_none());
}

#[test]
fn error_messages() {
    assert_eq!(AwsmError::Io("disk".to_string()).message(), "IO error: disk");
    assert_eq!(AwsmError::Terminal("tty".to_string()).message(), "Terminal error: tty");
    assert_eq!(AwsmError::Aws("denied".to_string()).message(), "AWS error: denied");
}

#[test]
fn profile_lines() {
    assert_eq!(config_line_profile("[profile dev]"), Some("dev".to_string()));
    assert_eq!(config_line_profile("  [default]  "), Some("default".to_string()));
    assert_eq!(config_line_profile("[dev]"), None);
    assert_eq!(config_line_profile("region = us-east-1"), None);
    assert_eq!(credentials_line_profile("[prod]"), Some("prod".to_string()));
    assert_eq!(credentials_line_profile("aws_access_key_id = x"), None);
}

#[test]
fn profiles_are_sorted_and_unique() {
    let config = "[default]\nregion = us-east-1\n[profile zeta]\n[profile alpha]\n";
    let credentials = "[default]\naws_access_key_id = x\n[beta]\n";
    let r = parse_profiles(Some(config), Some(credentials));
    assert_eq!(r, names(&["alpha", "beta", "default", "zeta"]));
    assert!(parse_profiles(None, None).is_empty());
    assert_eq!(parse_profiles(None, Some("[one]")), names(&["one"]));
}

#[test]
fn profile_cursor_stays_on_the_list() {
    let mut app = App::new(names(&["a", "b"]), None);
    app.update(Action::ProfileUp);
    assert_eq!(app.profile_selected, 0);
    app.update(Action::ProfileDown);
    app.update(Action::ProfileDown);
    app.update(Action::ProfileDown);
    assert_eq!(app.profile_selected, 1);
    app.update(Action::ProfileSelect);
    assert_eq!(app.profile, "b");
    assert_eq!(app.screen, Screen::Main);
}
