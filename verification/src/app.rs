//! The application state, the actions that change it, and which part of
//! the application a key goes to.
use vstd::prelude::*;
use crate::input::{is_char, is_down, is_up, only_control, KeyCode, KeyEvent};
use crate::keys::{Focus, Mode, Service};
use crate::nav::{sat_add_u16, sat_sub_u16};
use crate::text::{copy_string, owned, pop_char, push_char, str_eq, trim_str, trimmed};
use crate::ui::services::cloudwatch::CloudWatchView;
use crate::ui::services::dynamodb::DynamoDbView;
use crate::ui::services::lambda::LambdaView;
use crate::ui::services::s3::S3View;
use crate::ui::services::secrets::SecretsManagerView;
use crate::ui::sidebar::Sidebar;

verus! {

/// What a key asks the application to do.
#[derive(Debug, Clone, Copy, PartialEq, Eq, Structural)]
pub enum Action {
    Quit,
    SwitchService(Service),
    SetMode(Mode),
    SetFocus(Focus),
    ToggleFocus,
    SidebarUp,
    SidebarDown,
    SelectService,
    ToggleHelp,
    ProfileUp,
    ProfileDown,
    ProfileSelect,
    ServiceEnter,
    ServiceBack,
    S3Download,
    S3CopyUri,
    S3CopyArn,
    DdbNextPage,
    DdbSwitchIndex,
    DdbRunQuery,
    ToggleSidebar,
    Refresh,
    CwLoadEvents,
    CwNextPage,
    CwRefresh,
    CwRunSearch,
    CwRunInsights,
    CwSearchNextPage,
    /// Nothing to do (the key was used, or ignored).
    NoOp,
}

/// The top-level screen.
#[derive(Debug, Clone, Copy, PartialEq, Eq, Structural)]
pub enum Screen {
    ProfilePicker,
    Main,
}

/// The state of the application: the screen, the mode, the service shown,
/// the focus, the help and the sidebar, the connection (region, profile,
/// error), the profile picker, the command being typed, and the views of
/// the services.
#[derive(Debug)]
pub struct App {
    pub running: bool,
    pub screen: Screen,
    pub mode: Mode,
    pub active_service: Service,
    pub focus: Focus,
    pub sidebar: Sidebar,
    pub show_help: bool,
    pub help_scroll: u16,
    pub show_sidebar: bool,
    pub aws_error: Option<String>,
    pub region: String,
    pub profile: String,
    pub available_profiles: Vec<String>,
    pub profile_selected: usize,
    pub s3_view: S3View,
    pub dynamodb_view: DynamoDbView,
    pub lambda_view: LambdaView,
    pub cloudwatch_view: CloudWatchView,
    pub secrets_view: SecretsManagerView,
    pub command_input: String,
}

/// The application state but the sidebar and the views.
pub ghost struct AppState {
    pub running: bool,
    pub screen: Screen,
    pub mode: Mode,
    pub active_service: Service,
    pub focus: Focus,
    pub show_help: bool,
    pub help_scroll: u16,
    pub show_sidebar: bool,
    pub aws_error: Option<String>,
    pub region: Seq<char>,
    pub profile: Seq<char>,
    pub profile_selected: usize,
    pub command_input: Seq<char>,
}

/// The screen and profile the application starts with: the profile named
/// by the environment, else the only profile found, else `default` when
/// none is found (all on the main screen); with several profiles and none
/// named, the profile picker.
pub open spec fn start_choice(profiles: Seq<Seq<char>>, env_profile: Option<Seq<char>>) -> (Screen, Seq<char>) {
    match env_profile {
        Some(p) => (Screen::Main, p),
        None => if profiles.len() == 1 {
            (Screen::Main, profiles[0])
        } else if profiles.len() == 0 {
            (Screen::Main, "default"@)
        } else {
            (Screen::ProfilePicker, Seq::empty())
        },
    }
}

/// The state after an action. Actions for a service view leave it as it
/// is.
pub open spec fn update_step(m: AppState, a: Action, profiles: Seq<Seq<char>>, sidebar_pick: Option<Service>) -> AppState {
    match a {
        Action::Quit => AppState { running: false, ..m },
        Action::SwitchService(s) => AppState { active_service: s, ..m },
        Action::SetMode(md) => AppState { mode: md, ..m },
        Action::SetFocus(f) => AppState { focus: f, ..m },
        Action::ToggleFocus => AppState {
            focus: if m.focus == Focus::Sidebar { Focus::Main } else { Focus::Sidebar },
            ..m
        },
        Action::SelectService => match sidebar_pick {
            Some(s) => AppState { active_service: s, focus: Focus::Main, ..m },
            None => m,
        },
        Action::ToggleHelp => AppState {
            show_help: !m.show_help,
            help_scroll: if !m.show_help { 0 } else { m.help_scroll },
            ..m
        },
        Action::ToggleSidebar => AppState {
            show_sidebar: !m.show_sidebar,
            focus: if m.show_sidebar { Focus::Main } else { m.focus },
            ..m
        },
        Action::ProfileUp => AppState {
            profile_selected: if m.profile_selected > 0 { (m.profile_selected - 1) as usize } else { m.profile_selected },
            ..m
        },
        Action::ProfileDown => AppState {
            profile_selected: if m.profile_selected + 1 < profiles.len() {
                (m.profile_selected + 1) as usize
            } else {
                m.profile_selected
            },
            ..m
        },
        Action::ProfileSelect => if m.profile_selected < profiles.len() {
            AppState { profile: profiles[m.profile_selected as int], screen: Screen::Main, ..m }
        } else {
            m
        },
        _ => m,
    }
}

/// The texts of a list of strings.
pub open spec fn names_of(v: Seq<String>) -> Seq<Seq<char>> {
    v.map_values(|s: String| s@)
}

impl App {
    /// The state but the sidebar and the views.
    pub open spec fn state(self) -> AppState {
        AppState {
            running: self.running,
            screen: self.screen,
            mode: self.mode,
            active_service: self.active_service,
            focus: self.focus,
            show_help: self.show_help,
            help_scroll: self.help_scroll,
            show_sidebar: self.show_sidebar,
            aws_error: self.aws_error,
            region: self.region@,
            profile: self.profile@,
            profile_selected: self.profile_selected,
            command_input: self.command_input@,
        }
    }

    /// The sidebar, the profiles and the views are as they were.
    pub open spec fn same_parts(self, other: App) -> bool {
        &&& self.sidebar == other.sidebar
        &&& self.available_profiles == other.available_profiles
        &&& self.s3_view == other.s3_view
        &&& self.dynamodb_view == other.dynamodb_view
        &&& self.lambda_view == other.lambda_view
        &&& self.cloudwatch_view == other.cloudwatch_view
        &&& self.secrets_view == other.secrets_view
    }

    /// The service the sidebar cursor is on, if any.
    pub open spec fn sidebar_pick(self) -> Option<Service> {
        if self.sidebar.selected < self.sidebar.services@.len() {
            Some(self.sidebar.services@[self.sidebar.selected as int])
        } else {
            None
        }
    }

    /// A new application with the profiles found and the profile named by
    /// the environment, if any (see `start_choice`): running, normal mode,
    /// S3 shown, focus on the sidebar, sidebar shown, no help, no region
    /// yet, fresh views.
    pub fn new(profiles: Vec<String>, env_profile: Option<String>) -> (app: App)
        ensures
            (app.screen, app.profile@) == start_choice(
                names_of(profiles@),
                match env_profile {
                    Some(p) => Some(p@),
                    None => None,
                },
            ),
            app.available_profiles == profiles,
            app.running,
            app.mode == Mode::Normal,
            app.active_service == Service::S3,
            app.focus == Focus::Sidebar,
            app.sidebar.selected == 0,
            !app.show_help && app.help_scroll == 0 && app.show_sidebar,
            app.aws_error is None,
            app.region@.len() == 0,
            app.profile_selected == 0,
            app.command_input@.len() == 0,
    {
        let (screen, profile) = match env_profile {
            Some(p) => (Screen::Main, p),
            None => if profiles.len() == 1 {
                (Screen::Main, copy_string(&profiles[0]))
            } else if profiles.len() == 0 {
                (Screen::Main, owned("default"))
            } else {
                (Screen::ProfilePicker, String::new())
            },
        };
        App {
            running: true,
            screen,
            mode: Mode::default(),
            active_service: Service::default(),
            focus: Focus::default(),
            sidebar: Sidebar::default(),
            show_help: false,
            help_scroll: 0,
            show_sidebar: true,
            aws_error: None,
            region: String::new(),
            profile,
            available_profiles: profiles,
            profile_selected: 0,
            s3_view: S3View::default(),
            dynamodb_view: DynamoDbView::default(),
            lambda_view: LambdaView::default(),
            cloudwatch_view: CloudWatchView::default(),
            secrets_view: SecretsManagerView::default(),
            command_input: String::new(),
        }
    }

    /// The connection to AWS is made: the region it uses, no error.
    pub fn set_connected(&mut self, region: String)
        ensures
            final(self).same_parts(*old(self)),
            final(self).state() == (AppState { region: region@, aws_error: None, ..old(self).state() }),
    {
        self.region = region;
        self.aws_error = None;
    }

    /// Stops the application.
    pub fn quit(&mut self)
        ensures
            final(self).same_parts(*old(self)),
            final(self).state() == (AppState { running: false, ..old(self).state() }),
    {
        self.running = false;
    }

    fn toggle_focus(f: Focus) -> (r: Focus)
        ensures
            r == (if f == Focus::Sidebar { Focus::Main } else { Focus::Sidebar }),
    {
        match f {
            Focus::Sidebar => Focus::Main,
            Focus::Main => Focus::Sidebar,
        }
    }

    /// The sidebar cursor after an action.
    pub open spec fn sidebar_after(self, a: Action) -> usize {
        match a {
            Action::SidebarUp => if self.sidebar.selected > 0 {
                (self.sidebar.selected - 1) as usize
            } else {
                self.sidebar.selected
            },
            Action::SidebarDown => if self.sidebar.selected + 1 < self.sidebar.services@.len() {
                (self.sidebar.selected + 1) as usize
            } else {
                self.sidebar.selected
            },
            _ => self.sidebar.selected,
        }
    }

    /// The whole effect of an action on the application.
    pub open spec fn updated_by(self, v: App, a: Action) -> bool {
        &&& v.available_profiles == self.available_profiles
        &&& v.s3_view == self.s3_view
        &&& v.dynamodb_view == self.dynamodb_view
        &&& v.lambda_view == self.lambda_view
        &&& v.cloudwatch_view == self.cloudwatch_view
        &&& v.secrets_view == self.secrets_view
        &&& v.state() == update_step(self.state(), a, names_of(self.available_profiles@), self.sidebar_pick())
        &&& v.sidebar.services == self.sidebar.services
        &&& v.sidebar.selected == self.sidebar_after(a)
    }

    fn ui_update(self, action: Action) -> (v: App)
        requires
            action is Quit || action is SwitchService || action is SetMode || action is SetFocus
                || action is ToggleFocus || action is ToggleHelp || action is ToggleSidebar,
        ensures
            self.updated_by(v, action),
    {
        let mut v = self;
        match action {
            Action::Quit => v.running = false,
            Action::SwitchService(s) => v.active_service = s,
            Action::SetMode(m) => v.mode = m,
            Action::SetFocus(f) => v.focus = f,
            Action::ToggleFocus => v.focus = Self::toggle_focus(v.focus),
            Action::ToggleHelp => {
                let shown = !v.show_help;
                v.show_help = shown;
                v.help_scroll = if shown { 0 } else { v.help_scroll };
            },
            _ => {
                let shown = !v.show_sidebar;
                v.show_sidebar = shown;
                v.focus = if !shown { Focus::Main } else { v.focus };
            },
        }
        v
    }

    fn select_update(self) -> (v: App)
        ensures
            self.updated_by(v, Action::SelectService),
    {
        let pick = self.sidebar.selected_service();
        let mut v = self;
        match pick {
            Some(s) => {
                v.active_service = s;
                v.focus = Focus::Main;
            },
            None => {},
        }
        v
    }

    fn profile_update(self, action: Action) -> (v: App)
        requires
            action is ProfileUp || action is ProfileDown || action is ProfileSelect,
        ensures
            self.updated_by(v, action),
    {
        let n = self.available_profiles.len();
        let sel = self.profile_selected;
        let mut v = self;
        match action {
            Action::ProfileUp => v.profile_selected = if sel > 0 { sel - 1 } else { sel },
            Action::ProfileDown => v.profile_selected = if sel < n && n - sel > 1 { sel + 1 } else { sel },
            _ => {
                if sel < n {
                    let p = copy_string(&v.available_profiles[sel]);
                    proof {
                        assert(names_of(v.available_profiles@)[sel as int] == p@);
                    }
                    v.profile = p;
                    v.screen = Screen::Main;
                }
            },
        }
        v
    }

    fn sidebar_update(self, action: Action) -> (v: App)
        requires
            action is SidebarUp || action is SidebarDown,
        ensures
            self.updated_by(v, action),
    {
        let mut v = self;
        if action == Action::SidebarUp {
            v.sidebar.move_up();
        } else {
            v.sidebar.move_down();
        }
        v
    }

    /// The application after an action (see `update_step`).
    pub fn updated(self, action: Action) -> (v: App)
        ensures
            self.updated_by(v, action),
    {
        match action {
            Action::Quit | Action::SwitchService(_) | Action::SetMode(_) | Action::SetFocus(_)
            | Action::ToggleFocus | Action::ToggleHelp | Action::ToggleSidebar => self.ui_update(action),
            Action::SelectService => self.select_update(),
            Action::ProfileUp | Action::ProfileDown | Action::ProfileSelect => self.profile_update(action),
            Action::SidebarUp | Action::SidebarDown => self.sidebar_update(action),
            _ => self,
        }
    }

    /// Applies an action (see `update_step`); the sidebar moves on
    /// `SidebarUp` and `SidebarDown`.
    pub fn update(&mut self, action: Action)
        ensures
            old(self).updated_by(*final(self), action),
    {
        let mut current = App::new(Vec::new(), None);
        std::mem::swap(&mut current, self);
        *self = current.updated(action);
    }
}

/// The action of a key on the profile picker: `q` or Ctrl+c quit, `j`/`k`
/// (or the arrows) move, Enter picks.
pub open spec fn picker_action(k: KeyEvent) -> Action {
    if is_char(k, 'q') || (is_char(k, 'c') && only_control(k.modifiers)) {
        Action::Quit
    } else if is_down(k) {
        Action::ProfileDown
    } else if is_up(k) {
        Action::ProfileUp
    } else if k.code == KeyCode::Enter {
        Action::ProfileSelect
    } else {
        Action::NoOp
    }
}

/// The action of a key on the profile picker (see `picker_action`).
pub fn profile_picker_action(key: &KeyEvent) -> (a: Action)
    ensures
        a == picker_action(*key),
{
    if key.char_is('q') || (key.char_is('c') && key.modifiers.is_only_control()) {
        Action::Quit
    } else if key.down() {
        Action::ProfileDown
    } else if key.up() {
        Action::ProfileUp
    } else if key.code == KeyCode::Enter {
        Action::ProfileSelect
    } else {
        Action::NoOp
    }
}

/// The keys every screen knows: Ctrl+c quits, `?` the help, Tab the focus,
/// Ctrl+b the sidebar, `:` the command line.
pub open spec fn global_key(k: KeyEvent) -> Option<Action> {
    if is_char(k, 'c') && only_control(k.modifiers) {
        Some(Action::Quit)
    } else if is_char(k, '?') {
        Some(Action::ToggleHelp)
    } else if k.code == KeyCode::Tab {
        Some(Action::ToggleFocus)
    } else if is_char(k, 'b') && only_control(k.modifiers) {
        Some(Action::ToggleSidebar)
    } else if is_char(k, ':') {
        Some(Action::SetMode(Mode::Command))
    } else {
        None
    }
}

/// The action of a key every screen knows, if it is one (see
/// `global_key`).
pub fn global_action(key: &KeyEvent) -> (a: Option<Action>)
    ensures
        a == global_key(*key),
{
    if key.char_is('c') && key.modifiers.is_only_control() {
        Some(Action::Quit)
    } else if key.char_is('?') {
        Some(Action::ToggleHelp)
    } else if key.code == KeyCode::Tab {
        Some(Action::ToggleFocus)
    } else if key.char_is('b') && key.modifiers.is_only_control() {
        Some(Action::ToggleSidebar)
    } else if key.char_is(':') {
        Some(Action::SetMode(Mode::Command))
    } else {
        None
    }
}

/// The action of a key in normal mode that no view took: the global keys
/// but Ctrl+b and `:`, the sidebar keys when the sidebar has the focus,
/// and Esc, which gives the focus to the sidebar.
pub open spec fn normal_key(k: KeyEvent, focus: Focus) -> Action {
    if is_char(k, 'c') && only_control(k.modifiers) {
        Action::Quit
    } else if is_char(k, '?') {
        Action::ToggleHelp
    } else if k.code == KeyCode::Tab {
        Action::ToggleFocus
    } else if is_down(k) {
        if focus == Focus::Sidebar { Action::SidebarDown } else { Action::NoOp }
    } else if is_up(k) {
        if focus == Focus::Sidebar { Action::SidebarUp } else { Action::NoOp }
    } else if k.code == KeyCode::Enter {
        if focus == Focus::Sidebar { Action::SelectService } else { Action::NoOp }
    } else if k.code == KeyCode::Esc {
        Action::SetFocus(Focus::Sidebar)
    } else {
        Action::NoOp
    }
}

/// The action of a key in normal mode that no view took (see
/// `normal_key`).
pub fn handle_normal_key(key: &KeyEvent, focus: Focus) -> (a: Action)
    ensures
        a == normal_key(*key, focus),
{
    let sidebar = focus == Focus::Sidebar;
    if key.char_is('c') && key.modifiers.is_only_control() {
        Action::Quit
    } else if key.char_is('?') {
        Action::ToggleHelp
    } else if key.code == KeyCode::Tab {
        Action::ToggleFocus
    } else if key.down() {
        if sidebar { Action::SidebarDown } else { Action::NoOp }
    } else if key.up() {
        if sidebar { Action::SidebarUp } else { Action::NoOp }
    } else if key.code == KeyCode::Enter {
        if sidebar { Action::SelectService } else { Action::NoOp }
    } else if key.code == KeyCode::Esc {
        Action::SetFocus(Focus::Sidebar)
    } else {
        Action::NoOp
    }
}

/// Where a key on the main screen goes: the command line, the help, a
/// global action (unless a pop-up of the view is open), the view shown
/// (with the focus on it; what it does not take goes on as a normal key),
/// or straight to the normal keys.
#[derive(Debug, Clone, Copy, PartialEq, Eq, Structural)]
pub enum KeyRoute {
    Command,
    Help,
    Global(Action),
    View,
    Normal,
}

/// Where a key on the main screen goes (see `KeyRoute`).
pub open spec fn key_route(mode: Mode, show_help: bool, overlay_open: bool, focus: Focus, k: KeyEvent) -> KeyRoute {
    if mode == Mode::Command {
        KeyRoute::Command
    } else if show_help {
        KeyRoute::Help
    } else if !overlay_open && global_key(k) is Some {
        KeyRoute::Global(global_key(k)->0)
    } else if focus == Focus::Main {
        KeyRoute::View
    } else {
        KeyRoute::Normal
    }
}

/// What the application does with an action of the view shown.
#[derive(Debug, Clone, Copy, PartialEq, Eq, Structural)]
pub enum ViewEffect {
    S3Enter,
    S3Back,
    S3Download,
    DdbEnter,
    DdbNextPage,
    DdbSwitchIndex,
    DdbRunQuery,
    DdbBack,
    LambdaEnter,
    CwEnter,
    CwLoadEvents,
    CwNextPage,
    CwRefresh,
    CwRunSearch,
    CwRunInsights,
    CwSearchNextPage,
    SecretsEnter,
    /// Nothing more (the view went back by itself).
    Nothing,
    /// An action for the application itself.
    Update(Action),
}

/// What the application does with an action of a view: the loads and
/// calls each view asks for (a reload of the CloudWatch view is its
/// refresh), nothing for the back steps that need no load, else the
/// action updates the application.
pub open spec fn view_effect(s: Service, a: Action) -> ViewEffect {
    match (s, a) {
        (Service::S3, Action::ServiceEnter) => ViewEffect::S3Enter,
        (Service::S3, Action::ServiceBack) => ViewEffect::S3Back,
        (Service::S3, Action::S3Download) => ViewEffect::S3Download,
        (Service::DynamoDB, Action::ServiceEnter) => ViewEffect::DdbEnter,
        (Service::DynamoDB, Action::DdbNextPage) => ViewEffect::DdbNextPage,
        (Service::DynamoDB, Action::DdbSwitchIndex) => ViewEffect::DdbSwitchIndex,
        (Service::DynamoDB, Action::DdbRunQuery) => ViewEffect::DdbRunQuery,
        (Service::DynamoDB, Action::ServiceBack) => ViewEffect::DdbBack,
        (Service::Lambda, Action::ServiceEnter) => ViewEffect::LambdaEnter,
        (Service::Lambda, Action::ServiceBack) => ViewEffect::Nothing,
        (Service::CloudWatch, Action::ServiceEnter) => ViewEffect::CwEnter,
        (Service::CloudWatch, Action::ServiceBack) => ViewEffect::Nothing,
        (Service::CloudWatch, Action::CwLoadEvents) => ViewEffect::CwLoadEvents,
        (Service::CloudWatch, Action::CwNextPage) => ViewEffect::CwNextPage,
        (Service::CloudWatch, Action::CwRefresh) => ViewEffect::CwRefresh,
        (Service::CloudWatch, Action::Refresh) => ViewEffect::CwRefresh,
        (Service::CloudWatch, Action::CwRunSearch) => ViewEffect::CwRunSearch,
        (Service::CloudWatch, Action::CwRunInsights) => ViewEffect::CwRunInsights,
        (Service::CloudWatch, Action::CwSearchNextPage) => ViewEffect::CwSearchNextPage,
        (Service::SecretsManager, Action::ServiceEnter) => ViewEffect::SecretsEnter,
        (Service::SecretsManager, Action::ServiceBack) => ViewEffect::Nothing,
        _ => ViewEffect::Update(a),
    }
}

/// What the application does with an action of a view (see
/// `view_effect`).
pub fn effect_of(s: Service, a: Action) -> (e: ViewEffect)
    ensures
        e == view_effect(s, a),
{
    match (s, a) {
        (Service::S3, Action::ServiceEnter) => ViewEffect::S3Enter,
        (Service::S3, Action::ServiceBack) => ViewEffect::S3Back,
        (Service::S3, Action::S3Download) => ViewEffect::S3Download,
        (Service::DynamoDB, Action::ServiceEnter) => ViewEffect::DdbEnter,
        (Service::DynamoDB, Action::DdbNextPage) => ViewEffect::DdbNextPage,
        (Service::DynamoDB, Action::DdbSwitchIndex) => ViewEffect::DdbSwitchIndex,
        (Service::DynamoDB, Action::DdbRunQuery) => ViewEffect::DdbRunQuery,
        (Service::DynamoDB, Action::ServiceBack) => ViewEffect::DdbBack,
        (Service::Lambda, Action::ServiceEnter) => ViewEffect::LambdaEnter,
        (Service::Lambda, Action::ServiceBack) => ViewEffect::Nothing,
        (Service::CloudWatch, Action::ServiceEnter) => ViewEffect::CwEnter,
        (Service::CloudWatch, Action::ServiceBack) => ViewEffect::Nothing,
        (Service::CloudWatch, Action::CwLoadEvents) => ViewEffect::CwLoadEvents,
        (Service::CloudWatch, Action::CwNextPage) => ViewEffect::CwNextPage,
        (Service::CloudWatch, Action::CwRefresh) => ViewEffect::CwRefresh,
        (Service::CloudWatch, Action::Refresh) => ViewEffect::CwRefresh,
        (Service::CloudWatch, Action::CwRunSearch) => ViewEffect::CwRunSearch,
        (Service::CloudWatch, Action::CwRunInsights) => ViewEffect::CwRunInsights,
        (Service::CloudWatch, Action::CwSearchNextPage) => ViewEffect::CwSearchNextPage,
        (Service::SecretsManager, Action::ServiceEnter) => ViewEffect::SecretsEnter,
        (Service::SecretsManager, Action::ServiceBack) => ViewEffect::Nothing,
        _ => ViewEffect::Update(a),
    }
}

/// What a command typed on the command line asks for.
#[derive(Debug)]
pub enum Command {
    /// The command is still being typed, or was dropped.
    Pending,
    /// `q` or `quit`.
    Quit,
    /// `region NAME`: use another region.
    Region(String),
    /// `profile NAME`: use another profile.
    Profile(String),
    /// Anything else is ignored.
    Unknown,
}

/// The command a line asks for: `q` or `quit` (after trimming), `region `
/// or `profile ` followed by a name that is not blank once trimmed.
pub open spec fn parse_command(line: Seq<char>) -> (int, Seq<char>) {
    let cmd = trimmed(line);
    if cmd == "q"@ || cmd == "quit"@ {
        (1, Seq::empty())
    } else if cmd.len() >= 7 && cmd.take(7) == "region "@ && trimmed(cmd.skip(7)).len() > 0 {
        (2, trimmed(cmd.skip(7)))
    } else if cmd.len() >= 8 && cmd.take(8) == "profile "@ && trimmed(cmd.skip(8)).len() > 0 {
        (3, trimmed(cmd.skip(8)))
    } else {
        (0, Seq::empty())
    }
}

/// The kind and argument of a command (see `parse_command`).
pub open spec fn command_view(c: Command) -> (int, Seq<char>) {
    match c {
        Command::Quit => (1, Seq::empty()),
        Command::Region(r) => (2, r@),
        Command::Profile(p) => (3, p@),
        _ => (0, Seq::empty()),
    }
}

/// Reads a command line (see `parse_command`).
pub fn read_command(line: &str) -> (c: Command)
    ensures
        !(c is Pending),
        command_view(c) == parse_command(line@),
        (c is Unknown) == (parse_command(line@).0 == 0),
{
    let trimmed_line = trim_str(line);
    let cmd = trimmed_line.as_str();
    let chars = crate::text::chars_of(cmd);
    proof {
        reveal_strlit("q");
        reveal_strlit("quit");
        reveal_strlit("region ");
        reveal_strlit("profile ");
    }
    if str_eq(cmd, "q") || str_eq(cmd, "quit") {
        return Command::Quit;
    }
    proof {
        assert(cmd@.len() >= 7 ==> cmd@.take(7) =~= cmd@.subrange(0, 7));
        assert(cmd@.len() >= 8 ==> cmd@.take(8) =~= cmd@.subrange(0, 8));
        if cmd@.len() >= 7 && cmd@.take(7) == "region "@ {
            assert(cmd@.len() < 8 || cmd@.take(8) != "profile "@) by {
                if cmd@.len() >= 8 && cmd@.take(8) == "profile "@ {
                    assert(cmd@.take(7)[0] == cmd@[0]);
                    assert(cmd@.take(8)[0] == cmd@[0]);
                    assert("region "@[0] == 'r');
                    assert("profile "@[0] == 'p');
                }
            }
        }
    }
    if crate::text::str_starts_with(cmd, "region ") {
        let rest = crate::text::string_from_chars(&crate::text::sub_chars(&chars, 7, chars.len()));
        proof {
            assert(rest@ =~= cmd@.skip(7));
            assert(cmd@.take(7) =~= cmd@.subrange(0, 7));
        }
        let trimmed_rest = trim_str(rest.as_str());
        let name = trimmed_rest.as_str();
        if !name.is_empty() {
            return Command::Region(owned(name));
        }
    }
    if crate::text::str_starts_with(cmd, "profile ") {
        let rest = crate::text::string_from_chars(&crate::text::sub_chars(&chars, 8, chars.len()));
        proof {
            assert(rest@ =~= cmd@.skip(8));
            assert(cmd@.take(8) =~= cmd@.subrange(0, 8));
        }
        let trimmed_rest = trim_str(rest.as_str());
        let name = trimmed_rest.as_str();
        if !name.is_empty() {
            return Command::Profile(owned(name));
        }
    }
    Command::Unknown
}

impl App {
    /// A key on the command line: Esc drops the command, Enter runs it
    /// (back to normal mode either way), Backspace deletes a character (or
    /// leaves the command line when it is empty), a character is typed.
    /// `q` quits here; a new region or profile replaces the old one and
    /// every view starts afresh (the connection is the application's to
    /// make).
    pub fn command_key(&mut self, key: &KeyEvent) -> (c: Command)
        ensures
            key.code == KeyCode::Enter ==> command_view(c) == parse_command(old(self).command_input@)
                && final(self).mode == Mode::Normal && final(self).command_input@.len() == 0
                && final(self).running == (old(self).running && !(c is Quit))
                && (c is Region ==> final(self).region@ == command_view(c).1)
                && (c is Profile ==> final(self).profile@ == command_view(c).1),
            key.code != KeyCode::Enter ==> c is Pending && final(self).running == old(self).running
                && final(self).region == old(self).region && final(self).profile == old(self).profile,
            key.code == KeyCode::Esc ==> final(self).mode == Mode::Normal && final(self).command_input@.len() == 0,
            key.code == KeyCode::Backspace ==> (if old(self).command_input@.len() == 0 {
                final(self).mode == Mode::Normal && final(self).command_input@.len() == 0
            } else {
                final(self).mode == old(self).mode && final(self).command_input@
                    == old(self).command_input@.drop_last()
            }),
            forall|ch: char| key.code == KeyCode::Char(ch) ==> final(self).mode == old(self).mode
                && final(self).command_input@ == old(self).command_input@.push(ch),
            !(key.code is Esc || key.code is Enter || key.code is Backspace || key.code is Char)
                ==> final(self).mode == old(self).mode && final(self).command_input == old(self).command_input,
    {
        match key.code {
            KeyCode::Esc => {
                self.mode = Mode::Normal;
                self.command_input = String::new();
                Command::Pending
            },
            KeyCode::Enter => {
                let c = read_command(self.command_input.as_str());
                self.mode = Mode::Normal;
                self.command_input = String::new();
                match &c {
                    Command::Quit => self.running = false,
                    Command::Region(r) => {
                        self.region = copy_string(r);
                        self.reset_views();
                    },
                    Command::Profile(p) => {
                        self.profile = copy_string(p);
                        self.reset_views();
                    },
                    _ => {},
                }
                c
            },
            KeyCode::Backspace => {
                if self.command_input.as_str().is_empty() {
                    self.mode = Mode::Normal;
                } else {
                    pop_char(&mut self.command_input);
                }
                Command::Pending
            },
            KeyCode::Char(ch) => {
                push_char(&mut self.command_input, ch);
                Command::Pending
            },
            _ => Command::Pending,
        }
    }

    /// Every view starts afresh.
    pub fn reset_views(&mut self)
        ensures
            final(self).state() == old(self).state(),
            final(self).sidebar == old(self).sidebar,
            final(self).available_profiles == old(self).available_profiles,
            crate::ui::services::dynamodb::is_initial(final(self).dynamodb_view.state()),
            crate::ui::services::cloudwatch::is_initial(final(self).cloudwatch_view.state()),
    {
        self.s3_view = S3View::default();
        self.dynamodb_view = DynamoDbView::default();
        self.lambda_view = LambdaView::default();
        self.cloudwatch_view = CloudWatchView::default();
        self.secrets_view = SecretsManagerView::default();
    }

    /// A key on the help: Esc or `?` close it, `j`/`k` (or the arrows)
    /// scroll it.
    pub fn help_key(&mut self, key: &KeyEvent)
        ensures
            final(self).available_profiles == old(self).available_profiles,
            final(self).sidebar == old(self).sidebar,
            final(self).state() == (if key.code == KeyCode::Esc || is_char(*key, '?') {
                update_step(old(self).state(), Action::ToggleHelp, names_of(old(self).available_profiles@), old(self).sidebar_pick())
            } else if is_down(*key) {
                AppState { help_scroll: sat_add_u16(old(self).help_scroll, 1), ..old(self).state() }
            } else if is_up(*key) {
                AppState { help_scroll: sat_sub_u16(old(self).help_scroll, 1), ..old(self).state() }
            } else {
                old(self).state()
            }),
    {
        if key.code == KeyCode::Esc || key.char_is('?') {
            self.update(Action::ToggleHelp);
        } else if key.down() {
            self.help_scroll = crate::nav::scroll_add(self.help_scroll, 1);
        } else if key.up() {
            self.help_scroll = crate::nav::scroll_sub(self.help_scroll, 1);
        }
    }

    /// Whether the view shown has a pop-up open (it takes the global keys
    /// too).
    pub fn overlay_open(&self) -> (r: bool)
        ensures
            r == (match self.active_service {
                Service::DynamoDB => self.dynamodb_view.query_builder_open || self.dynamodb_view.index_picker_open,
                Service::CloudWatch => self.cloudwatch_view.search_popup_open || self.cloudwatch_view.insights_popup_open,
                _ => false,
            }),
    {
        match self.active_service {
            Service::DynamoDB => self.dynamodb_view.has_overlay(),
            Service::CloudWatch => self.cloudwatch_view.has_overlay(),
            _ => false,
        }
    }

    /// Where a key on the main screen goes (see `key_route`).
    pub fn route_key(&self, key: &KeyEvent) -> (r: KeyRoute)
        ensures
            r == key_route(self.mode, self.show_help, self.overlay_open_spec(), self.focus, *key),
    {
        if self.mode == Mode::Command {
            KeyRoute::Command
        } else if self.show_help {
            KeyRoute::Help
        } else {
            let overlay = self.overlay_open();
            let global = global_action(key);
            match global {
                Some(a) => if !overlay {
                    return KeyRoute::Global(a);
                },
                None => {},
            }
            if self.focus == Focus::Main {
                KeyRoute::View
            } else {
                KeyRoute::Normal
            }
        }
    }

    /// Whether the view shown has a pop-up open.
    pub open spec fn overlay_open_spec(self) -> bool {
        match self.active_service {
            Service::DynamoDB => self.dynamodb_view.query_builder_open || self.dynamodb_view.index_picker_open,
            Service::CloudWatch => self.cloudwatch_view.search_popup_open || self.cloudwatch_view.insights_popup_open,
            _ => false,
        }
    }

    /// The action of a key that no view took: in normal mode see
    /// `normal_key`; in the other modes nothing.
    pub fn normal_action(&self, key: &KeyEvent) -> (a: Action)
        ensures
            a == (if self.mode == Mode::Normal { normal_key(*key, self.focus) } else { Action::NoOp }),
    {
        match self.mode {
            Mode::Normal => handle_normal_key(key, self.focus),
            _ => Action::NoOp,
        }
    }
}

/// The region of a connection: the one configured, else `us-east-1`.
pub fn region_or_default(configured: Option<String>) -> (r: String)
    ensures
        r@ == (match configured {
            Some(c) => c@,
            None => "us-east-1"@,
        }),
{
    match configured {
        Some(c) => c,
        None => owned("us-east-1"),
    }
}

} // verus!
