//! The messages that drive the application, the actions it asks the front
//! end to perform, and the application's own handling of each message.
use crate::desktop::state::config::{save_due, with_server, written, ConfigState, ConfigView};
use crate::frontend::config::{credentials_filled, AppConfig, AppConfigView};
use crate::frontend::events::{ClientEvent, ClientEventView};
use crate::frontend::state::audio_manager::create_streams;
use crate::frontend::pages::login::{
    login_step,
    login_valid,
    LoginPage,
    LoginPageMessage,
    LoginPageMessageView,
    LoginView,
};
use crate::frontend::pages::room::{
    clock_text,
    room_step,
    RoomPage,
    RoomPageMessage,
    RoomPageMessageView,
    RoomView,
};
use crate::frontend::pages::settings::{
    groups_distinct,
    settings_step,
    SettingsPage,
    SettingsPageMessage,
    SettingsPageMessageView,
    SettingsView,
};
use crate::frontend::state::voice_client::{
    VoiceCommand as ClientCommand,
    VoiceCommandResult as ClientResult,
    VoiceCommandResultView,
    VoiceCommandView,
};
use vstd::prelude::*;
use vstd::string::{StrSliceExecFns, StringExecFns};

verus! {

/// The port of the management (TCP) service, as text.
pub const MANAGEMENT_PORT: &'static str = "9001";

/// The port of the voice (UDP) service, as text.
pub const VOICE_PORT: &'static str = "9002";

#[derive(Debug, Clone, Copy, Hash, PartialEq, Eq, Structural)]
pub enum PageType {
    Login,
    Room,
    Settings,
}

/// The keys the pages react to.
#[derive(Debug, Clone, Copy, PartialEq, Eq, Structural)]
pub enum Key {
    Escape,
    Other,
}

#[derive(Debug, Clone)]
pub enum VoiceCommand {
    Connect { management_addr: String, voice_addr: String, username: String },
    JoinVoiceChannel,
    LeaveVoiceChannel,
    SendChatMessage(String),
}

#[derive(Debug)]
pub enum VoiceCommandResult {
    /// `Ok((address, username))`
    Connect(Result<(String, String), String>),
    JoinVoiceChannel(Result<(), String>),
    LeaveVoiceChannel(Result<(), String>),
    SendChatMessage(Result<(), String>),
}

#[derive(Debug)]
pub enum Message {
    LoginPage(LoginPageMessage),
    RoomPage(RoomPageMessage),
    SettingsPage(SettingsPageMessage),
    SwitchPage(PageType),
    /// Mute (`true`) or unmute the microphone.
    MuteInput(bool),
    ExecuteVoiceCommand(ClientCommand),
    VoiceCommandResult(ClientResult),
    ServerEventReceived(ClientEvent),
    /// A block of microphone samples arrived; the samples stay with the
    /// front end, which measures their level.
    VoiceInputSamplesReceived,
    KeyPressed(Key),
    PeriodicConfigSave,
    WindowCloseRequested,
}

/// The sounds the application plays.
#[derive(Debug, Clone, Copy, PartialEq, Eq, Structural)]
pub enum Notification {
    JoinVoice,
    LeaveVoice,
    Mute,
    Unmute,
}

impl Notification {
    /// The name the sound is stored under.
    pub fn name(&self) -> (name: &'static str)
        ensures
            *self == Notification::JoinVoice ==> name@ == "join_voice"@,
            *self == Notification::LeaveVoice ==> name@ == "leave_voice"@,
            *self == Notification::Mute ==> name@ == "mute"@,
            *self == Notification::Unmute ==> name@ == "unmute"@,
    {
        match self {
            Notification::JoinVoice => "join_voice",
            Notification::LeaveVoice => "leave_voice",
            Notification::Mute => "mute",
            Notification::Unmute => "unmute",
        }
    }
}

/// What the application asks the front end to do after handling a message.
#[derive(Debug)]
pub enum AppAction {
    /// Run a command on the voice client; its result comes back as a message.
    RunVoiceCommand(ClientCommand),
    /// Feed a message back into the application.
    Dispatch(Message),
    PlayNotification(Notification),
    StartRecording,
    StopRecording,
    CreateOutputStream(u64),
    RemoveOutputStream(u64),
    RemoveAllOutputStreams,
    InitNotificationPlayer,
    MuteInput,
    UnmuteInput,
    /// Tell the server whether the microphone is muted.
    SendMuteState(bool),
    /// Write this configuration to disk.
    SaveConfig(AppConfig),
    CloseWindow,
    ScrollChatToEnd,
    StartInputStream,
    StopInputStream,
    /// Look up this input device and its best stream configuration.
    UseInputDevice(String),
    /// Look up this output device and its best stream configuration.
    UseOutputDevice(String),
}

pub enum MessageView {
    LoginPage(LoginPageMessageView),
    RoomPage(RoomPageMessageView),
    SettingsPage(SettingsPageMessageView),
    SwitchPage(PageType),
    MuteInput(bool),
    ExecuteVoiceCommand(VoiceCommandView),
    VoiceCommandResult(VoiceCommandResultView),
    ServerEventReceived(ClientEventView),
    VoiceInputSamplesReceived,
    KeyPressed(Key),
    PeriodicConfigSave,
    WindowCloseRequested,
}

pub enum AppActionView {
    RunVoiceCommand(VoiceCommandView),
    Dispatch(MessageView),
    PlayNotification(Notification),
    StartRecording,
    StopRecording,
    CreateOutputStream(u64),
    RemoveOutputStream(u64),
    RemoveAllOutputStreams,
    InitNotificationPlayer,
    MuteInput,
    UnmuteInput,
    SendMuteState(bool),
    SaveConfig(AppConfigView),
    CloseWindow,
    ScrollChatToEnd,
    StartInputStream,
    StopInputStream,
    UseInputDevice(Seq<char>),
    UseOutputDevice(Seq<char>),
}

impl View for Message {
    type V = MessageView;

    open spec fn view(&self) -> MessageView {
        match self {
            Message::LoginPage(m) => MessageView::LoginPage(m@),
            Message::RoomPage(m) => MessageView::RoomPage(m@),
            Message::SettingsPage(m) => MessageView::SettingsPage(m@),
            Message::SwitchPage(p) => MessageView::SwitchPage(*p),
            Message::MuteInput(b) => MessageView::MuteInput(*b),
            Message::ExecuteVoiceCommand(c) => MessageView::ExecuteVoiceCommand(c@),
            Message::VoiceCommandResult(r) => MessageView::VoiceCommandResult(r@),
            Message::ServerEventReceived(e) => MessageView::ServerEventReceived(e@),
            Message::VoiceInputSamplesReceived => MessageView::VoiceInputSamplesReceived,
            Message::KeyPressed(k) => MessageView::KeyPressed(*k),
            Message::PeriodicConfigSave => MessageView::PeriodicConfigSave,
            Message::WindowCloseRequested => MessageView::WindowCloseRequested,
        }
    }
}

impl View for AppAction {
    type V = AppActionView;

    open spec fn view(&self) -> AppActionView {
        match self {
            AppAction::RunVoiceCommand(c) => AppActionView::RunVoiceCommand(c@),
            AppAction::Dispatch(m) => AppActionView::Dispatch(m@),
            AppAction::PlayNotification(n) => AppActionView::PlayNotification(*n),
            AppAction::StartRecording => AppActionView::StartRecording,
            AppAction::StopRecording => AppActionView::StopRecording,
            AppAction::CreateOutputStream(u) => AppActionView::CreateOutputStream(*u),
            AppAction::RemoveOutputStream(u) => AppActionView::RemoveOutputStream(*u),
            AppAction::RemoveAllOutputStreams => AppActionView::RemoveAllOutputStreams,
            AppAction::InitNotificationPlayer => AppActionView::InitNotificationPlayer,
            AppAction::MuteInput => AppActionView::MuteInput,
            AppAction::UnmuteInput => AppActionView::UnmuteInput,
            AppAction::SendMuteState(b) => AppActionView::SendMuteState(*b),
            AppAction::SaveConfig(c) => AppActionView::SaveConfig(c@),
            AppAction::CloseWindow => AppActionView::CloseWindow,
            AppAction::ScrollChatToEnd => AppActionView::ScrollChatToEnd,
            AppAction::StartInputStream => AppActionView::StartInputStream,
            AppAction::StopInputStream => AppActionView::StopInputStream,
            AppAction::UseInputDevice(d) => AppActionView::UseInputDevice(d@),
            AppAction::UseOutputDevice(d) => AppActionView::UseOutputDevice(d@),
        }
    }
}

/// The views of a list of actions.
pub open spec fn actions_view(actions: Seq<AppAction>) -> Seq<AppActionView> {
    actions.map_values(|a: AppAction| a@)
}

/// `i` is the position of the first ':' in `s`.
pub open spec fn first_colon_at(s: Seq<char>, i: int) -> bool {
    &&& 0 <= i < s.len()
    &&& s[i] == ':'
    &&& forall|j: int| 0 <= j < i ==> s[j] != ':'
}

/// The host part of an address: the text before its first ':', or all of
/// it when there is none.
pub open spec fn host_part(addr: Seq<char>) -> Seq<char> {
    if exists|i: int| first_colon_at(addr, i) {
        addr.take(choose|i: int| first_colon_at(addr, i))
    } else {
        addr
    }
}

/// The address of a service: the host, ':' and the port.
pub open spec fn service_addr(host: Seq<char>, port: &str) -> Seq<char> {
    host + seq![':'] + port@
}

/// The command that connects to the server at `host` as `username`.
pub open spec fn connect_command(host: Seq<char>, username: Seq<char>) -> VoiceCommandView {
    VoiceCommandView::Connect {
        management_addr: service_addr(host, MANAGEMENT_PORT),
        voice_addr: service_addr(host, VOICE_PORT),
        username,
    }
}

/// The host recorded after connecting is the one the connection was made
/// to: the host part of a service address is the host, when the host holds
/// no ':'.
pub proof fn lemma_host_of_service_addr(host: Seq<char>, port: &str)
    requires
        !host.contains(':'),
    ensures
        host_part(service_addr(host, port)) == host,
{
    let a = service_addr(host, port);
    assert(a[host.len() as int] == ':');
    assert(first_colon_at(a, host.len() as int)) by {
        assert forall|j: int| 0 <= j < host.len() implies a[j] != ':' by {
            assert(a[j] == host[j]);
        }
    }
    let k = choose|k: int| first_colon_at(a, k);
    assert(k == host.len()) by {
        if k < host.len() {
            assert(a[k] == host[k]);
        }
    }
    assert(a.take(host.len() as int) =~= host);
}

/// The host part of an address (see `host_part`).
pub fn server_host(addr: &str) -> (host: String)
    ensures
        host@ == host_part(addr@),
{
    let n = addr.unicode_len();
    let mut i: usize = 0;
    while i < n
        invariant
            n == addr@.len(),
            i <= n,
            forall|j: int| 0 <= j < i ==> addr@[j] != ':',
        decreases n - i,
    {
        if addr.get_char(i) == ':' {
            assert(first_colon_at(addr@, i as int));
            proof {
                let k = choose|k: int| first_colon_at(addr@, k);
                assert(k == i) by {
                    if k < i {
                        assert(addr@[k] != ':');
                    } else if k > i {
                        assert(addr@[i as int] != ':');
                    }
                }
            }
            return addr.substring_char(0, i).to_owned();
        }
        i = i + 1;
    }
    assert(!exists|k: int| first_colon_at(addr@, k));
    addr.to_owned()
}

/// The address of a service at `host` on `port`.
pub fn service_address(host: &str, port: &str) -> (addr: String)
    ensures
        addr@ == service_addr(host@, port),
{
    let with_colon = host.to_owned().concat(":");
    proof {
        reveal_strlit(":");
    }
    with_colon.concat(port)
}

/// The command that connects to the management and voice services of the
/// server at `host` as `username`.
pub fn connect_to(host: &str, username: &str) -> (cmd: ClientCommand)
    ensures
        cmd@ == connect_command(host@, username@),
{
    ClientCommand::Connect {
        management_addr: service_address(host, MANAGEMENT_PORT),
        voice_addr: service_address(host, VOICE_PORT),
        username: username.to_owned(),
    }
}

/// What the application needs to know of the voice client to handle a
/// message: whether this client is in the voice channel, and who is.
pub struct ClientStatus {
    pub in_voice_channel: bool,
    pub users_in_voice: Vec<u64>,
}

/// The state of the application: the page shown, the pages, and the
/// configuration.
pub struct AppView {
    pub current_page: PageType,
    pub login: LoginView,
    pub room: RoomView,
    pub settings: SettingsView,
    pub config: ConfigView,
}

pub struct Application {
    current_page: PageType,
    login: LoginPage,
    room: RoomPage,
    settings: SettingsPage,
    config: ConfigState,
}

impl View for Application {
    type V = AppView;

    closed spec fn view(&self) -> AppView {
        AppView {
            current_page: self.current_page,
            login: self.login@,
            room: self.room@,
            settings: self.settings@,
            config: self.config@,
        }
    }
}

/// The pages' own invariants hold.
pub open spec fn app_valid(v: AppView) -> bool {
    login_valid(v.login) && groups_distinct(v.settings.hover) && groups_distinct(
        v.room.settings.hover,
    )
}

/// What a page asks for when it is shown: the settings page starts the
/// microphone stream of its level meter.
pub open spec fn open_actions(p: PageType) -> Seq<AppActionView> {
    if p == PageType::Settings {
        seq![AppActionView::StartInputStream]
    } else {
        Seq::empty()
    }
}

/// What a page asks for when it is left: the settings page stops the
/// microphone stream of its level meter.
pub open spec fn close_actions(p: PageType) -> Seq<AppActionView> {
    if p == PageType::Settings {
        seq![AppActionView::StopInputStream]
    } else {
        Seq::empty()
    }
}

/// The feedback of a mute switch: muting or unmuting the microphone with
/// its sound, and telling the server.
pub open spec fn mute_actions(muted: bool) -> Seq<AppActionView> {
    if muted {
        seq![
            AppActionView::MuteInput,
            AppActionView::PlayNotification(Notification::Mute),
            AppActionView::SendMuteState(true),
        ]
    } else {
        seq![
            AppActionView::UnmuteInput,
            AppActionView::PlayNotification(Notification::Unmute),
            AppActionView::SendMuteState(false),
        ]
    }
}

/// The application's own handling of a message, before the pages see it:
/// the configuration and page it leads to, and the actions it asks for.
/// `in_voice` and `users` are the voice client's state.
pub open spec fn app_level(v: AppView, m: MessageView, in_voice: bool, users: Seq<u64>) -> (
    ConfigView,
    PageType,
    Seq<AppActionView>,
) {
    match m {
        MessageView::ExecuteVoiceCommand(c) => (
            v.config,
            v.current_page,
            seq![AppActionView::RunVoiceCommand(c)],
        ),
        MessageView::VoiceCommandResult(r) => match r {
            VoiceCommandResultView::Connect(Ok((_, address, username))) => (
                written(v.config, with_server(v.config.config, address, username)),
                v.current_page,
                seq![AppActionView::Dispatch(MessageView::SwitchPage(PageType::Room))],
            ),
            VoiceCommandResultView::JoinVoiceChannel(Ok(())) => (
                v.config,
                v.current_page,
                seq![
                    AppActionView::PlayNotification(Notification::JoinVoice),
                    AppActionView::StartRecording,
                ] + create_streams(users),
            ),
            VoiceCommandResultView::LeaveVoiceChannel(Ok(())) => (
                v.config,
                v.current_page,
                seq![
                    AppActionView::PlayNotification(Notification::LeaveVoice),
                    AppActionView::StopRecording,
                    AppActionView::RemoveAllOutputStreams,
                ],
            ),
            _ => (v.config, v.current_page, Seq::empty()),
        },
        MessageView::ServerEventReceived(ClientEventView::UserJoinedVoice { user_id }) => (
            v.config,
            v.current_page,
            if in_voice {
                seq![
                    AppActionView::PlayNotification(Notification::JoinVoice),
                    AppActionView::CreateOutputStream(user_id),
                ]
            } else {
                Seq::empty()
            },
        ),
        MessageView::ServerEventReceived(ClientEventView::UserLeftVoice { user_id }) => (
            v.config,
            v.current_page,
            if in_voice {
                seq![
                    AppActionView::PlayNotification(Notification::LeaveVoice),
                    AppActionView::RemoveOutputStream(user_id),
                ]
            } else {
                Seq::empty()
            },
        ),
        MessageView::SwitchPage(p) => (
            v.config,
            p,
            close_actions(v.current_page) + open_actions(p),
        ),
        MessageView::SettingsPage(SettingsPageMessageView::SelectInputDevice(id)) => (
            v.config,
            v.current_page,
            seq![AppActionView::UseInputDevice(id)],
        ),
        MessageView::SettingsPage(SettingsPageMessageView::SelectOutputDevice(id)) => (
            v.config,
            v.current_page,
            seq![AppActionView::UseOutputDevice(id)],
        ),
        MessageView::MuteInput(muted) => (v.config, v.current_page, mute_actions(muted)),
        MessageView::PeriodicConfigSave => (save_due(v.config).0, v.current_page, save_due(v.config).1),
        MessageView::WindowCloseRequested => (
            save_due(v.config).0,
            v.current_page,
            save_due(v.config).1.push(AppActionView::CloseWindow),
        ),
        _ => (v.config, v.current_page, Seq::empty()),
    }
}

/// How the application handles a message: its own handling first, then
/// each page's, with the actions in that order.  `time` is the time of day
/// shown beside a chat message that arrives.
pub open spec fn app_step(
    v: AppView,
    m: MessageView,
    in_voice: bool,
    users: Seq<u64>,
    time: Seq<char>,
) -> (AppView, Seq<AppActionView>) {
    let (config, page, own) = app_level(v, m, in_voice, users);
    let (login, login_actions) = login_step(v.login, m);
    let (room, room_actions) = room_step(v.room, m, time);
    let (settings, settings_actions) = settings_step(v.settings, m);
    (
        AppView { current_page: page, login, room, settings, config },
        own + login_actions + room_actions + settings_actions,
    )
}

/// The actions of a new application: the notification sounds are loaded,
/// and a saved server and name are connected to at once.
pub open spec fn startup_actions(c: AppConfigView) -> Seq<AppActionView> {
    seq![AppActionView::InitNotificationPlayer] + if credentials_filled(c.server) {
        seq![
            AppActionView::Dispatch(
                MessageView::ExecuteVoiceCommand(connect_command(c.server.address, c.server.username)),
            ),
        ]
    } else {
        Seq::empty()
    }
}

/// Switching pages shows the page asked for; leaving the settings page stops
/// the microphone stream of its level meter and opening it starts one.
pub proof fn lemma_switch_page(v: AppView, p: PageType, in_voice: bool, users: Seq<u64>)
    ensures
        app_level(v, MessageView::SwitchPage(p), in_voice, users).1 == p,
        app_level(v, MessageView::SwitchPage(p), in_voice, users).2 == close_actions(v.current_page)
            + open_actions(p),
        v.current_page == PageType::Settings && p != PageType::Settings ==> app_level(
            v,
            MessageView::SwitchPage(p),
            in_voice,
            users,
        ).2 == seq![AppActionView::StopInputStream],
        v.current_page != PageType::Settings && p == PageType::Settings ==> app_level(
            v,
            MessageView::SwitchPage(p),
            in_voice,
            users,
        ).2 == seq![AppActionView::StartInputStream],
{
    assert(Seq::<AppActionView>::empty() + seq![AppActionView::StartInputStream] =~= seq![
        AppActionView::StartInputStream,
    ]);
    assert(seq![AppActionView::StopInputStream] + Seq::<AppActionView>::empty() =~= seq![
        AppActionView::StopInputStream,
    ]);
}

/// The actions of the whole application for a voice-membership event of
/// another user.
pub open spec fn member_event_actions(v: AppView, e: ClientEventView, in_voice: bool, users: Seq<u64>, time: Seq<char>) -> Seq<AppActionView> {
    app_step(v, MessageView::ServerEventReceived(e), in_voice, users, time).1
}

/// While this client is in the voice channel, a user joining voice gets a
/// playback stream, announced by the join sound, and a user leaving voice
/// loses theirs, announced by the leave sound; while it is not in the
/// channel, neither event makes or removes a stream.
pub proof fn lemma_voice_members_get_streams(
    v: AppView,
    u: u64,
    users: Seq<u64>,
    time: Seq<char>,
)
    ensures
        member_event_actions(v, ClientEventView::UserJoinedVoice { user_id: u }, true, users, time).contains(
            AppActionView::CreateOutputStream(u),
        ),
        member_event_actions(v, ClientEventView::UserJoinedVoice { user_id: u }, true, users, time).contains(
            AppActionView::PlayNotification(Notification::JoinVoice),
        ),
        member_event_actions(v, ClientEventView::UserLeftVoice { user_id: u }, true, users, time).contains(
            AppActionView::RemoveOutputStream(u),
        ),
        member_event_actions(v, ClientEventView::UserLeftVoice { user_id: u }, true, users, time).contains(
            AppActionView::PlayNotification(Notification::LeaveVoice),
        ),
        !member_event_actions(v, ClientEventView::UserJoinedVoice { user_id: u }, false, users, time).contains(
            AppActionView::CreateOutputStream(u),
        ),
        !member_event_actions(v, ClientEventView::UserLeftVoice { user_id: u }, false, users, time).contains(
            AppActionView::RemoveOutputStream(u),
        ),
{
    let joined = ClientEventView::UserJoinedVoice { user_id: u };
    let left = ClientEventView::UserLeftVoice { user_id: u };
    let a = member_event_actions(v, joined, true, users, time);
    let b = member_event_actions(v, left, true, users, time);
    assert(a[0] == AppActionView::PlayNotification(Notification::JoinVoice));
    assert(a[1] == AppActionView::CreateOutputStream(u));
    assert(b[0] == AppActionView::PlayNotification(Notification::LeaveVoice));
    assert(b[1] == AppActionView::RemoveOutputStream(u));
    assert(member_event_actions(v, joined, false, users, time) =~= Seq::<AppActionView>::empty());
    assert(member_event_actions(v, left, false, users, time) =~= Seq::<AppActionView>::empty());
}

/// Push a playback stream for each of `users`, in order.
fn push_streams_for(actions: &mut Vec<AppAction>, users: &Vec<u64>)
    ensures
        actions_view(final(actions)@) == actions_view(old(actions)@) + create_streams(users@),
{
    let ghost start = actions_view(actions@);
    let mut i: usize = 0;
    assert(actions_view(actions@) =~= start + create_streams(users@.take(0)));
    while i < users.len()
        invariant
            i <= users@.len(),
            actions_view(actions@) == start + create_streams(users@.take(i as int)),
        decreases users.len() - i,
    {
        let ghost before = actions_view(actions@);
        actions.push(AppAction::CreateOutputStream(users[i]));
        assert(actions_view(actions@) =~= before.push(
            AppActionView::CreateOutputStream(users@[i as int]),
        ));
        assert(create_streams(users@.take(i + 1)) =~= create_streams(users@.take(i as int)).push(
            AppActionView::CreateOutputStream(users@[i as int]),
        ));
        assert(actions_view(actions@) =~= start + create_streams(users@.take(i + 1)));
        i = i + 1;
    }
    assert(users@.take(users@.len() as int) =~= users@);
}

/// Append `more` to `actions`.
fn append_actions(actions: &mut Vec<AppAction>, more: Vec<AppAction>)
    ensures
        actions_view(final(actions)@) == actions_view(old(actions)@) + actions_view(more@),
{
    let ghost added = more@;
    let mut more = more;
    actions.append(&mut more);
    assert(actions_view(actions@) =~= actions_view(old(actions)@) + actions_view(added));
}

impl Application {
    /// The application, showing the login page, with `config` as the saved
    /// configuration and `settings` as the settings page; and the actions to
    /// start with.
    pub fn new(config: AppConfig, settings: SettingsPage) -> (r: (Self, Vec<AppAction>))
        requires
            groups_distinct(settings@.hover),
        ensures
            r.0@.current_page == PageType::Login,
            r.0@.config.config == config@,
            !r.0@.config.dirty,
            r.0@.settings == settings@,
            app_valid(r.0@),
            actions_view(r.1@) == startup_actions(config@),
    {
        let mut actions: Vec<AppAction> = Vec::new();
        actions.push(AppAction::InitNotificationPlayer);
        if config.server.is_credentials_filled() {
            let cmd = connect_to(config.server.address.as_str(), config.server.username.as_str());
            actions.push(AppAction::Dispatch(Message::ExecuteVoiceCommand(cmd)));
        }
        assert(actions_view(actions@) =~= startup_actions(config@));
        let login = LoginPage::new(&config);
        let app = Application {
            current_page: PageType::Login,
            login,
            room: RoomPage::new(settings.duplicate()),
            settings,
            config: ConfigState::new(config),
        };
        (app, actions)
    }

    pub fn current_page(&self) -> (p: PageType)
        ensures
            p == self@.current_page,
    {
        self.current_page
    }

    pub fn config(&self) -> (c: &AppConfig)
        ensures
            c@ == self@.config.config,
    {
        self.config.config()
    }

    pub fn room(&self) -> (r: &RoomPage)
        ensures
            r@ == self@.room,
    {
        &self.room
    }

    pub fn login(&self) -> (l: &LoginPage)
        ensures
            l@ == self@.login,
    {
        &self.login
    }

    pub fn settings(&self) -> (s: &SettingsPage)
        ensures
            s@ == self@.settings,
    {
        &self.settings
    }

    /// Writing the configuration to disk failed: it is kept as unsaved.
    pub fn config_save_failed(&mut self)
        ensures
            final(self)@ == (AppView {
                config: ConfigView { dirty: true, ..old(self)@.config },
                ..old(self)@
            }),
    {
        self.config.save_failed();
    }

    /// The selected input device was found: recording restarts on it when
    /// this client is in the voice channel.
    pub fn input_device_ready(&self, client: &ClientStatus) -> (actions: Vec<AppAction>)
        ensures
            actions_view(actions@) == if client.in_voice_channel {
                seq![AppActionView::StopRecording, AppActionView::StartRecording]
            } else {
                Seq::<AppActionView>::empty()
            },
    {
        let mut actions: Vec<AppAction> = Vec::new();
        if client.in_voice_channel {
            actions.push(AppAction::StopRecording);
            actions.push(AppAction::StartRecording);
        }
        assert(actions_view(actions@) =~= if client.in_voice_channel {
            seq![AppActionView::StopRecording, AppActionView::StartRecording]
        } else {
            Seq::<AppActionView>::empty()
        });
        actions
    }

    /// The selected output device was found: the notification sounds move to
    /// it with a sound as feedback, and when this client is in the voice
    /// channel the playback streams are made anew for the users in voice.
    pub fn output_device_ready(&self, client: &ClientStatus) -> (actions: Vec<AppAction>)
        ensures
            actions_view(actions@) == seq![
                AppActionView::InitNotificationPlayer,
                AppActionView::PlayNotification(Notification::Unmute),
            ] + if client.in_voice_channel {
                seq![AppActionView::RemoveAllOutputStreams] + create_streams(client.users_in_voice@)
            } else {
                Seq::<AppActionView>::empty()
            },
    {
        let mut actions: Vec<AppAction> = Vec::new();
        actions.push(AppAction::InitNotificationPlayer);
        actions.push(AppAction::PlayNotification(Notification::Unmute));
        if client.in_voice_channel {
            actions.push(AppAction::RemoveAllOutputStreams);
            push_streams_for(&mut actions, &client.users_in_voice);
        }
        actions
    }

    /// The application's own handling of a message.
    fn handle(&mut self, message: &Message, client: &ClientStatus) -> (actions: Vec<AppAction>)
        ensures
            final(self)@.config == app_level(
                old(self)@,
                message@,
                client.in_voice_channel,
                client.users_in_voice@,
            ).0,
            final(self)@.current_page == app_level(
                old(self)@,
                message@,
                client.in_voice_channel,
                client.users_in_voice@,
            ).1,
            actions_view(actions@) == app_level(
                old(self)@,
                message@,
                client.in_voice_channel,
                client.users_in_voice@,
            ).2,
            final(self)@.login == old(self)@.login,
            final(self)@.room == old(self)@.room,
            final(self)@.settings == old(self)@.settings,
    {
        let mut actions: Vec<AppAction> = Vec::new();
        match message {
            Message::ExecuteVoiceCommand(command) => {
                actions.push(AppAction::RunVoiceCommand(command.duplicate()));
            },
            Message::VoiceCommandResult(result) => match result {
                ClientResult::Connect(Ok((_, address, username))) => {
                    self.config.write_server(address, username);
                    actions.push(AppAction::Dispatch(Message::SwitchPage(PageType::Room)));
                },
                ClientResult::JoinVoiceChannel(Ok(())) => {
                    actions.push(AppAction::PlayNotification(Notification::JoinVoice));
                    actions.push(AppAction::StartRecording);
                    push_streams_for(&mut actions, &client.users_in_voice);
                },
                ClientResult::LeaveVoiceChannel(Ok(())) => {
                    actions.push(AppAction::PlayNotification(Notification::LeaveVoice));
                    actions.push(AppAction::StopRecording);
                    actions.push(AppAction::RemoveAllOutputStreams);
                },
                _ => {},
            },
            Message::ServerEventReceived(ClientEvent::UserJoinedVoice { user_id }) => {
                if client.in_voice_channel {
                    actions.push(AppAction::PlayNotification(Notification::JoinVoice));
                    actions.push(AppAction::CreateOutputStream(*user_id));
                }
            },
            Message::ServerEventReceived(ClientEvent::UserLeftVoice { user_id }) => {
                if client.in_voice_channel {
                    actions.push(AppAction::PlayNotification(Notification::LeaveVoice));
                    actions.push(AppAction::RemoveOutputStream(*user_id));
                }
            },
            Message::SwitchPage(page) => {
                if self.current_page == PageType::Settings {
                    actions.push(AppAction::StopInputStream);
                }
                if *page == PageType::Settings {
                    actions.push(AppAction::StartInputStream);
                }
                self.current_page = *page;
            },
            Message::SettingsPage(SettingsPageMessage::SelectInputDevice(device_id)) => {
                actions.push(AppAction::UseInputDevice(device_id.clone()));
            },
            Message::SettingsPage(SettingsPageMessage::SelectOutputDevice(device_id)) => {
                actions.push(AppAction::UseOutputDevice(device_id.clone()));
            },
            Message::MuteInput(muted) => {
                if *muted {
                    actions.push(AppAction::MuteInput);
                    actions.push(AppAction::PlayNotification(Notification::Mute));
                } else {
                    actions.push(AppAction::UnmuteInput);
                    actions.push(AppAction::PlayNotification(Notification::Unmute));
                }
                actions.push(AppAction::SendMuteState(*muted));
            },
            Message::PeriodicConfigSave => {
                let saved = self.config.save_config_if_dirty();
                append_actions(&mut actions, saved);
            },
            Message::WindowCloseRequested => {
                let saved = self.config.save_config_if_dirty();
                append_actions(&mut actions, saved);
                actions.push(AppAction::CloseWindow);
            },
            _ => {},
        }
        assert(actions_view(actions@) =~= app_level(
            old(self)@,
            message@,
            client.in_voice_channel,
            client.users_in_voice@,
        ).2);
        actions
    }

    /// The application's reaction to a message (see `app_step`): its own
    /// handling, then the pages' and handlers'; `client` is what the voice
    /// client reports.
    pub fn update(&mut self, message: &Message, client: &ClientStatus) -> (actions: Vec<AppAction>)
        requires
            app_valid(old(self)@),
        ensures
            exists|time: Seq<char>|
                clock_text(time) && (final(self)@, actions_view(actions@)) == app_step(
                    old(self)@,
                    message@,
                    client.in_voice_channel,
                    client.users_in_voice@,
                    time,
                ),
            app_valid(final(self)@),
    {
        let mut actions = self.handle(message, client);
        let login_actions = self.login.update(message);
        append_actions(&mut actions, login_actions);
        let room_actions = self.room.update(message);
        let ghost time = choose|time: Seq<char>|
            clock_text(time) && (self.room@, actions_view(room_actions@)) == room_step(
                old(self)@.room,
                message@,
                time,
            );
        append_actions(&mut actions, room_actions);
        let settings_actions = self.settings.update(message);
        append_actions(&mut actions, settings_actions);
        assert((self@, actions_view(actions@)) == app_step(
            old(self)@,
            message@,
            client.in_voice_channel,
            client.users_in_voice@,
            time,
        ));
        actions
    }
}

} // verus!
